//! The lexical layer of the script compiler: tokens, the tokenizer, the
//! reserved words and the parser of strings with variables and encodings.

pub mod capability;
pub mod string;
pub mod tokenizer;
pub mod word;

use crate::compiler::lexer::word::Word;
use crate::compiler::{Number, NumberView, Value};
use vstd::prelude::*;

verus! {

/// A token of a script.
#[derive(Debug, PartialEq, Eq)]
pub enum Token {
    CurlyOpen,
    CurlyClose,
    BracketOpen,
    BracketClose,
    ParenthesisOpen,
    ParenthesisClose,
    Comma,
    Semicolon,
    StringConstant(StringConstant),
    StringVariable(Vec<u8>),
    Number(usize),
    Identifier(Word),
    Tag(Word),
    Unknown(String),
    Colon,
}

/// A string constant: text, or text that reads as a number.
#[derive(Debug, PartialEq, Eq)]
pub enum StringConstant {
    String(String),
    Number(Number),
}

/// A string constant as seen in contracts.
pub enum ConstantView {
    String(Seq<char>),
    Number(NumberView),
}

/// A token as seen in contracts.
pub enum TokenView {
    CurlyOpen,
    CurlyClose,
    BracketOpen,
    BracketClose,
    ParenthesisOpen,
    ParenthesisClose,
    Comma,
    Semicolon,
    StringConstant(ConstantView),
    StringVariable(Seq<u8>),
    Number(usize),
    Identifier(Word),
    Tag(Word),
    Unknown(Seq<char>),
    Colon,
}

impl View for StringConstant {
    type V = ConstantView;

    open spec fn view(&self) -> ConstantView {
        match self {
            StringConstant::String(s) => ConstantView::String(s@),
            StringConstant::Number(n) => ConstantView::Number(n@),
        }
    }
}

impl View for Token {
    type V = TokenView;

    open spec fn view(&self) -> TokenView {
        match self {
            Token::CurlyOpen => TokenView::CurlyOpen,
            Token::CurlyClose => TokenView::CurlyClose,
            Token::BracketOpen => TokenView::BracketOpen,
            Token::BracketClose => TokenView::BracketClose,
            Token::ParenthesisOpen => TokenView::ParenthesisOpen,
            Token::ParenthesisClose => TokenView::ParenthesisClose,
            Token::Comma => TokenView::Comma,
            Token::Semicolon => TokenView::Semicolon,
            Token::StringConstant(c) => TokenView::StringConstant(c@),
            Token::StringVariable(v) => TokenView::StringVariable(v@),
            Token::Number(n) => TokenView::Number(*n),
            Token::Identifier(w) => TokenView::Identifier(*w),
            Token::Tag(w) => TokenView::Tag(*w),
            Token::Unknown(s) => TokenView::Unknown(s@),
            Token::Colon => TokenView::Colon,
        }
    }
}

/// A token with the line and the column where it starts.
#[derive(Debug)]
pub struct TokenInfo {
    pub token: Token,
    pub line_num: usize,
    pub line_pos: usize,
}

/// A token with its place, as seen in contracts.
pub struct TokenInfoView {
    pub token: TokenView,
    pub line_num: usize,
    pub line_pos: usize,
}

impl View for TokenInfo {
    type V = TokenInfoView;

    open spec fn view(&self) -> TokenInfoView {
        TokenInfoView { token: self.token@, line_num: self.line_num, line_pos: self.line_pos }
    }
}

/// Whether two numbers are the same.
pub fn number_eq(a: &Number, b: &Number) -> (r: bool)
    ensures
        r == (a@ == b@),
{
    match (a, b) {
        (Number::Integer(x), Number::Integer(y)) => *x == *y,
        (Number::Decimal(x), Number::Decimal(y)) => crate::text::str_eq(x.as_str(), y.as_str()),
        _ => false,
    }
}

/// Whether two tokens are the same token.
pub fn token_eq(a: &Token, b: &Token) -> (r: bool)
    ensures
        r == (a@ == b@),
{
    match (a, b) {
        (Token::CurlyOpen, Token::CurlyOpen) => true,
        (Token::CurlyClose, Token::CurlyClose) => true,
        (Token::BracketOpen, Token::BracketOpen) => true,
        (Token::BracketClose, Token::BracketClose) => true,
        (Token::ParenthesisOpen, Token::ParenthesisOpen) => true,
        (Token::ParenthesisClose, Token::ParenthesisClose) => true,
        (Token::Comma, Token::Comma) => true,
        (Token::Semicolon, Token::Semicolon) => true,
        (Token::Colon, Token::Colon) => true,
        (Token::Number(x), Token::Number(y)) => *x == *y,
        (Token::Identifier(x), Token::Identifier(y)) => *x == *y,
        (Token::Tag(x), Token::Tag(y)) => *x == *y,
        (Token::Unknown(x), Token::Unknown(y)) => crate::text::str_eq(x.as_str(), y.as_str()),
        (Token::StringVariable(x), Token::StringVariable(y)) => crate::text::bytes_eq(
            x.as_slice(),
            y.as_slice(),
        ),
        (Token::StringConstant(StringConstant::String(x)), Token::StringConstant(StringConstant::String(y))) => {
            crate::text::str_eq(x.as_str(), y.as_str())
        },
        (Token::StringConstant(StringConstant::Number(x)), Token::StringConstant(StringConstant::Number(y))) => {
            number_eq(x, y)
        },
        _ => false,
    }
}

impl StringConstant {
    /// The constant as a value of a compiled script.
    pub fn into_value(self) -> (r: Value)
        ensures
            match self {
                StringConstant::String(s) => r == Value::Text(s),
                StringConstant::Number(n) => r == Value::Number(n),
            },
    {
        match self {
            StringConstant::String(s) => Value::Text(s),
            StringConstant::Number(n) => Value::Number(n),
        }
    }
}

} // verus!
