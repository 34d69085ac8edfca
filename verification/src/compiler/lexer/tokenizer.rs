//! The tokenizer of Sieve scripts (RFC 5228, section 2): words, tags,
//! numbers with their `K`/`M`/`G` quantifiers, quoted and multi-line
//! strings, comments and punctuation.
//!
//! Its behaviour is stated over a model (`LexModel`) and a transition
//! function (`lex_step`) that reads the script one byte at a time, as the
//! grammar is written; `Tokenizer::next` is proved to return what `lex_next`
//! says of the model.

use crate::compiler::lexer::word::{lookup_word, lookup_words, Word};
use crate::compiler::lexer::{ConstantView, StringConstant, Token, TokenInfo, TokenInfoView, TokenView};
use crate::compiler::{CompileError, CompileErrorView, ErrorKind, ErrorType, Number, NumberView};
use crate::text::{all_digit_chars, decimal_value, eq_ignore_case, is_alpha, is_digit, is_digit_char, lemma_decimal_prefix, utf8_lossy};
use crate::compiler::lexer::word::word_text;
use crate::runtime::variable::{int_text, lemma_decimal_positive, lemma_nat_text, lemma_text_of_decimal, nat_text};
use vstd::string::StringSliceAdditionalSpecFns;
use vstd::prelude::*;

verus! {

/// What a string read so far holds, as far as telling a number from text
/// goes.
#[derive(Debug, Clone, Copy, PartialEq, Eq, Structural)]
pub struct StringType {
    pub maybe_variable: bool,
    pub has_other: bool,
    pub has_digits: bool,
    pub has_dots: bool,
}

/// The state of the tokenizer between two bytes.
#[derive(Debug, Clone, Copy, PartialEq, Eq, Structural)]
pub enum State {
    Idle,
    BracketComment,
    HashComment,
    QuotedString(StringType),
    MultiLine(StringType),
}

/// A fresh string type: nothing seen yet.
pub open spec fn no_string_type() -> StringType {
    StringType { maybe_variable: false, has_other: false, has_digits: false, has_dots: false }
}

/// The tokenizer as seen in contracts.
pub struct LexModel {
    /// The script.
    pub input: Seq<u8>,
    /// Longest string accepted, in bytes (exclusive bound).
    pub max_string_size: usize,
    /// Number of bytes read.
    pub idx: int,
    /// Index of the last byte read (`usize::MAX` before the first).
    pub pos: usize,
    pub line_num: usize,
    pub line_start: usize,
    pub text_line_num: usize,
    pub text_line_pos: usize,
    pub token_line_num: usize,
    pub token_line_pos: usize,
    pub token_is_tag: bool,
    pub last_ch: u8,
    pub state: State,
    /// The word or string being read.
    pub buf: Seq<u8>,
    /// Tokens read ahead, the next one last.
    pub pending: Seq<TokenInfoView>,
}

/// One step of the tokenizer: it reads on, or it hands out a token or an
/// error.
pub enum LexStep {
    Continue(LexModel),
    Emit(LexModel, Result<TokenInfoView, CompileErrorView>),
}

pub open spec fn is_word_byte(ch: u8) -> bool {
    (97 <= ch <= 122) || is_digit(ch) || ch == 95 || ch == 46 || ch == 36
}

/// The bytes of `s`, one character each.
pub open spec fn latin1(s: Seq<u8>) -> Seq<char> {
    Seq::new(s.len(), |i: int| s[i] as char)
}

pub open spec fn all_digits(s: Seq<u8>) -> bool {
    forall|i: int| 0 <= i < s.len() ==> is_digit(#[trigger] s[i])
}

/// The value of a string of decimal digits.
pub open spec fn digits_value(s: Seq<u8>) -> nat
    decreases s.len(),
{
    if s.len() == 0 {
        0
    } else {
        digits_value(s.drop_last()) * 10 + (s.last() - 48) as nat
    }
}

/// `usize`'s parse of a string made of bytes a word may hold: one or more
/// digits whose value fits.
pub open spec fn parse_usize(s: Seq<u8>) -> Option<usize> {
    if s.len() > 0 && all_digits(s) && digits_value(s) <= usize::MAX {
        Some(digits_value(s) as usize)
    } else {
        None
    }
}

/// The quantifier a number may end with: `k`, `m` or `g` (RFC 5228,
/// section 2.4.1).
pub open spec fn quantifier(b: u8) -> nat {
    if b == 107 {
        1024
    } else if b == 109 {
        1048576
    } else if b == 103 {
        1073741824
    } else {
        1
    }
}

/// A word that is neither reserved nor a number.
pub open spec fn unknown_word(buf: Seq<u8>, tag: bool) -> TokenView {
    TokenView::Unknown(if tag { seq![':'] + latin1(buf) } else { latin1(buf) })
}

/// The token a word makes.
#[verifier::opaque]
pub open spec fn word_token(buf: Seq<u8>, tag: bool) -> TokenView {
    match lookup_word(buf) {
        Some(w) => if tag {
            TokenView::Tag(w)
        } else {
            TokenView::Identifier(w)
        },
        None => if buf.len() > 0 && is_digit(buf[0]) {
            let mult = quantifier(buf.last());
            let digits = if mult > 1 && buf.len() > 1 {
                buf.drop_last()
            } else {
                buf
            };
            match parse_usize(digits) {
                Some(n) => TokenView::Number(
                    if n * mult > usize::MAX {
                        usize::MAX
                    } else {
                        (n * mult) as usize
                    },
                ),
                None => unknown_word(buf, tag),
            }
        } else {
            unknown_word(buf, tag)
        },
    }
}

/// The `i64` that `s` is the decimal form of, as `i64` writes it: an
/// optional minus sign, digits without a leading zero, and no minus zero.
pub open spec fn canonical_i64(s: Seq<char>) -> Option<i64> {
    let neg = s.len() > 0 && s[0] == '-';
    let d = if neg {
        s.drop_first()
    } else {
        s
    };
    if d.len() > 0 && all_digit_chars(d) && (
    d.len() == 1 || d[0] != '0') && !(neg && d =~= seq!['0']) {
        let v: int = if neg {
            -(decimal_value(d) as int)
        } else {
            decimal_value(d) as int
        };
        if i64::MIN <= v <= i64::MAX {
            Some(v as i64)
        } else {
            None
        }
    } else {
        None
    }
}

/// A string constant reads as an integer exactly when it is the decimal
/// form that `i64` writes of that integer.
pub proof fn lemma_canonical_i64(s: Seq<char>, n: i64)
    ensures
        canonical_i64(s) == Some(n) <==> int_text(n as int) == s,
{
    if canonical_i64(s) == Some(n) {
        let neg = s.len() > 0 && s[0] == '-';
        let d = if neg {
            s.drop_first()
        } else {
            s
        };
        lemma_text_of_decimal(d);
        if d.len() > 1 {
            lemma_decimal_positive(d);
        } else if d[0] != '0' {
            lemma_decimal_positive(d);
        } else {
            assert(d =~= seq!['0']);
        }
        if neg {
            assert(s =~= seq!['-'] + d);
        }
    }
    if int_text(n as int) == s {
        if n < 0 {
            lemma_nat_text((-n) as nat);
            let d = nat_text((-n) as nat);
            assert(s.drop_first() =~= d);
            assert(s[0] == '-');
            assert(!(d =~= seq!['0']));
        } else {
            lemma_nat_text(n as nat);
            let d = nat_text(n as nat);
            assert(is_digit_char(d[0]));
        }
    }
}

/// The token a string makes. A string of digits, dots and minus signs with
/// one dot is a decimal number to be read by floating point, which this
/// library leaves to its caller.
pub open spec fn string_token(buf: Seq<u8>, st: StringType) -> TokenView {
    if st.maybe_variable {
        TokenView::StringVariable(buf)
    } else {
        let c = utf8_lossy(buf);
        if !st.has_other && st.has_digits {
            if !st.has_dots {
                match canonical_i64(c) {
                    Some(n) => TokenView::StringConstant(ConstantView::Number(NumberView::Integer(n))),
                    None => TokenView::StringConstant(ConstantView::String(c)),
                }
            } else {
                TokenView::StringConstant(ConstantView::Number(NumberView::Decimal(c)))
            }
        } else {
            TokenView::StringConstant(ConstantView::String(c))
        }
    }
}

/// The model once the byte `ch` is read.
pub open spec fn adv(m: LexModel, ch: u8) -> LexModel {
    LexModel { idx: m.idx + 1, pos: m.idx as usize, last_ch: ch, ..m }
}

pub open spec fn push(m: LexModel, ch: u8) -> LexModel {
    if m.buf.len() == 0 {
        LexModel {
            token_line_num: m.line_num,
            token_line_pos: (m.pos - m.line_start) as usize,
            buf: m.buf.push(ch),
            ..m
        }
    } else {
        LexModel { buf: m.buf.push(ch), ..m }
    }
}

pub open spec fn new_line(m: LexModel) -> LexModel {
    LexModel { line_num: (m.line_num + 1) as usize, line_start: m.pos, ..m }
}

pub open spec fn text_start(m: LexModel) -> LexModel {
    LexModel { text_line_num: m.line_num, text_line_pos: (m.pos - m.line_start) as usize, ..m }
}

pub open spec fn reset(m: LexModel) -> LexModel {
    LexModel { buf: Seq::empty(), token_is_tag: false, ..m }
}

pub open spec fn with_state(m: LexModel, s: State) -> LexModel {
    LexModel { state: s, ..m }
}

/// The column of a word: a reserved word read as a tag starts at its colon.
#[verifier::opaque]
pub open spec fn word_line_pos(buf: Seq<u8>, tag: bool, pos: usize) -> usize {
    if lookup_word(buf) is Some && tag {
        (pos - 1) as usize
    } else {
        pos
    }
}

/// The word read so far, if any, as a token; the model once it is taken.
pub open spec fn cur_token(m: LexModel) -> (LexModel, Option<TokenInfoView>) {
    if m.buf.len() == 0 {
        (m, None)
    } else {
        let line_pos = word_line_pos(m.buf, m.token_is_tag, m.token_line_pos);
        (
            LexModel { token_line_pos: line_pos, ..reset(m) },
            Some(
                TokenInfoView {
                    token: word_token(m.buf, m.token_is_tag),
                    line_num: m.token_line_num,
                    line_pos,
                },
            ),
        )
    }
}

/// The punctuation token `t` at the byte just read: the word before it
/// comes first, and `t` is kept for the next call.
pub open spec fn get_token(m: LexModel, t: TokenView) -> (LexModel, TokenInfoView) {
    let next = TokenInfoView { token: t, line_num: m.line_num, line_pos: (m.pos - m.line_start) as usize };
    let (m2, cur) = cur_token(m);
    match cur {
        Some(c) => (LexModel { pending: m2.pending.push(next), ..m2 }, c),
        None => (m2, next),
    }
}

/// The string read so far as a token, or the error for one too long.
pub open spec fn get_string(m: LexModel, st: StringType) -> (LexModel, Result<TokenInfoView, CompileErrorView>) {
    if m.buf.len() < m.max_string_size {
        (
            LexModel { buf: Seq::empty(), ..m },
            Ok(TokenInfoView { token: string_token(m.buf, st), line_num: m.text_line_num, line_pos: m.text_line_pos }),
        )
    } else {
        (m, Err(CompileErrorView { line_num: m.text_line_num, line_pos: m.text_line_pos, kind: ErrorKind::StringTooLong }))
    }
}

pub open spec fn invalid_char(m: LexModel) -> CompileErrorView {
    CompileErrorView {
        line_num: m.line_num,
        line_pos: (m.pos - m.line_start) as usize,
        kind: ErrorKind::InvalidCharacter(m.last_ch),
    }
}

/// Hands out the word read so far, if there is one.
pub open spec fn emit_current(m: LexModel) -> LexStep {
    let (m2, cur) = cur_token(m);
    match cur {
        Some(t) => LexStep::Emit(m2, Ok(t)),
        None => LexStep::Continue(m2),
    }
}

pub open spec fn emit_token(m: LexModel, t: TokenView) -> LexStep {
    let (m2, info) = get_token(m, t);
    LexStep::Emit(m2, Ok(info))
}

/// Reads up to and including the next line feed (after `text:`).
pub open spec fn skip_line(m: LexModel) -> LexModel
    decreases m.input.len() - m.idx,
{
    if m.idx < 0 || m.idx >= m.input.len() {
        m
    } else {
        let ch = m.input[m.idx];
        let m2 = adv(m, ch);
        if ch == 10 {
            reset(new_line(m2))
        } else {
            skip_line(m2)
        }
    }
}

pub open spec fn punctuation(ch: u8) -> Option<TokenView> {
    if ch == 123 {
        Some(TokenView::CurlyOpen)
    } else if ch == 125 {
        Some(TokenView::CurlyClose)
    } else if ch == 59 {
        Some(TokenView::Semicolon)
    } else if ch == 44 {
        Some(TokenView::Comma)
    } else if ch == 91 {
        Some(TokenView::BracketOpen)
    } else if ch == 93 {
        Some(TokenView::BracketClose)
    } else if ch == 40 {
        Some(TokenView::ParenthesisOpen)
    } else if ch == 41 {
        Some(TokenView::ParenthesisClose)
    } else {
        None
    }
}

/// A step outside strings and comments; `m` has read `ch`.
pub open spec fn idle_step(m: LexModel, ch: u8) -> LexStep {
    if is_word_byte(ch) {
        LexStep::Continue(push(m, ch))
    } else if 65 <= ch <= 90 {
        LexStep::Continue(push(m, (ch + 32) as u8))
    } else if ch == 58 {
        if m.buf.len() == 0 && m.idx < m.input.len() && is_alpha(m.input[m.idx]) {
            LexStep::Continue(LexModel { token_is_tag: true, ..m })
        } else if eq_ignore_case(m.buf, seq![116u8, 101, 120, 116]) {
            LexStep::Continue(skip_line(text_start(with_state(m, State::MultiLine(no_string_type())))))
        } else {
            emit_token(m, TokenView::Colon)
        }
    } else if ch == 34 {
        emit_current(text_start(with_state(m, State::QuotedString(no_string_type()))))
    } else if punctuation(ch) is Some {
        emit_token(m, punctuation(ch)->0)
    } else if ch == 47 {
        if m.idx < m.input.len() {
            let c2 = m.input[m.idx];
            let m2 = adv(m, c2);
            if c2 == 42 {
                emit_current(text_start(LexModel { last_ch: 0, state: State::BracketComment, ..m2 }))
            } else {
                LexStep::Emit(m2, Err(invalid_char(m2)))
            }
        } else {
            LexStep::Emit(m, Err(invalid_char(m)))
        }
    } else if ch == 35 {
        emit_current(with_state(m, State::HashComment))
    } else if ch == 10 {
        emit_current(new_line(m))
    } else if ch == 32 || ch == 9 || ch == 13 {
        emit_current(m)
    } else {
        LexStep::Emit(m, Err(invalid_char(m)))
    }
}

/// The byte a backslash escape stands for in a quoted string.
pub open spec fn unescape(ch: u8, last: u8) -> u8 {
    if last == 92 {
        if ch == 110 {
            10
        } else if ch == 114 {
            13
        } else if ch == 116 {
            9
        } else {
            ch
        }
    } else {
        ch
    }
}

pub open spec fn with_digit(st: StringType) -> StringType {
    StringType { has_digits: true, ..st }
}

pub open spec fn with_dot(st: StringType) -> StringType {
    if !st.has_dots {
        StringType { has_dots: true, ..st }
    } else {
        StringType { has_other: true, ..st }
    }
}

pub open spec fn with_other(st: StringType, ch: u8) -> StringType {
    StringType { has_other: st.has_other || ch != 45, ..st }
}

pub open spec fn with_variable(st: StringType) -> StringType {
    StringType { maybe_variable: true, ..st }
}

/// A step inside a quoted string; `m` has read `ch`, after `last`. A
/// backslash escapes the byte after it; an escaped backslash is written
/// once and escapes nothing, so the previous byte is then taken as none.
pub open spec fn quoted_step(m: LexModel, ch: u8, last: u8, st: StringType) -> LexStep {
    if ch == 34 && last != 92 {
        let (m2, r) = get_string(with_state(m, State::Idle), st);
        LexStep::Emit(m2, r)
    } else if ch == 10 {
        LexStep::Continue(
            with_state(push(new_line(m), 10), State::QuotedString(StringType { has_other: true, ..st })),
        )
    } else if ch == 123 && (last == 36 || last == 37) {
        LexStep::Continue(push(with_state(m, State::QuotedString(with_variable(st))), ch))
    } else if ch == 92 {
        if last == 92 {
            LexStep::Continue(push(LexModel { last_ch: 0, ..m }, ch))
        } else {
            LexStep::Continue(m)
        }
    } else if is_digit(ch) {
        LexStep::Continue(push(with_state(m, State::QuotedString(with_digit(st))), ch))
    } else if ch == 46 {
        LexStep::Continue(push(with_state(m, State::QuotedString(with_dot(st))), ch))
    } else {
        let c = unescape(ch, last);
        LexStep::Continue(push(with_state(m, State::QuotedString(with_other(st, c))), c))
    }
}

/// Escapes in a quoted string (RFC 5228): a backslash after a backslash is
/// written once and escapes nothing, so a quote after it ends the string;
/// a quote after a single backslash is written and the string goes on.
pub proof fn lemma_quoted_escapes(m: LexModel, st: StringType)
    ensures
        quoted_step(m, 92, 92, st) matches LexStep::Continue(m2) && m2.last_ch == 0 && m2.buf == m.buf.push(92),
        quoted_step(m, 34, 0, st) is Emit,
        quoted_step(m, 34, 92, st) matches LexStep::Continue(m3) && m3.buf == m.buf.push(34),
        quoted_step(m, 92, 0, st) == LexStep::Continue(m),
{
}

/// The end of a multi-line string: the line with the lone dot is read.
pub open spec fn end_multiline(m: LexModel, st: StringType) -> LexStep {
    let (m2, r) = get_string(with_state(new_line(m), State::Idle), st);
    LexStep::Emit(m2, r)
}

/// A step inside a multi-line string; `m` has read `ch`, after `last`.
pub open spec fn multiline_step(m: LexModel, ch: u8, last: u8, st: StringType) -> LexStep {
    if ch == 46 && last == 10 {
        if m.idx < m.input.len() {
            let c2 = m.input[m.idx];
            let m2 = adv(m, c2);
            if c2 == 13 && m2.idx < m.input.len() && m.input[m2.idx] == 10 {
                end_multiline(adv(m2, 10), st)
            } else if c2 == 10 {
                end_multiline(m2, st)
            } else if c2 == 46 {
                LexStep::Continue(push(m2, 46))
            } else {
                LexStep::Continue(push(push(m2, 46), c2))
            }
        } else {
            LexStep::Continue(m)
        }
    } else if ch == 10 {
        LexStep::Continue(push(new_line(m), 10))
    } else if ch == 123 && (last == 36 || last == 37) {
        LexStep::Continue(push(with_state(m, State::MultiLine(with_variable(st))), ch))
    } else if is_digit(ch) {
        LexStep::Continue(push(with_state(m, State::MultiLine(with_digit(st))), ch))
    } else if ch == 46 {
        LexStep::Continue(push(with_state(m, State::MultiLine(with_dot(st))), ch))
    } else {
        LexStep::Continue(push(with_state(m, State::MultiLine(with_other(st, ch))), ch))
    }
}

/// Reads the next byte of the script (there must be one).
#[verifier::opaque]
pub open spec fn lex_step(m: LexModel) -> LexStep {
    let ch = m.input[m.idx];
    let last = m.last_ch;
    let m1 = adv(m, ch);
    match m.state {
        State::Idle => idle_step(m1, ch),
        State::BracketComment => if ch == 47 && last == 42 {
            LexStep::Continue(with_state(m1, State::Idle))
        } else if ch == 10 {
            LexStep::Continue(new_line(m1))
        } else {
            LexStep::Continue(m1)
        },
        State::HashComment => if ch == 10 {
            LexStep::Continue(new_line(with_state(m1, State::Idle)))
        } else {
            LexStep::Continue(m1)
        },
        State::QuotedString(st) => quoted_step(m1, ch, last, st),
        State::MultiLine(st) => multiline_step(m1, ch, last, st),
    }
}

/// What the end of the script gives: an error inside a comment or a
/// string, nothing elsewhere.
pub open spec fn lex_end(m: LexModel) -> Option<Result<TokenInfoView, CompileErrorView>> {
    let kind = match m.state {
        State::BracketComment => Some(ErrorKind::UnterminatedComment),
        State::QuotedString(_) => Some(ErrorKind::UnterminatedString),
        State::MultiLine(_) => Some(ErrorKind::UnterminatedMultiline),
        _ => None,
    };
    match kind {
        Some(k) => Some(Err(CompileErrorView { line_num: m.text_line_num, line_pos: m.text_line_pos, kind: k })),
        None => None,
    }
}

pub open spec fn step_model(s: LexStep) -> LexModel {
    match s {
        LexStep::Continue(m) => m,
        LexStep::Emit(m, _) => m,
    }
}

/// Reads on until a token or an error is handed out, or the script ends.
pub open spec fn lex_scan(m: LexModel) -> (LexModel, Option<Result<TokenInfoView, CompileErrorView>>)
    decreases m.input.len() - m.idx,
{
    if m.idx < 0 || m.idx >= m.input.len() {
        (m, lex_end(m))
    } else {
        match lex_step(m) {
            LexStep::Continue(m2) => if m.idx < m2.idx <= m.input.len() && m2.input == m.input {
                lex_scan(m2)
            } else {
                (m2, None)
            },
            LexStep::Emit(m2, r) => (m2, Some(r)),
        }
    }
}

/// The next token: one read ahead if there is one, else what reading on
/// gives.
pub open spec fn lex_next(m: LexModel) -> (LexModel, Option<Result<TokenInfoView, CompileErrorView>>) {
    if m.pending.len() > 0 {
        (LexModel { pending: m.pending.drop_last(), ..m }, Some(Ok(m.pending.last())))
    } else {
        lex_scan(m)
    }
}

/// What holds of the tokenizer between calls: positions are consistent, a
/// column is never computed from a line start past the current byte, and a
/// tag's column leaves room for its colon.
pub open spec fn lex_inv(m: LexModel) -> bool {
    &&& lex_inv_core(m)
    &&& !(m.state is Idle) && m.idx < m.input.len() ==> !m.token_is_tag
}

pub open spec fn lex_inv_core(m: LexModel) -> bool {
    &&& 0 <= m.idx <= m.input.len()
    &&& m.input.len() < usize::MAX
    &&& m.pos == (if m.idx == 0 {
        usize::MAX
    } else {
        (m.idx - 1) as usize
    })
    &&& m.line_start <= m.pos
    &&& m.idx == 0 ==> m.line_start == 0
    &&& 1 <= m.line_num <= m.idx + 1
    &&& m.token_is_tag ==> (if m.buf.len() == 0 {
        m.state == State::Idle && m.idx < m.input.len() && is_alpha(m.input[m.idx]) && m.idx > 0
            && m.line_start < m.pos + 1
    } else {
        m.token_line_pos >= 1
    })
}

/// Reading to the end of a line keeps the invariant and never moves back.
pub proof fn lemma_skip_line(m: LexModel)
    requires
        lex_inv_core(m),
        !(m.state is Idle),
    ensures
        lex_inv(skip_line(m)),
        m.idx <= skip_line(m).idx <= m.input.len(),
        skip_line(m).input == m.input,
        skip_line(m).max_string_size == m.max_string_size,
        skip_line(m).pending == m.pending,
        skip_line(m).state == m.state,
        skip_line(m).text_line_num == m.text_line_num,
        skip_line(m).text_line_pos == m.text_line_pos,
    decreases m.input.len() - m.idx,
{
    if m.idx < m.input.len() {
        let ch = m.input[m.idx];
        let m2 = adv(m, ch);
        if ch != 10 {
            lemma_skip_line(m2);
        }
    }
}

/// What holds once a byte `ch` is read, before it is acted upon.
pub open spec fn adv_inv(m: LexModel, ch: u8) -> bool {
    &&& 1 <= m.idx <= m.input.len()
    &&& m.input.len() < usize::MAX
    &&& m.pos == m.idx - 1
    &&& m.line_start <= m.pos
    &&& 1 <= m.line_num <= m.idx
    &&& !(m.state is Idle) ==> !m.token_is_tag
    &&& m.token_is_tag ==> (if m.buf.len() == 0 {
        m.state == State::Idle && is_alpha(ch) && m.line_start < m.pos
    } else {
        m.token_line_pos >= 1
    })
}

/// The facts about a step's result that the tokenizer's contract needs.
pub open spec fn step_ok(m: LexModel, s: LexStep) -> bool {
    &&& lex_inv(step_model(s))
    &&& m.idx <= step_model(s).idx <= m.input.len()
    &&& step_model(s).input == m.input
    &&& step_model(s).max_string_size == m.max_string_size
    &&& s is Continue ==> step_model(s).pending == m.pending
    &&& step_model(s).pending.len() <= m.pending.len() + 1
}

pub proof fn lemma_adv(m: LexModel)
    requires
        lex_inv(m),
        m.idx < m.input.len(),
    ensures
        adv_inv(adv(m, m.input[m.idx]), m.input[m.idx]),
{
}

pub proof fn lemma_cur_token(m: LexModel)
    requires
        m.buf.len() > 0 ==> (m.token_is_tag ==> m.token_line_pos >= 1),
    ensures
        cur_token(m).0.buf.len() == 0 || cur_token(m).0 == m,
        m.buf.len() > 0 ==> !cur_token(m).0.token_is_tag,
        cur_token(m).0.idx == m.idx,
        cur_token(m).0.pos == m.pos,
        cur_token(m).0.line_num == m.line_num,
        cur_token(m).0.line_start == m.line_start,
        cur_token(m).0.input == m.input,
        cur_token(m).0.max_string_size == m.max_string_size,
        cur_token(m).0.pending == m.pending,
        cur_token(m).0.state == m.state,
{
}

pub proof fn lemma_idle_step(m: LexModel, ch: u8)
    requires
        adv_inv(m, ch),
        m.state == State::Idle,
    ensures
        step_ok(m, idle_step(m, ch)),
{
    if is_word_byte(ch) || (65 <= ch <= 90) {
    } else if ch == 58 {
        if m.buf.len() == 0 && m.idx < m.input.len() && is_alpha(m.input[m.idx]) {
        } else if eq_ignore_case(m.buf, seq![116u8, 101, 120, 116]) {
            lemma_skip_line(text_start(with_state(m, State::MultiLine(no_string_type()))));
        } else {
            lemma_cur_token(m);
        }
    } else if ch == 34 {
        lemma_cur_token(text_start(with_state(m, State::QuotedString(no_string_type()))));
    } else if punctuation(ch) is Some {
        lemma_cur_token(m);
    } else if ch == 47 {
        if m.idx < m.input.len() {
            let c2 = m.input[m.idx];
            let m2 = adv(m, c2);
            if c2 == 42 {
                lemma_cur_token(text_start(LexModel { last_ch: 0, state: State::BracketComment, ..m2 }));
            }
        }
    } else if ch == 35 {
        lemma_cur_token(with_state(m, State::HashComment));
    } else if ch == 10 {
        lemma_cur_token(new_line(m));
    } else if ch == 32 || ch == 9 || ch == 13 {
        lemma_cur_token(m);
    }
}

pub proof fn lemma_quoted_step(m: LexModel, ch: u8, last: u8, st: StringType)
    requires
        adv_inv(m, ch),
        m.state == State::QuotedString(st),
    ensures
        step_ok(m, quoted_step(m, ch, last, st)),
{
}

pub proof fn lemma_multiline_step(m: LexModel, ch: u8, last: u8, st: StringType)
    requires
        adv_inv(m, ch),
        m.state == State::MultiLine(st),
    ensures
        step_ok(m, multiline_step(m, ch, last, st)),
{
}

/// One step keeps the invariant, reads at least one byte, and leaves the
/// script, the limit and (unless a token is handed out) the tokens read
/// ahead as they were.
pub proof fn lemma_step(m: LexModel)
    requires
        lex_inv(m),
        m.idx < m.input.len(),
    ensures
        step_ok(m, lex_step(m)),
        m.idx < step_model(lex_step(m)).idx,
{
    reveal(lex_step);
    let ch = m.input[m.idx];
    let m1 = adv(m, ch);
    lemma_adv(m);
    match m.state {
        State::Idle => lemma_idle_step(m1, ch),
        State::QuotedString(st) => lemma_quoted_step(m1, ch, m.last_ch, st),
        State::MultiLine(st) => lemma_multiline_step(m1, ch, m.last_ch, st),
        _ => {},
    }
}

/// A prefix of a string of digits never has a greater value.
pub proof fn lemma_digits_prefix(s: Seq<u8>, i: int)
    requires
        all_digits(s),
        0 <= i <= s.len(),
    ensures
        digits_value(s.subrange(0, i)) <= digits_value(s),
    decreases s.len() - i,
{
    if i == s.len() {
        assert(s.subrange(0, i) =~= s);
    } else {
        lemma_digits_prefix(s, i + 1);
        assert(s.subrange(0, i + 1).drop_last() =~= s.subrange(0, i));
    }
}

/// `usize`'s parse of `s[..end]`.
fn parse_usize_prefix(s: &[u8], end: usize) -> (r: Option<usize>)
    requires
        end <= s@.len(),
    ensures
        r == parse_usize(s@.subrange(0, end as int)),
{
    let ghost t = s@.subrange(0, end as int);
    if end == 0 {
        return None;
    }
    let mut acc: usize = 0;
    let mut i: usize = 0;
    while i < end
        invariant
            end <= s@.len(),
            t == s@.subrange(0, end as int),
            i <= end,
            all_digits(t.subrange(0, i as int)),
            acc == digits_value(t.subrange(0, i as int)),
        decreases end - i,
    {
        let b = s[i];
        if b < 48 || b > 57 {
            assert(!is_digit(t[i as int]));
            return None;
        }
        assert(t.subrange(0, i as int + 1).drop_last() =~= t.subrange(0, i as int));
        let d: usize = (b - 48) as usize;
        match acc.checked_mul(10) {
            Some(x) => match x.checked_add(d) {
                Some(y) => {
                    acc = y;
                },
                None => {
                    proof {
                        if all_digits(t) {
                            lemma_digits_prefix(t, i as int + 1);
                        }
                    }
                    return None;
                },
            },
            None => {
                proof {
                    if all_digits(t) {
                        lemma_digits_prefix(t, i as int + 1);
                    }
                }
                return None;
            },
        }
        i += 1;
        assert(all_digits(t.subrange(0, i as int)));
    }
    assert(t.subrange(0, end as int) =~= t);
    Some(acc)
}

/// The bytes of `s`, one character each, after `prefix`.
pub fn latin1_string(prefix: String, s: &[u8]) -> (r: String)
    ensures
        r@ == prefix@ + latin1(s@),
{
    let mut r = prefix;
    let ghost p = prefix@;
    let mut i: usize = 0;
    while i < s.len()
        invariant
            i <= s@.len(),
            r@ == p + latin1(s@.subrange(0, i as int)),
        decreases s@.len() - i,
    {
        crate::text::push_char(&mut r, s[i] as char);
        i += 1;
        assert(r@ =~= p + latin1(s@.subrange(0, i as int)));
    }
    assert(s@.subrange(0, s@.len() as int) =~= s@);
    r
}

fn unknown_token(buf: &[u8], tag: bool) -> (r: Token)
    ensures
        r@ == unknown_word(buf@, tag),
{
    let mut prefix = String::new();
    if tag {
        crate::text::push_char(&mut prefix, ':');
    }
    let s = latin1_string(prefix, buf);
    proof {
        if !tag {
            assert(s@ =~= latin1(buf@));
        }
    }
    Token::Unknown(s)
}

/// The token a word makes.
fn word_token_exec(buf: &[u8], tag: bool) -> (r: Token)
    ensures
        r@ == word_token(buf@, tag),
{
    proof {
        reveal(word_token);
    }
    match lookup_words(buf) {
        Some(w) => if tag {
            Token::Tag(w)
        } else {
            Token::Identifier(w)
        },
        None => {
            if buf.len() > 0 && buf[0] >= 48 && buf[0] <= 57 {
                let last = buf[buf.len() - 1];
                let mult: usize = if last == 107 {
                    1024
                } else if last == 109 {
                    1048576
                } else if last == 103 {
                    1073741824
                } else {
                    1
                };
                let end = if mult > 1 && buf.len() > 1 {
                    buf.len() - 1
                } else {
                    buf.len()
                };
                proof {
                    if mult > 1 && buf@.len() > 1 {
                        assert(buf@.drop_last() =~= buf@.subrange(0, end as int));
                    } else {
                        assert(buf@ =~= buf@.subrange(0, end as int));
                    }
                }
                match parse_usize_prefix(buf, end) {
                    Some(n) => Token::Number(
                        match n.checked_mul(mult) {
                            Some(v) => v,
                            None => usize::MAX,
                        },
                    ),
                    None => unknown_token(buf, tag),
                }
            } else {
                unknown_token(buf, tag)
            }
        },
    }
}

/// The `i64` that `s` is the decimal form of (see `canonical_i64`).
pub fn canonical_i64_exec(s: &str) -> (r: Option<i64>)
    ensures
        r == canonical_i64(s@),
{
    let c = crate::text::str_chars(s);
    let n = c.len();
    if n == 0 {
        return None;
    }
    let neg = c[0] == '-';
    let start: usize = if neg {
        1
    } else {
        0
    };
    let ghost d = if neg {
        s@.drop_first()
    } else {
        s@
    };
    assert(d =~= s@.subrange(start as int, n as int));
    if start >= n {
        return None;
    }
    if n - start > 1 && c[start] == '0' {
        return None;
    }
    if neg && n - start == 1 && c[start] == '0' {
        assert(d =~= seq!['0']);
        return None;
    }
    let mut acc: u64 = 0;
    let mut i: usize = start;
    while i < n
        invariant
            c@ == s@,
            n == c@.len(),
            start <= i <= n,
            d == s@.subrange(start as int, n as int),
            d == (if s@.len() > 0 && s@[0] == '-' {
                s@.drop_first()
            } else {
                s@
            }),
            forall|j: int| 0 <= j < i - start ==> is_digit_char(#[trigger] d[j]),
            acc == decimal_value(d.subrange(0, i - start)),
            acc <= 9223372036854775808u64,
        decreases n - i,
    {
        let ch = c[i];
        if ch < '0' || ch > '9' {
            assert(!is_digit_char(d[i - start]));
            assert(!all_digit_chars(d));
            assert(canonical_i64(s@) is None);
            return None;
        }
        assert(d.subrange(0, i - start + 1).drop_last() =~= d.subrange(0, i - start));
        let digit: u64 = (ch as u32 - 48) as u64;
        if acc > 922337203685477580u64 || acc * 10 + digit > 9223372036854775808u64 {
            proof {
                if all_digit_chars(d) {
                    lemma_decimal_prefix(d, i - start + 1);
                    assert(decimal_value(d) > 9223372036854775808u64);
                }
                assert(canonical_i64(s@) is None);
            }
            return None;
        }
        acc = acc * 10 + digit;
        i += 1;
    }
    assert(d.subrange(0, n - start) =~= d);
    if neg {
        if acc == 9223372036854775808u64 {
            Some(i64::MIN)
        } else {
            Some(-(acc as i64))
        }
    } else {
        if acc <= 9223372036854775807u64 {
            Some(acc as i64)
        } else {
            None
        }
    }
}

/// The token a string makes.
fn string_token_exec(buf: Vec<u8>, st: StringType) -> (r: Token)
    ensures
        r@ == string_token(buf@, st),
{
    if st.maybe_variable {
        Token::StringVariable(buf)
    } else {
        let c = crate::text::string_from_utf8_lossy(buf.as_slice());
        if !st.has_other && st.has_digits {
            if !st.has_dots {
                match canonical_i64_exec(c.as_str()) {
                    Some(n) => Token::StringConstant(StringConstant::Number(Number::Integer(n))),
                    None => Token::StringConstant(StringConstant::String(c)),
                }
            } else {
                Token::StringConstant(StringConstant::Number(Number::Decimal(c)))
            }
        } else {
            Token::StringConstant(StringConstant::String(c))
        }
    }
}

/// The tokenizer of a script.
pub struct Tokenizer<'x> {
    bytes: &'x [u8],
    idx: usize,
    max_string_size: usize,
    buf: Vec<u8>,
    next_token: Vec<TokenInfo>,
    pos: usize,
    line_num: usize,
    line_start: usize,
    text_line_num: usize,
    text_line_pos: usize,
    token_line_num: usize,
    token_line_pos: usize,
    token_is_tag: bool,
    last_ch: u8,
    state: State,
}

impl<'x> View for Tokenizer<'x> {
    type V = LexModel;

    closed spec fn view(&self) -> LexModel {
        LexModel {
            input: self.bytes@,
            max_string_size: self.max_string_size,
            idx: self.idx as int,
            pos: self.pos,
            line_num: self.line_num,
            line_start: self.line_start,
            text_line_num: self.text_line_num,
            text_line_pos: self.text_line_pos,
            token_line_num: self.token_line_num,
            token_line_pos: self.token_line_pos,
            token_is_tag: self.token_is_tag,
            last_ch: self.last_ch,
            state: self.state,
            buf: self.buf@,
            pending: self.next_token@.map_values(|t: TokenInfo| t@),
        }
    }
}

pub open spec fn res_view(r: Result<TokenInfo, CompileError>) -> Result<TokenInfoView, CompileErrorView> {
    match r {
        Ok(t) => Ok(t@),
        Err(e) => Err(e@),
    }
}

pub open spec fn opt_res_view(r: Option<Result<TokenInfo, CompileError>>) -> Option<
    Result<TokenInfoView, CompileErrorView>,
> {
    match r {
        Some(x) => Some(res_view(x)),
        None => None,
    }
}

pub open spec fn opt_info_view(r: Option<TokenInfo>) -> Option<TokenInfoView> {
    match r {
        Some(x) => Some(x@),
        None => None,
    }
}

/// What an executed step returned and left, against what `s` says.
pub open spec fn step_matches(s: LexStep, m: LexModel, r: Option<Result<TokenInfo, CompileError>>) -> bool {
    match s {
        LexStep::Continue(m2) => r is None && m == m2,
        LexStep::Emit(m2, res) => m == m2 && r is Some && res_view(r->0) == res,
    }
}

/// The model of a tokenizer that has read nothing of `input`.
pub open spec fn lex_start(input: Seq<u8>, max_string_size: usize) -> LexModel {
    LexModel {
        input,
        max_string_size,
        idx: 0,
        pos: usize::MAX,
        line_num: 1,
        line_start: 0,
        text_line_num: 0,
        text_line_pos: 0,
        token_line_num: 0,
        token_line_pos: 0,
        token_is_tag: false,
        last_ch: 0,
        state: State::Idle,
        buf: Seq::empty(),
        pending: Seq::empty(),
    }
}

impl<'x> Tokenizer<'x> {
    /// A tokenizer of `bytes` that accepts strings shorter than the
    /// compiler's limit.
    pub fn new(compiler: &crate::Compiler, bytes: &'x [u8]) -> (r: Tokenizer<'x>)
        requires
            bytes@.len() < usize::MAX,
        ensures
            r@ == lex_start(bytes@, compiler.max_string_size),
            lex_inv(r@),
    {
        let r = Tokenizer {
            bytes,
            idx: 0,
            max_string_size: compiler.max_string_size,
            buf: Vec::new(),
            next_token: Vec::new(),
            pos: usize::MAX,
            line_num: 1,
            line_start: 0,
            text_line_num: 0,
            text_line_pos: 0,
            token_line_num: 0,
            token_line_pos: 0,
            token_is_tag: false,
            last_ch: 0,
            state: State::Idle,
        };
        assert(r@.pending =~= Seq::<TokenInfoView>::empty());
        r
    }

    fn advance(&mut self, ch: u8)
        requires
            old(self).idx < old(self).bytes@.len() < usize::MAX,
        ensures
            final(self)@ == adv(old(self)@, ch),
    {
        self.pos = self.idx;
        self.idx = self.idx + 1;
        self.last_ch = ch;
    }

    fn push_byte(&mut self, ch: u8)
        requires
            old(self).line_start <= old(self).pos,
        ensures
            final(self)@ == push(old(self)@, ch),
    {
        if self.buf.len() == 0 {
            self.token_line_num = self.line_num;
            self.token_line_pos = self.pos - self.line_start;
        }
        self.buf.push(ch);
    }

    fn new_line(&mut self)
        requires
            old(self).line_num < usize::MAX,
        ensures
            final(self)@ == new_line(old(self)@),
    {
        self.line_num = self.line_num + 1;
        self.line_start = self.pos;
    }

    fn text_start(&mut self)
        requires
            old(self).line_start <= old(self).pos,
        ensures
            final(self)@ == text_start(old(self)@),
    {
        self.text_line_num = self.line_num;
        self.text_line_pos = self.pos - self.line_start;
    }

    fn reset_current_token(&mut self)
        ensures
            final(self)@ == reset(old(self)@),
    {
        self.buf.clear();
        self.token_is_tag = false;
    }

    fn set_state(&mut self, state: State)
        ensures
            final(self)@ == with_state(old(self)@, state),
    {
        self.state = state;
    }

    /// The word read so far, if any, as a token.
    fn get_current_token(&mut self) -> (r: Option<TokenInfo>)
        requires
            old(self)@.buf.len() > 0 && old(self)@.token_is_tag ==> old(self)@.token_line_pos >= 1,
        ensures
            (final(self)@, opt_info_view(r)) == cur_token(old(self)@),
    {
        if self.buf.len() == 0 {
            return None;
        }
        let token = word_token_exec(self.buf.as_slice(), self.token_is_tag);
        proof {
            reveal(word_line_pos);
        }
        if self.token_is_tag {
            if lookup_words(self.buf.as_slice()).is_some() {
                self.token_line_pos = self.token_line_pos - 1;
            }
        }
        self.reset_current_token();
        Some(TokenInfo { token, line_num: self.token_line_num, line_pos: self.token_line_pos })
    }

    /// The punctuation token `token` at the byte just read; the word before
    /// it, if any, comes first.
    fn get_token(&mut self, token: Token) -> (r: TokenInfo)
        requires
            old(self).line_start <= old(self).pos,
            old(self)@.buf.len() > 0 && old(self)@.token_is_tag ==> old(self)@.token_line_pos >= 1,
        ensures
            (final(self)@, r@) == get_token(old(self)@, token@),
    {
        let next_token = TokenInfo { token, line_num: self.line_num, line_pos: self.pos - self.line_start };
        match self.get_current_token() {
            Some(t) => {
                let ghost before = self.next_token@;
                self.next_token.push(next_token);
                assert(self@.pending =~= before.map_values(|t: TokenInfo| t@).push(next_token@));
                t
            },
            None => next_token,
        }
    }

    /// The string read so far as a token, or the error for one too long.
    fn get_string(&mut self, st: StringType) -> (r: Result<TokenInfo, CompileError>)
        ensures
            (final(self)@, res_view(r)) == get_string(old(self)@, st),
    {
        if self.buf.len() < self.max_string_size {
            let mut taken: Vec<u8> = Vec::new();
            std::mem::swap(&mut taken, &mut self.buf);
            let token = string_token_exec(taken, st);
            Ok(TokenInfo { token, line_num: self.text_line_num, line_pos: self.text_line_pos })
        } else {
            Err(CompileError::new(self.text_line_num, self.text_line_pos, ErrorType::StringTooLong))
        }
    }

    /// The error for the byte just read.
    pub fn invalid_character(&self) -> (r: CompileError)
        requires
            lex_inv(self@),
        ensures
            r@ == invalid_char(self@),
    {
        CompileError::new(self.line_num, self.pos - self.line_start, ErrorType::InvalidCharacter(self.last_ch))
    }
    fn emit_current(&mut self) -> (r: Option<Result<TokenInfo, CompileError>>)
        requires
            old(self)@.buf.len() > 0 && old(self)@.token_is_tag ==> old(self)@.token_line_pos >= 1,
        ensures
            step_matches(emit_current(old(self)@), final(self)@, r),
    {
        match self.get_current_token() {
            Some(t) => Some(Ok(t)),
            None => None,
        }
    }

    fn emit_token(&mut self, token: Token) -> (r: Option<Result<TokenInfo, CompileError>>)
        requires
            old(self).line_start <= old(self).pos,
            old(self)@.buf.len() > 0 && old(self)@.token_is_tag ==> old(self)@.token_line_pos >= 1,
        ensures
            step_matches(emit_token(old(self)@, token@), final(self)@, r),
    {
        Some(Ok(self.get_token(token)))
    }

    /// Reads up to and including the next line feed.
    fn skip_line(&mut self)
        requires
            lex_inv_core(old(self)@),
            !(old(self)@.state is Idle),
        ensures
            final(self)@ == skip_line(old(self)@),
    {
        let ghost target = skip_line(self@);
        while self.idx < self.bytes.len()
            invariant
                lex_inv_core(self@),
                !(self@.state is Idle),
                skip_line(self@) == target,
                target == skip_line(old(self)@),
            decreases self@.input.len() - self@.idx,
        {
            let ghost m = self@;
            let ch = self.bytes[self.idx];
            self.advance(ch);
            if ch == 10 {
                self.new_line();
                self.reset_current_token();
                assert(skip_line(m) == reset(new_line(adv(m, ch))));
                return;
            }
            assert(skip_line(m) == skip_line(adv(m, ch)));
        }
    }

    fn idle_step(&mut self, ch: u8) -> (r: Option<Result<TokenInfo, CompileError>>)
        requires
            adv_inv(old(self)@, ch),
            old(self)@.state == State::Idle,
        ensures
            step_matches(idle_step(old(self)@, ch), final(self)@, r),
    {
        if (ch >= 97 && ch <= 122) || (ch >= 48 && ch <= 57) || ch == 95 || ch == 46 || ch == 36 {
            self.push_byte(ch);
            None
        } else if ch >= 65 && ch <= 90 {
            self.push_byte(ch + 32);
            None
        } else if ch == 58 {
            let text: [u8; 4] = [116, 101, 120, 116];
            assert(text@ =~= seq![116u8, 101, 120, 116]);
            if self.buf.len() == 0 && self.idx < self.bytes.len() && crate::text::is_alpha_exec(
                self.bytes[self.idx],
            ) {
                self.token_is_tag = true;
                None
            } else if crate::text::bytes_eq_ignore_case(self.buf.as_slice(), &text) {
                self.set_state(State::MultiLine(StringType { maybe_variable: false, has_other: false, has_digits: false, has_dots: false }));
                self.text_start();
                self.skip_line();
                None
            } else {
                self.emit_token(Token::Colon)
            }
        } else if ch == 34 {
            self.set_state(State::QuotedString(StringType { maybe_variable: false, has_other: false, has_digits: false, has_dots: false }));
            self.text_start();
            self.emit_current()
        } else if ch == 123 {
            self.emit_token(Token::CurlyOpen)
        } else if ch == 125 {
            self.emit_token(Token::CurlyClose)
        } else if ch == 59 {
            self.emit_token(Token::Semicolon)
        } else if ch == 44 {
            self.emit_token(Token::Comma)
        } else if ch == 91 {
            self.emit_token(Token::BracketOpen)
        } else if ch == 93 {
            self.emit_token(Token::BracketClose)
        } else if ch == 40 {
            self.emit_token(Token::ParenthesisOpen)
        } else if ch == 41 {
            self.emit_token(Token::ParenthesisClose)
        } else if ch == 47 {
            if self.idx < self.bytes.len() {
                let c2 = self.bytes[self.idx];
                self.advance(c2);
                if c2 == 42 {
                    self.last_ch = 0;
                    self.set_state(State::BracketComment);
                    self.text_start();
                    self.emit_current()
                } else {
                    Some(Err(self.invalid_character_at()))
                }
            } else {
                Some(Err(self.invalid_character_at()))
            }
        } else if ch == 35 {
            self.set_state(State::HashComment);
            self.emit_current()
        } else if ch == 10 {
            self.new_line();
            self.emit_current()
        } else if ch == 32 || ch == 9 || ch == 13 {
            self.emit_current()
        } else {
            Some(Err(self.invalid_character_at()))
        }
    }

    fn invalid_character_at(&self) -> (r: CompileError)
        requires
            self.line_start <= self.pos,
        ensures
            r@ == invalid_char(self@),
    {
        CompileError::new(self.line_num, self.pos - self.line_start, ErrorType::InvalidCharacter(self.last_ch))
    }

    fn quoted_step(&mut self, ch: u8, last: u8, st: StringType) -> (r: Option<Result<TokenInfo, CompileError>>)
        requires
            adv_inv(old(self)@, ch),
            old(self)@.state == State::QuotedString(st),
        ensures
            step_matches(quoted_step(old(self)@, ch, last, st), final(self)@, r),
    {
        if ch == 34 && last != 92 {
            self.set_state(State::Idle);
            Some(self.get_string(st))
        } else if ch == 10 {
            self.new_line();
            self.push_byte(10);
            self.set_state(State::QuotedString(StringType { has_other: true, ..st }));
            None
        } else if ch == 123 && (last == 36 || last == 37) {
            self.set_state(State::QuotedString(StringType { maybe_variable: true, ..st }));
            self.push_byte(ch);
            None
        } else if ch == 92 {
            if last == 92 {
                self.push_byte(ch);
                self.last_ch = 0;
            }
            None
        } else if ch >= 48 && ch <= 57 {
            self.set_state(State::QuotedString(StringType { has_digits: true, ..st }));
            self.push_byte(ch);
            None
        } else if ch == 46 {
            if !st.has_dots {
                self.set_state(State::QuotedString(StringType { has_dots: true, ..st }));
            } else {
                self.set_state(State::QuotedString(StringType { has_other: true, ..st }));
            }
            self.push_byte(ch);
            None
        } else {
            let c = if last == 92 {
                if ch == 110 {
                    10
                } else if ch == 114 {
                    13
                } else if ch == 116 {
                    9
                } else {
                    ch
                }
            } else {
                ch
            };
            self.set_state(State::QuotedString(StringType { has_other: st.has_other || c != 45, ..st }));
            self.push_byte(c);
            None
        }
    }

    fn end_multiline(&mut self, st: StringType) -> (r: Option<Result<TokenInfo, CompileError>>)
        requires
            old(self).line_num < usize::MAX,
        ensures
            step_matches(end_multiline(old(self)@, st), final(self)@, r),
    {
        self.new_line();
        self.set_state(State::Idle);
        Some(self.get_string(st))
    }

    fn multiline_step(&mut self, ch: u8, last: u8, st: StringType) -> (r: Option<Result<TokenInfo, CompileError>>)
        requires
            adv_inv(old(self)@, ch),
            old(self)@.state == State::MultiLine(st),
        ensures
            step_matches(multiline_step(old(self)@, ch, last, st), final(self)@, r),
    {
        if ch == 46 && last == 10 {
            if self.idx < self.bytes.len() {
                let c2 = self.bytes[self.idx];
                self.advance(c2);
                if c2 == 13 && self.idx < self.bytes.len() && self.bytes[self.idx] == 10 {
                    self.advance(10);
                    self.end_multiline(st)
                } else if c2 == 10 {
                    self.end_multiline(st)
                } else if c2 == 46 {
                    self.push_byte(46);
                    None
                } else {
                    self.push_byte(46);
                    self.push_byte(c2);
                    None
                }
            } else {
                None
            }
        } else if ch == 10 {
            self.new_line();
            self.push_byte(10);
            None
        } else if ch == 123 && (last == 36 || last == 37) {
            self.set_state(State::MultiLine(StringType { maybe_variable: true, ..st }));
            self.push_byte(ch);
            None
        } else if ch >= 48 && ch <= 57 {
            self.set_state(State::MultiLine(StringType { has_digits: true, ..st }));
            self.push_byte(ch);
            None
        } else if ch == 46 {
            if !st.has_dots {
                self.set_state(State::MultiLine(StringType { has_dots: true, ..st }));
            } else {
                self.set_state(State::MultiLine(StringType { has_other: true, ..st }));
            }
            self.push_byte(ch);
            None
        } else {
            self.set_state(State::MultiLine(StringType { has_other: st.has_other || ch != 45, ..st }));
            self.push_byte(ch);
            None
        }
    }

    /// Reads one byte and acts on it.
    fn step(&mut self) -> (r: Option<Result<TokenInfo, CompileError>>)
        requires
            lex_inv(old(self)@),
            old(self)@.idx < old(self)@.input.len(),
        ensures
            step_matches(lex_step(old(self)@), final(self)@, r),
    {
        proof {
            reveal(lex_step);
            lemma_adv(self@);
        }
        let last = self.last_ch;
        let ch = self.bytes[self.idx];
        self.advance(ch);
        match self.state {
            State::Idle => self.idle_step(ch),
            State::BracketComment => {
                if ch == 47 && last == 42 {
                    self.set_state(State::Idle);
                } else if ch == 10 {
                    self.new_line();
                }
                None
            },
            State::HashComment => {
                if ch == 10 {
                    self.set_state(State::Idle);
                    self.new_line();
                }
                None
            },
            State::QuotedString(st) => self.quoted_step(ch, last, st),
            State::MultiLine(st) => self.multiline_step(ch, last, st),
        }
    }

    /// The next token, or the error that stops the script, or nothing at
    /// its end.
    pub fn next(&mut self) -> (r: Option<Result<TokenInfo, CompileError>>)
        requires
            lex_inv(old(self)@),
        ensures
            lex_inv(final(self)@),
            final(self)@ == lex_next(old(self)@).0,
            opt_res_view(r) == lex_next(old(self)@).1,
    {
        if self.next_token.len() > 0 {
            let ghost before = self.next_token@;
            let t = self.next_token.pop().unwrap();
            assert(self@.pending =~= old(self)@.pending.drop_last());
            return Some(Ok(t));
        }
        assert(self@.pending.len() == 0);
        let ghost target = lex_scan(self@);
        while self.idx < self.bytes.len()
            invariant
                lex_inv(self@),
                lex_scan(self@) == target,
                target == lex_next(old(self)@),
            decreases self@.input.len() - self@.idx,
        {
            proof {
                lemma_step(self@);
            }
            let ghost m = self@;
            let r = self.step();
            if r.is_some() {
                assert(lex_scan(m) == (self@, opt_res_view(r)));
                return r;
            }
        }
        match self.state {
            State::BracketComment => Some(Err(CompileError::new(self.text_line_num, self.text_line_pos, ErrorType::UnterminatedComment))),
            State::QuotedString(_) => Some(Err(CompileError::new(self.text_line_num, self.text_line_pos, ErrorType::UnterminatedString))),
            State::MultiLine(_) => Some(Err(CompileError::new(self.text_line_num, self.text_line_pos, ErrorType::UnterminatedMultiline))),
            _ => None,
        }
    }
}

/// A measure that every token handed out lowers: twice the bytes left
/// plus the tokens read ahead.
pub open spec fn lex_measure(m: LexModel) -> int {
    2 * (m.input.len() - m.idx) + m.pending.len()
}

/// Reading on never moves back, keeps the invariant, adds at most one
/// token read ahead, and hands out a token only after reading a byte.
pub proof fn lemma_scan(m: LexModel)
    requires
        lex_inv(m),
    ensures
        lex_inv(lex_scan(m).0),
        m.idx <= lex_scan(m).0.idx <= m.input.len(),
        lex_scan(m).0.input == m.input,
        lex_scan(m).0.max_string_size == m.max_string_size,
        lex_scan(m).0.pending.len() <= m.pending.len() + 1,
        lex_scan(m).1 is None ==> lex_scan(m).0.pending == m.pending,
        lex_scan(m).1 matches Some(Ok(_)) ==> lex_measure(lex_scan(m).0) < lex_measure(m),
    decreases m.input.len() - m.idx,
{
    if m.idx < m.input.len() {
        lemma_step(m);
        match lex_step(m) {
            LexStep::Continue(m2) => {
                lemma_scan(m2);
            },
            LexStep::Emit(m2, r) => {},
        }
    }
}

/// Taking the next token keeps the invariant and the script; a token
/// handed out lowers the measure.
pub proof fn lemma_next(m: LexModel)
    requires
        lex_inv(m),
    ensures
        lex_inv(lex_next(m).0),
        lex_next(m).0.input == m.input,
        lex_next(m).0.max_string_size == m.max_string_size,
        lex_next(m).1 matches Some(Ok(_)) ==> lex_measure(lex_next(m).0) < lex_measure(m),
{
    if m.pending.len() == 0 {
        lemma_scan(m);
    }
}

/// The next token, or the error for the end of the script where one was
/// expected.
pub open spec fn lex_unwrap(m: LexModel) -> (LexModel, Result<TokenInfoView, CompileErrorView>) {
    let (m2, r) = lex_next(m);
    match r {
        Some(x) => (m2, x),
        None => (
            m2,
            Err(CompileErrorView { line_num: m2.line_num, line_pos: (m2.pos - m2.line_start) as usize, kind: ErrorKind::UnexpectedEOF }),
        ),
    }
}

pub open spec fn word_chars(w: Word) -> Seq<char> {
    latin1(word_text(w))
}

/// The text of a number constant.
pub open spec fn number_text(n: NumberView) -> Seq<char> {
    match n {
        NumberView::Integer(i) => int_text(i as int),
        NumberView::Decimal(s) => s,
    }
}

/// The text of a string constant.
pub open spec fn constant_text(c: ConstantView) -> Seq<char> {
    match c {
        ConstantView::String(s) => s,
        ConstantView::Number(n) => number_text(n),
    }
}

/// The text of a token, as messages show it.
pub open spec fn token_text(t: TokenView) -> Seq<char> {
    match t {
        TokenView::CurlyOpen => seq!['{'],
        TokenView::CurlyClose => seq!['}'],
        TokenView::BracketOpen => seq!['['],
        TokenView::BracketClose => seq![']'],
        TokenView::ParenthesisOpen => seq!['('],
        TokenView::ParenthesisClose => seq![')'],
        TokenView::Comma => seq![','],
        TokenView::Semicolon => seq![';'],
        TokenView::Colon => seq![':'],
        TokenView::Number(n) => nat_text(n as nat),
        TokenView::Identifier(w) => word_chars(w),
        TokenView::Tag(w) => seq![':'] + word_chars(w),
        TokenView::Unknown(s) => s,
        TokenView::StringVariable(b) => utf8_lossy(b),
        TokenView::StringConstant(c) => constant_text(c),
    }
}

fn single_char(c: char) -> (r: String)
    ensures
        r@ == seq![c],
{
    let mut r = String::new();
    crate::text::push_char(&mut r, c);
    assert(r@ =~= seq![c]);
    r
}

fn word_string(prefix: String, w: Word) -> (r: String)
    ensures
        r@ == prefix@ + word_chars(w),
{
    let s = w.as_str();
    latin1_string(prefix, s.as_bytes())
}

fn number_string(n: &Number) -> (r: String)
    ensures
        r@ == number_text(n@),
{
    match n {
        Number::Integer(i) => crate::runtime::variable::int_to_string(*i),
        Number::Decimal(s) => s.clone(),
    }
}

impl StringConstant {
    /// The text of the constant.
    pub fn to_string(&self) -> (r: String)
        ensures
            r@ == constant_text(self@),
    {
        match self {
            StringConstant::String(s) => s.clone(),
            StringConstant::Number(n) => number_string(n),
        }
    }

    /// The text of the constant.
    pub fn into_string(self) -> (r: String)
        ensures
            r@ == constant_text(self@),
    {
        match self {
            StringConstant::String(s) => s,
            StringConstant::Number(n) => number_string(&n),
        }
    }
}

/// The text of a token, as messages show it.
pub fn token_to_string(t: &Token) -> (r: String)
    ensures
        r@ == token_text(t@),
{
    match t {
        Token::CurlyOpen => single_char('{'),
        Token::CurlyClose => single_char('}'),
        Token::BracketOpen => single_char('['),
        Token::BracketClose => single_char(']'),
        Token::ParenthesisOpen => single_char('('),
        Token::ParenthesisClose => single_char(')'),
        Token::Comma => single_char(','),
        Token::Semicolon => single_char(';'),
        Token::Colon => single_char(':'),
        Token::Number(n) => crate::runtime::variable::u64_to_string(*n as u64),
        Token::Identifier(w) => {
            let r = word_string(String::new(), *w);
            assert(r@ =~= word_chars(*w));
            r
        },
        Token::Tag(w) => word_string(single_char(':'), *w),
        Token::Unknown(s) => s.clone(),
        Token::StringVariable(b) => crate::text::string_from_utf8_lossy(b.as_slice()),
        Token::StringConstant(c) => c.to_string(),
    }
}

impl TokenInfo {
    /// The error for this token where `expected` was expected.
    pub fn expected(self, expected: String) -> (r: CompileError)
        ensures
            r@ == (CompileErrorView {
                line_num: self.line_num,
                line_pos: self.line_pos,
                kind: ErrorKind::UnexpectedToken { expected: expected@, found: token_text(self.token@) },
            }),
    {
        let found = token_to_string(&self.token);
        CompileError::new(self.line_num, self.line_pos, ErrorType::UnexpectedToken { expected, found })
    }

    /// The error for a missing tag `tag` at this token.
    pub fn missing_tag(self, tag: String) -> (r: CompileError)
        ensures
            r@ == (CompileErrorView { line_num: self.line_num, line_pos: self.line_pos, kind: ErrorKind::MissingTag(tag@) }),
    {
        CompileError::new(self.line_num, self.line_pos, ErrorType::MissingTag(tag))
    }

    /// The error `error_type` at this token.
    pub fn custom(self, error_type: ErrorType) -> (r: CompileError)
        ensures
            r@ == (CompileErrorView { line_num: self.line_num, line_pos: self.line_pos, kind: error_type@ }),
    {
        CompileError::new(self.line_num, self.line_pos, error_type)
    }
}

/// The text a message shows for what was expected in place of `t`.
pub open spec fn quoted_token(t: TokenView) -> Seq<char> {
    seq!['\''] + token_text(t) + seq!['\'']
}

/// The text a message shows for an expected string constant.
pub open spec fn constant_string_text() -> Seq<char> {
    seq!['c', 'o', 'n', 's', 't', 'a', 'n', 't', ' ', 's', 't', 'r', 'i', 'n', 'g']
}

/// The text a message shows for an expected number.
pub open spec fn number_word() -> Seq<char> {
    seq!['n', 'u', 'm', 'b', 'e', 'r']
}

/// The text a message shows for an expected number below `max`.
pub open spec fn number_below_text(max: usize) -> Seq<char> {
    seq!['n', 'u', 'm', 'b', 'e', 'r', ' ', 'l', 'o', 'w', 'e', 'r', ' ', 't', 'h', 'a', 'n', ' ']
        + nat_text(max as nat)
}

fn text_of_chars(c: &[char]) -> (r: String)
    ensures
        r@ == c@,
{
    crate::compiler::lexer::string::substring(c, 0, c.len())
}

/// What `expect_static_string` reads after `[`: constants up to `]` (the
/// last one counts), the first of them required.
pub open spec fn static_list(m: LexModel, last: Option<ConstantView>) -> (LexModel, Result<Seq<char>, CompileErrorView>)
    decreases lex_measure(m) when lex_inv(m) && lex_measure(m) >= 0
{
    let (m2, r) = lex_unwrap(m);
    match r {
        Err(e) => (m2, Err(e)),
        Ok(t) => match t.token {
            TokenView::StringConstant(c) => if lex_measure(m2) < lex_measure(m) && lex_inv(m2) {
                static_list(m2, Some(c))
            } else {
                (m2, Err(CompileErrorView { line_num: 0, line_pos: 0, kind: ErrorKind::UnexpectedEOF }))
            },
            TokenView::BracketClose => match last {
                Some(c) => (m2, Ok(constant_text(c))),
                None => (
                    m2,
                    Err(CompileErrorView {
                        line_num: t.line_num,
                        line_pos: t.line_pos,
                        kind: ErrorKind::UnexpectedToken { expected: constant_string_text(), found: token_text(t.token) },
                    }),
                ),
            },
            _ => (
                m2,
                Err(CompileErrorView {
                    line_num: t.line_num,
                    line_pos: t.line_pos,
                    kind: ErrorKind::UnexpectedToken { expected: constant_string_text(), found: token_text(t.token) },
                }),
            ),
        },
    }
}

/// A string constant, alone or in a list `[...]` (the last one counts).
pub open spec fn lex_static_string(m: LexModel) -> (LexModel, Result<Seq<char>, CompileErrorView>) {
    let (m2, r) = lex_unwrap(m);
    match r {
        Err(e) => (m2, Err(e)),
        Ok(t) => match t.token {
            TokenView::StringConstant(c) => (m2, Ok(constant_text(c))),
            TokenView::BracketOpen => static_list(m2, None),
            _ => (
                m2,
                Err(CompileErrorView {
                    line_num: t.line_num,
                    line_pos: t.line_pos,
                    kind: ErrorKind::UnexpectedToken { expected: constant_string_text(), found: token_text(t.token) },
                }),
            ),
        },
    }
}

/// The next token without taking it: it is read ahead and kept.
pub open spec fn lex_peek(m: LexModel) -> (LexModel, Option<Result<TokenInfoView, CompileErrorView>>) {
    if m.pending.len() > 0 {
        (m, Some(Ok(m.pending.last())))
    } else {
        let (m2, r) = lex_scan(m);
        match r {
            Some(Ok(t)) => (LexModel { pending: m2.pending.push(t), ..m2 }, Some(Ok(t))),
            _ => (m2, r),
        }
    }
}

/// Peeking at the next token does not take it: taking a token after
/// peeking gives the token peeked at and leaves the tokenizer as taking it
/// directly would have.
pub proof fn lemma_peek_then_next(m: LexModel)
    requires
        lex_inv(m),
    ensures
        lex_peek(m).1 matches Some(Ok(_)) ==> lex_next(lex_peek(m).0) == lex_next(m),
{
    if m.pending.len() == 0 {
        let (m2, r) = lex_scan(m);
        match r {
            Some(Ok(t)) => {
                let p = LexModel { pending: m2.pending.push(t), ..m2 };
                assert(p.pending.drop_last() =~= m2.pending);
                assert(LexModel { pending: p.pending.drop_last(), ..p } == m2);
            },
            _ => {},
        }
    }
}

impl<'x> Tokenizer<'x> {
    /// The next token without taking it.
    pub fn peek(&mut self) -> (r: Option<Result<&TokenInfo, CompileError>>)
        requires
            lex_inv(old(self)@),
        ensures
            lex_inv(final(self)@),
            final(self)@ == lex_peek(old(self)@).0,
            match lex_peek(old(self)@).1 {
                Some(Ok(t)) => r matches Some(Ok(x)) && x@ == t,
                Some(Err(e)) => r matches Some(Err(x)) && x@ == e,
                None => r is None,
            },
    {
        if self.next_token.len() == 0 {
            proof {
                lemma_next(self@);
            }
            match self.next() {
                Some(Ok(t)) => {
                    let ghost before = self.next_token@;
                    self.next_token.push(t);
                    assert(self@.pending =~= before.map_values(|t: TokenInfo| t@).push(t@));
                },
                Some(Err(e)) => {
                    return Some(Err(e));
                },
                None => {
                    return None;
                },
            }
        }
        let n = self.next_token.len();
        Some(Ok(&self.next_token[n - 1]))
    }

    /// The next token, or the error for the end of the script.
    pub fn unwrap_next(&mut self) -> (r: Result<TokenInfo, CompileError>)
        requires
            lex_inv(old(self)@),
        ensures
            lex_inv(final(self)@),
            (final(self)@, res_view(r)) == lex_unwrap(old(self)@),
    {
        proof {
            lemma_next(self@);
        }
        match self.next() {
            Some(t) => t,
            None => Err(CompileError::new(self.line_num, self.pos - self.line_start, ErrorType::UnexpectedEOF)),
        }
    }

    /// Reads the token `token`, or gives the error for what stands there.
    pub fn expect_token(&mut self, token: Token) -> (r: Result<(), CompileError>)
        requires
            lex_inv(old(self)@),
        ensures
            lex_inv(final(self)@),
            final(self)@ == lex_unwrap(old(self)@).0,
            match lex_unwrap(old(self)@).1 {
                Err(e) => r matches Err(x) && x@ == e,
                Ok(t) => if t.token == token@ {
                    r is Ok
                } else {
                    r matches Err(x) && x@ == (CompileErrorView {
                        line_num: t.line_num,
                        line_pos: t.line_pos,
                        kind: ErrorKind::UnexpectedToken { expected: quoted_token(token@), found: token_text(t.token) },
                    })
                },
            },
    {
        let next_token = match self.unwrap_next() {
            Ok(t) => t,
            Err(e) => {
                return Err(e);
            },
        };
        if crate::compiler::lexer::token_eq(&next_token.token, &token) {
            Ok(())
        } else {
            let mut expected = single_char('\'');
            let text = token_to_string(&token);
            expected = crate::runtime::expression::concat(expected.as_str(), text.as_str());
            expected = crate::runtime::expression::concat(expected.as_str(), single_char('\'').as_str());
            Err(next_token.expected(expected))
        }
    }

    /// Reads a number below `max_value`.
    pub fn expect_number(&mut self, max_value: usize) -> (r: Result<usize, CompileError>)
        requires
            lex_inv(old(self)@),
        ensures
            lex_inv(final(self)@),
            final(self)@ == lex_unwrap(old(self)@).0,
            match lex_unwrap(old(self)@).1 {
                Err(e) => r matches Err(x) && x@ == e,
                Ok(t) => match t.token {
                    TokenView::Number(n) => if n < max_value {
                        r == Ok::<usize, CompileError>(n)
                    } else {
                        r matches Err(x) && x@ == (CompileErrorView {
                            line_num: t.line_num,
                            line_pos: t.line_pos,
                            kind: ErrorKind::UnexpectedToken { expected: number_below_text(max_value), found: token_text(t.token) },
                        })
                    },
                    _ => r matches Err(x) && x@ == (CompileErrorView {
                        line_num: t.line_num,
                        line_pos: t.line_pos,
                        kind: ErrorKind::UnexpectedToken { expected: number_word(), found: token_text(t.token) },
                    }),
                },
            },
    {
        let next_token = match self.unwrap_next() {
            Ok(t) => t,
            Err(e) => {
                return Err(e);
            },
        };
        if let Token::Number(n) = next_token.token {
            if n < max_value {
                Ok(n)
            } else {
                let label = ['n', 'u', 'm', 'b', 'e', 'r', ' ', 'l', 'o', 'w', 'e', 'r', ' ', 't', 'h', 'a', 'n', ' '];
                assert(label@ =~= seq!['n', 'u', 'm', 'b', 'e', 'r', ' ', 'l', 'o', 'w', 'e', 'r', ' ', 't', 'h', 'a', 'n', ' ']);
                let head = text_of_chars(&label);
                let num = crate::runtime::variable::u64_to_string(max_value as u64);
                let expected = crate::runtime::expression::concat(head.as_str(), num.as_str());
                Err(next_token.expected(expected))
            }
        } else {
            let label = ['n', 'u', 'm', 'b', 'e', 'r'];
            assert(label@ =~= number_word());
            Err(next_token.expected(text_of_chars(&label)))
        }
    }

    /// Reads a string constant, alone or in a list `[...]` (the last one
    /// counts).
    pub fn expect_static_string(&mut self) -> (r: Result<String, CompileError>)
        requires
            lex_inv(old(self)@),
        ensures
            lex_inv(final(self)@),
            final(self)@ == lex_static_string(old(self)@).0,
            match lex_static_string(old(self)@).1 {
                Ok(s) => r matches Ok(x) && x@ == s,
                Err(e) => r matches Err(x) && x@ == e,
            },
    {
        let label = ['c', 'o', 'n', 's', 't', 'a', 'n', 't', ' ', 's', 't', 'r', 'i', 'n', 'g'];
        assert(label@ =~= constant_string_text());
        let next_token = match self.unwrap_next() {
            Ok(t) => t,
            Err(e) => {
                return Err(e);
            },
        };
        match next_token.token {
            Token::StringConstant(s) => Ok(s.into_string()),
            Token::BracketOpen => {
                let mut string: Option<StringConstant> = None;
                loop
                    invariant
                        lex_inv(self@),
                        label@ == constant_string_text(),
                        static_list(self@, match string {
                            Some(c) => Some(c@),
                            None => None,
                        }) == lex_static_string(old(self)@),
                    decreases lex_measure(self@),
                {
                    let ghost m = self@;
                    proof {
                        lemma_next(m);
                    }
                    let token_info = match self.unwrap_next() {
                        Ok(t) => t,
                        Err(e) => {
                            return Err(e);
                        },
                    };
                    match token_info.token {
                        Token::StringConstant(s) => {
                            string = Some(s);
                        },
                        Token::BracketClose => {
                            match string {
                                Some(c) => {
                                    return Ok(c.into_string());
                                },
                                None => {
                                    return Err(token_info.expected(text_of_chars(&label)));
                                },
                            }
                        },
                        _ => {
                            return Err(token_info.expected(text_of_chars(&label)));
                        },
                    }
                }
            },
            _ => Err(next_token.expected(text_of_chars(&label))),
        }
    }
}

} // verus!