//! The script compiler: its limits, its errors and the values it produces.

pub mod display;
pub mod grammar;
pub mod lexer;

use crate::compiler::grammar::{AddressPart, Capability, CapabilityView};
use crate::header::HeaderName;
use crate::Envelope;
use vstd::prelude::*;

verus! {

/// A compile error: where it was found and what it is.
#[derive(Debug)]
pub struct CompileError {
    line_num: usize,
    line_pos: usize,
    error_type: ErrorType,
}

/// What went wrong while compiling a script.
#[derive(Debug, Clone, PartialEq, Eq)]
pub enum ErrorType {
    InvalidCharacter(u8),
    InvalidNumber(String),
    InvalidMatchVariable(usize),
    InvalidUnicodeSequence(u32),
    InvalidNamespace(String),
    InvalidRegex(String),
    InvalidExpression(String),
    InvalidUtf8String,
    InvalidHeaderName,
    InvalidArguments,
    InvalidAddress,
    InvalidURI,
    InvalidEnvelope(String),
    UnterminatedString,
    UnterminatedComment,
    UnterminatedMultiline,
    UnterminatedBlock,
    ScriptTooLong,
    StringTooLong,
    VariableTooLong,
    VariableIsLocal(String),
    HeaderTooLong,
    ExpectedConstantString,
    UnexpectedToken { expected: String, found: String },
    UnexpectedEOF,
    TooManyNestedBlocks,
    TooManyNestedTests,
    TooManyNestedForEveryParts,
    TooManyIncludes,
    LabelAlreadyDefined(String),
    LabelUndefined(String),
    BreakOutsideLoop,
    ContinueOutsideLoop,
    UnsupportedComparator(String),
    DuplicatedParameter,
    UndeclaredCapability(Capability),
    MissingTag(String),
}

/// What went wrong while compiling a script, as seen in contracts.
pub enum ErrorKind {
    InvalidCharacter(u8),
    InvalidNumber(Seq<char>),
    InvalidMatchVariable(usize),
    InvalidUnicodeSequence(u32),
    InvalidNamespace(Seq<char>),
    InvalidRegex(Seq<char>),
    InvalidExpression(Seq<char>),
    InvalidUtf8String,
    InvalidHeaderName,
    InvalidArguments,
    InvalidAddress,
    InvalidURI,
    InvalidEnvelope(Seq<char>),
    UnterminatedString,
    UnterminatedComment,
    UnterminatedMultiline,
    UnterminatedBlock,
    ScriptTooLong,
    StringTooLong,
    VariableTooLong,
    VariableIsLocal(Seq<char>),
    HeaderTooLong,
    ExpectedConstantString,
    UnexpectedToken { expected: Seq<char>, found: Seq<char> },
    UnexpectedEOF,
    TooManyNestedBlocks,
    TooManyNestedTests,
    TooManyNestedForEveryParts,
    TooManyIncludes,
    LabelAlreadyDefined(Seq<char>),
    LabelUndefined(Seq<char>),
    BreakOutsideLoop,
    ContinueOutsideLoop,
    UnsupportedComparator(Seq<char>),
    DuplicatedParameter,
    UndeclaredCapability(CapabilityView),
    MissingTag(Seq<char>),
}

impl View for ErrorType {
    type V = ErrorKind;

    open spec fn view(&self) -> ErrorKind {
        match self {
            ErrorType::InvalidCharacter(n) => ErrorKind::InvalidCharacter(*n),
            ErrorType::InvalidNumber(s) => ErrorKind::InvalidNumber(s@),
            ErrorType::InvalidMatchVariable(n) => ErrorKind::InvalidMatchVariable(*n),
            ErrorType::InvalidUnicodeSequence(n) => ErrorKind::InvalidUnicodeSequence(*n),
            ErrorType::InvalidNamespace(s) => ErrorKind::InvalidNamespace(s@),
            ErrorType::InvalidRegex(s) => ErrorKind::InvalidRegex(s@),
            ErrorType::InvalidExpression(s) => ErrorKind::InvalidExpression(s@),
            ErrorType::InvalidUtf8String => ErrorKind::InvalidUtf8String,
            ErrorType::InvalidHeaderName => ErrorKind::InvalidHeaderName,
            ErrorType::InvalidArguments => ErrorKind::InvalidArguments,
            ErrorType::InvalidAddress => ErrorKind::InvalidAddress,
            ErrorType::InvalidURI => ErrorKind::InvalidURI,
            ErrorType::InvalidEnvelope(s) => ErrorKind::InvalidEnvelope(s@),
            ErrorType::UnterminatedString => ErrorKind::UnterminatedString,
            ErrorType::UnterminatedComment => ErrorKind::UnterminatedComment,
            ErrorType::UnterminatedMultiline => ErrorKind::UnterminatedMultiline,
            ErrorType::UnterminatedBlock => ErrorKind::UnterminatedBlock,
            ErrorType::ScriptTooLong => ErrorKind::ScriptTooLong,
            ErrorType::StringTooLong => ErrorKind::StringTooLong,
            ErrorType::VariableTooLong => ErrorKind::VariableTooLong,
            ErrorType::VariableIsLocal(s) => ErrorKind::VariableIsLocal(s@),
            ErrorType::HeaderTooLong => ErrorKind::HeaderTooLong,
            ErrorType::ExpectedConstantString => ErrorKind::ExpectedConstantString,
            ErrorType::UnexpectedToken { expected, found } => ErrorKind::UnexpectedToken {
                expected: expected@,
                found: found@,
            },
            ErrorType::UnexpectedEOF => ErrorKind::UnexpectedEOF,
            ErrorType::TooManyNestedBlocks => ErrorKind::TooManyNestedBlocks,
            ErrorType::TooManyNestedTests => ErrorKind::TooManyNestedTests,
            ErrorType::TooManyNestedForEveryParts => ErrorKind::TooManyNestedForEveryParts,
            ErrorType::TooManyIncludes => ErrorKind::TooManyIncludes,
            ErrorType::LabelAlreadyDefined(s) => ErrorKind::LabelAlreadyDefined(s@),
            ErrorType::LabelUndefined(s) => ErrorKind::LabelUndefined(s@),
            ErrorType::BreakOutsideLoop => ErrorKind::BreakOutsideLoop,
            ErrorType::ContinueOutsideLoop => ErrorKind::ContinueOutsideLoop,
            ErrorType::UnsupportedComparator(s) => ErrorKind::UnsupportedComparator(s@),
            ErrorType::DuplicatedParameter => ErrorKind::DuplicatedParameter,
            ErrorType::UndeclaredCapability(c) => ErrorKind::UndeclaredCapability(c@),
            ErrorType::MissingTag(s) => ErrorKind::MissingTag(s@),
        }
    }
}

/// A compile error as seen in contracts: line, column and kind.
pub struct CompileErrorView {
    pub line_num: usize,
    pub line_pos: usize,
    pub kind: ErrorKind,
}

impl View for CompileError {
    type V = CompileErrorView;

    closed spec fn view(&self) -> CompileErrorView {
        CompileErrorView { line_num: self.line_num, line_pos: self.line_pos, kind: self.error_type@ }
    }
}

impl CompileError {
    /// A compile error at `line_num`, `line_pos`.
    pub fn new(line_num: usize, line_pos: usize, error_type: ErrorType) -> (r: CompileError)
        ensures
            r@ == (CompileErrorView { line_num, line_pos, kind: error_type@ }),
    {
        CompileError { line_num, line_pos, error_type }
    }

    /// The line of the error, counted from one.
    pub fn line_num(&self) -> (r: usize)
        ensures
            r == self@.line_num,
    {
        self.line_num
    }

    /// The column of the error on its line.
    pub fn line_pos(&self) -> (r: usize)
        ensures
            r == self@.line_pos,
    {
        self.line_pos
    }

    /// What the error is.
    pub fn error_type(&self) -> (r: &ErrorType)
        ensures
            r@ == self@.kind,
    {
        &self.error_type
    }
}

/// A number constant of a script. A constant made of digits with a dot is
/// kept as its decimal text: whether it reads as a binary floating-point
/// value is a question about floating point, which this library leaves to
/// its caller.
#[derive(Debug, Clone, PartialEq, Eq)]
pub enum Number {
    Integer(i64),
    Decimal(String),
}

/// A number as seen in contracts.
pub enum NumberView {
    Integer(i64),
    Decimal(Seq<char>),
}

impl View for Number {
    type V = NumberView;

    open spec fn view(&self) -> NumberView {
        match self {
            Number::Integer(n) => NumberView::Integer(*n),
            Number::Decimal(s) => NumberView::Decimal(s@),
        }
    }
}

/// A part of the message body a variable can name.
#[derive(Debug, Clone, Copy, PartialEq, Eq, Structural, Hash)]
pub enum MessagePart {
    TextBody(bool),
    HtmlBody(bool),
    Contents,
    Raw,
}

/// A part of a `Content-Type` header a variable can name.
#[derive(Debug, Clone, PartialEq, Eq, Hash)]
pub enum ContentTypePart {
    Type,
    Subtype,
    Attribute(String),
}

/// A host of a `Received` header.
#[derive(Debug, Clone, Copy, PartialEq, Eq, Structural, Hash)]
pub enum ReceivedHostname {
    Name,
    Ip,
    Any,
}

/// A part of a `Received` header a variable can name.
#[derive(Debug, Clone, Copy, PartialEq, Eq, Structural, Hash)]
pub enum ReceivedPart {
    From(ReceivedHostname),
    FromIp,
    FromIpRev,
    By(ReceivedHostname),
    For,
    With,
    TlsVersion,
    TlsCipher,
    Id,
    Ident,
    Via,
    Date,
    DateRaw,
}

/// The part of a header a variable reads.
#[derive(Debug, Clone, PartialEq, Eq, Hash)]
pub enum HeaderPart {
    Text,
    Date,
    Id,
    Address(AddressPart),
    ContentType(ContentTypePart),
    Received(ReceivedPart),
    Raw,
    RawName,
    Exists,
}

/// A header variable: the names of the headers, the part read and the
/// indexes of the header and of the part (0 for all, negative from the end).
#[derive(Debug, Clone, PartialEq, Eq)]
pub struct HeaderVariable {
    pub name: Vec<HeaderName>,
    pub part: HeaderPart,
    pub index_hdr: i32,
    pub index_part: i32,
}

/// A variable a script can read.
#[derive(Debug, Clone, PartialEq, Eq)]
pub enum VariableType {
    Local(usize),
    Match(usize),
    Global(String),
    Environment(String),
    Envelope(Envelope),
    Header(HeaderVariable),
    Part(MessagePart),
}

/// A value of a compiled script: text, a number, a variable, or a list of
/// these to be joined.
#[derive(Debug, PartialEq, Eq)]
pub enum Value {
    Text(String),
    Number(Number),
    Variable(VariableType),
    List(Vec<Value>),
}

/// A part of a `Content-Type` header as seen in contracts.
pub enum ContentTypePartView {
    Type,
    Subtype,
    Attribute(Seq<char>),
}

/// The part of a header a variable reads, as seen in contracts.
pub enum HeaderPartView {
    Text,
    Date,
    Id,
    Address(AddressPart),
    ContentType(ContentTypePartView),
    Received(ReceivedPart),
    Raw,
    RawName,
    Exists,
}

/// A header variable as seen in contracts.
pub struct HeaderVariableView {
    pub name: Seq<(u8, Seq<char>)>,
    pub part: HeaderPartView,
    pub index_hdr: i32,
    pub index_part: i32,
}

/// A variable as seen in contracts.
pub enum VariableTypeView {
    Local(usize),
    Match(usize),
    Global(Seq<char>),
    Environment(Seq<char>),
    Envelope(Envelope),
    Header(HeaderVariableView),
    Part(MessagePart),
}

/// A value as seen in contracts.
pub enum ValueView {
    Text(Seq<char>),
    Number(NumberView),
    Variable(VariableTypeView),
    List(Seq<ValueView>),
}

impl View for ContentTypePart {
    type V = ContentTypePartView;

    open spec fn view(&self) -> ContentTypePartView {
        match self {
            ContentTypePart::Type => ContentTypePartView::Type,
            ContentTypePart::Subtype => ContentTypePartView::Subtype,
            ContentTypePart::Attribute(s) => ContentTypePartView::Attribute(s@),
        }
    }
}

impl View for HeaderPart {
    type V = HeaderPartView;

    open spec fn view(&self) -> HeaderPartView {
        match self {
            HeaderPart::Text => HeaderPartView::Text,
            HeaderPart::Date => HeaderPartView::Date,
            HeaderPart::Id => HeaderPartView::Id,
            HeaderPart::Address(a) => HeaderPartView::Address(*a),
            HeaderPart::ContentType(c) => HeaderPartView::ContentType(c@),
            HeaderPart::Received(r) => HeaderPartView::Received(*r),
            HeaderPart::Raw => HeaderPartView::Raw,
            HeaderPart::RawName => HeaderPartView::RawName,
            HeaderPart::Exists => HeaderPartView::Exists,
        }
    }
}

impl View for HeaderVariable {
    type V = HeaderVariableView;

    open spec fn view(&self) -> HeaderVariableView {
        HeaderVariableView {
            name: self.name@.map_values(|h: HeaderName| h@),
            part: self.part@,
            index_hdr: self.index_hdr,
            index_part: self.index_part,
        }
    }
}

impl View for VariableType {
    type V = VariableTypeView;

    open spec fn view(&self) -> VariableTypeView {
        match self {
            VariableType::Local(n) => VariableTypeView::Local(*n),
            VariableType::Match(n) => VariableTypeView::Match(*n),
            VariableType::Global(s) => VariableTypeView::Global(s@),
            VariableType::Environment(s) => VariableTypeView::Environment(s@),
            VariableType::Envelope(e) => VariableTypeView::Envelope(*e),
            VariableType::Header(h) => VariableTypeView::Header(h@),
            VariableType::Part(p) => VariableTypeView::Part(*p),
        }
    }
}

/// A value as seen in contracts.
pub open spec fn value_view(v: Value) -> ValueView
    decreases v,
{
    match v {
        Value::Text(s) => ValueView::Text(s@),
        Value::Number(n) => ValueView::Number(n@),
        Value::Variable(x) => ValueView::Variable(x@),
        Value::List(l) => ValueView::List(
            Seq::new(
                l@.len(),
                |i: int|
                    if 0 <= i < l@.len() {
                        value_view(l@[i])
                    } else {
                        ValueView::Text(Seq::empty())
                    },
            ),
        ),
    }
}

/// The view of a list value is the list of the views of its items.
pub proof fn lemma_list_view(l: Vec<Value>)
    ensures
        value_view(Value::List(l)) == ValueView::List(l@.map_values(|v: Value| v@)),
{
    let r = value_view(Value::List(l));
    assert(r->List_0 =~= l@.map_values(|v: Value| v@));
}

impl View for Value {
    type V = ValueView;

    open spec fn view(&self) -> ValueView {
        value_view(*self)
    }
}

} // verus!
