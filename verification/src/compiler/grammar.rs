//! The grammar items that the lexer, the variable parser and the
//! interpreter's actions name.

use crate::compiler::{VariableType, VariableTypeView};
use vstd::prelude::*;

verus! {

/// A comparator (RFC 4790) a script can ask for.
#[derive(Debug, Clone, PartialEq, Eq, Hash)]
pub enum Comparator {
    Elbonia,
    Octet,
    AsciiCaseMap,
    AsciiNumeric,
    Other(String),
}

/// A capability a script can `require`.
#[derive(Debug, Clone, PartialEq, Eq, Hash)]
pub enum Capability {
    Envelope,
    FileInto,
    EncodedCharacter,
    Comparator(Comparator),
    Other(String),
}

/// A comparator as seen in contracts.
pub enum ComparatorView {
    Elbonia,
    Octet,
    AsciiCaseMap,
    AsciiNumeric,
    Other(Seq<char>),
}

/// A capability as seen in contracts.
pub enum CapabilityView {
    Envelope,
    FileInto,
    EncodedCharacter,
    Comparator(ComparatorView),
    Other(Seq<char>),
}

impl View for Comparator {
    type V = ComparatorView;

    open spec fn view(&self) -> ComparatorView {
        match self {
            Comparator::Elbonia => ComparatorView::Elbonia,
            Comparator::Octet => ComparatorView::Octet,
            Comparator::AsciiCaseMap => ComparatorView::AsciiCaseMap,
            Comparator::AsciiNumeric => ComparatorView::AsciiNumeric,
            Comparator::Other(s) => ComparatorView::Other(s@),
        }
    }
}

impl View for Capability {
    type V = CapabilityView;

    open spec fn view(&self) -> CapabilityView {
        match self {
            Capability::Envelope => CapabilityView::Envelope,
            Capability::FileInto => CapabilityView::FileInto,
            Capability::EncodedCharacter => CapabilityView::EncodedCharacter,
            Capability::Comparator(c) => CapabilityView::Comparator(c@),
            Capability::Other(s) => CapabilityView::Other(s@),
        }
    }
}

/// The part of an address a test or a variable reads.
#[derive(Debug, Clone, Copy, PartialEq, Eq, Structural, Hash)]
pub enum AddressPart {
    LocalPart,
    Domain,
    All,
    User,
    Detail,
    Name,
}

/// Binary operators of expressions.
#[derive(Debug, Clone, Copy, PartialEq, Eq, Structural, Hash)]
pub enum BinaryOperator {
    Add,
    Subtract,
    Multiply,
    Divide,
    And,
    Or,
    Xor,
    Eq,
    Ne,
    Lt,
    Le,
    Gt,
    Ge,
}

/// Unary operators of expressions.
#[derive(Debug, Clone, Copy, PartialEq, Eq, Structural, Hash)]
pub enum UnaryOperator {
    Not,
    Minus,
}

/// A delivery status notification condition (RFC 6009).
#[derive(Debug, Clone, Copy, PartialEq, Eq, Structural, Hash)]
pub enum NotifyItem {
    Success,
    Failure,
    Delay,
}

/// When delivery status notifications are asked for.
#[derive(Debug, Clone, PartialEq, Eq, Hash)]
pub enum Notify {
    Never,
    Items(Vec<NotifyItem>),
    Default,
}

/// What a delivery status notification returns of the message.
#[derive(Debug, Clone, Copy, PartialEq, Eq, Structural, Hash)]
pub enum Ret {
    Full,
    Hdrs,
    Default,
}

/// The by-mode of a deliver-by request (RFC 2852).
#[derive(Debug, Clone, Copy, PartialEq, Eq, Structural, Hash)]
pub enum ByMode {
    Notify,
    Return,
    Default,
}

/// A deliver-by request.
#[derive(Debug, Clone, Copy, PartialEq, Eq, Structural, Hash)]
pub enum ByTime<T> {
    Relative { rlimit: u64, mode: ByMode, trace: bool },
    Absolute { alimit: T, mode: ByMode, trace: bool },
    Unset,
}

/// The modifiers of the `set` command (RFC 5229).
#[derive(Debug, Clone, Copy, PartialEq, Eq, Structural, Hash)]
pub enum Modifier {
    Lower,
    Upper,
    LowerFirst,
    UpperFirst,
    QuoteWildcard,
    QuoteRegex,
    Length,
    EncodeUrl,
}

/// A name in an expression: a variable, or a function registered with
/// the compiler.
#[derive(Debug, PartialEq, Eq)]
pub enum ExprToken {
    Variable(VariableType),
    Function { name: String, id: u32, num_args: u32 },
}

/// A name in an expression as seen in contracts.
pub enum ExprTokenView {
    Variable(VariableTypeView),
    Function { name: Seq<char>, id: u32, num_args: u32 },
}

impl View for ExprToken {
    type V = ExprTokenView;

    open spec fn view(&self) -> ExprTokenView {
        match self {
            ExprToken::Variable(v) => ExprTokenView::Variable(v@),
            ExprToken::Function { name, id, num_args } => ExprTokenView::Function {
                name: name@,
                id: *id,
                num_args: *num_args,
            },
        }
    }
}

} // verus!
