//! The interpreter's rules that stand apart from a running message: the
//! values of expressions, the host interface, and the actions' checks.

pub mod actions;
pub mod eval;
pub mod expression;
pub mod handler;
pub mod header_select;
pub mod header_value;
pub mod disposition;
pub mod machine;
pub mod message;
pub mod platform;
pub mod queue;
pub mod store;
pub mod variable;

use crate::compiler::grammar::Capability;
use vstd::prelude::*;

verus! {

/// Why a run stopped.
#[derive(Debug, PartialEq, Eq)]
pub enum RuntimeError {
    TooManyIncludes,
    ScriptNotFound(String),
    InvalidInstruction { name: String, line_num: u32, line_pos: u32 },
    ScriptErrorMessage(String),
    CapabilityNotAllowed(Capability),
    CapabilityNotSupported(String),
    CPULimitReached,
    MemoryLimitReached,
    InvalidBytecode,
    AwaitingInput,
}

/// Why a compiled script could not be stored.
#[derive(Debug, Clone, Copy, PartialEq, Eq, Structural)]
pub enum SerializeError {
    Other,
}

} // verus!
