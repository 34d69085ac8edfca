//! What the interpreter hands to its host and gets back: replies, the
//! status of a run, scripts, mailboxes, recipients and actions.

use crate::compiler::grammar::{ByTime, Notify, Ret};
use crate::runtime::variable::Variable;
use crate::runtime::RuntimeError;
use crate::{Envelope, Importance};
use vstd::prelude::*;

verus! {

/// The host's reply to a request: ready, pending, or an error.
#[derive(Debug, PartialEq, Eq)]
pub enum Reply<T> {
    Ready(T),
    Pending,
    Error(RuntimeError),
}

/// Whether a run has finished or waits for the host.
#[derive(Debug, Clone, Copy, PartialEq, Eq, Structural)]
pub enum Status {
    Finished,
    Pending,
}

/// A script named in `include`: a personal or a global one.
#[derive(Debug, Clone, Copy, PartialEq, Eq, Hash)]
pub enum Script<'a> {
    Personal(&'a str),
    Global(&'a str),
}

/// A mailbox named by name or by id.
#[derive(Debug, Clone, Copy, PartialEq, Eq, Hash)]
pub enum Mailbox<'a> {
    Name(&'a str),
    Id(&'a str),
}

/// The recipient of a message the script sends.
#[derive(Debug, PartialEq, Eq)]
pub enum Recipient<'a> {
    Address(&'a str),
    List(&'a str),
    Group(Vec<&'a str>),
}

/// Why a message is sent.
#[derive(Debug, Clone, Copy, PartialEq, Eq, Structural, Hash)]
pub enum MessageSource {
    Redirect,
    Vacation,
    Notification,
}

/// An action for the host to carry out.
#[derive(Debug, PartialEq, Eq)]
pub enum Action<'a> {
    Keep { flags: &'a [&'a str], message_id: usize },
    Discard,
    Reject { extended: bool, reason: &'a str },
    FileInto {
        folder: &'a str,
        flags: &'a [&'a str],
        mailbox_id: Option<&'a str>,
        special_use: Option<&'a str>,
        create: bool,
        message_id: usize,
    },
    SendMessage {
        source: MessageSource,
        recipient: Recipient<'a>,
        notify: Notify,
        return_of_content: Ret,
        by_time: ByTime<i64>,
        message_id: usize,
    },
    Notify {
        from: Option<&'a str>,
        importance: Importance,
        options: &'a [&'a str],
        message: &'a str,
        method: &'a str,
    },
    SetEnvelope { envelope: Envelope, value: &'a str },
    CreatedMessage { message_id: usize, message: Vec<u8> },
}

/// What the host hands back to a run that waits: a truth value, a value,
/// or nothing but the go-ahead.
#[derive(Debug, PartialEq, Eq)]
pub enum Input {
    Bool(bool),
    Value(Variable),
    Continue,
}

impl<'a> Script<'a> {
    /// The name of the script.
    pub fn name(&self) -> (r: &'a str)
        ensures
            r == (match self {
                Script::Personal(n) => *n,
                Script::Global(n) => *n,
            }),
    {
        match self {
            Script::Personal(name) => name,
            Script::Global(name) => name,
        }
    }

    /// Whether the script is a global one.
    pub fn is_global(&self) -> (r: bool)
        ensures
            r == (*self is Global),
    {
        match self {
            Script::Global(_) => true,
            _ => false,
        }
    }
}

impl Input {
    /// The input of a truth value.
    pub fn from_bool(value: bool) -> (r: Input)
        ensures
            r == Input::Bool(value),
    {
        Input::Bool(value)
    }

    /// The input of a value.
    pub fn from_variable(value: Variable) -> (r: Input)
        ensures
            r == Input::Value(value),
    {
        Input::Value(value)
    }
}

impl<T> Reply<T> {
    /// A ready reply.
    pub fn ready(value: T) -> (r: Reply<T>)
        ensures
            r == Reply::Ready(value),
    {
        Reply::Ready(value)
    }
}

/// A script as seen in contracts: whether it is a global one, and its name.
pub open spec fn script_view(s: Script) -> (bool, Seq<char>) {
    match s {
        Script::Personal(n) => (false, n@),
        Script::Global(n) => (true, n@),
    }
}

/// What `include` does before it asks for the script: nothing for an
/// empty name, or for a script included once already when `once` asks;
/// `TooManyIncludes` when `frames` includes are open and no more are
/// allowed; otherwise it loads the named script.
pub open spec fn include_decision(
    name: Seq<char>,
    global: bool,
    once: bool,
    included: Seq<(bool, Seq<char>)>,
    frames: int,
    max_nested: int,
) -> Result<Option<(bool, Seq<char>)>, ()> {
    if name.len() == 0 {
        Ok(None)
    } else if once && included.contains((global, name)) {
        Ok(None)
    } else if frames >= max_nested {
        Err(())
    } else {
        Ok(Some((global, name)))
    }
}

/// Decides what `include` does before it asks for the script (see
/// `include_decision`).
pub fn include_step<'a>(
    name: &'a str,
    global: bool,
    once: bool,
    included: &Vec<Script<'a>>,
    frames: usize,
    max_nested: usize,
) -> (r: Result<Option<Script<'a>>, RuntimeError>)
    ensures
        match include_decision(name@, global, once, included@.map_values(|s: Script<'a>| script_view(s)), frames as int, max_nested as int) {
            Ok(None) => r matches Ok(None),
            Ok(Some(v)) => r matches Ok(Some(s)) && script_view(s) == v,
            Err(_) => r matches Err(RuntimeError::TooManyIncludes),
        },
{
    let ghost iv = included@.map_values(|s: Script<'a>| script_view(s));
    if name.unicode_len() == 0 {
        return Ok(None);
    }
    let script = if global { Script::Global(name) } else { Script::Personal(name) };
    if once {
        let mut i: usize = 0;
        while i < included.len()
            invariant
                once,
                i <= included@.len(),
                iv == included@.map_values(|s: Script<'a>| script_view(s)),
                forall|j: int| 0 <= j < i ==> iv[j] != (global, name@),
            decreases included@.len() - i,
        {
            let other = included[i];
            assert(iv[i as int] == script_view(other));
            if other.is_global() == global && crate::text::str_eq(other.name(), name) {
                assert(iv[i as int] == (global, name@));
                assert(iv.contains((global, name@)));
                return Ok(None);
            }
            i += 1;
        }
        assert(!iv.contains((global, name@)));
    }
    if frames >= max_nested {
        return Err(RuntimeError::TooManyIncludes);
    }
    Ok(Some(script))
}

} // verus!
