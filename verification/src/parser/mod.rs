//! Errors of the stand-alone lexer of Sieve scripts.

use vstd::prelude::*;

verus! {

/// A lexical error: where it was found and what it is.
#[derive(Debug, PartialEq, Eq)]
pub struct Error {
    line_num: usize,
    line_pos: usize,
    error_type: ErrorType,
}

/// What went wrong while reading a script.
#[derive(Debug, Clone, Copy, PartialEq, Eq, Structural)]
pub enum ErrorType {
    InvalidCharacter(u8),
    UnterminatedString,
    UnterminatedComment,
    UnterminatedMultiline,
}

/// A lexical error as seen in contracts.
pub struct ErrorView {
    pub line_num: usize,
    pub line_pos: usize,
    pub error_type: ErrorType,
}

impl View for Error {
    type V = ErrorView;

    closed spec fn view(&self) -> ErrorView {
        ErrorView { line_num: self.line_num, line_pos: self.line_pos, error_type: self.error_type }
    }
}

impl Error {
    /// The error for the byte `ch` at `line_num`, `line_pos`.
    pub fn invalid_character(line_num: usize, line_pos: usize, ch: u8) -> (r: Error)
        ensures
            r@ == (ErrorView { line_num, line_pos, error_type: ErrorType::InvalidCharacter(ch) }),
    {
        Error { line_num, line_pos, error_type: ErrorType::InvalidCharacter(ch) }
    }

    /// An error of kind `error_type` at `line_num`, `line_pos`.
    pub fn new(line_num: usize, line_pos: usize, error_type: ErrorType) -> (r: Error)
        ensures
            r@ == (ErrorView { line_num, line_pos, error_type }),
    {
        Error { line_num, line_pos, error_type }
    }

    /// The line of the error, counted from one.
    pub fn line_num(&self) -> (r: usize)
        ensures
            r == self@.line_num,
    {
        self.line_num
    }

    /// The column of the error on its line.
    pub fn line_pos(&self) -> (r: usize)
        ensures
            r == self@.line_pos,
    {
        self.line_pos
    }

    /// What the error is.
    pub fn error_type(&self) -> (r: ErrorType)
        ensures
            r == self@.error_type,
    {
        self.error_type
    }
}

} // verus!
