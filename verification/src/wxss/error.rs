//! Diagnostics reported while parsing style sheets.

use vstd::prelude::*;
use crate::position::Location;

verus! {

/// How serious a diagnostic is.
#[derive(Clone, Copy, Debug, PartialEq, Eq, Structural)]
pub enum ParseErrorLevel {
    Note,
    Warn,
    Error,
    Fatal,
}

/// The kinds of style sheet diagnostics. Their codes start at `0x10001`, in this order.
#[derive(Clone, Copy, Debug, PartialEq, Eq, Structural)]
pub enum ParseErrorKind {
    UnexpectedToken,
    BadString,
    BadUrl,
    UnmatchedBrace,
    UnmatchedBracket,
    UnmatchedParenthesis,
}

impl ParseErrorKind {
    pub open spec fn spec_level(self) -> ParseErrorLevel {
        match self {
            ParseErrorKind::UnexpectedToken => ParseErrorLevel::Fatal,
            _ => ParseErrorLevel::Error,
        }
    }

    pub open spec fn spec_code(self) -> u32 {
        match self {
            ParseErrorKind::UnexpectedToken => 0x10001,
            ParseErrorKind::BadString => 0x10002,
            ParseErrorKind::BadUrl => 0x10003,
            ParseErrorKind::UnmatchedBrace => 0x10004,
            ParseErrorKind::UnmatchedBracket => 0x10005,
            ParseErrorKind::UnmatchedParenthesis => 0x10006,
        }
    }

    pub open spec fn spec_static_message(self) -> Seq<char> {
        match self {
            ParseErrorKind::UnexpectedToken => "unexpected token"@,
            ParseErrorKind::BadString => "invalid string"@,
            ParseErrorKind::BadUrl => "invalid URL"@,
            ParseErrorKind::UnmatchedBrace => "unmatched curly bracket"@,
            ParseErrorKind::UnmatchedBracket => "unmatched square bracket"@,
            ParseErrorKind::UnmatchedParenthesis => "unmatched parenthesis"@,
        }
    }

    /// The message shown for the diagnostic.
    pub fn static_message(&self) -> (r: &'static str)
        ensures
            r@ == self.spec_static_message(),
    {
        match self {
            ParseErrorKind::UnexpectedToken => "unexpected token",
            ParseErrorKind::BadString => "invalid string",
            ParseErrorKind::BadUrl => "invalid URL",
            ParseErrorKind::UnmatchedBrace => "unmatched curly bracket",
            ParseErrorKind::UnmatchedBracket => "unmatched square bracket",
            ParseErrorKind::UnmatchedParenthesis => "unmatched parenthesis",
        }
    }

    /// Unexpected tokens are fatal; every other kind is an error.
    pub fn level(&self) -> (r: ParseErrorLevel)
        ensures
            r == self.spec_level(),
    {
        match self {
            ParseErrorKind::UnexpectedToken => ParseErrorLevel::Fatal,
            _ => ParseErrorLevel::Error,
        }
    }

    /// The numeric diagnostic code.
    pub fn code(&self) -> (r: u32)
        ensures
            r == self.spec_code(),
    {
        match self {
            ParseErrorKind::UnexpectedToken => 0x10001,
            ParseErrorKind::BadString => 0x10002,
            ParseErrorKind::BadUrl => 0x10003,
            ParseErrorKind::UnmatchedBrace => 0x10004,
            ParseErrorKind::UnmatchedBracket => 0x10005,
            ParseErrorKind::UnmatchedParenthesis => 0x10006,
        }
    }
}

/// A diagnostic: its kind and the range it points at.
#[derive(Clone, Copy, Debug, PartialEq, Eq, Structural)]
pub struct ParseError {
    pub kind: ParseErrorKind,
    pub location: Location,
}

impl ParseError {
    pub fn level(&self) -> (r: ParseErrorLevel)
        ensures
            r == self.kind.spec_level(),
    {
        self.kind.level()
    }

    pub fn code(&self) -> (r: u32)
        ensures
            r == self.kind.spec_code(),
    {
        self.kind.code()
    }
}

} // verus!
