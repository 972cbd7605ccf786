//! The error taxonomy of a load operation.
//!
//! A field either has no variable in the environment while one is required
//! ([`FromEnvError::MissingVariable`]) or has one whose text cannot be
//! coerced to the field's kind ([`FromEnvError::ParseError`], carrying the
//! variable name and a [`ParseError`] cause).  Errors are plain values; the
//! [`ParseError::message`] and [`FromEnvError::message`] methods render the
//! human-readable text.

use vstd::prelude::*;

use crate::text::dec_digits;
use crate::text::usize_to_string;

verus! {

/// Why the text of a present variable could not be coerced.
#[derive(Debug, Clone, PartialEq, Eq)]
pub enum ParseError {
    /// The text is not a decimal integer of the requested width; holds the
    /// offending text.
    ParseInt(String),
    /// The text is not a floating-point number; holds the offending text.
    ParseFloat(String),
    /// The text is none of the accepted boolean spellings; holds the
    /// offending text.
    ParseBool(String),
    /// The text is not exactly one character; holds the offending text.
    ParseChar(String),
    /// A list element failed to parse: the zero-based index of the first
    /// failing element and the stringified cause.
    ParseVec { index: usize, error: String },
    /// The variable's bytes are not valid text.
    InvalidUtf8,
}

/// The mathematical shape of a [`ParseError`]: the same variants over
/// character sequences.
pub enum ParseErrView {
    Int(Seq<char>),
    Float(Seq<char>),
    Bool(Seq<char>),
    Char(Seq<char>),
    VecElem { index: int, error: Seq<char> },
    Utf8,
}

impl View for ParseError {
    type V = ParseErrView;

    open spec fn view(&self) -> ParseErrView {
        match self {
            ParseError::ParseInt(s) => ParseErrView::Int(s@),
            ParseError::ParseFloat(s) => ParseErrView::Float(s@),
            ParseError::ParseBool(s) => ParseErrView::Bool(s@),
            ParseError::ParseChar(s) => ParseErrView::Char(s@),
            ParseError::ParseVec { index, error } => ParseErrView::VecElem {
                index: *index as int,
                error: error@,
            },
            ParseError::InvalidUtf8 => ParseErrView::Utf8,
        }
    }
}

/// Why a load operation failed at some field.
#[derive(Debug, Clone, PartialEq, Eq)]
pub enum FromEnvError {
    /// The derived variable is absent from the environment and the field is
    /// required; holds the derived variable name.
    MissingVariable(String),
    /// The derived variable is present but its text cannot be coerced.
    ParseError { var: String, source: ParseError },
}

/// The mathematical shape of a [`FromEnvError`].
pub enum ErrView {
    Missing(Seq<char>),
    Parse { var: Seq<char>, source: ParseErrView },
}

impl View for FromEnvError {
    type V = ErrView;

    open spec fn view(&self) -> ErrView {
        match self {
            FromEnvError::MissingVariable(s) => ErrView::Missing(s@),
            FromEnvError::ParseError { var, source } => ErrView::Parse {
                var: var@,
                source: source@,
            },
        }
    }
}

/// The rendered text of a [`ParseError`].
pub open spec fn spec_parse_error_message(e: ParseErrView) -> Seq<char> {
    match e {
        ParseErrView::Int(s) => "Failed to parse integer: invalid integer '"@ + s + "'"@,
        ParseErrView::Float(s) => "Failed to parse float: invalid float '"@ + s + "'"@,
        ParseErrView::Bool(s) => "Failed to parse boolean: expected 'true', 'false', '1', or '0', got '"@
            + s + "'"@,
        ParseErrView::Char(s) => "Failed to parse char: expected single character, got '"@ + s
            + "'"@,
        ParseErrView::VecElem { index, error } => "Failed to parse vector element at index "@
            + dec_digits(index as nat) + ": "@ + error,
        ParseErrView::Utf8 => "Invalid UTF-8 in environment variable"@,
    }
}

/// The rendered text of a [`FromEnvError`].
pub open spec fn spec_error_message(e: ErrView) -> Seq<char> {
    match e {
        ErrView::Missing(name) => "Environment variable '"@ + name + "' not found"@,
        ErrView::Parse { var, source } => "Failed to parse environment variable '"@ + var + "': "@
            + spec_parse_error_message(source),
    }
}

impl ParseError {
    /// Renders the error as text.
    pub fn message(&self) -> (r: String)
        ensures
            r@ == spec_parse_error_message(self@),
    {
        let mut m = String::new();
        match self {
            ParseError::ParseInt(s) => {
                m.append("Failed to parse integer: invalid integer '");
                m.append(s.as_str());
                m.append("'");
            },
            ParseError::ParseFloat(s) => {
                m.append("Failed to parse float: invalid float '");
                m.append(s.as_str());
                m.append("'");
            },
            ParseError::ParseBool(s) => {
                m.append("Failed to parse boolean: expected 'true', 'false', '1', or '0', got '");
                m.append(s.as_str());
                m.append("'");
            },
            ParseError::ParseChar(s) => {
                m.append("Failed to parse char: expected single character, got '");
                m.append(s.as_str());
                m.append("'");
            },
            ParseError::ParseVec { index, error } => {
                m.append("Failed to parse vector element at index ");
                let idx = usize_to_string(*index);
                m.append(idx.as_str());
                m.append(": ");
                m.append(error.as_str());
            },
            ParseError::InvalidUtf8 => {
                m.append("Invalid UTF-8 in environment variable");
            },
        }
        proof {
            assert(m@ =~= spec_parse_error_message(self@));
        }
        m
    }
}

impl FromEnvError {
    /// Renders the error as text.
    pub fn message(&self) -> (r: String)
        ensures
            r@ == spec_error_message(self@),
    {
        let mut m = String::new();
        match self {
            FromEnvError::MissingVariable(name) => {
                m.append("Environment variable '");
                m.append(name.as_str());
                m.append("' not found");
            },
            FromEnvError::ParseError { var, source } => {
                m.append("Failed to parse environment variable '");
                m.append(var.as_str());
                m.append("': ");
                let cause = source.message();
                m.append(cause.as_str());
            },
        }
        proof {
            assert(m@ =~= spec_error_message(self@));
        }
        m
    }
}

} // verus!
