//! Error values reported by the record parsers. Every failure of the
//! pipeline is representable as a value of this type; no stage panics.

use vstd::prelude::*;

verus! {

/// Why a record or one of its fields was rejected.
#[derive(Clone, Copy, Debug, PartialEq, Eq, Structural)]
pub enum ParseError {
    /// A 12-hour clock string could not be normalized.
    MalformedTime,
    /// A pipe-delimited record had the wrong field count or a bad kind token.
    MalformedRecord,
    /// A date-qualified timestamp string could not be parsed.
    MalformedDate,
    /// A level field was not a decimal number this crate can represent.
    MalformedLevel,
}

impl ParseError {
    /// A plain description of the error, for callers that display it.
    pub fn describe(&self) -> (r: &'static str)
        ensures
            r@ == describe_spec(*self),
    {
        match self {
            ParseError::MalformedTime => "malformed time-of-day string",
            ParseError::MalformedRecord => "malformed tide record",
            ParseError::MalformedDate => "malformed date-time string",
            ParseError::MalformedLevel => "malformed level field",
        }
    }
}

/// The description each error variant carries.
pub open spec fn describe_spec(e: ParseError) -> Seq<char> {
    match e {
        ParseError::MalformedTime => "malformed time-of-day string"@,
        ParseError::MalformedRecord => "malformed tide record"@,
        ParseError::MalformedDate => "malformed date-time string"@,
        ParseError::MalformedLevel => "malformed level field"@,
    }
}

} // verus!
