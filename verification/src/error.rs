//! The ways in which a line is refused and in which a command fails.

use vstd::prelude::*;
use vstd::std_specs::convert::FromSpecImpl;
use vstd::string::*;

verus! {

/// Why a text is no date and time: the kinds of error that chrono tells
/// apart.
#[derive(Debug, Clone, Copy, PartialEq, Eq, Structural, Hash)]
pub enum DateError {
    /// A field is outside its range.
    OutOfRange,
    /// The fields contradict each other.
    Impossible,
    /// The fields do not fix a date and time.
    NotEnough,
    /// A character stands where the format allows none like it.
    Invalid,
    /// The text ends before the date and time do.
    TooShort,
    /// Something follows the date and time.
    TooLong,
    /// The format itself is at fault.
    BadFormat,
}

impl DateError {
    /// The message for this kind of error, in chrono's words.
    pub open spec fn text(self) -> Seq<char> {
        match self {
            DateError::OutOfRange => "input is out of range"@,
            DateError::Impossible => "no possible date and time matching input"@,
            DateError::NotEnough => "input is not enough for unique date and time"@,
            DateError::Invalid => "input contains invalid characters"@,
            DateError::TooShort => "premature end of input"@,
            DateError::TooLong => "trailing input"@,
            DateError::BadFormat => "bad or unsupported format string"@,
        }
    }

    /// The message for this kind of error.
    pub fn to_string(&self) -> (message: String)
        ensures
            message@ == self.text(),
    {
        match self {
            DateError::OutOfRange => String::from_str("input is out of range"),
            DateError::Impossible => String::from_str("no possible date and time matching input"),
            DateError::NotEnough => String::from_str(
                "input is not enough for unique date and time",
            ),
            DateError::Invalid => String::from_str("input contains invalid characters"),
            DateError::TooShort => String::from_str("premature end of input"),
            DateError::TooLong => String::from_str("trailing input"),
            DateError::BadFormat => String::from_str("bad or unsupported format string"),
        }
    }
}

/// Why a line is no entry.
#[derive(Debug, Clone, Copy, PartialEq, Eq, Structural, Hash)]
pub enum ParseError {
    /// The line holds no space, so no start stands before one.
    MissingStart,
    /// What follows the start holds no space, so no stop stands before one.
    MissingStop,
    /// A start or a stop is no date and time.
    DateParseError(DateError),
}

impl ParseError {
    /// The message for this error.
    pub open spec fn text(self) -> Seq<char> {
        match self {
            ParseError::MissingStart => "missing start date"@,
            ParseError::MissingStop => "missing stop date"@,
            ParseError::DateParseError(err) => err.text(),
        }
    }

    /// The message for this error: what is missing, or why a date and time
    /// was refused.
    pub fn to_string(&self) -> (message: String)
        ensures
            message@ == self.text(),
    {
        match self {
            ParseError::MissingStart => String::from_str("missing start date"),
            ParseError::MissingStop => String::from_str("missing stop date"),
            ParseError::DateParseError(err) => err.to_string(),
        }
    }
}

impl From<DateError> for ParseError {
    fn from(err: DateError) -> (wrapped: ParseError) {
        ParseError::DateParseError(err)
    }
}

impl FromSpecImpl<DateError> for ParseError {
    open spec fn obeys_from_spec() -> bool {
        true
    }

    open spec fn from_spec(err: DateError) -> ParseError {
        ParseError::DateParseError(err)
    }
}

/// Why a command on the running entries fails.
#[derive(Debug, Clone, Copy, PartialEq, Eq, Structural, Hash)]
pub enum LogError {
    /// The account to start is running already.
    DuplicateRunningEntry,
    /// Nothing is running, so nothing can be stopped.
    NoRunningEntries,
    /// No running entry has the account to stop.
    AccountNotFound,
    /// More than one entry is running and no account says which to stop.
    AmbiguousStop,
}

} // verus!
