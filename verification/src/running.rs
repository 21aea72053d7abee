//! Running intervals: an account worked on since a start, not yet stopped.
//!
//! A running interval is one line of the file of running entries:
//! `<start> <account>`, the start in RFC 3339 to the second.

use crate::entry::description_view;
use crate::error::{DateError, ParseError};
use crate::line::{
    lemma_running_line_read_back, running_fields, running_line, running_line_text,
    split_running_line,
};
use crate::timestamp::{outcome_view, rfc3339_instant, rfc3339_text, Instant, Timestamp};
use vstd::prelude::*;
use vstd::string::*;

verus! {

/// A running interval.
#[derive(Debug, Clone, PartialEq, Eq, PartialOrd, Ord, Hash)]
pub struct RunningEntry {
    /// When work began.
    pub start: Timestamp,
    /// The task or project worked on.
    pub account: String,
    /// Free text. No line holds it.
    pub description: Option<String>,
}

/// The mathematical value of a [`RunningEntry`].
pub struct RunningEntryView {
    pub start: Instant,
    pub account: Seq<char>,
    pub description: Option<Seq<char>>,
}

impl View for RunningEntry {
    type V = RunningEntryView;

    open spec fn view(&self) -> RunningEntryView {
        RunningEntryView {
            start: self.start@,
            account: self.account@,
            description: description_view(self.description),
        }
    }
}

impl RunningEntryView {
    /// The line of this entry: the start in RFC 3339 to the second, then the
    /// account. The description is left out.
    pub open spec fn line(self) -> Seq<char> {
        running_line_text(rfc3339_text(self.start), self.account)
    }

    /// This entry with its start on its second.
    pub open spec fn to_the_second(self) -> RunningEntryView {
        RunningEntryView { start: self.start.to_the_second(), ..self }
    }

    /// This entry as its line keeps it: without a description.
    pub open spec fn undescribed(self) -> RunningEntryView {
        RunningEntryView { description: None, ..self }
    }

    /// The entry made of the fields of a line once the start was read: the
    /// error of the start where it has one, else the entry, without a
    /// description.
    pub open spec fn of_fields(start: Result<Instant, DateError>, account: Seq<char>) -> Result<
        RunningEntryView,
        ParseError,
    > {
        match start {
            Err(e) => Err(ParseError::DateParseError(e)),
            Ok(start) => Ok(RunningEntryView { start, account, description: None }),
        }
    }

    /// What a line is read as: the line is cut into its fields, and the start
    /// is read as a date and time.
    pub open spec fn parsed(line: Seq<char>) -> Result<RunningEntryView, ParseError> {
        match running_fields(line) {
            Err(e) => Err(e),
            Ok((start, account)) => Self::of_fields(rfc3339_instant(start), account),
        }
    }
}

/// A running entry is read back from its line to the second, but for its
/// description: where the text of its start gives the second of the start
/// again, the line gives the entry again with its start on that second,
/// whatever its account holds. An entry whose start is on a second is read
/// back as it is.
pub proof fn lemma_running_entry_read_back(entry: RunningEntryView)
    requires
        entry.start.reads_back(),
    ensures
        RunningEntryView::parsed(entry.line()) == Ok::<RunningEntryView, ParseError>(
            entry.to_the_second().undescribed(),
        ),
        entry.start.whole_second() ==> RunningEntryView::parsed(entry.line()) == Ok::<
            RunningEntryView,
            ParseError,
        >(entry.undescribed()),
{
    lemma_running_line_read_back(rfc3339_text(entry.start), entry.account);
}

/// The outcome of reading a running entry, with the value of the entry for
/// the entry.
pub open spec fn running_outcome(read: Result<RunningEntry, ParseError>) -> Result<
    RunningEntryView,
    ParseError,
> {
    match read {
        Ok(entry) => Ok(entry@),
        Err(e) => Err(e),
    }
}

impl RunningEntry {
    /// The line of this entry. An entry whose start falls on a second is
    /// read back from its line, but for its description, whatever its
    /// account holds; one whose start falls within a second is read back
    /// with that second in its place.
    pub fn to_string(&self) -> (line: String)
        ensures
            line@ == self@.line(),
            self@.start.whole_second() ==> RunningEntryView::parsed(line@) == Ok::<
                RunningEntryView,
                ParseError,
            >(self@.undescribed()),
            RunningEntryView::parsed(line@) == Ok::<RunningEntryView, ParseError>(
                self@.to_the_second().undescribed(),
            ),
    {
        let start = self.start.to_rfc3339();
        proof {
            lemma_running_entry_read_back(self@);
        }
        running_line(start.as_str(), self.account.as_str())
    }

    /// The entry made of the fields of a line once the start was read.
    pub fn from_fields(start: Result<Timestamp, DateError>, account: &str) -> (made: Result<
        RunningEntry,
        ParseError,
    >)
        ensures
            running_outcome(made) == RunningEntryView::of_fields(
                outcome_view(start),
                account@,
            ),
    {
        match start {
            Err(e) => Err(ParseError::from(e)),
            Ok(start) => Ok(
                RunningEntry { start, account: String::from_str(account), description: None },
            ),
        }
    }

    /// Reads a running entry from its line. The start is what stands before
    /// the first space, the account all that follows.
    pub fn from_str(line: &str) -> (read: Result<RunningEntry, ParseError>)
        ensures
            running_outcome(read) == RunningEntryView::parsed(line@),
    {
        match split_running_line(line) {
            Err(e) => Err(e),
            Ok((start, account)) => RunningEntry::from_fields(
                Timestamp::from_rfc3339(start),
                account,
            ),
        }
    }
}

} // verus!
