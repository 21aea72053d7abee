//! Completed intervals: an account worked on from a start to a stop.
//!
//! A completed interval is one line of the file of entries:
//! `<start> <stop> <account>`, the start and the stop in RFC 3339 to the
//! second. A space stands between start and stop; a line that joins the two
//! with a hyphen is not read.

use crate::error::{DateError, ParseError};
use crate::line::{
    entry_fields, entry_line, entry_line_text, lemma_entry_line_read_back, split_entry_line,
    timeclock_block, timeclock_block_text,
};
use crate::timestamp::{
    outcome_view, rfc3339_instant, rfc3339_text, timeclock_text, Instant, Timestamp,
};
use vstd::prelude::*;
use vstd::string::*;

verus! {

/// A completed interval.
#[derive(Debug, Clone, PartialEq, Eq, PartialOrd, Ord, Hash)]
pub struct Entry {
    /// When work began.
    pub start: Timestamp,
    /// When work ended. Nothing holds it at or after the start.
    pub stop: Timestamp,
    /// The task or project worked on.
    pub account: String,
    /// Free text. No line holds it.
    pub description: Option<String>,
}

/// The mathematical value of an [`Entry`].
pub struct EntryView {
    pub start: Instant,
    pub stop: Instant,
    pub account: Seq<char>,
    pub description: Option<Seq<char>>,
}

/// The text of a description that is there.
pub open spec fn description_view(description: Option<String>) -> Option<Seq<char>> {
    match description {
        Some(text) => Some(text@),
        None => None,
    }
}

impl View for Entry {
    type V = EntryView;

    open spec fn view(&self) -> EntryView {
        EntryView {
            start: self.start@,
            stop: self.stop@,
            account: self.account@,
            description: description_view(self.description),
        }
    }
}

impl EntryView {
    /// The line of this entry: start and stop in RFC 3339 to the second, then
    /// the account. The description is left out.
    pub open spec fn line(self) -> Seq<char> {
        entry_line_text(rfc3339_text(self.start), rfc3339_text(self.stop), self.account)
    }

    /// The two lines of this entry in a timeclock file.
    pub open spec fn timeclock(self) -> Seq<char> {
        timeclock_block_text(timeclock_text(self.start), self.account, timeclock_text(self.stop))
    }

    /// This entry as its line keeps it: without a description.
    pub open spec fn undescribed(self) -> EntryView {
        EntryView { description: None, ..self }
    }

    /// This entry with start and stop on their seconds.
    pub open spec fn to_the_second(self) -> EntryView {
        EntryView { start: self.start.to_the_second(), stop: self.stop.to_the_second(), ..self }
    }

    /// The entries whose start and stop fall on a second.
    pub open spec fn whole_seconds(self) -> bool {
        self.start.whole_second() && self.stop.whole_second()
    }

    /// The entry made of the fields of a line once start and stop were read:
    /// the error of the start where it has one, else that of the stop, else
    /// the entry, without a description.
    pub open spec fn of_fields(
        start: Result<Instant, DateError>,
        stop: Result<Instant, DateError>,
        account: Seq<char>,
    ) -> Result<EntryView, ParseError> {
        match (start, stop) {
            (Err(e), _) => Err(ParseError::DateParseError(e)),
            (Ok(_), Err(e)) => Err(ParseError::DateParseError(e)),
            (Ok(start), Ok(stop)) => Ok(EntryView { start, stop, account, description: None }),
        }
    }

    /// What a line is read as: the line is cut into its fields, and start and
    /// stop are read as dates and times.
    pub open spec fn parsed(line: Seq<char>) -> Result<EntryView, ParseError> {
        match entry_fields(line) {
            Err(e) => Err(e),
            Ok((start, stop, account)) => Self::of_fields(
                rfc3339_instant(start),
                rfc3339_instant(stop),
                account,
            ),
        }
    }
}

/// An entry is read back from its line to the second, but for its
/// description: where the texts of its start and of its stop give their
/// seconds again, the line gives the entry again with start and stop on
/// their seconds, whatever its account holds. An entry whose start and stop
/// are on a second is read back as it is.
pub proof fn lemma_entry_read_back(entry: EntryView)
    requires
        entry.start.reads_back(),
        entry.stop.reads_back(),
    ensures
        EntryView::parsed(entry.line()) == Ok::<EntryView, ParseError>(
            entry.to_the_second().undescribed(),
        ),
        entry.whole_seconds() ==> EntryView::parsed(entry.line()) == Ok::<EntryView, ParseError>(
            entry.undescribed(),
        ),
{
    lemma_entry_line_read_back(rfc3339_text(entry.start), rfc3339_text(entry.stop), entry.account);
}

/// The outcome of reading an entry, with the value of the entry for the
/// entry.
pub open spec fn entry_outcome(read: Result<Entry, ParseError>) -> Result<EntryView, ParseError> {
    match read {
        Ok(entry) => Ok(entry@),
        Err(e) => Err(e),
    }
}

impl Entry {
    /// The two lines that stand for this entry in a timeclock file: `i`, the
    /// start and the account, then `o` and the stop.
    pub fn format_as_timeclock(&self) -> (block: String)
        ensures
            block@ == self@.timeclock(),
    {
        let start = self.start.to_timeclock();
        let stop = self.stop.to_timeclock();
        timeclock_block(start.as_str(), self.account.as_str(), stop.as_str())
    }

    /// The line of this entry. An entry whose start and stop fall on a second
    /// is read back from its line, but for its description, whatever its
    /// account holds; one whose start or stop falls within a second is read
    /// back with that second in its place.
    pub fn to_string(&self) -> (line: String)
        ensures
            line@ == self@.line(),
            self@.whole_seconds() ==> EntryView::parsed(line@) == Ok::<EntryView, ParseError>(
                self@.undescribed(),
            ),
            EntryView::parsed(line@) == Ok::<EntryView, ParseError>(
                self@.to_the_second().undescribed(),
            ),
    {
        let start = self.start.to_rfc3339();
        let stop = self.stop.to_rfc3339();
        proof {
            lemma_entry_read_back(self@);
        }
        entry_line(start.as_str(), stop.as_str(), self.account.as_str())
    }

    /// The entry made of the fields of a line once start and stop were read.
    pub fn from_fields(
        start: Result<Timestamp, DateError>,
        stop: Result<Timestamp, DateError>,
        account: &str,
    ) -> (made: Result<Entry, ParseError>)
        ensures
            entry_outcome(made) == EntryView::of_fields(
                outcome_view(start),
                outcome_view(stop),
                account@,
            ),
    {
        match start {
            Err(e) => Err(ParseError::from(e)),
            Ok(start) => match stop {
                Err(e) => Err(ParseError::from(e)),
                Ok(stop) => Ok(
                    Entry { start, stop, account: String::from_str(account), description: None },
                ),
            },
        }
    }

    /// Reads an entry from its line. The start is what stands before the
    /// first space, the stop what stands before the second, the account all
    /// that follows.
    pub fn from_str(line: &str) -> (read: Result<Entry, ParseError>)
        ensures
            entry_outcome(read) == EntryView::parsed(line@),
    {
        match split_entry_line(line) {
            Err(e) => Err(e),
            Ok((start, stop, account)) => Entry::from_fields(
                Timestamp::from_rfc3339(start),
                Timestamp::from_rfc3339(stop),
                account,
            ),
        }
    }
}

} // verus!
