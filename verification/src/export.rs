//! The file of completed entries, turned into a timeclock file.

use crate::entry::{Entry, EntryView};
use crate::error::ParseError;
use crate::line::{join_lines, joined, lemma_read_all_stops, read_all, texts};
use vstd::prelude::*;

verus! {

/// The timeclock blocks of `entries`, one for each entry.
pub open spec fn timeclock_blocks(entries: Seq<EntryView>) -> Seq<Seq<char>> {
    Seq::new(entries.len(), |i: int| entries[i].timeclock())
}

/// What a file of completed entries is read as: its entries in the order of
/// its lines or, where a line is refused, the error of the first such line.
pub open spec fn entries_read(lines: Seq<Seq<char>>) -> Result<Seq<EntryView>, ParseError> {
    read_all(lines, |line: Seq<char>| EntryView::parsed(line))
}

/// The timeclock file for a file of completed entries: the blocks of the
/// entries in the order of the lines, a line feed between each two.
pub open spec fn exported(lines: Seq<Seq<char>>) -> Result<Seq<char>, ParseError> {
    match entries_read(lines) {
        Ok(entries) => Ok(joined(timeclock_blocks(entries))),
        Err(e) => Err(e),
    }
}

/// Turns the lines of a file of completed entries into the text of a
/// timeclock file. The first line that is refused ends the work.
pub fn export(lines: &Vec<String>) -> (text: Result<String, ParseError>)
    ensures
        match exported(texts(lines@)) {
            Ok(expected) => text matches Ok(written) && written@ == expected,
            Err(e) => text == Err::<String, ParseError>(e),
        },
{
    let ghost all = texts(lines@);
    let ghost read_line = |line: Seq<char>| EntryView::parsed(line);
    let ghost mut entries: Seq<EntryView> = Seq::empty();
    let mut blocks: Vec<String> = Vec::new();
    let mut i: usize = 0;
    while i < lines.len()
        invariant
            i <= lines.len(),
            all == texts(lines@),
            read_line == |line: Seq<char>| EntryView::parsed(line),
            read_all(all.take(i as int), read_line) == Ok::<Seq<EntryView>, ParseError>(entries),
            texts(blocks@) == timeclock_blocks(entries),
        decreases lines.len() - i,
    {
        let ghost blocks_before = texts(blocks@);
        assert(all.take(i + 1).drop_last() =~= all.take(i as int));
        match Entry::from_str(lines[i].as_str()) {
            Err(e) => {
                proof {
                    lemma_read_all_stops(all, read_line, i + 1);
                }
                return Err(e);
            },
            Ok(entry) => {
                blocks.push(entry.format_as_timeclock());
                proof {
                    entries = entries.push(entry@);
                    assert(texts(blocks@) =~= blocks_before.push(entry@.timeclock()));
                }
            },
        }
        i += 1;
    }
    assert(all.take(lines.len() as int) =~= all);
    Ok(join_lines(&blocks))
}

} // verus!
