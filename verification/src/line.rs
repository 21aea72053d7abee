//! The line formats: fields separated by the first spaces of a line, and
//! lines joined by line feeds.

use crate::error::ParseError;
use vstd::prelude::*;
use vstd::string::*;

verus! {

/// The index of the first space in `s`, or the length of `s` where it holds
/// none.
pub open spec fn first_space(s: Seq<char>) -> int
    decreases s.len(),
{
    if s.len() == 0 || s[0] == ' ' {
        0
    } else {
        1 + first_space(s.drop_first())
    }
}

/// What stands before the first space of `s`.
pub open spec fn before_space(s: Seq<char>) -> Seq<char> {
    s.take(first_space(s))
}

/// What stands after the first space of `s`.
pub open spec fn after_space(s: Seq<char>) -> Seq<char> {
    s.skip(first_space(s) + 1)
}

/// The line of a completed entry: start, stop and account, a space between
/// them.
pub open spec fn entry_line_text(start: Seq<char>, stop: Seq<char>, account: Seq<char>) -> Seq<
    char,
> {
    start + seq![' '] + stop + seq![' '] + account
}

/// The line of a running entry: start and account, a space between them.
pub open spec fn running_line_text(start: Seq<char>, account: Seq<char>) -> Seq<char> {
    start + seq![' '] + account
}

/// The two lines that a timeclock file holds for a completed entry: the
/// clock-in with the account, and the clock-out.
pub open spec fn timeclock_block_text(
    start: Seq<char>,
    account: Seq<char>,
    stop: Seq<char>,
) -> Seq<char> {
    seq!['i', ' '] + start + seq![' '] + account + seq!['\n', 'o', ' '] + stop
}

/// The start, the stop and the account of an entry's line. The start ends at
/// the first space and the stop at the second; the account is all that
/// follows, spaces included.
pub open spec fn entry_fields(line: Seq<char>) -> Result<
    (Seq<char>, Seq<char>, Seq<char>),
    ParseError,
> {
    if !line.contains(' ') {
        Err(ParseError::MissingStart)
    } else if !after_space(line).contains(' ') {
        Err(ParseError::MissingStop)
    } else {
        Ok(
            (
                before_space(line),
                before_space(after_space(line)),
                after_space(after_space(line)),
            ),
        )
    }
}

/// The start and the account of a running entry's line. The start ends at the
/// first space; the account is all that follows, spaces included.
pub open spec fn running_fields(line: Seq<char>) -> Result<(Seq<char>, Seq<char>), ParseError> {
    if !line.contains(' ') {
        Err(ParseError::MissingStart)
    } else {
        Ok((before_space(line), after_space(line)))
    }
}

/// The texts of `blocks` in their order, a line feed between each two. No
/// line feed follows the last, and no blocks give the empty text.
pub open spec fn joined(blocks: Seq<Seq<char>>) -> Seq<char>
    decreases blocks.len(),
{
    if blocks.len() == 0 {
        Seq::empty()
    } else if blocks.len() == 1 {
        blocks[0]
    } else {
        joined(blocks.drop_last()) + seq!['\n'] + blocks.last()
    }
}

/// What a file's lines are read as, each by `read`: the values in the order
/// of their lines or, where a line is refused, the error of the first such
/// line.
pub open spec fn read_all<T>(
    lines: Seq<Seq<char>>,
    read: spec_fn(Seq<char>) -> Result<T, ParseError>,
) -> Result<Seq<T>, ParseError>
    decreases lines.len(),
{
    if lines.len() == 0 {
        Ok(Seq::empty())
    } else {
        match read_all(lines.drop_last(), read) {
            Err(e) => Err(e),
            Ok(values) => match read(lines.last()) {
                Err(e) => Err(e),
                Ok(value) => Ok(values.push(value)),
            },
        }
    }
}

/// Reading all lines gives one value for each line, in the order of the
/// lines, exactly where no line is refused; and where some line is refused,
/// it gives the error of the first one that is.
pub proof fn lemma_read_all<T>(
    lines: Seq<Seq<char>>,
    read: spec_fn(Seq<char>) -> Result<T, ParseError>,
)
    ensures
        match read_all(lines, read) {
            Ok(values) => {
                &&& values.len() == lines.len()
                &&& forall|i: int|
                    0 <= i < lines.len() ==> #[trigger] read(lines[i]) == Ok::<T, ParseError>(
                        values[i],
                    )
            },
            Err(e) => exists|i: int|
                {
                    &&& 0 <= i < lines.len()
                    &&& #[trigger] read(lines[i]) == Err::<T, ParseError>(e)
                    &&& forall|j: int| 0 <= j < i ==> (#[trigger] read(lines[j])) is Ok
                },
        },
    decreases lines.len(),
{
    if lines.len() > 0 {
        let front = lines.drop_last();
        lemma_read_all(front, read);
        match read_all(front, read) {
            Err(e) => {
                let i = choose|i: int|
                    {
                        &&& 0 <= i < front.len()
                        &&& #[trigger] read(front[i]) == Err::<T, ParseError>(e)
                        &&& forall|j: int| 0 <= j < i ==> (#[trigger] read(front[j])) is Ok
                    };
                assert forall|j: int| 0 <= j < i implies (#[trigger] read(lines[j])) is Ok by {
                    assert(read(front[j]) is Ok);
                }
            },
            Ok(values) => {
                let last = lines.len() - 1;
                match read(lines.last()) {
                    Err(e) => {
                        assert forall|j: int| 0 <= j < last implies (#[trigger] read(
                            lines[j],
                        )) is Ok by {
                            assert(read(front[j]) is Ok);
                        }
                    },
                    Ok(value) => {
                        assert forall|i: int| 0 <= i < lines.len() implies #[trigger] read(
                            lines[i],
                        ) == Ok::<T, ParseError>(values.push(value)[i]) by {
                            if i < last {
                                assert(read(front[i]) == Ok::<T, ParseError>(values[i]));
                            }
                        }
                    },
                }
            },
        }
    }
}

/// Where each line is read as a value, reading all lines gives these values
/// in the order of the lines.
pub proof fn lemma_read_all_each<T>(
    lines: Seq<Seq<char>>,
    read: spec_fn(Seq<char>) -> Result<T, ParseError>,
    values: Seq<T>,
)
    requires
        values.len() == lines.len(),
        forall|i: int|
            0 <= i < lines.len() ==> #[trigger] read(lines[i]) == Ok::<T, ParseError>(values[i]),
    ensures
        read_all(lines, read) == Ok::<Seq<T>, ParseError>(values),
    decreases lines.len(),
{
    if lines.len() == 0 {
        assert(values =~= Seq::empty());
    } else {
        lemma_read_all_each(lines.drop_last(), read, values.drop_last());
        assert(values.drop_last().push(values.last()) =~= values);
    }
}

/// Once a line is refused, the lines after it change nothing: where reading
/// the first `k` lines fails, reading all lines fails in the same way.
pub proof fn lemma_read_all_stops<T>(
    lines: Seq<Seq<char>>,
    read: spec_fn(Seq<char>) -> Result<T, ParseError>,
    k: int,
)
    requires
        0 <= k <= lines.len(),
        read_all(lines.take(k), read) is Err,
    ensures
        read_all(lines, read) == read_all(lines.take(k), read),
    decreases lines.len(),
{
    if k == lines.len() {
        assert(lines.take(k) =~= lines);
    } else {
        assert(lines.drop_last().take(k) =~= lines.take(k));
        lemma_read_all_stops(lines.drop_last(), read, k);
    }
}

/// The first space of `s` lies in `s` exactly where `s` holds a space, and no
/// space stands before it.
pub proof fn lemma_first_space(s: Seq<char>)
    ensures
        0 <= first_space(s) <= s.len(),
        s.contains(' ') <==> first_space(s) < s.len(),
        first_space(s) < s.len() ==> s[first_space(s)] == ' ',
        forall|i: int| 0 <= i < first_space(s) ==> s[i] != ' ',
    decreases s.len(),
{
    if s.len() > 0 && s[0] != ' ' {
        let rest = s.drop_first();
        lemma_first_space(rest);
        assert forall|i: int| 0 <= i < first_space(s) implies s[i] != ' ' by {
            if i > 0 {
                assert(s[i] == rest[i - 1]);
            }
        }
    }
}

/// A text with a space in it is cut at its first space in one way only: where
/// `head` holds no space, `head`, a space and `tail` are cut into `head` and
/// `tail`.
pub proof fn lemma_cut_at_first_space(head: Seq<char>, tail: Seq<char>)
    requires
        !head.contains(' '),
    ensures
        (head + seq![' '] + tail).contains(' '),
        first_space(head + seq![' '] + tail) == head.len(),
        before_space(head + seq![' '] + tail) == head,
        after_space(head + seq![' '] + tail) == tail,
{
    let s = head + seq![' '] + tail;
    lemma_first_space(s);
    assert(s[head.len() as int] == ' ');
}

/// An entry's line is read back as it was written: where neither the start
/// nor the stop holds a space, the line made of a start, a stop and an
/// account has these three as its fields, whatever the account holds.
pub proof fn lemma_entry_line_read_back(start: Seq<char>, stop: Seq<char>, account: Seq<char>)
    requires
        !start.contains(' '),
        !stop.contains(' '),
    ensures
        entry_fields(entry_line_text(start, stop, account)) == Ok::<
            (Seq<char>, Seq<char>, Seq<char>),
            ParseError,
        >((start, stop, account)),
{
    let rest = stop + seq![' '] + account;
    assert(entry_line_text(start, stop, account) =~= start + seq![' '] + rest);
    lemma_cut_at_first_space(start, rest);
    lemma_cut_at_first_space(stop, account);
}

/// A running entry's line is read back as it was written: where the start
/// holds no space, the line made of a start and an account has these two as
/// its fields, whatever the account holds.
pub proof fn lemma_running_line_read_back(start: Seq<char>, account: Seq<char>)
    requires
        !start.contains(' '),
    ensures
        running_fields(running_line_text(start, account)) == Ok::<
            (Seq<char>, Seq<char>),
            ParseError,
        >((start, account)),
{
    lemma_cut_at_first_space(start, account);
}

/// Cuts `s` at its first space.
pub fn cut_at_space<'a>(s: &'a str) -> (cut: Option<(&'a str, &'a str)>)
    ensures
        cut is Some <==> s@.contains(' '),
        cut matches Some((head, tail)) ==> head@ == before_space(s@) && tail@ == after_space(s@),
{
    let cut = split_once_space(s);
    proof {
        if let Some((head, tail)) = cut {
            lemma_cut_at_first_space(head@, tail@);
        }
    }
    cut
}

/// Cuts the line of a completed entry into start, stop and account.
pub fn split_entry_line<'a>(line: &'a str) -> (fields: Result<
    (&'a str, &'a str, &'a str),
    ParseError,
>)
    ensures
        match fields {
            Ok((start, stop, account)) => entry_fields(line@) == Ok::<
                (Seq<char>, Seq<char>, Seq<char>),
                ParseError,
            >((start@, stop@, account@)),
            Err(e) => entry_fields(line@) == Err::<(Seq<char>, Seq<char>, Seq<char>), ParseError>(
                e,
            ),
        },
{
    match cut_at_space(line) {
        None => Err(ParseError::MissingStart),
        Some((start, rest)) => match cut_at_space(rest) {
            None => Err(ParseError::MissingStop),
            Some((stop, account)) => Ok((start, stop, account)),
        },
    }
}

/// Cuts the line of a running entry into start and account.
pub fn split_running_line<'a>(line: &'a str) -> (fields: Result<(&'a str, &'a str), ParseError>)
    ensures
        match fields {
            Ok((start, account)) => running_fields(line@) == Ok::<
                (Seq<char>, Seq<char>),
                ParseError,
            >((start@, account@)),
            Err(e) => running_fields(line@) == Err::<(Seq<char>, Seq<char>), ParseError>(e),
        },
{
    match cut_at_space(line) {
        None => Err(ParseError::MissingStart),
        Some((start, account)) => Ok((start, account)),
    }
}

/// Writes the line of a completed entry.
pub fn entry_line(start: &str, stop: &str, account: &str) -> (line: String)
    ensures
        line@ == entry_line_text(start@, stop@, account@),
{
    proof {
        reveal_strlit(" ");
    }
    let mut line = String::from_str(start);
    line.append(" ");
    line.append(stop);
    line.append(" ");
    line.append(account);
    line
}

/// Writes the line of a running entry.
pub fn running_line(start: &str, account: &str) -> (line: String)
    ensures
        line@ == running_line_text(start@, account@),
{
    proof {
        reveal_strlit(" ");
    }
    let mut line = String::from_str(start);
    line.append(" ");
    line.append(account);
    line
}

/// Writes the two lines that a timeclock file holds for a completed entry.
pub fn timeclock_block(start: &str, account: &str, stop: &str) -> (block: String)
    ensures
        block@ == timeclock_block_text(start@, account@, stop@),
{
    proof {
        reveal_strlit("i ");
        reveal_strlit(" ");
        reveal_strlit("\no ");
    }
    let mut block = String::from_str("i ");
    block.append(start);
    block.append(" ");
    block.append(account);
    block.append("\no ");
    block.append(stop);
    block
}

/// The texts of `blocks`, each by its view.
pub open spec fn texts(blocks: Seq<String>) -> Seq<Seq<char>> {
    Seq::new(blocks.len(), |i: int| blocks[i]@)
}

/// Joins `blocks` with line feeds.
pub fn join_lines(blocks: &Vec<String>) -> (text: String)
    ensures
        text@ == joined(texts(blocks@)),
{
    proof {
        reveal_strlit("\n");
    }
    let mut text = String::new();
    let mut i: usize = 0;
    while i < blocks.len()
        invariant
            i <= blocks.len(),
            text@ == joined(texts(blocks@).take(i as int)),
            "\n"@ == seq!['\n'],
        decreases blocks.len() - i,
    {
        assert(texts(blocks@).take(i + 1).drop_last() =~= texts(blocks@).take(i as int));
        if i > 0 {
            text.append("\n");
        }
        text.append(blocks[i].as_str());
        i += 1;
    }
    assert(texts(blocks@).take(blocks.len() as int) =~= texts(blocks@));
    text
}

/// Calls `str::split_once` with a space as the delimiter. It cuts the text at
/// the first space: what it returns are the text before that space and the
/// text after it, and it returns nothing where the text holds no space.
#[verifier::external_body]
fn split_once_space<'a>(s: &'a str) -> (cut: Option<(&'a str, &'a str)>)
    ensures
        cut is None ==> !s@.contains(' '),
        cut matches Some((head, tail)) ==> !head@.contains(' ') && s@ == head@ + seq![' '] + tail@,
{
    s.split_once(' ')
}

} // verus!
