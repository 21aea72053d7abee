//! The running entries of one file, in the order of its lines, and the
//! commands that read and change them.

use crate::entry::{Entry, EntryView};
use crate::error::{LogError, ParseError};
use crate::line::{
    join_lines, joined, lemma_read_all_each, lemma_read_all_stops, read_all, texts,
};
use crate::running::{RunningEntry, RunningEntryView};
use crate::timestamp::{Instant, Timestamp};
use vstd::prelude::*;
use vstd::string::*;

verus! {

/// The values of `entries`, each by its view.
pub open spec fn running_views(entries: Seq<RunningEntry>) -> Seq<RunningEntryView> {
    Seq::new(entries.len(), |i: int| entries[i]@)
}

/// The lines of `running`, one for each entry.
pub open spec fn running_lines(running: Seq<RunningEntryView>) -> Seq<Seq<char>> {
    Seq::new(running.len(), |i: int| running[i].line())
}

/// The entries of `running` as their lines keep them: each with its start on
/// its second and without a description.
pub open spec fn as_written(running: Seq<RunningEntryView>) -> Seq<RunningEntryView> {
    Seq::new(running.len(), |i: int| running[i].to_the_second().undescribed())
}

/// The index of the first entry of `running` with the account `account`, or
/// the length of `running` where no entry has it.
pub open spec fn first_with_account(running: Seq<RunningEntryView>, account: Seq<char>) -> int
    decreases running.len(),
{
    if running.len() == 0 || running[0].account == account {
        0
    } else {
        1 + first_with_account(running.drop_first(), account)
    }
}

/// Whether an entry of `running` has the account `account`.
pub open spec fn is_running(running: Seq<RunningEntryView>, account: Seq<char>) -> bool {
    exists|i: int| 0 <= i < running.len() && #[trigger] running[i].account == account
}

/// Whether no two entries of `running` have the same account.
pub open spec fn distinct_accounts(running: Seq<RunningEntryView>) -> bool {
    forall|i: int, j: int|
        0 <= i < j < running.len() ==> #[trigger] running[i].account != #[trigger] running[j].account
}

/// What a file of running entries is read as: its entries in the order of
/// its lines or, where a line is refused, the error of the first such line.
pub open spec fn loaded(lines: Seq<Seq<char>>) -> Result<Seq<RunningEntryView>, ParseError> {
    read_all(lines, |line: Seq<char>| RunningEntryView::parsed(line))
}

/// What starting `account` at `now` gives beside `running`: the entry to add
/// behind the others, unless the account is running already.
pub open spec fn started(running: Seq<RunningEntryView>, account: Seq<char>, now: Instant) -> Result<
    RunningEntryView,
    LogError,
> {
    if is_running(running, account) {
        Err(LogError::DuplicateRunningEntry)
    } else {
        Ok(RunningEntryView { start: now, account, description: None })
    }
}

/// Which entry of `running` a stop takes: the first with the account where
/// one is named, the only entry where none is named.
pub open spec fn stop_index(running: Seq<RunningEntryView>, account: Option<Seq<char>>) -> Result<
    int,
    LogError,
> {
    if running.len() == 0 {
        Err(LogError::NoRunningEntries)
    } else {
        match account {
            Some(account) => if is_running(running, account) {
                Ok(first_with_account(running, account))
            } else {
                Err(LogError::AccountNotFound)
            },
            None => if running.len() == 1 {
                Ok(0)
            } else {
                Err(LogError::AmbiguousStop)
            },
        }
    }
}

/// The completed entry that a running one becomes when it stops at `now`.
pub open spec fn completed(entry: RunningEntryView, now: Instant) -> EntryView {
    EntryView {
        start: entry.start,
        stop: now,
        account: entry.account,
        description: entry.description,
    }
}

/// What stopping at `now` gives: the entry that the stop takes, completed,
/// and the other entries in their order.
pub open spec fn stopped(
    running: Seq<RunningEntryView>,
    account: Option<Seq<char>>,
    now: Instant,
) -> Result<(EntryView, Seq<RunningEntryView>), LogError> {
    match stop_index(running, account) {
        Err(e) => Err(e),
        Ok(i) => Ok((completed(running[i], now), running.remove(i))),
    }
}

/// The text of a file that holds `running`: the lines of the entries, a line
/// feed between each two.
pub open spec fn rendered(running: Seq<RunningEntryView>) -> Seq<char> {
    joined(running_lines(running))
}

/// The outcome of reading a file, with the values of the entries for the
/// entries.
pub open spec fn load_outcome(read: Result<Vec<RunningEntry>, ParseError>) -> Result<
    Seq<RunningEntryView>,
    ParseError,
> {
    match read {
        Ok(entries) => Ok(running_views(entries@)),
        Err(e) => Err(e),
    }
}

/// The outcome of a start, with the value of the entry for the entry.
pub open spec fn start_outcome(made: Result<RunningEntry, LogError>) -> Result<
    RunningEntryView,
    LogError,
> {
    match made {
        Ok(entry) => Ok(entry@),
        Err(e) => Err(e),
    }
}

/// The outcome of a stop, with the values of the entries for the entries.
pub open spec fn stop_outcome(outcome: Result<(Entry, Vec<RunningEntry>), LogError>) -> Result<
    (EntryView, Seq<RunningEntryView>),
    LogError,
> {
    match outcome {
        Ok((entry, rest)) => Ok((entry@, running_views(rest@))),
        Err(e) => Err(e),
    }
}

/// The text of an account that is named.
pub open spec fn account_view(account: Option<&str>) -> Option<Seq<char>> {
    match account {
        Some(account) => Some(account@),
        None => None,
    }
}

/// The first entry with an account is an entry with that account, none
/// before it has the account, and it lies in `running` exactly where the
/// account is running.
pub proof fn lemma_first_with_account(running: Seq<RunningEntryView>, account: Seq<char>)
    ensures
        0 <= first_with_account(running, account) <= running.len(),
        is_running(running, account) <==> first_with_account(running, account) < running.len(),
        first_with_account(running, account) < running.len() ==> running[first_with_account(
            running,
            account,
        )].account == account,
        forall|i: int|
            0 <= i < first_with_account(running, account) ==> (#[trigger] running[i]).account
                != account,
    decreases running.len(),
{
    if running.len() > 0 && running[0].account != account {
        let rest = running.drop_first();
        lemma_first_with_account(rest, account);
        assert forall|i: int| 0 <= i < first_with_account(running, account) implies (
        #[trigger] running[i]).account != account by {
            if i > 0 {
                assert(running[i] == rest[i - 1]);
            }
        }
    }
}

/// An account that was started cannot be started again: once the entry that
/// a start gave stands behind the others, a start of the same account fails
/// as a duplicate, whenever it comes.
pub proof fn lemma_start_twice(
    running: Seq<RunningEntryView>,
    account: Seq<char>,
    first: Instant,
    second: Instant,
)
    ensures
        started(running, account, first) matches Ok(entry) ==> started(
            running.push(entry),
            account,
            second,
        ) == Err::<RunningEntryView, LogError>(LogError::DuplicateRunningEntry),
{
    if let Ok(entry) = started(running, account, first) {
        let next = running.push(entry);
        assert(next[running.len() as int].account == account);
    }
}

/// A stop by account takes the first entry that has the account: where no
/// entry of `before` has it, the stop completes `entry` and leaves `before`
/// and `after` running, in their order.
pub proof fn lemma_stop_takes_first(
    before: Seq<RunningEntryView>,
    entry: RunningEntryView,
    after: Seq<RunningEntryView>,
    now: Instant,
)
    requires
        !is_running(before, entry.account),
    ensures
        stopped(before + seq![entry] + after, Some(entry.account), now) == Ok::<
            (EntryView, Seq<RunningEntryView>),
            LogError,
        >((completed(entry, now), before + after)),
{
    let running = before + seq![entry] + after;
    let at = before.len() as int;
    lemma_first_with_account(running, entry.account);
    assert(running[at].account == entry.account);
    assert(running.remove(at) =~= before + after);
}

/// A stop undoes a start: where `account` is not running, starting it and
/// then stopping it by name completes the entry that the start gave and
/// leaves running what was running before.
pub proof fn lemma_stop_undoes_start(
    running: Seq<RunningEntryView>,
    account: Seq<char>,
    start: Instant,
    stop: Instant,
)
    requires
        !is_running(running, account),
    ensures
        started(running, account, start) matches Ok(entry) && stopped(
            running.push(entry),
            Some(account),
            stop,
        ) == Ok::<(EntryView, Seq<RunningEntryView>), LogError>((completed(entry, stop), running)),
{
    let entry = RunningEntryView { start, account, description: None };
    lemma_stop_takes_first(running, entry, Seq::empty(), stop);
}

/// With nothing else running, a start and then a stop, with the account or
/// without, give one completed entry and leave nothing running. The entry
/// has the account, begins at the time of the start and ends at the time of
/// the stop; it does not end before it begins where the stop did not come
/// before the start.
pub proof fn lemma_start_then_stop(account: Seq<char>, start: Instant, stop: Instant)
    ensures
        started(Seq::empty(), account, start) matches Ok(entry) && {
            let done = completed(entry, stop);
            let nothing = Seq::<RunningEntryView>::empty();
            &&& stopped(seq![entry], Some(account), stop) == Ok::<
                (EntryView, Seq<RunningEntryView>),
                LogError,
            >((done, nothing))
            &&& stopped(seq![entry], None, stop) == Ok::<
                (EntryView, Seq<RunningEntryView>),
                LogError,
            >((done, nothing))
            &&& done.account == account
            &&& done.start == start
            &&& done.stop == stop
            &&& start.not_after(stop) ==> done.start.not_after(done.stop)
        },
{
    lemma_stop_undoes_start(Seq::empty(), account, start, stop);
}

/// With nothing running, every stop fails for want of a running entry,
/// whether it names an account or not.
pub proof fn lemma_stop_nothing_running(account: Option<Seq<char>>, now: Instant)
    ensures
        stopped(Seq::empty(), account, now) == Err::<(EntryView, Seq<RunningEntryView>), LogError>(
            LogError::NoRunningEntries,
        ),
{
}

/// With more than one entry running, a stop that names no account fails as
/// ambiguous.
pub proof fn lemma_stop_ambiguous(running: Seq<RunningEntryView>, now: Instant)
    requires
        running.len() > 1,
    ensures
        stopped(running, None, now) == Err::<(EntryView, Seq<RunningEntryView>), LogError>(
            LogError::AmbiguousStop,
        ),
{
}

/// With entries running and none of them for `account`, a stop of `account`
/// fails because the account is not found.
pub proof fn lemma_stop_account_not_found(
    running: Seq<RunningEntryView>,
    account: Seq<char>,
    now: Instant,
)
    requires
        running.len() > 0,
        !is_running(running, account),
    ensures
        stopped(running, Some(account), now) == Err::<(EntryView, Seq<RunningEntryView>), LogError>(
            LogError::AccountNotFound,
        ),
{
}

/// A start keeps the accounts distinct: where no two running entries have
/// the same account, none do once the entry that a start gave stands behind
/// them.
pub proof fn lemma_start_keeps_accounts_distinct(
    running: Seq<RunningEntryView>,
    account: Seq<char>,
    now: Instant,
)
    requires
        distinct_accounts(running),
    ensures
        started(running, account, now) matches Ok(entry) ==> distinct_accounts(
            running.push(entry),
        ),
{
}

/// A stop keeps the accounts distinct: where no two running entries have the
/// same account, none of those that go on running do, and none of them has
/// the account of the entry that was stopped.
pub proof fn lemma_stop_keeps_accounts_distinct(
    running: Seq<RunningEntryView>,
    account: Option<Seq<char>>,
    now: Instant,
)
    requires
        distinct_accounts(running),
    ensures
        stopped(running, account, now) matches Ok((entry, rest)) ==> distinct_accounts(rest)
            && !is_running(rest, entry.account),
{
    if let Some(name) = account {
        lemma_first_with_account(running, name);
    }
}

/// The index of the first entry of `running` with the account `account`.
pub fn find_account(running: &Vec<RunningEntry>, account: &str) -> (found: Option<usize>)
    ensures
        found is Some <==> is_running(running_views(running@), account@),
        found matches Some(i) ==> i < running.len() && i == first_with_account(
            running_views(running@),
            account@,
        ),
{
    let wanted = String::from_str(account);
    let ghost views = running_views(running@);
    let mut i: usize = 0;
    while i < running.len()
        invariant
            i <= running.len(),
            wanted@ == account@,
            views == running_views(running@),
            forall|j: int| 0 <= j < i ==> (#[trigger] views[j]).account != account@,
        decreases running.len() - i,
    {
        if running[i].account == wanted {
            proof {
                lemma_first_with_account(views, account@);
                assert(views[i as int].account == account@);
            }
            return Some(i);
        }
        i += 1;
    }
    None
}

/// Reads a file of running entries, one from each line. The first line that
/// is refused ends the reading.
pub fn load(lines: &Vec<String>) -> (read: Result<Vec<RunningEntry>, ParseError>)
    ensures
        load_outcome(read) == loaded(texts(lines@)),
{
    let ghost all = texts(lines@);
    let ghost read_line = |line: Seq<char>| RunningEntryView::parsed(line);
    let mut entries: Vec<RunningEntry> = Vec::new();
    let mut i: usize = 0;
    assert(running_views(entries@) =~= Seq::empty());
    while i < lines.len()
        invariant
            i <= lines.len(),
            all == texts(lines@),
            read_line == |line: Seq<char>| RunningEntryView::parsed(line),
            read_all(all.take(i as int), read_line) == Ok::<Seq<RunningEntryView>, ParseError>(
                running_views(entries@),
            ),
        decreases lines.len() - i,
    {
        let ghost before = running_views(entries@);
        assert(all.take(i + 1).drop_last() =~= all.take(i as int));
        match RunningEntry::from_str(lines[i].as_str()) {
            Err(e) => {
                proof {
                    lemma_read_all_stops(all, read_line, i + 1);
                }
                return Err(e);
            },
            Ok(entry) => {
                entries.push(entry);
                assert(running_views(entries@) =~= before.push(entry@));
            },
        }
        i += 1;
    }
    assert(all.take(lines.len() as int) =~= all);
    Ok(entries)
}

/// The lines that show the running entries of a file, in the order of the
/// file: each entry as it is written anew, not as the file has it.
pub fn list(lines: &Vec<String>) -> (shown: Result<Vec<String>, ParseError>)
    ensures
        match loaded(texts(lines@)) {
            Ok(running) => shown matches Ok(out) && texts(out@) == running_lines(running),
            Err(e) => shown == Err::<Vec<String>, ParseError>(e),
        },
{
    match load(lines) {
        Err(e) => Err(e),
        Ok(entries) => Ok(lines_of(&entries)),
    }
}

/// The lines of `running`, one for each entry. The entries are read back
/// from these lines, each with its start on its second and without its
/// description.
pub fn lines_of(running: &Vec<RunningEntry>) -> (lines: Vec<String>)
    ensures
        texts(lines@) == running_lines(running_views(running@)),
        loaded(texts(lines@)) == Ok::<Seq<RunningEntryView>, ParseError>(
            as_written(running_views(running@)),
        ),
{
    let ghost views = running_views(running@);
    let mut lines: Vec<String> = Vec::new();
    let mut i: usize = 0;
    while i < running.len()
        invariant
            i <= running.len(),
            lines.len() == i,
            views == running_views(running@),
            forall|j: int| 0 <= j < i ==> (#[trigger] lines@[j])@ == views[j].line(),
            forall|j: int|
                0 <= j < i ==> RunningEntryView::parsed(#[trigger] views[j].line()) == Ok::<
                    RunningEntryView,
                    ParseError,
                >(views[j].to_the_second().undescribed()),
        decreases running.len() - i,
    {
        lines.push(running[i].to_string());
        i += 1;
    }
    proof {
        lemma_read_all_each(
            running_lines(views),
            |line: Seq<char>| RunningEntryView::parsed(line),
            as_written(views),
        );
    }
    lines
}

/// Starts `account` at `now`: gives the entry to add behind `running`. It
/// fails where an entry of `running` has the account.
pub fn start(running: &Vec<RunningEntry>, account: &str, now: Timestamp) -> (made: Result<
    RunningEntry,
    LogError,
>)
    ensures
        start_outcome(made) == started(running_views(running@), account@, now@),
{
    match find_account(running, account) {
        Some(_) => Err(LogError::DuplicateRunningEntry),
        None => Ok(RunningEntry { start: now, account: String::from_str(account), description: None }),
    }
}

/// Stops an entry at `now`: gives the completed entry and the entries that
/// go on running, in their order. With an account it stops the first entry
/// that has it; without one it stops the only entry there is.
pub fn stop(running: Vec<RunningEntry>, account: Option<&str>, now: Timestamp) -> (outcome: Result<
    (Entry, Vec<RunningEntry>),
    LogError,
>)
    ensures
        stop_outcome(outcome) == stopped(running_views(running@), account_view(account), now@),
{
    let ghost before = running_views(running@);
    let mut rest = running;
    if rest.len() == 0 {
        return Err(LogError::NoRunningEntries);
    }
    let index: usize = match account {
        Some(account) => match find_account(&rest, account) {
            Some(i) => i,
            None => {
                return Err(LogError::AccountNotFound);
            },
        },
        None => {
            if rest.len() != 1 {
                return Err(LogError::AmbiguousStop);
            }
            0
        },
    };
    let taken = rest.remove(index);
    assert(running_views(rest@) =~= before.remove(index as int));
    let entry = Entry {
        start: taken.start,
        stop: now,
        account: taken.account,
        description: taken.description,
    };
    Ok((entry, rest))
}

/// The text of a file that holds `running`: one line for each entry, a line
/// feed between each two and none at the end.
pub fn render(running: &Vec<RunningEntry>) -> (text: String)
    ensures
        text@ == rendered(running_views(running@)),
{
    let lines = lines_of(running);
    join_lines(&lines)
}

} // verus!
