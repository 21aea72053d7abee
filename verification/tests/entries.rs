use chrono::{DateTime, Utc};
use std::str::FromStr;
use tt::{DateError, Entry, ParseError, RunningEntry, Timestamp};

fn at(text: &str) -> Timestamp {
    let moment: DateTime<Utc> = DateTime::from_str(text).unwrap();
    Timestamp::new(moment.timestamp(), moment.timestamp_subsec_nanos()).unwrap()
}

fn entry(start: &str, stop: &str, account: &str) -> Entry {
    Entry { start: at(start), stop: at(stop), account: account.to_string(), description: None }
}

fn running(start: &str, account: &str) -> RunningEntry {
    RunningEntry { start: at(start), account: account.to_string(), description: None }
}

#[test]
fn format_entry_as_timeclock() {
    let timeclock = Entry {
        start: at("2021-07-03T10:00:00Z"),
        stop: at("2021-07-03T13:00:00Z"),
        account: "Time Tracker".to_string(),
        description: None,
    }
    .format_as_timeclock();

    assert_eq!(
        timeclock,
        "i 2021-07-03 10:00:00+0000 Time Tracker\no 2021-07-03 13:00:00+0000"
    );
}

#[test]
fn display_entry() {
    let entry = Entry {
        start: at("2021-07-03T10:00:00Z"),
        stop: at("2021-07-03T13:00:00Z"),
        account: "Time Tracker".to_string(),
        description: None,
    };

    assert_eq!(
        entry.to_string(),
        "2021-07-03T10:00:00Z 2021-07-03T13:00:00Z Time Tracker"
    )
}

#[test]
fn parse_entry() {
    let entry = Entry::from_str("2021-07-03T10:00:00Z 2021-07-03T13:00:00Z Time Tracker").unwrap();

    assert_eq!(
        entry,
        Entry {
            start: at("2021-07-03T10:00:00Z"),
            stop: at("2021-07-03T13:00:00Z"),
            account: "Time Tracker".to_string(),
            description: None,
        }
    );
}

#[test]
fn display_running_entry() {
    let entry = RunningEntry {
        start: at("2021-07-03T10:00:00Z"),
        account: "Time Tracker".to_string(),
        description: None,
    };

    assert_eq!(entry.to_string(), "2021-07-03T10:00:00Z Time Tracker");
}

#[test]
fn parse_running_entry() {
    let entry = RunningEntry::from_str("2021-07-03T10:00:00Z Time Tracker").unwrap();

    assert_eq!(
        entry,
        RunningEntry {
            start: at("2021-07-03T10:00:00Z"),
            account: "Time Tracker".to_string(),
            description: None,
        }
    );
}

#[test]
fn entry_is_read_back_from_its_line() {
    for account in ["writing", "Time Tracker", "", " ", "a  b ", "tab\there", "späti ☕"] {
        for (start, stop) in [
            ("2021-07-03T10:00:00Z", "2021-07-03T13:00:00Z"),
            ("0000-01-01T00:00:00Z", "9999-12-31T23:59:59Z"),
            ("-262143-01-01T00:00:00Z", "+262142-12-31T23:59:59Z"),
            ("-0001-12-31T23:59:59Z", "+10000-01-01T00:00:00Z"),
            ("2016-12-31T23:59:60Z", "2017-01-01T00:00:00Z"),
            ("2021-07-03T13:00:00Z", "2021-07-03T10:00:00Z"),
        ] {
            let written = entry(start, stop, account);
            assert_eq!(Entry::from_str(&written.to_string()), Ok(written));
        }
    }
}

#[test]
fn running_entry_is_read_back_from_its_line() {
    for account in ["writing", "Time Tracker", "", " ", "a  b ", "späti ☕"] {
        for start in [
            "2021-07-03T10:00:00Z", "0000-01-01T00:00:00Z", "9999-12-31T23:59:59Z",
            "2016-12-31T23:59:60Z", "-262143-01-01T00:00:00Z", "+262142-12-31T23:59:59Z",
        ] {
            let written = running(start, account);
            assert_eq!(RunningEntry::from_str(&written.to_string()), Ok(written));
        }
    }
}

#[test]
fn description_is_not_written() {
    let mut described = entry("2021-07-03T10:00:00Z", "2021-07-03T13:00:00Z", "writing");
    described.description = Some("chapter two".to_string());
    assert_eq!(described.to_string(), "2021-07-03T10:00:00Z 2021-07-03T13:00:00Z writing");
    assert_eq!(
        described.format_as_timeclock(),
        "i 2021-07-03 10:00:00+0000 writing\no 2021-07-03 13:00:00+0000"
    );
    let read = Entry::from_str(&described.to_string()).unwrap();
    assert_eq!(read.description, None);
    assert_eq!(read, entry("2021-07-03T10:00:00Z", "2021-07-03T13:00:00Z", "writing"));

    let mut busy = running("2021-07-03T10:00:00Z", "writing");
    busy.description = Some("chapter two".to_string());
    assert_eq!(busy.to_string(), "2021-07-03T10:00:00Z writing");
    assert_eq!(RunningEntry::from_str(&busy.to_string()).unwrap().description, None);
}

#[test]
fn part_of_a_second_is_not_written() {
    let written = entry("2021-07-03T10:00:00.5Z", "2021-07-03T13:00:00.25Z", "writing");
    assert_eq!(written.to_string(), "2021-07-03T10:00:00Z 2021-07-03T13:00:00Z writing");
    let read = Entry::from_str(&written.to_string()).unwrap();
    assert_ne!(read, written);
    assert_eq!(read, entry("2021-07-03T10:00:00Z", "2021-07-03T13:00:00Z", "writing"));
}

#[test]
fn entry_reads_what_chrono_reads() {
    let read = Entry::from_str("2021-07-03T12:00:00+02:00 2021-07-03t13:00:00.5z a b  c").unwrap();
    assert_eq!(read.start, at("2021-07-03T10:00:00Z"));
    assert_eq!(read.stop, at("2021-07-03T13:00:00.5Z"));
    assert_eq!(read.account, "a b  c");
    assert_eq!(read.description, None);
}

#[test]
fn account_is_all_that_follows() {
    let read = Entry::from_str("2021-07-03T10:00:00Z 2021-07-03T13:00:00Z ").unwrap();
    assert_eq!(read.account, "");
    let read = Entry::from_str("2021-07-03T10:00:00Z 2021-07-03T13:00:00Z  two  spaces ").unwrap();
    assert_eq!(read.account, " two  spaces ");
    let read = RunningEntry::from_str("2021-07-03T10:00:00Z ").unwrap();
    assert_eq!(read.account, "");
    let read = RunningEntry::from_str("2021-07-03T10:00:00Z  x y").unwrap();
    assert_eq!(read.account, " x y");
}

#[test]
fn entry_without_a_space_misses_its_start() {
    assert_eq!(Entry::from_str(""), Err(ParseError::MissingStart));
    assert_eq!(Entry::from_str("2021-07-03T10:00:00Z"), Err(ParseError::MissingStart));
    assert_eq!(Entry::from_str("nonsense"), Err(ParseError::MissingStart));
    assert_eq!(RunningEntry::from_str(""), Err(ParseError::MissingStart));
    assert_eq!(RunningEntry::from_str("2021-07-03T10:00:00Z"), Err(ParseError::MissingStart));
}

#[test]
fn entry_with_one_space_misses_its_stop() {
    assert_eq!(
        Entry::from_str("2021-07-03T10:00:00Z 2021-07-03T13:00:00Z"),
        Err(ParseError::MissingStop)
    );
    assert_eq!(Entry::from_str(" "), Err(ParseError::MissingStop));
    assert_eq!(Entry::from_str("nonsense more"), Err(ParseError::MissingStop));
}

#[test]
fn entry_with_a_bad_date_is_refused() {
    assert_eq!(
        Entry::from_str("yesterday 2021-07-03T13:00:00Z writing"),
        Err(ParseError::DateParseError(DateError::Invalid))
    );
    assert_eq!(
        Entry::from_str("2021-07-03T10:00:00Z 2021-07-03 writing"),
        Err(ParseError::DateParseError(DateError::TooShort))
    );
    assert_eq!(
        Entry::from_str("2021-07-03T10:00:00Z  writing"),
        Err(ParseError::DateParseError(DateError::TooShort))
    );
    assert_eq!(
        Entry::from_str("2021-13-03T10:00:00Z 2021-07-03T13:00:00Zx writing"),
        Err(ParseError::DateParseError(DateError::OutOfRange))
    );
    assert_eq!(
        Entry::from_str("2021-07-03T10:00:00Z 2021-07-03T13:00:00Zx writing"),
        Err(ParseError::DateParseError(DateError::TooLong))
    );
    assert_eq!(
        RunningEntry::from_str("+262142-12-31T23:59:59-01:00 writing"),
        Err(ParseError::DateParseError(DateError::Impossible))
    );
    assert_eq!(
        RunningEntry::from_str(" writing"),
        Err(ParseError::DateParseError(DateError::TooShort))
    );
}

#[test]
fn missing_fields_come_before_bad_dates() {
    assert_eq!(Entry::from_str("yesterday today"), Err(ParseError::MissingStop));
    assert_eq!(Entry::from_str("yesterday"), Err(ParseError::MissingStart));
}

#[test]
fn entry_from_fields_takes_the_first_error() {
    let start = Timestamp::from_rfc3339("2021-07-03T10:00:00Z");
    let stop = Timestamp::from_rfc3339("2021-07-03T13:00:00Z");
    assert_eq!(
        Entry::from_fields(start, stop, "writing"),
        Ok(entry("2021-07-03T10:00:00Z", "2021-07-03T13:00:00Z", "writing"))
    );
    assert_eq!(
        Entry::from_fields(Err(DateError::Invalid), stop, "writing"),
        Err(ParseError::DateParseError(DateError::Invalid))
    );
    assert_eq!(
        Entry::from_fields(start, Err(DateError::TooLong), "writing"),
        Err(ParseError::DateParseError(DateError::TooLong))
    );
    assert_eq!(
        Entry::from_fields(Err(DateError::Invalid), Err(DateError::TooLong), "writing"),
        Err(ParseError::DateParseError(DateError::Invalid))
    );
    assert_eq!(
        RunningEntry::from_fields(start, "writing"),
        Ok(running("2021-07-03T10:00:00Z", "writing"))
    );
    assert_eq!(
        RunningEntry::from_fields(Err(DateError::OutOfRange), "writing"),
        Err(ParseError::DateParseError(DateError::OutOfRange))
    );
}

#[test]
fn parse_error_messages() {
    assert_eq!(ParseError::MissingStart.to_string(), "missing start date");
    assert_eq!(ParseError::MissingStop.to_string(), "missing stop date");
    assert_eq!(
        ParseError::DateParseError(DateError::Invalid).to_string(),
        "input contains invalid characters"
    );
    assert_eq!(ParseError::from(DateError::TooShort), ParseError::DateParseError(DateError::TooShort));
}

#[test]
fn date_error_messages_are_those_of_chrono() {
    for (text, kind) in [
        ("2021-13-03T10:00:00Z", DateError::OutOfRange),
        ("+262142-12-31T23:59:59-01:00", DateError::Impossible),
        ("x", DateError::Invalid),
        ("", DateError::TooShort),
        ("2021-07-03T10:00:00Zx", DateError::TooLong),
    ] {
        let theirs = DateTime::<Utc>::from_str(text).unwrap_err();
        assert_eq!(Timestamp::from_rfc3339(text), Err(kind));
        assert_eq!(kind.to_string(), theirs.to_string());
    }
    assert_eq!(DateError::OutOfRange.to_string(), "input is out of range");
    assert_eq!(DateError::Impossible.to_string(), "no possible date and time matching input");
    assert_eq!(DateError::NotEnough.to_string(), "input is not enough for unique date and time");
    assert_eq!(DateError::Invalid.to_string(), "input contains invalid characters");
    assert_eq!(DateError::TooShort.to_string(), "premature end of input");
    assert_eq!(DateError::TooLong.to_string(), "trailing input");
    assert_eq!(DateError::BadFormat.to_string(), "bad or unsupported format string");
}
