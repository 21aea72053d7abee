use tt::export::export;
use tt::{DateError, ParseError};

fn log(lines: &[&str]) -> Vec<String> {
    lines.iter().map(|line| line.to_string()).collect()
}

#[test]
fn export_of_one_entry() {
    assert_eq!(
        export(&log(&["2021-07-03T10:00:00Z 2021-07-03T13:00:00Z writing"])),
        Ok("i 2021-07-03 10:00:00+0000 writing\no 2021-07-03 13:00:00+0000".to_string())
    );
}

#[test]
fn export_of_no_entries_is_empty() {
    assert_eq!(export(&log(&[])), Ok(String::new()));
}

#[test]
fn export_joins_the_blocks_in_file_order() {
    assert_eq!(
        export(&log(&[
            "2021-07-03T10:00:00Z 2021-07-03T13:00:00Z writing",
            "2021-07-04T09:30:00+02:00 2021-07-04T08:00:00.5Z Time Tracker",
            "2021-07-02T00:00:00Z 2021-07-02T00:00:01Z ",
        ])),
        Ok("i 2021-07-03 10:00:00+0000 writing\no 2021-07-03 13:00:00+0000\n\
            i 2021-07-04 07:30:00+0000 Time Tracker\no 2021-07-04 08:00:00+0000\n\
            i 2021-07-02 00:00:00+0000 \no 2021-07-02 00:00:01+0000"
            .to_string())
    );
}

#[test]
fn export_fails_with_the_first_bad_line() {
    assert_eq!(
        export(&log(&["2021-07-03T10:00:00Z 2021-07-03T13:00:00Z writing", "", "x y z"])),
        Err(ParseError::MissingStart)
    );
    assert_eq!(
        export(&log(&["2021-07-03T10:00:00Z 2021-07-03T13:00:00Z writing", "x y z", ""])),
        Err(ParseError::DateParseError(DateError::Invalid))
    );
    assert_eq!(
        export(&log(&["2021-07-03T10:00:00Z writing"])),
        Err(ParseError::MissingStop)
    );
    assert_eq!(
        export(&log(&["2021-07-03T10:00:00Z 2021-07-03T13:00:00Zz writing"])),
        Err(ParseError::DateParseError(DateError::TooLong))
    );
}
