use resend_router::instant::{after_secs, in_calendar, FIRST_INSTANT, LAST_INSTANT};
use resend_router::number::{parsed_int, written_int, written_nat, IntError};
use resend_router::text::{chars_of, lowered, same, space, text_of, trimmed, worded, CharClass};
use time::{Date, Month, OffsetDateTime, Time};

#[test]
fn white_space_is_that_of_unicode() {
    for n in 0..=0x10ffff_u32 {
        if let Some(c) = char::from_u32(n) {
            assert_eq!(space(c), c.is_whitespace(), "{n:x}");
        }
    }
}

#[test]
fn trimming_is_that_of_str() {
    for text in ["", " ", " a ", "\u{2003}a b\u{85}", "ab", "\n\t \u{3000}"] {
        let chars = chars_of(text);
        assert_eq!(text_of(trimmed(&chars, CharClass::Space)), text.trim());
    }
    for text in ["", "\"", "\"a\"b\"\"", "ab"] {
        let chars = chars_of(text);
        assert_eq!(text_of(trimmed(&chars, CharClass::Only('"'))), text.trim_matches('"'));
    }
}

#[test]
fn words_are_those_of_str() {
    for text in ["", "  ", "a", " a  b\tc ", "v1,x v1,y", "\u{2003}x\u{85}y"] {
        let own = worded(&chars_of(text));
        let wanted: Vec<&str> = text.split_whitespace().collect();
        assert_eq!(own, wanted);
    }
}

#[test]
fn small_letters_are_those_of_str() {
    for text in ["", "AbZ@[`{", "\u{c4}\u{e4}\u{130}", "EXAMPLE.com"] {
        assert_eq!(lowered(&chars_of(text)), text.to_ascii_lowercase());
    }
    assert!(same("abc", "abc"));
    assert!(!same("abc", "abd"));
}

const NUMBERS: [&str; 24] = [
    "", "+", "-", "0", "-0", "+0", "7", "-7", "+7", "007", "--1", "+-1", "1a", "a", " 1", "1 ",
    "2147483648", "-2147483649", "9223372036854775807", "9223372036854775808",
    "-9223372036854775808", "-9223372036854775809", "18446744073709551616",
    "99999999999999999999999999999999999999999999999999x",
];

fn outcome(result: Result<i128, IntError>) -> Result<i128, String> {
    match result {
        Ok(value) => Ok(value),
        Err(error) => Err(error.describe().to_string()),
    }
}

#[test]
fn numbers_read_as_std_reads_them() {
    for text in NUMBERS {
        assert_eq!(
            outcome(parsed_int(text, i64::MIN as i128, i64::MAX as i128)),
            text.parse::<i64>().map(|n| n as i128).map_err(|e| e.to_string()),
            "{text}"
        );
        assert_eq!(
            outcome(parsed_int(text, i32::MIN as i128, i32::MAX as i128)),
            text.parse::<i32>().map(|n| n as i128).map_err(|e| e.to_string()),
            "{text}"
        );
        assert_eq!(
            outcome(parsed_int(text, 0, u64::MAX as i128)),
            text.parse::<u64>().map(|n| n as i128).map_err(|e| e.to_string()),
            "{text}"
        );
        assert_eq!(
            outcome(parsed_int(text, 0, u32::MAX as i128)),
            text.parse::<u32>().map(|n| n as i128).map_err(|e| e.to_string()),
            "{text}"
        );
    }
    for text in ["4294967295a", "42949672960a", "2147483647x", "-2147483648x", "-21474836480x"] {
        assert_eq!(
            outcome(parsed_int(text, 0, u32::MAX as i128)),
            text.parse::<u32>().map(|n| n as i128).map_err(|e| e.to_string()),
            "{text}"
        );
        assert_eq!(
            outcome(parsed_int(text, i32::MIN as i128, i32::MAX as i128)),
            text.parse::<i32>().map(|n| n as i128).map_err(|e| e.to_string()),
            "{text}"
        );
    }
}

#[test]
fn number_errors_come_as_they_should() {
    assert_eq!(parsed_int("", -9, 9), Err(IntError::Empty));
    assert_eq!(parsed_int("x", -9, 9), Err(IntError::InvalidDigit));
    assert_eq!(parsed_int("10", -9, 9), Err(IntError::TooLarge));
    assert_eq!(parsed_int("-10", -9, 9), Err(IntError::TooSmall));
    assert_eq!(parsed_int("-9", -9, 9), Ok(-9));
}

#[test]
fn written_numbers_read_back() {
    for n in [0, 1, -1, 9, 10, -10, 1_700_000_000, i64::MAX, i64::MIN] {
        assert_eq!(written_int(n), n.to_string());
        assert_eq!(
            parsed_int(&written_int(n), i64::MIN as i128, i64::MAX as i128),
            Ok(n as i128)
        );
    }
    for n in [0, 9, 10, 404, u64::MAX] {
        assert_eq!(written_nat(n), n.to_string());
    }
}

#[test]
fn calendar_is_that_of_the_time_crate() {
    let first = Date::from_calendar_date(-9999, Month::January, 1)
        .unwrap()
        .with_time(Time::MIDNIGHT)
        .assume_utc();
    let last = Date::from_calendar_date(9999, Month::December, 31)
        .unwrap()
        .with_time(Time::from_hms_nano(23, 59, 59, 999_999_999).unwrap())
        .assume_utc();
    assert_eq!(first.unix_timestamp_nanos(), FIRST_INSTANT);
    assert_eq!(last.unix_timestamp_nanos(), LAST_INSTANT);
    assert!(OffsetDateTime::from_unix_timestamp_nanos(FIRST_INSTANT - 1).is_err());
    assert!(OffsetDateTime::from_unix_timestamp_nanos(LAST_INSTANT + 1).is_err());
    assert!(in_calendar(FIRST_INSTANT) && in_calendar(LAST_INSTANT));
    assert!(!in_calendar(FIRST_INSTANT - 1) && !in_calendar(LAST_INSTANT + 1));
}

#[test]
fn instants_move_by_seconds() {
    let now = OffsetDateTime::from_unix_timestamp(1_700_000_000).unwrap();
    let then = now + time::Duration::seconds(259_200);
    assert_eq!(after_secs(now.unix_timestamp_nanos(), 259_200), then.unix_timestamp_nanos());
    assert_eq!(after_secs(0, -1), -1_000_000_000);
}
