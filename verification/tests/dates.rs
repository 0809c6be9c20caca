use consensource_cli::dates::{
    date_to_epoch_time, epoch_seconds_from, parse_epoch_seconds, parse_u64, timestamp_as_u64,
};
use consensource_cli::error::CliError;

fn invalid(name: &str) -> Result<u64, CliError> {
    Err(CliError::UserError(format!(
        "{} date is invalid. Please provide time in seconds since Unix epoch",
        name
    )))
}

#[test]
fn seconds_since_the_epoch_are_read() {
    assert_eq!(parse_epoch_seconds("1546300800", "Approval"), Ok(1546300800));
    assert_eq!(parse_epoch_seconds("0", "Valid from"), Ok(0));
}

#[test]
fn other_texts_are_refused_by_name() {
    assert_eq!(parse_epoch_seconds("abc", "Approval"), invalid("Approval"));
    assert_eq!(parse_epoch_seconds("", "Valid from"), invalid("Valid from"));
    assert_eq!(parse_epoch_seconds("2019/01/01", "Valid to"), invalid("Valid to"));
    assert_eq!(parse_epoch_seconds("-5", "Valid to"), invalid("Valid to"));
    assert_eq!(parse_epoch_seconds("12.5", "Valid to"), invalid("Valid to"));
}

#[test]
fn both_readings_have_to_agree() {
    assert_eq!(epoch_seconds_from(true, Some(5), "Approval"), Ok(5));
    assert_eq!(epoch_seconds_from(false, Some(5), "Approval"), invalid("Approval"));
    assert_eq!(epoch_seconds_from(true, None, "Approval"), invalid("Approval"));
    assert_eq!(epoch_seconds_from(false, None, "Approval"), invalid("Approval"));
}

#[test]
fn dates_are_read_as_their_midnight() {
    assert_eq!(date_to_epoch_time("1970/01/01"), Some(0));
    assert_eq!(date_to_epoch_time("1970/01/02"), Some(86400));
    assert_eq!(date_to_epoch_time("2019/01/01"), Some(1546300800));
    assert_eq!(date_to_epoch_time("1969/12/31"), Some(u64::MAX - 86399));
    assert_eq!(date_to_epoch_time("2019-01-01"), None);
    assert_eq!(date_to_epoch_time("2019/13/01"), None);
    assert_eq!(date_to_epoch_time(""), None);
}

#[test]
fn timestamps_before_the_epoch_wrap_round() {
    assert_eq!(timestamp_as_u64(0), 0);
    assert_eq!(timestamp_as_u64(17), 17);
    assert_eq!(timestamp_as_u64(i64::MAX), i64::MAX as u64);
    assert_eq!(timestamp_as_u64(-1), u64::MAX);
    assert_eq!(timestamp_as_u64(-86400), (-86400i64) as u64);
    assert_eq!(timestamp_as_u64(i64::MIN), i64::MIN as u64);
}

#[test]
fn numbers_are_read_as_the_standard_library_reads_them() {
    let texts = [
        "0",
        "7",
        "007",
        "+5",
        "+0",
        "1546300800",
        "18446744073709551615",
        "18446744073709551616",
        "+18446744073709551615",
        "99999999999999999999999",
        "000000000000000000000000000001",
        "",
        "+",
        "-",
        "-5",
        "++5",
        "+-5",
        "5+",
        " 5",
        "5 ",
        "1_000",
        "12.5",
        "0x10",
        "abc",
        "\u{0665}",
        "1\u{0660}",
    ];
    for text in texts {
        assert_eq!(parse_u64(text), text.parse::<u64>().ok());
    }
    assert_eq!(parse_u64("18446744073709551615"), Some(u64::MAX));
    assert_eq!(parse_u64("18446744073709551616"), None);
    assert_eq!(parse_u64("+42"), Some(42));
    assert_eq!(parse_u64(""), None);
}
