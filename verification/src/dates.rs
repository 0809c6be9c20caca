//! Points in time as commands give them: seconds since the epoch, or a
//! calendar date, read by the `chrono` crate.

use crate::error::{is_user_error, CliError};
use chrono::{NaiveDate, NaiveDateTime};
use vstd::prelude::*;
use vstd::string::*;

verus! {

/// The format under which a text is read as seconds since the epoch.
pub const EPOCH_SECONDS_FORMAT: &'static str = "%s";

/// The format under which a text is read as a calendar date.
pub const DATE_FORMAT: &'static str = "%Y/%m/%d";

/// Whether `chrono` reads a text as a number of seconds since the epoch.
pub uninterp spec fn is_epoch_seconds(text: Seq<char>) -> bool;

/// The seconds between the epoch and the midnight that begins the date
/// which `chrono` reads from a text written as year, month and day with
/// slashes between them, if it reads one.
pub uninterp spec fn midnight_of(text: Seq<char>) -> Option<i64>;

/// Asks `chrono::NaiveDateTime::parse_from_str` whether it reads `text`
/// under `format`. Trusted, for the format of seconds since the epoch
/// alone: the answer is a function of the text, named
/// [`is_epoch_seconds`].
#[verifier::external_body]
fn accepts_epoch_seconds(text: &str, format: &str) -> (accepted: bool)
    requires
        format@ == EPOCH_SECONDS_FORMAT@,
    ensures
        accepted == is_epoch_seconds(text@),
{
    NaiveDateTime::parse_from_str(text, format).is_ok()
}

/// Reads `text` with `chrono::NaiveDate::parse_from_str` under `format`
/// and gives the timestamp of the midnight that begins that day
/// (`NaiveDateTime::from`, `NaiveDateTime::and_utc`,
/// `DateTime::timestamp`). Trusted, for the format of calendar dates
/// alone: the result is a function of the text, named [`midnight_of`].
#[verifier::external_body]
fn midnight_timestamp(text: &str, format: &str) -> (seconds: Option<i64>)
    requires
        format@ == DATE_FORMAT@,
    ensures
        seconds == midnight_of(text@),
{
    match NaiveDate::parse_from_str(text, format) {
        Ok(date) => Some(NaiveDateTime::from(date).and_utc().timestamp()),
        Err(_) => None,
    }
}

/// Whether `c` is one of the ten decimal digits.
pub open spec fn is_decimal_digit(c: char) -> bool {
    48 <= c as u32 <= 57
}

/// Whether every character of `text` is a decimal digit.
pub open spec fn all_decimal_digits(text: Seq<char>) -> bool {
    forall|i: int| 0 <= i < text.len() ==> is_decimal_digit(#[trigger] text[i])
}

/// The number that decimal digits stand for.
pub open spec fn digits_value(digits: Seq<char>) -> int
    decreases digits.len(),
{
    if digits.len() == 0 {
        0
    } else {
        digits_value(digits.drop_last()) * 10 + (digits.last() as u32 - 48)
    }
}

/// A text without the plus sign that may stand before its digits.
pub open spec fn unsigned_part(text: Seq<char>) -> Seq<char> {
    if text.len() > 0 && text[0] == '+' {
        text.drop_first()
    } else {
        text
    }
}

/// The number that a text stands for: one or more decimal digits, with
/// or without a plus sign before them, whose value fits 64 bits.
pub open spec fn parsed_u64(text: Seq<char>) -> Option<u64> {
    let digits = unsigned_part(text);
    if digits.len() > 0 && all_decimal_digits(digits) && digits_value(digits) <= u64::MAX {
        Some(digits_value(digits) as u64)
    } else {
        None
    }
}

/// The value of decimal digits is no less than the value of the digits
/// that they begin with.
pub proof fn lemma_digits_value_grows(digits: Seq<char>, count: int)
    requires
        all_decimal_digits(digits),
        0 <= count <= digits.len(),
    ensures
        0 <= digits_value(digits.subrange(0, count)) <= digits_value(digits),
    decreases digits.len(),
{
    if count == digits.len() {
        assert(digits.subrange(0, count) =~= digits);
        if digits.len() > 0 {
            assert(is_decimal_digit(digits.last()));
            lemma_digits_value_grows(digits.drop_last(), count - 1);
        }
    } else {
        assert(is_decimal_digit(digits.last()));
        assert(digits.drop_last().subrange(0, count) =~= digits.subrange(0, count));
        lemma_digits_value_grows(digits.drop_last(), count);
    }
}

/// Reads `text` as a number: one or more decimal digits, with or without
/// a plus sign before them. `None` for any other text, and for a number
/// that does not fit 64 bits.
pub fn parse_u64(text: &str) -> (number: Option<u64>)
    ensures
        number == parsed_u64(text@),
{
    let len = text.unicode_len();
    let start: usize = if len > 0 && text.get_char(0) == '+' {
        1
    } else {
        0
    };
    let ghost digits = text@.subrange(start as int, len as int);
    assert(digits =~= unsigned_part(text@));
    if start >= len {
        return None;
    }
    let mut value: u64 = 0;
    let mut at: usize = start;
    assert(digits.subrange(0, 0) =~= Seq::<char>::empty());
    while at < len
        invariant
            start <= at <= len,
            len == text@.len(),
            digits == text@.subrange(start as int, len as int),
            digits == unsigned_part(text@),
            all_decimal_digits(digits.subrange(0, at - start)),
            value == digits_value(digits.subrange(0, at - start)),
        decreases len - at,
    {
        let code = text.get_char(at) as u32;
        assert(digits[at - start] == text@[at as int]);
        if code < 48 || code > 57 {
            assert(!is_decimal_digit(digits[at - start]));
            return None;
        }
        let digit: u64 = (code - 48) as u64;
        let ghost longer = digits.subrange(0, at - start + 1);
        assert(longer.drop_last() =~= digits.subrange(0, at - start));
        assert(longer.last() == digits[at - start]);
        if value > (u64::MAX - digit) / 10 {
            proof {
                assert(digits_value(longer) == value * 10 + digit);
                if all_decimal_digits(digits) {
                    lemma_digits_value_grows(digits, at - start + 1);
                }
            }
            return None;
        }
        value = value * 10 + digit;
        at = at + 1;
        assert(all_decimal_digits(digits.subrange(0, at - start))) by {
            assert forall|i: int| 0 <= i < at - start implies is_decimal_digit(
                #[trigger] digits.subrange(0, at - start)[i],
            ) by {
                if i < at - start - 1 {
                    assert(digits.subrange(0, at - start)[i] == digits.subrange(
                        0,
                        at - start - 1,
                    )[i]);
                }
            }
        }
    }
    assert(digits.subrange(0, at - start) =~= digits);
    Some(value)
}

/// The text of the error for a point in time that cannot be read; `name`
/// says which one it is.
pub open spec fn invalid_date_text(name: Seq<char>) -> Seq<char> {
    name + " date is invalid. Please provide time in seconds since Unix epoch"@
}

/// Whether `result` is what reading a point in time gives, when `accepted`
/// says whether the text is a number of seconds and `number` is the number
/// read from it: the number when both agree, the user error otherwise.
pub open spec fn reads_epoch_seconds(
    result: Result<u64, CliError>,
    accepted: bool,
    number: Option<u64>,
    name: Seq<char>,
) -> bool {
    match number {
        Some(seconds) if accepted => result == Ok::<u64, CliError>(seconds),
        _ => is_user_error(result, invalid_date_text(name)),
    }
}

/// Decides on a point in time from what was read of its text.
pub fn epoch_seconds_from(accepted: bool, number: Option<u64>, name: &str) -> (result: Result<
    u64,
    CliError,
>)
    ensures
        reads_epoch_seconds(result, accepted, number, name@),
{
    match number {
        Some(seconds) if accepted => Ok(seconds),
        _ => Err(
            CliError::UserError(
                String::from_str(name).concat(
                    " date is invalid. Please provide time in seconds since Unix epoch",
                ),
            ),
        ),
    }
}

/// Reads a point in time given in seconds since the epoch; `name` says
/// which one it is, for the error.
pub fn parse_epoch_seconds(text: &str, name: &str) -> (result: Result<u64, CliError>)
    ensures
        reads_epoch_seconds(result, is_epoch_seconds(text@), parsed_u64(text@), name@),
{
    let accepted = accepts_epoch_seconds(text, EPOCH_SECONDS_FORMAT);
    let number = parse_u64(text);
    epoch_seconds_from(accepted, number, name)
}

/// A timestamp as an unsigned number: itself from the epoch on, and
/// counted down from two to the power of sixty-four before it.
pub open spec fn unsigned_timestamp(seconds: i64) -> int {
    if seconds >= 0 {
        seconds as int
    } else {
        seconds + 0x1_0000_0000_0000_0000
    }
}

/// A timestamp as an unsigned number.
pub fn timestamp_as_u64(seconds: i64) -> (unsigned: u64)
    ensures
        unsigned == unsigned_timestamp(seconds),
{
    if seconds >= 0 {
        seconds as u64
    } else {
        u64::MAX - ((-(seconds + 1)) as u64)
    }
}

/// The timestamp of the midnight that begins the date `text`, written as
/// `YYYY/MM/DD`; `None` when the text is no such date.
pub fn date_to_epoch_time(text: &str) -> (result: Option<u64>)
    ensures
        match midnight_of(text@) {
            Some(seconds) => result matches Some(unsigned) && unsigned == unsigned_timestamp(
                seconds,
            ),
            None => result is None,
        },
{
    match midnight_timestamp(text, DATE_FORMAT) {
        Some(seconds) => Some(timestamp_as_u64(seconds)),
        None => None,
    }
}

} // verus!
