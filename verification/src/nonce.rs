//! Clock readings, and the nonce that makes each transaction header unique.

use crate::dates::{all_decimal_digits, digits_value, is_decimal_digit};
use crate::hex::{hex_digit, hex_digit_of};
use std::time::{Duration, SystemTime, SystemTimeError, UNIX_EPOCH};
use vstd::prelude::*;
use vstd::string::*;

verus! {

/// Nanoseconds in one second: the sub-second part of a reading is below it.
pub const NANOS_PER_SEC: u32 = 1_000_000_000;

/// The decimal digits of a number, without leading zeros.
pub open spec fn decimal(n: nat) -> Seq<char>
    decreases n,
{
    if n < 10 {
        seq![hex_digit(n as int)]
    } else {
        decimal(n / 10).push(hex_digit((n % 10) as int))
    }
}

/// Number of digits that the nanoseconds of a reading are written with.
pub const NANOS_DIGITS: usize = 9;

/// As many zeros as `count` says.
pub open spec fn zeros(count: nat) -> Seq<char> {
    Seq::new(count, |i: int| '0')
}

/// The decimal digits of a number, with as many zeros before them as it
/// takes to make `width` digits.
pub open spec fn padded_decimal(n: nat, width: nat) -> Seq<char> {
    let digits = decimal(n);
    if digits.len() >= width {
        digits
    } else {
        zeros((width - digits.len()) as nat) + digits
    }
}

/// The nonce for a clock reading: the decimal digits of the seconds, then
/// the nanoseconds as nine digits, so that the text shows where the
/// seconds end.
pub open spec fn nonce_text(secs: u64, nanos: u32) -> Seq<char> {
    decimal(secs as nat) + padded_decimal(nanos as nat, NANOS_DIGITS as nat)
}

/// The digits that stand before the last ones written: none once nothing
/// is left of the number.
spec fn leading(rest: nat) -> Seq<char> {
    if rest == 0 {
        Seq::empty()
    } else {
        decimal(rest)
    }
}

/// A sequence read from its end.
spec fn backwards(s: Seq<char>) -> Seq<char> {
    Seq::new(s.len(), |i: int| s[s.len() - 1 - i])
}

/// Appends the decimal digits of `n` to `out`.
pub fn push_decimal(out: &mut String, n: u64)
    ensures
        final(out)@ == old(out)@ + decimal(n as nat),
{
    let mut digits: Vec<char> = Vec::new();
    digits.push(hex_digit_of((n % 10) as u8));
    let mut rest: u64 = n / 10;
    assert(decimal(n as nat) =~= leading(rest as nat) + backwards(digits@));
    while rest > 0
        invariant
            digits@.len() > 0,
            decimal(n as nat) == leading(rest as nat) + backwards(digits@),
        decreases rest,
    {
        let ghost before = digits@;
        let ghost digit = hex_digit((rest % 10) as int);
        digits.push(hex_digit_of((rest % 10) as u8));
        assert(backwards(digits@) =~= seq![digit] + backwards(before));
        assert(leading(rest as nat) =~= leading((rest / 10) as nat) + seq![digit]);
        rest = rest / 10;
        assert(decimal(n as nat) =~= leading(rest as nat) + backwards(digits@));
    }
    let mut i: usize = digits.len();
    assert(out@ + backwards(digits@).subrange(0, 0) =~= out@);
    while i > 0
        invariant
            i <= digits.len(),
            out@ == old(out)@ + backwards(digits@).subrange(0, digits.len() - i),
        decreases i,
    {
        i = i - 1;
        out.push(digits[i]);
        assert(out@ =~= old(out)@ + backwards(digits@).subrange(0, digits.len() - i));
    }
    assert(backwards(digits@).subrange(0, digits.len() as int) =~= backwards(digits@));
    assert(leading(0) + backwards(digits@) =~= backwards(digits@));
}

/// Appends the decimal digits of `n` to `out`, with zeros before them
/// where they are fewer than `width`.
pub fn push_padded_decimal(out: &mut String, n: u64, width: usize)
    ensures
        final(out)@ == old(out)@ + padded_decimal(n as nat, width as nat),
{
    let mut digits = String::new();
    push_decimal(&mut digits, n);
    assert(digits@ =~= decimal(n as nat));
    let len = digits.as_str().unicode_len();
    let mut count: usize = len;
    assert(out@ + zeros(0) =~= out@);
    while count < width
        invariant
            len <= count,
            len < width ==> count <= width,
            len >= width ==> count == len,
            len == digits@.len(),
            digits@ == decimal(n as nat),
            out@ == old(out)@ + zeros((count - len) as nat),
        decreases width - count,
    {
        out.push('0');
        count = count + 1;
        assert(out@ =~= old(out)@ + zeros((count - len) as nat));
    }
    let ghost padding = zeros((count - len) as nat);
    assert(padding + digits@ =~= padded_decimal(n as nat, width as nat));
    out.append(digits.as_str());
    assert(out@ =~= old(out)@ + (padding + digits@));
}

/// The nonce for the clock reading of `secs` seconds and `nanos`
/// nanoseconds.
pub fn nonce_from(secs: u64, nanos: u32) -> (nonce: String)
    ensures
        nonce@ == nonce_text(secs, nanos),
        nonce@.len() > NANOS_DIGITS,
        all_decimal_digits(nonce@),
{
    let mut nonce = String::new();
    push_decimal(&mut nonce, secs);
    push_padded_decimal(&mut nonce, nanos as u64, NANOS_DIGITS);
    proof {
        lemma_nonce_text_is_digits(secs, nanos);
    }
    nonce
}

/// Ten to the power of `exponent`.
pub open spec fn pow10(exponent: nat) -> nat
    decreases exponent,
{
    if exponent == 0 {
        1
    } else {
        10 * pow10((exponent - 1) as nat)
    }
}

/// The decimal digits of a number are decimal digits, there is at least
/// one of them, and their value is the number.
pub proof fn lemma_decimal_is_digits(n: nat)
    ensures
        decimal(n).len() > 0,
        all_decimal_digits(decimal(n)),
        digits_value(decimal(n)) == n,
    decreases n,
{
    let digit = hex_digit((n % 10) as int);
    assert(is_decimal_digit(digit) && digit as u32 - 48 == n % 10);
    assert(digits_value(decimal(n)) == digits_value(decimal(n).drop_last()) * 10 + (decimal(
        n,
    ).last() as u32 - 48));
    if n < 10 {
        assert(decimal(n).drop_last() =~= Seq::<char>::empty());
        assert(digits_value(Seq::<char>::empty()) == 0);
        assert(decimal(n).last() == digit);
    } else {
        lemma_decimal_is_digits(n / 10);
        assert(decimal(n).drop_last() =~= decimal(n / 10));
        assert(decimal(n).last() == digit);
        assert forall|i: int| 0 <= i < decimal(n).len() implies is_decimal_digit(
            #[trigger] decimal(n)[i],
        ) by {
            if i < decimal(n / 10).len() {
                assert(decimal(n)[i] == decimal(n / 10)[i]);
            }
        }
    }
}

/// A number below ten to the power of `count` has at most `count` digits.
pub proof fn lemma_decimal_length(n: nat, count: nat)
    requires
        count > 0,
        n < pow10(count),
    ensures
        decimal(n).len() <= count,
    decreases count,
{
    if n >= 10 {
        assert(pow10(1) == 10) by {
            reveal_with_fuel(pow10, 2);
        }
        assert(count > 1);
        lemma_decimal_length(n / 10, (count - 1) as nat);
    }
}

/// Zeros before digits do not change their value.
pub proof fn lemma_zeros_keep_value(count: nat, digits: Seq<char>)
    ensures
        digits_value(zeros(count) + digits) == digits_value(digits),
        all_decimal_digits(digits) ==> all_decimal_digits(zeros(count) + digits),
    decreases digits.len(), count,
{
    let all = zeros(count) + digits;
    if digits.len() > 0 {
        assert(all.drop_last() =~= zeros(count) + digits.drop_last());
        assert(all.last() == digits.last());
        lemma_zeros_keep_value(count, digits.drop_last());
    } else if count > 0 {
        assert(all.drop_last() =~= zeros((count - 1) as nat) + digits);
        assert(all.last() == '0');
        lemma_zeros_keep_value((count - 1) as nat, digits);
    } else {
        assert(all =~= digits);
    }
    if all_decimal_digits(digits) {
        assert forall|i: int| 0 <= i < all.len() implies is_decimal_digit(#[trigger] all[i]) by {
            if i >= count {
                assert(all[i] == digits[i - count]);
            }
        }
    }
}

/// The text of a nonce holds decimal digits alone, and more than nine of
/// them.
pub proof fn lemma_nonce_text_is_digits(secs: u64, nanos: u32)
    ensures
        nonce_text(secs, nanos).len() > NANOS_DIGITS,
        all_decimal_digits(nonce_text(secs, nanos)),
{
    let seconds = decimal(secs as nat);
    let fraction = padded_decimal(nanos as nat, NANOS_DIGITS as nat);
    lemma_decimal_is_digits(secs as nat);
    lemma_decimal_is_digits(nanos as nat);
    lemma_zeros_keep_value((NANOS_DIGITS - decimal(nanos as nat).len()) as nat, decimal(nanos as nat));
    assert(all_decimal_digits(fraction));
    assert(fraction.len() >= NANOS_DIGITS);
    assert forall|i: int| 0 <= i < (seconds + fraction).len() implies is_decimal_digit(
        #[trigger] (seconds + fraction)[i],
    ) by {
        if i < seconds.len() {
            assert((seconds + fraction)[i] == seconds[i]);
        } else {
            assert((seconds + fraction)[i] == fraction[i - seconds.len()]);
        }
    }
}

/// The nonce keeps clock readings apart: two readings with the same nonce
/// text have the same seconds and the same nanoseconds.
pub proof fn lemma_nonce_tells_readings_apart(
    first_secs: u64,
    first_nanos: u32,
    second_secs: u64,
    second_nanos: u32,
)
    requires
        first_nanos < NANOS_PER_SEC,
        second_nanos < NANOS_PER_SEC,
        nonce_text(first_secs, first_nanos) == nonce_text(second_secs, second_nanos),
    ensures
        first_secs == second_secs,
        first_nanos == second_nanos,
{
    let first_seconds = decimal(first_secs as nat);
    let second_seconds = decimal(second_secs as nat);
    let first_fraction = padded_decimal(first_nanos as nat, NANOS_DIGITS as nat);
    let second_fraction = padded_decimal(second_nanos as nat, NANOS_DIGITS as nat);
    assert(pow10(9) == 1_000_000_000) by {
        reveal_with_fuel(pow10, 10);
    }
    lemma_decimal_length(first_nanos as nat, 9);
    lemma_decimal_length(second_nanos as nat, 9);
    assert(first_fraction.len() == 9);
    assert(second_fraction.len() == 9);
    let first = first_seconds + first_fraction;
    let second = second_seconds + second_fraction;
    assert(first == nonce_text(first_secs, first_nanos));
    assert(second == nonce_text(second_secs, second_nanos));
    assert(first.len() == first_seconds.len() + 9);
    assert(second.len() == second_seconds.len() + 9);
    assert(first_seconds.len() == second_seconds.len());
    assert(first_seconds =~= first.subrange(0, first_seconds.len() as int));
    assert(second_seconds =~= second.subrange(0, second_seconds.len() as int));
    assert(first_fraction =~= first.subrange(first_seconds.len() as int, first.len() as int));
    assert(second_fraction =~= second.subrange(second_seconds.len() as int, second.len() as int));
    lemma_decimal_is_digits(first_secs as nat);
    lemma_decimal_is_digits(second_secs as nat);
    lemma_decimal_is_digits(first_nanos as nat);
    lemma_decimal_is_digits(second_nanos as nat);
    lemma_zeros_keep_value(
        (9 - decimal(first_nanos as nat).len()) as nat,
        decimal(first_nanos as nat),
    );
    lemma_zeros_keep_value(
        (9 - decimal(second_nanos as nat).len()) as nat,
        decimal(second_nanos as nat),
    );
}

/// `Duration::as_secs` gives the whole seconds of a span of time. Nothing
/// is claimed of the number.
pub assume_specification[ Duration::as_secs ](duration: &Duration) -> (secs: u64)
;

/// `Duration::subsec_nanos` gives what a span of time holds beyond its
/// whole seconds, in nanoseconds: a fraction of a second.
pub assume_specification[ Duration::subsec_nanos ](duration: &Duration) -> (nanos: u32)
    ensures
        nanos < NANOS_PER_SEC,
;

/// A reading of the system clock.
#[verifier::external_type_specification]
#[verifier::external_body]
pub struct ExSystemTime(SystemTime);

/// What `SystemTime::duration_since` reports when the later time stands
/// before the earlier one.
#[verifier::external_type_specification]
#[verifier::external_body]
pub struct ExSystemTimeError(SystemTimeError);

/// `SystemTime::now` reads the system clock. Nothing is claimed of the
/// reading.
pub assume_specification[ SystemTime::now ]() -> (now: SystemTime)
;

/// `SystemTime::duration_since` measures the time from `earlier` to
/// `time`, and reports an error when `earlier` is the later one. Nothing
/// is claimed of the result.
pub assume_specification[ SystemTime::duration_since ](
    time: &SystemTime,
    earlier: SystemTime,
) -> (elapsed: Result<Duration, SystemTimeError>)
;

/// `SystemTimeError::duration` gives the time by which the later reading
/// stands before the earlier one. Nothing is claimed of the span.
pub assume_specification[ SystemTimeError::duration ](error: &SystemTimeError) -> (until: Duration)
;

/// The constant `std::time::UNIX_EPOCH`: the point that the system clock
/// counts from. Nothing is claimed of it.
#[verifier::external_body]
fn unix_epoch() -> SystemTime {
    UNIX_EPOCH
}

/// The time between the epoch of the system clock and a fresh reading of
/// it: `Ok` when the clock stands at or after the epoch, `Err` when it
/// stands before it.
fn since_epoch() -> Result<Duration, Duration> {
    match SystemTime::now().duration_since(unix_epoch()) {
        Ok(elapsed) => Ok(elapsed),
        Err(error) => Err(error.duration()),
    }
}

/// Whether `nonce` is the nonce of some clock reading.
pub open spec fn is_nonce(nonce: Seq<char>) -> bool {
    exists|secs: u64, nanos: u32| nanos < NANOS_PER_SEC && nonce == nonce_text(secs, nanos)
}

/// A nonce is never empty.
pub proof fn lemma_nonce_is_not_empty(nonce: Seq<char>)
    requires
        is_nonce(nonce),
    ensures
        nonce.len() > 0,
{
    let (secs, nanos) = choose|secs: u64, nanos: u32|
        nanos < NANOS_PER_SEC && nonce == nonce_text(secs, nanos);
    lemma_nonce_text_is_digits(secs, nanos);
}

/// Creates a nonce appropriate for a transaction header, from a fresh
/// reading of the system clock against its epoch: the seconds and the
/// nanoseconds that lie between the two.
pub fn create_nonce() -> (nonce: String)
    ensures
        is_nonce(nonce@),
        nonce@.len() > NANOS_DIGITS,
        all_decimal_digits(nonce@),
{
    let reading = match since_epoch() {
        Ok(elapsed) => elapsed,
        Err(until) => until,
    };
    nonce_from(reading.as_secs(), reading.subsec_nanos())
}

/// The seconds that have passed since the epoch of the system clock, or
/// `None` when the clock stands before it.
pub fn current_epoch_time() -> Option<u64> {
    match since_epoch() {
        Ok(elapsed) => Some(elapsed.as_secs()),
        Err(_) => None,
    }
}

} // verus!
