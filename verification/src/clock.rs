//! Readings of the clock.
use vstd::prelude::*;

use crate::text::{decimal_seq, digit_chars, opt_view};

verus! {

/// A point in time of the system clock; opaque here.
#[verifier::external_type_specification]
#[verifier::external_body]
pub struct ExSystemTime(std::time::SystemTime);

/// The decimal digit for `d`, from 0 to 9.
pub open spec fn digit_of(d: int) -> char {
    digit_chars()[d]
}

/// `n`, from 0 to 99, written with two digits.
pub open spec fn two_digit_text(n: int) -> Seq<char> {
    seq![digit_of(n / 10), digit_of(n % 10)]
}

/// A year as `%Y` writes it: four digits up to 9999, else `+` and its digits.
pub open spec fn year_text(year: int) -> Seq<char> {
    if year <= 9999 {
        seq![digit_of(year / 1000), digit_of(year / 100 % 10), digit_of(year / 10 % 10), digit_of(year % 10)]
    } else {
        seq!['+'] + decimal_seq(year as nat)
    }
}

/// A time written with the pattern `%Y%m%d-%H%M%S`.
pub open spec fn label_text(year: int, month: int, day: int, hour: int, minute: int, second: int) -> Seq<char> {
    year_text(year) + two_digit_text(month) + two_digit_text(day) + seq!['-'] + two_digit_text(hour)
        + two_digit_text(minute) + two_digit_text(second)
}

/// `t` is a UTC time from the Unix epoch on, written `YYYYmmdd-HHMMSS`.
pub open spec fn is_timestamp_label(t: Seq<char>) -> bool {
    exists|year: int, month: int, day: int, hour: int, minute: int, second: int|
        1970 <= year <= 262143 && 1 <= month <= 12 && 1 <= day <= 31 && 0 <= hour <= 23 && 0
            <= minute <= 59 && 0 <= second <= 60 && t == #[trigger] label_text(
            year,
            month,
            day,
            hour,
            minute,
            second,
        )
}

/// The latest instant, in milliseconds since the Unix epoch, that the library writes as a
/// label; it lies in the year 255479, well within the years that `chrono` holds.
pub const LAST_LABEL_MILLIS: i64 = 8_000_000_000_000_000;

/// The text that `chrono` writes for the instant `ms` milliseconds after the Unix epoch
/// with the pattern `%Y%m%d-%H%M%S`, where it holds that instant.
pub uninterp spec fn utc_label_of_millis(ms: i64) -> Option<Seq<char>>;

/// `DateTime::from_timestamp_millis`, written out through `DateTime::format` with
/// `pattern`. Only the pattern that the library uses is admitted, one that `chrono` writes
/// without error. The text is a function of `ms` alone. `chrono` holds every instant from
/// the epoch to `LAST_LABEL_MILLIS`, and for those the claim is what it documents of the
/// pattern: the year (from 1970 on) with at least four digits, then month, day, hour,
/// minute and second with two each, and a `-` before the hour. (The point in time passes
/// from one call to the other inside, as its type cannot be declared here.)
#[verifier::external_body]
fn utc_label_at(ms: i64, pattern: &str) -> (r: Option<String>)
    requires
        pattern@ == "%Y%m%d-%H%M%S"@,
    ensures
        opt_view(r) == utc_label_of_millis(ms),
        0 <= ms <= LAST_LABEL_MILLIS ==> r is Some && is_timestamp_label(r->0@),
{
    match chrono::DateTime::from_timestamp_millis(ms) {
        Some(t) => Some(t.format(pattern).to_string()),
        None => None,
    }
}

/// `SystemTime::now`: the current time of the system clock. Nothing is stated of it.
#[verifier::external_body]
fn system_now() -> std::time::SystemTime {
    std::time::SystemTime::now()
}

/// `SystemTime::duration_since` from the Unix epoch: the time elapsed since then, or
/// `None` where `t` lies before it. The point in time has no model here, so which of the
/// two comes back is not stated.
#[verifier::external_body]
fn since_unix_epoch(t: &std::time::SystemTime) -> Option<std::time::Duration> {
    match t.duration_since(std::time::UNIX_EPOCH) {
        Ok(d) => Some(d),
        Err(_) => None,
    }
}

/// `Duration::as_millis`: the whole milliseconds in `d`. The duration has no model here,
/// so nothing is stated of the number.
#[verifier::external_body]
fn whole_millis(d: &std::time::Duration) -> u128 {
    d.as_millis()
}

/// `Duration::as_nanos`: the whole nanoseconds in `d`. The duration has no model here, so
/// nothing is stated of the number.
#[verifier::external_body]
fn whole_nanos(d: &std::time::Duration) -> u128 {
    d.as_nanos()
}

/// The current time in UTC, in nanoseconds since the Unix epoch, read from the system
/// clock: zero for a clock set before the epoch, and the largest `i64` for one beyond it.
pub(crate) fn utc_now_nanos() -> (r: i64)
    ensures
        r >= 0,
{
    let n = match since_unix_epoch(&system_now()) {
        Some(d) => whole_nanos(&d),
        None => 0,
    };
    if n > i64::MAX as u128 {
        i64::MAX
    } else {
        n as i64
    }
}

/// The current time in UTC, written `YYYYmmdd-HHMMSS` (a clock beyond
/// `LAST_LABEL_MILLIS` is written as that instant).
pub(crate) fn utc_timestamp_label() -> (r: String)
    ensures
        is_timestamp_label(r@),
{
    let pattern = "%Y%m%d-%H%M%S";
    let now = utc_now_nanos() / 1_000_000;
    let ms = if now > LAST_LABEL_MILLIS {
        LAST_LABEL_MILLIS
    } else {
        now
    };
    match utc_label_at(ms, pattern) {
        Some(t) => t,
        None => String::new(),
    }
}

/// Milliseconds since the Unix epoch on the system clock; zero for a clock set before it.
pub(crate) fn millis() -> u128 {
    match since_unix_epoch(&system_now()) {
        Some(d) => whole_millis(&d),
        None => 0,
    }
}

} // verus!
