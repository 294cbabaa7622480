//! Instants on the UTC time line, held as whole seconds since the Unix epoch.
use vstd::prelude::*;

verus! {

/// Every instant that `chrono` can represent lies within this many seconds
/// of the epoch, on either side.
pub const INSTANT_BOUND: i64 = 17_592_186_044_416;

/// Seconds in a day.
pub const SECONDS_PER_DAY: i64 = 86_400;

/// An instant in the range that the data model admits.
pub open spec fn is_instant(t: i64) -> bool {
    -INSTANT_BOUND <= t <= INSTANT_BOUND
}

/// The mathematical instant `t` lies in the admitted range.
pub open spec fn in_range(t: int) -> bool {
    -INSTANT_BOUND <= t <= INSTANT_BOUND
}

/// Integer division rounded toward zero, as Rust's `/` on signed integers does.
pub open spec fn div_toward_zero(a: int, b: int) -> int
    recommends
        b > 0,
{
    if a >= 0 {
        a / b
    } else {
        -((-a) / b)
    }
}

/// The number of whole days from `earlier` to `later`, rounded toward zero
/// (negative when `later` precedes `earlier`).
pub open spec fn whole_days_between(later: int, earlier: int) -> int {
    div_toward_zero(later - earlier, SECONDS_PER_DAY as int)
}

/// Whole days from `earlier` to `later`, rounded toward zero.
pub fn days_between(later: i64, earlier: i64) -> (d: i64)
    requires
        is_instant(later),
        is_instant(earlier),
    ensures
        d == whole_days_between(later as int, earlier as int),
{
    let diff: i64 = later - earlier;
    if diff >= 0 {
        diff / SECONDS_PER_DAY
    } else {
        let pos: i64 = -diff;
        -(pos / SECONDS_PER_DAY)
    }
}

/// Whether chrono has a `DateTime<Utc>` at `t` seconds after the epoch.
pub uninterp spec fn chrono_represents(t: i64) -> bool;

/// chrono's `DateTime::from_timestamp(t, 0)`, told apart by whether it
/// gave a value (named `chrono_represents`). Every instant with a date that
/// chrono writes is represented, and every represented instant lies in the
/// admitted range.
#[verifier::external_body]
pub(crate) fn represents(t: i64) -> (r: bool)
    ensures
        r == chrono_represents(t),
        is_datable(t) ==> r,
        r ==> is_instant(t),
{
    chrono::DateTime::from_timestamp(t, 0).is_some()
}

/// A reading of the system clock.
#[verifier::external_type_specification]
#[verifier::external_body]
pub struct ExSystemTime(std::time::SystemTime);

/// std's `SystemTime::now`: the system clock's current reading. Nothing is
/// stated of it.
#[verifier::external_body]
fn system_now() -> (t: std::time::SystemTime) {
    std::time::SystemTime::now()
}

/// std's `SystemTime::duration_since` from `UNIX_EPOCH`: the time elapsed
/// since the epoch, or `None` (std's error) when `t` lies before it. What
/// the clock reads is not stated.
#[verifier::external_body]
fn since_epoch(t: &std::time::SystemTime) -> (r: Option<std::time::Duration>) {
    t.duration_since(std::time::UNIX_EPOCH).ok()
}

/// std's `Duration::as_secs`: the whole seconds of a span. Nothing is
/// stated of the span.
#[verifier::external_body]
fn whole_seconds(d: &std::time::Duration) -> (s: u64) {
    d.as_secs()
}

/// Why the current time could not be had.
#[derive(Clone, Copy, Debug, PartialEq, Eq, Structural)]
pub enum ClockError {
    /// The system clock reads before the epoch or beyond the instants the
    /// library admits.
    OutOfRange,
}

/// The instant `secs` seconds after the epoch, as the clock reports it:
/// an error when there is no reading (`None`, a clock before the epoch) or
/// the reading lies beyond the admitted range.
pub fn instant_from_epoch_seconds(secs: Option<u64>) -> (r: Result<i64, ClockError>)
    ensures
        r == (match secs {
            None => Err(ClockError::OutOfRange),
            Some(s) => if s <= INSTANT_BOUND {
                Ok(s as i64)
            } else {
                Err(ClockError::OutOfRange)
            },
        }),
{
    match secs {
        None => Err(ClockError::OutOfRange),
        Some(s) => {
            if s <= 17_592_186_044_416 {
                Ok(s as i64)
            } else {
                Err(ClockError::OutOfRange)
            }
        },
    }
}

/// The current instant in whole seconds since the epoch, read from the
/// system clock: an error when the clock reads before the epoch or beyond
/// the admitted range, where chrono's `Utc::now` would panic.
pub fn now_seconds() -> (r: Result<i64, ClockError>)
    ensures
        r matches Ok(t) ==> is_instant(t) && t >= 0,
{
    let secs = match since_epoch(&system_now()) {
        None => None,
        Some(d) => Some(whole_seconds(&d)),
    };
    instant_from_epoch_seconds(secs)
}

} // verus!

verus! {

/// Instants this close to the epoch have a calendar date in chrono's
/// range (about year 262,000 either way).
pub const DATE_BOUND: i64 = 8_000_000_000_000;

/// `t` has a calendar date that chrono can render.
pub open spec fn is_datable(t: i64) -> bool {
    -DATE_BOUND <= t <= DATE_BOUND
}

/// The UTC calendar date of `t` as chrono writes it with `%Y-%m-%d`.
pub uninterp spec fn ymd_text(t: i64) -> Seq<char>;

/// chrono's `DateTime::from_timestamp` followed by `format("%Y-%m-%d")`:
/// the UTC calendar date of `t`. Its text is named `ymd_text`.
#[verifier::external_body]
pub(crate) fn format_ymd(t: i64) -> (s: String)
    requires
        is_datable(t),
    ensures
        s@ == ymd_text(t),
{
    match chrono::DateTime::from_timestamp(t, 0) {
        Some(d) => d.format("%Y-%m-%d").to_string(),
        None => String::new(),
    }
}

/// The UTC date and minute of `t` as chrono writes it with
/// `%Y-%m-%d %H:%M`.
pub uninterp spec fn ymd_hm_text(t: i64) -> Seq<char>;

/// chrono's `DateTime::from_timestamp` followed by
/// `format("%Y-%m-%d %H:%M")`: the UTC date and time to the minute of
/// `t`. Its text is named `ymd_hm_text`.
#[verifier::external_body]
pub(crate) fn format_ymd_hm(t: i64) -> (s: String)
    requires
        is_datable(t),
    ensures
        s@ == ymd_hm_text(t),
{
    match chrono::DateTime::from_timestamp(t, 0) {
        Some(d) => d.format("%Y-%m-%d %H:%M").to_string(),
        None => String::new(),
    }
}

} // verus!
