//! Time, modeled as milliseconds of local wall-clock time since the epoch.
//! Reading the clock and rendering an instant as text are done by chrono
//! behind trusted wrappers; the rotation-boundary arithmetic is the
//! library's own and is verified.

use vstd::prelude::*;

verus! {

/// Largest instant the library works with: the last millisecond of year
/// 9999, comfortably inside the range chrono can represent and format.
pub const MAX_TIME_MILLIS: i64 = 253_402_300_799_999;

/// The first multiple of `interval` strictly after `now`: the instant at
/// which a file set opened at `now` stops being valid.
pub open spec fn roll_time(now: int, interval: int) -> int
    recommends
        0 < interval,
{
    now - now % interval + interval
}

/// `roll_time` lands strictly after `now`, no more than one interval away,
/// and on an interval boundary.
pub proof fn lemma_roll_time_bounds(now: int, interval: int)
    requires
        0 < interval,
        0 <= now,
    ensures
        now < roll_time(now, interval) <= now + interval,
        roll_time(now, interval) % interval == 0,
{
    vstd::arithmetic::div_mod::lemma_mod_bound(now, interval);
    vstd::arithmetic::div_mod::lemma_fundamental_div_mod(now, interval);
    assert(interval * (now / interval) + interval == (now / interval + 1) * interval)
        by (nonlinear_arith);
    vstd::arithmetic::div_mod::lemma_mod_multiples_basic(now / interval + 1, interval);
}

/// The text of `ms` rendered to minute precision as `YYYYMMDD-HHMM`,
/// the timestamp prefix of generated log file names.
pub uninterp spec fn minute_stamp(ms: int) -> Seq<char>;

/// Relies on chrono's `DateTime::from_timestamp_millis` and `format`
/// ("%Y%m%d-%H%M"): the result depends on the argument alone.
#[verifier::external_body]
pub(crate) fn minute_stamp_str(ms: i64) -> (r: String)
    requires
        0 <= ms <= MAX_TIME_MILLIS,
    ensures
        r@ == minute_stamp(ms as int),
{
    let dt = chrono::DateTime::<chrono::Utc>::from_timestamp_millis(ms)
        .expect("instant in range");
    dt.format("%Y%m%d-%H%M").to_string()
}

/// The text of the time of day of `ms`, as it opens a formatted log line.
pub uninterp spec fn time_text(ms: int) -> Seq<char>;

/// Relies on chrono's `DateTime::from_timestamp_millis` and the `Display`
/// of `NaiveTime`: the result depends on the argument alone.
#[verifier::external_body]
pub(crate) fn time_text_str(ms: i64) -> (r: String)
    requires
        0 <= ms <= MAX_TIME_MILLIS,
    ensures
        r@ == time_text(ms as int),
{
    let dt = chrono::DateTime::<chrono::Utc>::from_timestamp_millis(ms)
        .expect("instant in range");
    dt.time().to_string()
}

/// Relies on chrono's `Local::now`: the local wall-clock time, shifted so
/// that the epoch arithmetic above works on local time. Nothing can be
/// promised of a clock reading.
#[verifier::external_body]
fn local_now_millis_raw() -> i64 {
    chrono::Local::now().naive_local().and_utc().timestamp_millis()
}

/// The current local wall-clock time in milliseconds, pinned to the window
/// the library works with.
pub fn now_millis() -> (ms: i64)
    ensures
        0 <= ms <= MAX_TIME_MILLIS,
{
    let raw = local_now_millis_raw();
    if raw < 0 {
        0
    } else if raw > MAX_TIME_MILLIS {
        MAX_TIME_MILLIS
    } else {
        raw
    }
}

} // verus!
