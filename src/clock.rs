//! Send times as the home page prints them.
use vstd::prelude::*;

verus! {

/// The earliest second, since the epoch, that falls in year 1 or later whatever
/// the offset (0001-01-02 00:00 UTC).
pub const MIN_TIMESTAMP: i64 = -62_135_510_400;

/// The latest second, since the epoch, that is printed with a four-digit year
/// whatever the offset.
pub const MAX_TIMESTAMP: i64 = 253_402_128_000;

pub const SECONDS_PER_DAY: i64 = 86_400;

/// The text that time's `OffsetDateTime::format` gives for the moment
/// `timestamp` (seconds since the epoch) seen at `offset` seconds east of UTC,
/// under `pattern`.
pub uninterp spec fn formatted_time(timestamp: i64, offset: i32, pattern: Seq<char>) -> Seq<char>;

/// The day, counted from the epoch, on which `timestamp` falls at `offset`.
pub open spec fn local_day(timestamp: int, offset: int) -> int {
    (timestamp + offset) / (SECONDS_PER_DAY as int)
}

/// `time` as printed at `offset` for a reader at `now`: the clock time alone
/// when both fall on the same day there, else the date and the clock time.
pub open spec fn shown_time(time: i64, offset: i32, now: i64) -> Seq<char> {
    if local_day(time as int, offset as int) == local_day(now as int, offset as int) {
        formatted_time(time, offset, "%T"@)
    } else {
        formatted_time(time, offset, "%F %T"@)
    }
}

/// Relies on time's `OffsetDateTime::from_unix_timestamp`, `to_offset` and
/// `format`: the moment `timestamp` at the offset `offset`, printed under
/// `pattern`. It panics for moments outside the years it holds, which the
/// bounds leave out.
#[verifier::external_body]
fn format_at(timestamp: i64, offset: i32, pattern: &str) -> (r: String)
    requires
        MIN_TIMESTAMP <= timestamp <= MAX_TIMESTAMP,
        -SECONDS_PER_DAY < offset < SECONDS_PER_DAY,
        pattern@ == "%T"@ || pattern@ == "%F %T"@,
    ensures
        r@ == formatted_time(timestamp, offset, pattern@),
{
    time::OffsetDateTime::from_unix_timestamp(timestamp).to_offset(
        time::UtcOffset::seconds(offset),
    ).format(pattern)
}

/// Relies on time's `OffsetDateTime::now_utc`: the current moment, in seconds
/// since the epoch. Nothing is known of its value.
#[verifier::external_body]
fn now_unix() -> (r: i64) {
    time::OffsetDateTime::now_utc().unix_timestamp()
}

/// Relies on time's `UtcOffset::try_current_local_offset`: the machine's
/// offset from UTC in seconds, when it can be found. Nothing is known of its
/// value.
#[verifier::external_body]
fn local_offset() -> (r: Option<i32>) {
    match time::UtcOffset::try_current_local_offset() {
        Ok(o) => Some(o.as_seconds()),
        Err(_) => None,
    }
}

/// The day on which `t` falls at `offset`, for any `t`.
fn day_of(t: i64, offset: i32) -> (r: i128)
    ensures
        r == local_day(t as int, offset as int),
{
    let x: i128 = t as i128 + offset as i128;
    if x >= 0 {
        ((x as u128) / 86_400) as i128
    } else {
        let y: u128 = (-x - 1) as u128;
        let q: i128 = (y / 86_400) as i128;
        proof {
            assert(x == -(y as int) - 1);
            assert(-(q as int) - 1 == (x as int) / 86_400int) by (nonlinear_arith)
                requires
                    q == (y as int) / 86_400int,
                    x == -(y as int) - 1,
                    y >= 0,
            ;
        }
        -q - 1
    }
}

/// `time` printed for the reader at `offset`: the clock time alone when it
/// falls on the day that `now` does there, else the date and the clock time.
pub fn format_systime_at(time: i64, offset: i32, now: i64) -> (r: String)
    requires
        MIN_TIMESTAMP <= time <= MAX_TIMESTAMP,
        -SECONDS_PER_DAY < offset < SECONDS_PER_DAY,
    ensures
        r@ == shown_time(time, offset, now),
{
    if day_of(time, offset) == day_of(now, offset) {
        format_at(time, offset, "%T")
    } else {
        format_at(time, offset, "%F %T")
    }
}

/// The send time of an event, given in milliseconds since the epoch, printed
/// for the reader here and now; the milliseconds are dropped.
pub fn format_sent_time(origin_server_ts: u64) -> (r: String)
    requires
        origin_server_ts / 1000 <= MAX_TIMESTAMP,
    ensures
        exists|offset: i32, now: i64|
            -SECONDS_PER_DAY < offset < SECONDS_PER_DAY && r@ == #[trigger] shown_time(
                (origin_server_ts / 1000) as i64,
                offset,
                now,
            ),
{
    format_systime((origin_server_ts / 1000) as i64)
}

/// `time` printed for the reader here and now. Where the local offset cannot
/// be found, or is not under a day, times are printed in UTC.
pub fn format_systime(time: i64) -> (r: String)
    requires
        MIN_TIMESTAMP <= time <= MAX_TIMESTAMP,
    ensures
        exists|offset: i32, now: i64|
            -SECONDS_PER_DAY < offset < SECONDS_PER_DAY && r@ == #[trigger] shown_time(
                time,
                offset,
                now,
            ),
{
    let offset = match local_offset() {
        Some(o) => if -SECONDS_PER_DAY < o as i64 && (o as i64) < SECONDS_PER_DAY {
            o
        } else {
            0
        },
        None => 0,
    };
    let now = now_unix();
    format_systime_at(time, offset, now)
}

} // verus!
