//! Instants on the UTC clock as nanoseconds since the Unix epoch, with the
//! saturating and checked arithmetic that the status tracker applies to them.
//!
//! An instant is valid when it lies in `[MIN_UTC_NANOS, MAX_UTC_NANOS]`, the
//! range of chrono's `DateTime<Utc>` (`MIN_UTC` is -262143-01-01T00:00:00Z and
//! `MAX_UTC` is +262142-12-31T23:59:59.999999999Z). A duration is a signed
//! nanosecond count.
use vstd::prelude::*;

verus! {

pub const MIN_UTC_NANOS: i128 = -8334601315200000000000i128;

pub const MAX_UTC_NANOS: i128 = 8210266876799999999999i128;

pub const NANOS_PER_MILLI: i128 = 1000000i128;

pub const NANOS_PER_SECOND: i128 = 1000000000i128;

pub open spec fn valid_instant(t: int) -> bool {
    MIN_UTC_NANOS <= t <= MAX_UTC_NANOS
}

/// A duration no longer than the distance between two valid instants.
pub open spec fn valid_span(d: int) -> bool {
    -(MAX_UTC_NANOS - MIN_UTC_NANOS) <= d <= MAX_UTC_NANOS - MIN_UTC_NANOS
}

/// `start` moved `ms` milliseconds later, held at the latest instant when it
/// would pass it.
pub open spec fn spec_add_millis_saturating(start: int, ms: int) -> int {
    if start + ms * NANOS_PER_MILLI <= MAX_UTC_NANOS {
        start + ms * NANOS_PER_MILLI
    } else {
        MAX_UTC_NANOS as int
    }
}

/// `t` moved by `-delta`, or `t` itself when that leaves the valid range.
pub open spec fn spec_sub_or_keep(t: int, delta: int) -> int {
    if valid_instant(t - delta) {
        t - delta
    } else {
        t
    }
}

/// `t` moved by `delta`, or `t` itself when that leaves the valid range.
pub open spec fn spec_add_or_keep(t: int, delta: int) -> int {
    if valid_instant(t + delta) {
        t + delta
    } else {
        t
    }
}

/// Whole milliseconds in a nanosecond duration, rounded toward zero.
pub open spec fn spec_whole_millis(d: int) -> int {
    if d >= 0 {
        d / (NANOS_PER_MILLI as int)
    } else {
        -((-d) / (NANOS_PER_MILLI as int))
    }
}

pub fn add_millis_saturating(start: i128, ms: i64) -> (r: i128)
    requires
        valid_instant(start as int),
        ms >= 0,
    ensures
        r == spec_add_millis_saturating(start as int, ms as int),
        valid_instant(r as int),
{
    let shift: i128 = (ms as i128) * NANOS_PER_MILLI;
    if start <= MAX_UTC_NANOS - shift {
        start + shift
    } else {
        MAX_UTC_NANOS
    }
}

pub fn sub_or_keep(t: i128, delta: i128) -> (r: i128)
    requires
        valid_instant(t as int),
        valid_span(delta as int),
    ensures
        r == spec_sub_or_keep(t as int, delta as int),
        valid_instant(r as int),
{
    let moved: i128 = t - delta;
    if MIN_UTC_NANOS <= moved && moved <= MAX_UTC_NANOS {
        moved
    } else {
        t
    }
}

pub fn add_or_keep(t: i128, delta: i128) -> (r: i128)
    requires
        valid_instant(t as int),
        valid_span(delta as int),
    ensures
        r == spec_add_or_keep(t as int, delta as int),
        valid_instant(r as int),
{
    let moved: i128 = t + delta;
    if MIN_UTC_NANOS <= moved && moved <= MAX_UTC_NANOS {
        moved
    } else {
        t
    }
}

pub fn whole_millis(d: i128) -> (r: i128)
    requires
        valid_span(d as int),
    ensures
        r == spec_whole_millis(d as int),
{
    if d >= 0 {
        d / NANOS_PER_MILLI
    } else {
        let n: i128 = -d;
        -(n / NANOS_PER_MILLI)
    }
}

/// Calls `chrono::Utc::now` and hands back its whole seconds since the
/// epoch (`timestamp`) and its nanoseconds past that second
/// (`timestamp_subsec_nanos`, which reaches past a second only within a leap
/// second). The contract claims only what holds of every `DateTime<Utc>`:
/// the instant lies in chrono's range. `Utc::now` panics when the system
/// clock reads before the Unix epoch.
#[verifier::external_body]
fn utc_now_parts() -> (r: (i64, u32))
    ensures
        r.1 < 2_000_000_000,
        valid_instant(r.0 * NANOS_PER_SECOND + r.1),
{
    let now = chrono::Utc::now();
    (now.timestamp(), now.timestamp_subsec_nanos())
}

/// The current UTC instant.
pub(crate) fn utc_now() -> (r: i128)
    ensures
        valid_instant(r as int),
{
    let (secs, nanos) = utc_now_parts();
    (secs as i128) * NANOS_PER_SECOND + (nanos as i128)
}

} // verus!
