//! Points in time: seconds and nanoseconds since the Unix epoch, and their
//! RFC 3339 form.

use vstd::prelude::*;
use vstd::string::*;

verus! {

/// A point in time: whole seconds since 1970-01-01 00:00:00 UTC, and the
/// nanoseconds after them.
#[derive(Clone, Copy, Debug, PartialEq, Eq, Structural)]
pub struct Moment {
    pub secs: i64,
    pub nanos: u32,
}

impl Moment {
    /// Whether a calendar time in UTC stands for the moment: it lies in the years
    /// -262143 to 262142 and is not inside a leap second.
    pub open spec fn in_range(self) -> bool {
        -8334601228800 <= self.secs <= 8210266876799 && self.nanos < 1_000_000_000
    }

    /// Whether `chrono` can hold the moment as a time in UTC: it lies in the years
    /// -262143 to 262142, and its nanoseconds go beyond a second only in the last
    /// second of a minute, where they stand for a leap second.
    pub open spec fn is_calendar_time(self) -> bool {
        &&& -8334601228800 <= self.secs <= 8210266876799
        &&& self.nanos < 1_000_000_000 || (self.nanos < 2_000_000_000 && self.secs % 60 == 59)
    }

    /// Nanoseconds since the epoch.
    pub open spec fn total_nanos(self) -> int {
        self.secs * 1_000_000_000 + self.nanos
    }
}

/// What `chrono` reads a text as, in seconds and nanoseconds; nothing where it
/// is no RFC 3339 timestamp.
pub uninterp spec fn rfc3339_moment(text: Seq<char>) -> Option<(int, int)>;

/// `chrono::DateTime::parse_from_rfc3339`: the moment that a timestamp stands
/// for. Which texts are timestamps is left to the name.
#[verifier::external_body]
pub(crate) fn parse_rfc3339(text: &str) -> (r: Option<Moment>)
    ensures
        match r {
            Some(m) => rfc3339_moment(text@) == Some((m.secs as int, m.nanos as int)),
            None => rfc3339_moment(text@) is None,
        },
{
    let t = chrono::DateTime::parse_from_rfc3339(text).ok()?;
    Some(Moment { secs: t.timestamp(), nanos: t.timestamp_subsec_nanos() })
}

/// The RFC 3339 form that `chrono` gives a time in UTC.
pub uninterp spec fn rfc3339_text(secs: int, nanos: int) -> Seq<char>;

/// `chrono::DateTime::from_timestamp` and `to_rfc3339`: the moment as a time in
/// UTC, written out, where it is one that `chrono` can hold. How it is written is
/// left to the name.
#[verifier::external_body]
pub(crate) fn moment_text(m: Moment) -> (r: Option<String>)
    ensures
        match r {
            Some(s) => m.is_calendar_time() && s@ == rfc3339_text(m.secs as int, m.nanos as int),
            None => !m.is_calendar_time(),
        },
{
    chrono::DateTime::from_timestamp(m.secs, m.nanos).map(|t| t.to_rfc3339())
}

/// A moment written out; nothing where it is no time that can be held.
pub open spec fn written(m: Moment) -> Option<Seq<char>> {
    if m.is_calendar_time() {
        Some(rfc3339_text(m.secs as int, m.nanos as int))
    } else {
        None
    }
}

/// The whole milliseconds from `start` to `end`, rounded toward zero.
pub open spec fn millis_between(start: Moment, end: Moment) -> int {
    let d = end.total_nanos() - start.total_nanos();
    if d >= 0 {
        d / 1_000_000
    } else {
        -((-d) / 1_000_000)
    }
}

/// The whole milliseconds from `start` to `end`, rounded toward zero.
pub fn elapsed_millis(start: Moment, end: Moment) -> (r: i64)
    requires
        start.in_range(),
        end.in_range(),
    ensures
        r == millis_between(start, end),
{
    let a: i128 = start.secs as i128 * 1_000_000_000 + start.nanos as i128;
    let b: i128 = end.secs as i128 * 1_000_000_000 + end.nanos as i128;
    let d: i128 = b - a;
    if d >= 0 {
        (d as u128 / 1_000_000) as i64
    } else {
        -(((-d) as u128 / 1_000_000) as i64)
    }
}

/// The whole minutes from `start` to `end`, rounded toward zero.
pub open spec fn minutes_between(start: Moment, end: Moment) -> int {
    let d = end.total_nanos() - start.total_nanos();
    if d >= 0 {
        d / 60_000_000_000
    } else {
        -((-d) / 60_000_000_000)
    }
}

/// Whether fewer than `n` whole minutes lie between `start` and `end`.
pub fn closer_than_minutes(start: Moment, end: Moment, n: u32) -> (r: bool)
    ensures
        r == (minutes_between(start, end) < n),
{
    let a: i128 = start.secs as i128 * 1_000_000_000 + start.nanos as i128;
    let b: i128 = end.secs as i128 * 1_000_000_000 + end.nanos as i128;
    let d: i128 = b - a;
    if d >= 0 {
        d as u128 / 60_000_000_000 < n as u128
    } else {
        ((-d) as u128 / 60_000_000_000) > 0 || n > 0
    }
}

} // verus!
