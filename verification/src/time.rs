//! Points in time, as the clock and the file system report them.

use vstd::prelude::*;

verus! {

/// A point in time: seconds since the start of 1970 (UTC) and nanoseconds
/// on top of them.
#[derive(Clone, Copy, Debug, PartialEq, Eq, Structural)]
pub struct Timestamp {
    pub secs: i64,
    pub nanos: u32,
}

/// The quotient of `x` by `d`, rounded toward zero.
pub open spec fn div_toward_zero(x: int, d: int) -> int {
    if x >= 0 {
        x / d
    } else {
        -((-x) / d)
    }
}

/// The length of `days` days in nanoseconds.
pub open spec fn days_in_nanos(days: int) -> int {
    days * 86_400 * 1_000_000_000
}

/// Whether something last touched at `touched` was touched within the last
/// `days` days before `now`. A time that could not be read counts as recent,
/// so that nothing is given up for deletion on missing evidence.
pub open spec fn touched_within(touched: Option<Timestamp>, days: u32, now: Timestamp) -> bool {
    match touched {
        None => true,
        Some(t) => now.instant() - t.instant() < days_in_nanos(days as int),
    }
}

/// The whole days that lie between `earlier` and `now`, rounded toward
/// zero; negative if `earlier` is after `now`.
pub open spec fn whole_days_between(now: Timestamp, earlier: Timestamp) -> int {
    div_toward_zero(now.instant() - earlier.instant(), days_in_nanos(1))
}

impl Timestamp {
    /// The point in time as nanoseconds since the start of 1970.
    pub open spec fn instant(self) -> int {
        self.secs * 1_000_000_000 + self.nanos
    }

    fn instant_exec(&self) -> (r: i128)
        ensures
            r == self.instant(),
    {
        (self.secs as i128) * 1_000_000_000 + (self.nanos as i128)
    }

    /// Whether this point in time lies before `other`.
    pub fn is_before(&self, other: &Timestamp) -> (r: bool)
        ensures
            r == (self.instant() < other.instant()),
    {
        self.instant_exec() < other.instant_exec()
    }

    /// This time if it is known, else `now`.
    pub fn known_or(t: Option<Timestamp>, now: Timestamp) -> (r: Timestamp)
        ensures
            r == known_or_now(t, now),
    {
        match t {
            Some(t) => t,
            None => now,
        }
    }
}

/// The time `t` if it is known, else `now`.
pub open spec fn known_or_now(t: Option<Timestamp>, now: Timestamp) -> Timestamp {
    match t {
        Some(t) => t,
        None => now,
    }
}

/// Whether `touched` lies within the last `days` days before `now`.
pub fn was_touched_within(touched: Option<Timestamp>, days: u32, now: Timestamp) -> (r: bool)
    ensures
        r == touched_within(touched, days, now),
{
    match touched {
        None => true,
        Some(t) => {
            let span: i128 = (days as i128) * 86_400 * 1_000_000_000;
            now.instant_exec() - t.instant_exec() < span
        },
    }
}

/// The whole days between `earlier` and `now`.
pub fn age_in_days(now: Timestamp, earlier: Timestamp) -> (r: i64)
    ensures
        r == whole_days_between(now, earlier),
{
    let diff: i128 = now.instant_exec() - earlier.instant_exec();
    let day: u128 = 86_400_000_000_000;
    if diff >= 0 {
        let q: u128 = (diff as u128) / day;
        q as i64
    } else {
        let q: u128 = ((-diff) as u128) / day;
        -(q as i64)
    }
}

} // verus!
