//! Tap tempo: beats are taken by hand, and a pause of more than two seconds
//! starts a new series.
use vstd::prelude::*;
use std::time::{Duration, Instant};

verus! {

#[verifier::external_type_specification]
#[verifier::external_body]
pub struct ExInstant(Instant);

/// `std::time::Instant::now`: the current time of the monotonic clock.
/// Nothing is promised of the value.
#[verifier::external_body]
fn instant_now() -> Instant {
    Instant::now()
}

/// `Instant::elapsed`: the time from `origin` to now on the monotonic clock
/// (zero if the clock reads earlier). Nothing is promised of the value: it
/// is the clock's.
#[verifier::external_body]
fn elapsed(origin: &Instant) -> Duration {
    origin.elapsed()
}

/// `Duration::as_nanos`: the whole number of nanoseconds of `d`. Nothing is
/// promised: a duration is opaque here.
#[verifier::external_body]
fn as_nanos(d: &Duration) -> u128 {
    d.as_nanos()
}

/// A pause between two taps longer than this starts a new series.
pub const RESET_AFTER_NANOS: u128 = 2_000_000_000;

/// The time from `earlier` to `later`, zero when `later` is the earlier.
pub open spec fn gap(later: u128, earlier: u128) -> u128 {
    if later >= earlier {
        (later - earlier) as u128
    } else {
        0
    }
}

/// Taps counted by hand; tap times are nanoseconds since `origin`.
#[derive(Debug)]
pub struct BeatSync {
    /// The instant that tap times are counted from.
    pub origin: Instant,
    /// The first tap of the current series.
    pub first: u128,
    /// The latest tap.
    pub last: u128,
    /// The number of taps in the current series.
    pub count: u32,
}

impl BeatSync {
    /// A series of no taps, started now (the origin of the tap times).
    pub fn new() -> (r: Self)
        ensures
            r.count == 0,
            r.first == 0,
            r.last == 0,
    {
        BeatSync { origin: instant_now(), first: 0, last: 0, count: 0 }
    }

    /// Starts over with no taps.
    pub fn _reset(&mut self)
        ensures
            final(self).count == 0,
            final(self).first == 0,
            final(self).last == 0,
    {
        *self = Self::new()
    }

    /// Records a tap at time `t`: after a pause of more than two seconds
    /// since the previous tap a new series starts with this tap.
    pub fn trigger_at(&mut self, t: u128)
        requires
            gap(t, old(self).last) > RESET_AFTER_NANOS || old(self).count < u32::MAX,
        ensures
            final(self).origin == old(self).origin,
            final(self).last == t,
            gap(t, old(self).last) > RESET_AFTER_NANOS ==> final(self).first == t
                && final(self).count == 1,
            gap(t, old(self).last) <= RESET_AFTER_NANOS ==> final(self).first == old(self).first
                && final(self).count == old(self).count + 1,
    {
        let since = if t >= self.last {
            t - self.last
        } else {
            0
        };
        if since > RESET_AFTER_NANOS {
            self.first = t;
            self.count = 0;
        }
        self.last = t;
        self.count = self.count + 1;
    }

    /// The number of taps of the series and the time they span (from the
    /// first to the latest), from which the tempo is measured.
    pub fn span(&self) -> (r: (u32, u128))
        ensures
            r.0 == self.count,
            r.1 == gap(self.last, self.first),
    {
        let d = if self.last >= self.first {
            self.last - self.first
        } else {
            0
        };
        (self.count, d)
    }

    /// Records a tap now: the tap time is read from the clock, and the
    /// series restarts when more than two seconds passed since the
    /// previous tap.
    pub fn trigger(&mut self)
        requires
            old(self).count < u32::MAX,
        ensures
            final(self).origin == old(self).origin,
            gap(final(self).last, old(self).last) > RESET_AFTER_NANOS ==> final(self).first
                == final(self).last && final(self).count == 1,
            gap(final(self).last, old(self).last) <= RESET_AFTER_NANOS ==> final(self).first
                == old(self).first && final(self).count == old(self).count + 1,
    {
        let t = as_nanos(&elapsed(&self.origin));
        self.trigger_at(t);
    }
}

} // verus!
