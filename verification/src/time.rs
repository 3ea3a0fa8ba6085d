//! A monotonic-enough instant on the wall clock, measured from the Unix epoch.
use vstd::prelude::*;

use core::time::Duration;
use std::time::{SystemTime, UNIX_EPOCH};

verus! {

/// Nanoseconds in a second.
pub const NANOS_PER_SEC: u32 = 1_000_000_000;

/// What `Duration::new(secs, nanos)` gives.
pub uninterp spec fn new_duration(secs: u64, nanos: u32) -> Duration;

/// What `Duration::as_secs` gives: the whole seconds of a duration.
pub uninterp spec fn duration_secs(d: Duration) -> u64;

/// What `Duration::subsec_nanos` gives: the nanoseconds past the whole seconds.
pub uninterp spec fn duration_subsec_nanos(d: Duration) -> u32;

/// The duration `secs` seconds and `nanos` nanoseconds long (`Duration::new`);
/// with `nanos` under a second, those are its parts.
#[verifier::external_body]
fn make_duration(secs: u64, nanos: u32) -> (d: Duration)
    requires
        nanos < NANOS_PER_SEC,
    ensures
        d == new_duration(secs, nanos),
        duration_secs(d) == secs,
        duration_subsec_nanos(d) == nanos,
{
    Duration::new(secs, nanos)
}

/// The whole seconds of `d` (`Duration::as_secs`).
#[verifier::external_body]
fn secs_of(d: &Duration) -> (s: u64)
    ensures
        s == duration_secs(*d),
{
    d.as_secs()
}

/// The nanoseconds of `d` past its whole seconds (`Duration::subsec_nanos`),
/// always under a second.
#[verifier::external_body]
fn subsec_nanos_of(d: &Duration) -> (n: u32)
    ensures
        n == duration_subsec_nanos(*d),
        n < NANOS_PER_SEC,
{
    d.subsec_nanos()
}

/// The wall clock's reading, opaque to the library.
#[verifier::external_type_specification]
#[verifier::external_body]
pub struct ExSystemTime(std::time::SystemTime);

/// The wall clock now (`SystemTime::now`). Nothing is said of the reading:
/// it depends on the machine's clock.
#[verifier::external_body]
fn wall_clock_now() -> (t: SystemTime) {
    SystemTime::now()
}

/// The time from the Unix epoch to `t` (`SystemTime::duration_since` with
/// `UNIX_EPOCH`), or none when `t` is earlier. Nothing more is said: the
/// reading is opaque.
#[verifier::external_body]
fn since_epoch(t: &SystemTime) -> (d: Option<Duration>) {
    t.duration_since(UNIX_EPOCH).ok()
}

/// The length in nanoseconds of `secs` seconds and `nanos` nanoseconds.
pub open spec fn total_nanos(secs: u64, nanos: u32) -> int {
    secs * 1_000_000_000 + nanos
}

/// Comparing seconds first and then nanoseconds orders times by their length.
pub proof fn lemma_total_nanos_order(s1: u64, n1: u32, s2: u64, n2: u32)
    requires
        n1 < 1_000_000_000,
        n2 < 1_000_000_000,
    ensures
        (total_nanos(s1, n1) < total_nanos(s2, n2)) == (s1 < s2 || (s1 == s2 && n1 < n2)),
        0 <= total_nanos(s1, n1) <= total_nanos(u64::MAX, 999_999_999),
{
    assert((total_nanos(s1, n1) < total_nanos(s2, n2)) == (s1 < s2 || (s1 == s2 && n1 < n2)))
        by (nonlinear_arith)
        requires
            n1 < 1_000_000_000,
            n2 < 1_000_000_000,
            total_nanos(s1, n1) == s1 * 1_000_000_000 + n1,
            total_nanos(s2, n2) == s2 * 1_000_000_000 + n2,
    ;
    assert(0 <= total_nanos(s1, n1) <= total_nanos(u64::MAX, 999_999_999)) by (nonlinear_arith)
        requires
            n1 < 1_000_000_000,
            s1 <= u64::MAX,
            total_nanos(s1, n1) == s1 * 1_000_000_000 + n1,
            total_nanos(u64::MAX, 999_999_999) == u64::MAX * 1_000_000_000 + 999_999_999,
    ;
}

/// A point in time: the time since the Unix epoch.
#[derive(Copy, Clone, Debug, PartialEq, Eq, Structural, PartialOrd, Ord, Hash)]
pub struct Instant {
    secs: u64,
    nanos: u32,
}

impl View for Instant {
    type V = int;

    /// Nanoseconds since the epoch.
    closed spec fn view(&self) -> int {
        total_nanos(self.secs, self.nanos)
    }
}

/// The duration `from - to` in seconds and nanoseconds under a second.
pub open spec fn difference(from: int, to: int) -> (u64, u32) {
    (((from - to) / 1_000_000_000) as u64, ((from - to) % 1_000_000_000) as u32)
}

/// The duration from `earlier` to `later` (both in nanoseconds), or zero
/// when `earlier` is later.
pub open spec fn saturating_since(later: int, earlier: int) -> Duration {
    if earlier > later {
        new_duration(0, 0)
    } else {
        new_duration(difference(later, earlier).0, difference(later, earlier).1)
    }
}

/// The duration from `earlier` to `later`, in whole seconds and nanoseconds
/// under a second, added back to `earlier` gives `later`: what
/// `duration_since` returns measures exactly the time between the two.
pub proof fn law_duration_since(later: int, earlier: int)
    requires
        0 <= earlier <= later <= Instant::max_nanos(),
    ensures
        difference(later, earlier).1 < NANOS_PER_SEC,
        earlier + total_nanos(difference(later, earlier).0, difference(later, earlier).1) == later,
{
    let diff = later - earlier;
    assert(Instant::max_nanos() == u64::MAX * 1_000_000_000 + 999_999_999);
    assert(0 <= diff / 1_000_000_000 <= u64::MAX && 0 <= diff % 1_000_000_000 < 1_000_000_000
        && (diff / 1_000_000_000) * 1_000_000_000 + diff % 1_000_000_000 == diff) by (nonlinear_arith)
        requires
            0 <= diff <= u64::MAX * 1_000_000_000 + 999_999_999,
    ;
}

impl Instant {
    /// The nanoseconds are less than a second.
    #[verifier::type_invariant]
    spec fn normalized(&self) -> bool {
        self.nanos < NANOS_PER_SEC
    }

    /// The largest time an `Instant` can hold, in nanoseconds.
    pub open spec fn max_nanos() -> int {
        total_nanos(u64::MAX, 999_999_999)
    }

    /// The instant `reading` after the Unix epoch, or the epoch itself when
    /// there is no reading.
    pub fn from_epoch_offset(reading: Option<Duration>) -> (i: Instant)
        ensures
            match reading {
                Some(d) => i@ == total_nanos(duration_secs(d), duration_subsec_nanos(d)),
                None => i@ == 0,
            },
            0 <= i@ <= Self::max_nanos(),
    {
        let (secs, nanos) = match reading {
            Some(d) => (secs_of(&d), subsec_nanos_of(&d)),
            None => (0, 0),
        };
        proof {
            lemma_total_nanos_order(secs, nanos, secs, nanos);
        }
        Instant { secs, nanos }
    }

    /// The current time of the wall clock (see `from_epoch_offset`); the
    /// epoch itself when the clock reads earlier.
    pub fn now() -> (i: Instant)
        ensures
            0 <= i@ <= Self::max_nanos(),
    {
        Self::from_epoch_offset(since_epoch(&wall_clock_now()))
    }

    /// `self - earlier`, both in seconds and nanoseconds; `earlier` must not
    /// be later than `self`.
    fn difference_parts(&self, earlier: &Instant) -> (d: (u64, u32))
        requires
            earlier@ <= self@,
        ensures
            d == difference(self@, earlier@),
            d.1 < NANOS_PER_SEC,
    {
        proof {
            use_type_invariant(self);
            use_type_invariant(earlier);
        }
        let (secs, nanos) = if self.nanos >= earlier.nanos {
            (self.secs - earlier.secs, self.nanos - earlier.nanos)
        } else {
            (self.secs - earlier.secs - 1, self.nanos + NANOS_PER_SEC - earlier.nanos)
        };
        proof {
            let diff = self@ - earlier@;
            assert(diff == secs * 1_000_000_000 + nanos);
            assert(diff / 1_000_000_000 == secs && diff % 1_000_000_000 == nanos) by (nonlinear_arith)
                requires
                    diff == secs * 1_000_000_000 + nanos,
                    0 <= nanos < 1_000_000_000,
                    secs >= 0,
            ;
        }
        (secs, nanos)
    }

    /// The time from `earlier` to `self`; `earlier` must not be later (it
    /// panics when it is).
    pub fn duration_since(&self, earlier: Instant) -> (d: Duration)
        requires
            earlier@ <= self@,
        ensures
            d == new_duration(difference(self@, earlier@).0, difference(self@, earlier@).1),
            duration_secs(d) == difference(self@, earlier@).0,
            duration_subsec_nanos(d) == difference(self@, earlier@).1,
            0 <= earlier@ <= self@ <= Self::max_nanos(),
    {
        proof {
            use_type_invariant(self);
            use_type_invariant(&earlier);
            lemma_total_nanos_order(self.secs, self.nanos, self.secs, self.nanos);
            lemma_total_nanos_order(earlier.secs, earlier.nanos, earlier.secs, earlier.nanos);
        }
        let (secs, nanos) = self.difference_parts(&earlier);
        make_duration(secs, nanos)
    }

    /// The time from `earlier` to `self`, or zero when `earlier` is later.
    pub fn saturating_duration_since(&self, earlier: Instant) -> (d: Duration)
        ensures
            d == saturating_since(self@, earlier@),
    {
        proof {
            use_type_invariant(self);
            use_type_invariant(&earlier);
            lemma_total_nanos_order(self.secs, self.nanos, earlier.secs, earlier.nanos);
        }
        if earlier.secs > self.secs || (earlier.secs == self.secs && earlier.nanos > self.nanos) {
            make_duration(0, 0)
        } else {
            let (secs, nanos) = self.difference_parts(&earlier);
            make_duration(secs, nanos)
        }
    }

    /// The time since `self` on the wall clock, or zero when `self` is later.
    pub fn elapsed(&self) -> (d: Duration)
        ensures
            exists|now: int| 0 <= now <= Self::max_nanos() && d == #[trigger] saturating_since(now, self@),
    {
        let now = Self::now();
        let d = now.saturating_duration_since(*self);
        assert(0 <= now@ <= Self::max_nanos() && d == saturating_since(now@, self@));
        d
    }

    /// `self - duration`, or `None` when that is before the epoch.
    pub fn checked_sub(&self, duration: Duration) -> (r: Option<Instant>)
        ensures
            ({
                let back = total_nanos(duration_secs(duration), duration_subsec_nanos(duration));
                match r {
                    Some(i) => back <= self@ && i@ == self@ - back,
                    None => back > self@,
                }
            }),
            0 <= self@ <= Self::max_nanos(),
    {
        proof {
            use_type_invariant(self);
            lemma_total_nanos_order(self.secs, self.nanos, self.secs, self.nanos);
        }
        let secs = secs_of(&duration);
        let nanos = subsec_nanos_of(&duration);
        proof {
            lemma_total_nanos_order(self.secs, self.nanos, secs, nanos);
        }
        if secs > self.secs || (secs == self.secs && nanos > self.nanos) {
            return None;
        }
        if self.nanos >= nanos {
            Some(Instant { secs: self.secs - secs, nanos: self.nanos - nanos })
        } else {
            Some(Instant { secs: self.secs - secs - 1, nanos: self.nanos + NANOS_PER_SEC - nanos })
        }
    }

    /// `self + duration`, or `None` when that is past the largest time an
    /// `Instant` holds.
    pub fn checked_add(&self, duration: Duration) -> (r: Option<Instant>)
        ensures
            ({
                let forward = total_nanos(duration_secs(duration), duration_subsec_nanos(duration));
                match r {
                    Some(i) => i@ == self@ + forward,
                    None => self@ + forward > Self::max_nanos(),
                }
            }),
            0 <= self@ <= Self::max_nanos(),
            r matches Some(i) ==> i@ <= Self::max_nanos(),
    {
        proof {
            use_type_invariant(self);
            lemma_total_nanos_order(self.secs, self.nanos, self.secs, self.nanos);
        }
        let secs = secs_of(&duration);
        let nanos = subsec_nanos_of(&duration);
        let ghost forward = total_nanos(secs, nanos);
        let sum_nanos: u32 = self.nanos + nanos;
        let (carry, rest): (u64, u32) = if sum_nanos >= NANOS_PER_SEC {
            (1, sum_nanos - NANOS_PER_SEC)
        } else {
            (0, sum_nanos)
        };
        proof {
            assert(self@ + forward == (self.secs + secs + carry) * 1_000_000_000 + rest) by (nonlinear_arith)
                requires
                    self@ == self.secs * 1_000_000_000 + self.nanos,
                    forward == secs * 1_000_000_000 + nanos,
                    self.nanos + nanos == carry * 1_000_000_000 + rest,
            ;
        }
        let total_secs = match self.secs.checked_add(secs) {
            Some(t) => t,
            None => {
                proof {
                    assert(self@ + forward > Self::max_nanos()) by (nonlinear_arith)
                        requires
                            self@ + forward == (self.secs + secs + carry) * 1_000_000_000 + rest,
                            self.secs + secs > u64::MAX,
                            Self::max_nanos() == u64::MAX * 1_000_000_000 + 999_999_999,
                            carry >= 0,
                            rest >= 0,
                    ;
                }
                return None;
            },
        };
        let total_secs = match total_secs.checked_add(carry) {
            Some(t) => t,
            None => {
                proof {
                    assert(self@ + forward > Self::max_nanos()) by (nonlinear_arith)
                        requires
                            self@ + forward == (total_secs + carry) * 1_000_000_000 + rest,
                            total_secs + carry > u64::MAX,
                            Self::max_nanos() == u64::MAX * 1_000_000_000 + 999_999_999,
                            rest >= 0,
                    ;
                }
                return None;
            },
        };
        let i = Instant { secs: total_secs, nanos: rest };
        proof {
            lemma_total_nanos_order(total_secs, rest, total_secs, rest);
        }
        Some(i)
    }
}

/// Going back from `later` by the duration `duration_since` measured from
/// `earlier` lands on `earlier`, and going forward from `earlier` by it lands
/// on `later`: `checked_sub` and `checked_add` undo each other around it.
pub proof fn law_duration_round_trip(later: int, earlier: int, d: Duration)
    requires
        0 <= earlier <= later <= Instant::max_nanos(),
        duration_secs(d) == difference(later, earlier).0,
        duration_subsec_nanos(d) == difference(later, earlier).1,
    ensures
        total_nanos(duration_secs(d), duration_subsec_nanos(d)) <= later,
        later - total_nanos(duration_secs(d), duration_subsec_nanos(d)) == earlier,
        earlier + total_nanos(duration_secs(d), duration_subsec_nanos(d)) <= Instant::max_nanos(),
        earlier + total_nanos(duration_secs(d), duration_subsec_nanos(d)) == later,
{
    law_duration_since(later, earlier);
}

} // verus!
