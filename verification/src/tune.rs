//! How patient to be, and how fast to send. All spans are nanoseconds.
//!
//! The timeout autotuner starts at the requested timeout (or 1 s), grows
//! 1.5x on each timeout so a short one can never turn the probe into a
//! fixed-rate blaster, and re-anchors to 4x the recent p95 whenever replies
//! flow. The pacer widens the gap between UDP probes on drops and narrows it
//! on clean streaks.

use vstd::prelude::*;

verus! {

/// The timeout to start from where none is requested.
pub const TIMEOUT_INITIAL: u64 = 1_000_000_000;

/// The timeout is not tuned below this, unless a shorter one is requested.
pub const TIMEOUT_FLOOR: u64 = 250_000_000;

/// Nor above this, unless a longer one is requested.
pub const TIMEOUT_CEIL: u64 = 2_000_000_000;

/// The timeout is so many times the recent p95.
pub const TIMEOUT_MULT: u64 = 4;

/// The smallest growth of the gap on a drop.
pub const PACE_STEP_MIN: u64 = 10_000_000;

/// The gap never grows beyond this.
pub const PACE_CAP: u64 = 2_000_000_000;

/// So many replies in a row make a clean streak.
pub const PACE_DECAY_STREAK: u32 = 20;

/// The bounds of a requested timeout.
pub const REQUEST_MIN: u64 = 10_000_000;

pub const REQUEST_MAX: u64 = 10_000_000_000;

pub open spec fn clamped(v: int, lo: int, hi: int) -> int {
    if v < lo {
        lo
    } else if v > hi {
        hi
    } else {
        v
    }
}

/// The timeout after a loss: half as much again, up to the ceiling.
pub open spec fn grown(cur: int, ceil: int) -> int {
    if cur * 3 / 2 < ceil {
        cur * 3 / 2
    } else {
        ceil
    }
}

/// The probe timeout and the bounds it is tuned between.
#[derive(Clone, Copy, Debug, PartialEq, Eq)]
pub struct Tuner {
    pub cur: u64,
    pub floor: u64,
    pub ceil: u64,
}

impl Tuner {
    pub open spec fn wf(self) -> bool {
        self.floor <= self.cur <= self.ceil
    }

    /// The tuner at the start: the requested timeout, with bounds it lies
    /// within.
    pub open spec fn starting(requested: Option<u64>) -> Tuner {
        let cur = match requested {
            Some(r) => r,
            None => TIMEOUT_INITIAL,
        };
        Tuner {
            cur,
            floor: if TIMEOUT_FLOOR < cur {
                TIMEOUT_FLOOR
            } else {
                cur
            },
            ceil: if TIMEOUT_CEIL > cur {
                TIMEOUT_CEIL
            } else {
                cur
            },
        }
    }

    /// Start from the requested timeout. It widens the bounds where it lies
    /// outside of 250 ms to 2 s.
    pub fn new(requested: Option<u64>) -> (t: Tuner)
        ensures
            t.wf(),
            t == Tuner::starting(requested),
    {
        let start: u64 = match requested {
            Some(r) => r,
            None => TIMEOUT_INITIAL,
        };
        Tuner {
            cur: start,
            floor: if TIMEOUT_FLOOR < start {
                TIMEOUT_FLOOR
            } else {
                start
            },
            ceil: if TIMEOUT_CEIL > start {
                TIMEOUT_CEIL
            } else {
                start
            },
        }
    }

    /// Replies flow: anchor the timeout to the path.
    pub fn replied(&mut self, p95: Option<u64>)
        requires
            old(self).wf(),
        ensures
            final(self).wf(),
            *final(self) == (Tuner {
                cur: match p95 {
                    Some(p) => clamped(
                        p * TIMEOUT_MULT,
                        old(self).floor as int,
                        old(self).ceil as int,
                    ) as u64,
                    None => old(self).cur,
                },
                ..*old(self)
            }),
    {
        if let Some(p) = p95 {
            let want: u128 = p as u128 * TIMEOUT_MULT as u128;
            if want < self.floor as u128 {
                self.cur = self.floor;
            } else if want > self.ceil as u128 {
                self.cur = self.ceil;
            } else {
                self.cur = want as u64;
            }
        }
    }

    /// A lost probe means we don't know the path: get more patient.
    pub fn lost(&mut self)
        requires
            old(self).wf(),
        ensures
            final(self).wf(),
            *final(self) == (Tuner {
                cur: grown(old(self).cur as int, old(self).ceil as int) as u64,
                ..*old(self)
            }),
    {
        let half: u64 = self.cur / 2;
        if half < self.ceil - self.cur {
            self.cur = self.cur + half;
        } else {
            self.cur = self.ceil;
        }
    }
}

/// The timeout after `n` losses in a row.
pub open spec fn after_losses(cur: int, ceil: int, n: nat) -> int
    decreases n,
{
    if n == 0 {
        cur
    } else {
        after_losses(grown(cur, ceil), ceil, (n - 1) as nat)
    }
}

/// Without a requested timeout, a reply sets the timeout to 4 x the recent
/// p95, clamped to 250 ms - 2 s.
pub proof fn law_default_timeout_tracks_p95(t: Tuner, p95: u64)
    requires
        t.floor == Tuner::starting(None).floor,
        t.ceil == Tuner::starting(None).ceil,
    ensures
        250_000_000 <= clamped(p95 * TIMEOUT_MULT, t.floor as int, t.ceil as int) <= 2_000_000_000,
        62_500_000 <= p95 <= 500_000_000 ==> clamped(
            p95 * TIMEOUT_MULT,
            t.floor as int,
            t.ceil as int,
        ) == 4 * p95,
{
}

/// A loss never shortens the timeout, and lengthens it as long as there is
/// room (and more than a nanosecond to grow from).
pub proof fn law_losses_grow_the_timeout(cur: int, ceil: int)
    requires
        2 <= cur <= ceil,
    ensures
        cur <= grown(cur, ceil) <= ceil,
        cur < ceil ==> cur < grown(cur, ceil),
{
}

/// No requested timeout turns the probe into a fixed-rate blaster: from
/// wherever the autotuner stands, fourteen losses in a row bring the timeout
/// to the ceiling, and the ceiling is at least 2 s.
pub proof fn law_a_short_timeout_cannot_last(requested: u64, t: Tuner)
    requires
        REQUEST_MIN <= requested <= REQUEST_MAX,
        t.wf(),
        t.floor == Tuner::starting(Some(requested)).floor,
        t.ceil == Tuner::starting(Some(requested)).ceil,
    ensures
        after_losses(t.cur as int, t.ceil as int, 14) == t.ceil,
        t.ceil >= 2_000_000_000,
{
    reveal_with_fuel(after_losses, 15);
    let c = t.ceil as int;
    let a0 = t.cur as int;
    let a1 = grown(a0, c);
    let a2 = grown(a1, c);
    let a3 = grown(a2, c);
    let a4 = grown(a3, c);
    let a5 = grown(a4, c);
    let a6 = grown(a5, c);
    let a7 = grown(a6, c);
    let a8 = grown(a7, c);
    let a9 = grown(a8, c);
    let a10 = grown(a9, c);
    let a11 = grown(a10, c);
    let a12 = grown(a11, c);
    let a13 = grown(a12, c);
    let a14 = grown(a13, c);
    assert(after_losses(a0, c, 14) == a14);
}

/// The gap between UDP probes. Devices rate-limit unreachables, so drops mean
/// "slower" more often than "lost": the gap grows on each drop until replies
/// hold, and decays on clean streaks to re-probe the limit.
#[derive(Clone, Copy, Debug, PartialEq, Eq)]
pub struct Pacer {
    pub delay: u64,
    pub peak: u64,
    pub streak: u32,
    pub noted: bool,
}

/// The gap after a drop.
pub open spec fn widened(delay: int) -> int {
    let step = if delay / 2 > PACE_STEP_MIN {
        delay / 2
    } else {
        PACE_STEP_MIN as int
    };
    if delay + step < PACE_CAP {
        delay + step
    } else {
        PACE_CAP as int
    }
}

impl Pacer {
    /// The gap and its peak stay below the cap; a peak is there if and only
    /// if pacing was engaged.
    pub open spec fn wf(self) -> bool {
        &&& self.delay <= self.peak <= PACE_CAP
        &&& self.streak < PACE_DECAY_STREAK
        &&& self.noted <==> self.peak > 0
    }

    /// After a reply.
    pub open spec fn after_reply(self) -> Pacer {
        if self.streak + 1 >= PACE_DECAY_STREAK {
            Pacer { delay: (self.delay * 9 / 10) as u64, streak: 0, ..self }
        } else {
            Pacer { streak: (self.streak + 1) as u32, ..self }
        }
    }

    /// After a drop.
    pub open spec fn after_loss(self) -> Pacer {
        let delay = widened(self.delay as int) as u64;
        Pacer {
            delay,
            peak: if self.peak > delay {
                self.peak
            } else {
                delay
            },
            streak: 0,
            noted: true,
        }
    }

    /// No gap, no history.
    pub fn new() -> (p: Pacer)
        ensures
            p.wf(),
            p == (Pacer { delay: 0, peak: 0, streak: 0, noted: false }),
    {
        Pacer { delay: 0, peak: 0, streak: 0, noted: false }
    }

    /// A reply came in.
    pub fn replied(&mut self)
        requires
            old(self).wf(),
        ensures
            final(self).wf(),
            *final(self) == old(self).after_reply(),
    {
        self.streak = self.streak + 1;
        if self.streak >= PACE_DECAY_STREAK {
            self.delay = self.delay * 9 / 10;
            self.streak = 0;
        }
    }

    /// A probe was dropped. Returns whether this is the first drop, the one to tell the user of.
    pub fn lost(&mut self) -> (first: bool)
        requires
            old(self).wf(),
        ensures
            final(self).wf(),
            *final(self) == old(self).after_loss(),
            first == !old(self).noted,
    {
        let first = !self.noted;
        self.streak = 0;
        let half: u64 = self.delay / 2;
        let wide: u64 = self.delay + if half > PACE_STEP_MIN {
            half
        } else {
            PACE_STEP_MIN
        };
        self.delay = if wide < PACE_CAP {
            wide
        } else {
            PACE_CAP
        };
        if self.delay > self.peak {
            self.peak = self.delay;
        }
        self.noted = true;
        first
    }
}

/// A drop widens the gap by at least 10 ms until it reaches the cap of 2 s;
/// a clean streak never widens it.
pub proof fn law_drops_widen_streaks_narrow(p: Pacer)
    requires
        p.wf(),
    ensures
        p.after_loss().delay == PACE_CAP || p.after_loss().delay >= p.delay + PACE_STEP_MIN,
        p.delay <= p.after_loss().delay <= PACE_CAP,
        p.after_reply().delay <= p.delay,
{
}

/// Where a timeout is asked for, it is the one to start from; else 1 s is.
/// It may be tuned down to 250 ms and up to 2 s, or to itself where it is
/// beyond.
pub proof fn law_the_requested_timeout_comes_first(requested: u64)
    ensures
        Tuner::starting(Some(requested)).cur == requested,
        Tuner::starting(None) == (Tuner {
            cur: 1_000_000_000,
            floor: 250_000_000,
            ceil: 2_000_000_000,
        }),
        requested >= 250_000_000 ==> Tuner::starting(Some(requested)).floor == 250_000_000,
        requested < 250_000_000 ==> Tuner::starting(Some(requested)).floor == requested,
        requested <= 2_000_000_000 ==> Tuner::starting(Some(requested)).ceil == 2_000_000_000,
        requested > 2_000_000_000 ==> Tuner::starting(Some(requested)).ceil == requested,
{
}

} // verus!
