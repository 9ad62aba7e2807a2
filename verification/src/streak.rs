//! The wheel over the thumbnails: how many steps in one direction make a streak, and how the
//! streak wears off.
//!
//! Times are nanoseconds since the viewer started.

use vstd::prelude::*;

verus! {

/// How long a streak keeps one of its steps: 0.3 seconds, in single precision.
pub const STREAK_TICK_NANOS: u64 = 300_000_012;

/// A streak that has worn off by some steps; one step is left at least.
pub open spec fn decayed(streak: u32, ticks: int) -> u32 {
    if streak > ticks + 1 {
        (streak - ticks) as u32
    } else {
        1
    }
}

/// A streak that has worn off by some steps.
pub fn thumbnail_scroll_streak_after_decay(streak: u32, decay_ticks: u32) -> (r: u32)
    ensures
        r == decayed(streak, decay_ticks as int),
{
    let left: u32 = streak.saturating_sub(decay_ticks);
    if left > 1 {
        left
    } else {
        1
    }
}

/// Steps of the wheel in one direction.
pub struct ScrollStreak {
    pub streak: u32,
    pub last_dir: i8,
    pub last_at: Option<u64>,
    pub last_decay_at: Option<u64>,
}

/// When to paint again.
pub struct StreakWake {
    pub now: bool,
    pub after: Option<u64>,
}

/// How many ticks have passed, up to `most`.
pub open spec fn ticks_passed(since: u64, now: u64, most: int) -> int {
    let n = if now <= since {
        0
    } else {
        (now - since) / (STREAK_TICK_NANOS as int)
    };
    if n < most {
        n
    } else {
        most
    }
}

impl ScrollStreak {
    /// No steps.
    pub open spec fn fresh(self) -> bool {
        self.streak == 0 && self.last_dir == 0 && self.last_at is None
            && self.last_decay_at is None
    }

    /// No steps.
    pub fn new() -> (r: ScrollStreak)
        ensures
            r.fresh(),
    {
        ScrollStreak { streak: 0, last_dir: 0, last_at: None, last_decay_at: None }
    }

    /// The steps after one more: it makes one streak with recent ones in the same direction.
    pub open spec fn wheeled(self, dir: i8, recent: bool, now: u64) -> ScrollStreak {
        ScrollStreak {
            streak: if recent && self.last_dir == dir {
                if self.streak == u32::MAX {
                    u32::MAX
                } else {
                    (self.streak + 1) as u32
                }
            } else {
                1
            },
            last_dir: dir,
            last_at: Some(now),
            last_decay_at: Some(now),
        }
    }

    /// A step of the wheel: `recent` tells whether the last one is recent enough to make one
    /// streak with it.
    pub fn wheel(&mut self, dir: i8, recent: bool, now: u64)
        ensures
            final(self).streak == if recent && old(self).last_dir == dir {
                if old(self).streak == u32::MAX {
                    u32::MAX
                } else {
                    (old(self).streak + 1) as u32
                }
            } else {
                1
            },
            final(self).last_dir == dir,
            final(self).last_at == Some(now),
            final(self).last_decay_at == Some(now),
            *final(self) == old(self).wheeled(dir, recent, now),
    {
        if recent && self.last_dir == dir {
            self.streak = self.streak.saturating_add(1);
        } else {
            self.streak = 1;
        }
        self.last_dir = dir;
        self.last_at = Some(now);
        self.last_decay_at = Some(now);
    }

    /// The streak wears off by one step for each tick that has passed. Returns when to paint
    /// again.
    pub fn tick(&mut self, now: u64) -> (r: StreakWake)
        ensures
            final(self).last_dir == old(self).last_dir,
            final(self).last_at == old(self).last_at,
            old(self).streak <= 1 ==> final(self).streak == old(self).streak
                && final(self).last_decay_at is None && !r.now && r.after is None,
            old(self).streak > 1 && old(self).last_decay_at is None ==> final(self).streak
                == old(self).streak && final(self).last_decay_at == old(self).last_at && !r.now
                && r.after is None,
            old(self).streak > 1 && old(self).last_decay_at is Some ==> {
                let since = old(self).last_decay_at->0;
                let n = ticks_passed(since, now, old(self).streak - 1);
                &&& final(self).streak == decayed(old(self).streak, n)
                &&& final(self).last_decay_at == Some((since + n * STREAK_TICK_NANOS) as u64)
                &&& r.now == (n > 0)
                &&& r.after == if final(self).streak > 1 {
                    let from = since + n * STREAK_TICK_NANOS;
                    Some(
                        (STREAK_TICK_NANOS - (if now <= from {
                            0
                        } else {
                            now - from
                        })) as u64,
                    )
                } else {
                    None
                }
            },
    {
        if self.streak <= 1 {
            self.last_decay_at = None;
            return StreakWake { now: false, after: None };
        }
        let mut decay_at: u64 = match self.last_decay_at {
            None => {
                self.last_decay_at = self.last_at;
                return StreakWake { now: false, after: None };
            },
            Some(t) => t,
        };
        let ghost since = decay_at;
        let ghost start = self.streak;
        let ghost mut n: int = 0;
        let mut changed = false;
        while self.streak > 1 && now >= decay_at && now - decay_at >= STREAK_TICK_NANOS
            invariant
                0 <= n <= start - 1,
                start > 1,
                self.streak == start - n,
                decay_at == since + n * STREAK_TICK_NANOS,
                n > 0 ==> decay_at <= now,
                changed == (n > 0),
                self.last_dir == old(self).last_dir,
                self.last_at == old(self).last_at,
            decreases self.streak,
        {
            decay_at = decay_at + STREAK_TICK_NANOS;
            self.streak = thumbnail_scroll_streak_after_decay(self.streak, 1);
            changed = true;
            proof {
                n = n + 1;
            }
        }
        proof {
            if now > since {
                let q = (now - since) / (STREAK_TICK_NANOS as int);
                if self.streak > 1 {
                    assert(now - since < (n + 1) * STREAK_TICK_NANOS);
                    assert(q == n) by (nonlinear_arith)
                        requires
                            q == (now - since) / 300_000_012,
                            n * 300_000_012 <= now - since < (n + 1) * 300_000_012,
                    ;
                } else {
                    assert(q >= n) by (nonlinear_arith)
                        requires
                            q == (now - since) / 300_000_012,
                            n * 300_000_012 <= now - since,
                    ;
                }
            }
        }
        self.last_decay_at = Some(decay_at);
        let passed: u64 = now.saturating_sub(decay_at);
        let after = if self.streak > 1 {
            Some(STREAK_TICK_NANOS - passed)
        } else {
            None
        };
        StreakWake { now: changed, after }
    }
}

/// A streak never wears off completely and never grows beyond the one step that is left at
/// least. To wear off in two turns is to wear off at once.
pub proof fn streak_wears_off_gradually(streak: u32, a: int, b: int)
    requires
        0 <= a <= b,
    ensures
        decayed(streak, a) >= 1,
        decayed(streak, b) <= decayed(streak, a),
        decayed(streak, a) <= if streak >= 1 {
            streak
        } else {
            1
        },
        streak >= 1 ==> decayed(streak, 0) == streak,
        decayed(decayed(streak, a), b) == decayed(streak, a + b),
{
}

/// A streak loses one step for each three tenths of a second that have passed, up to a given
/// number, and is never shorter than one step.
pub proof fn steps_are_lost_with_time(streak: u32, since: u64, now: u64, most: int)
    requires
        0 <= most,
    ensures
        ({
            let n = ticks_passed(since, now, most);
            &&& 0 <= n <= most
            &&& now > since ==> n * 300_000_012 <= now - since
            &&& now <= since ==> n == 0
            &&& n < most && now > since ==> now - since < (n + 1) * 300_000_012
            &&& streak > n ==> decayed(streak, n) == streak - n
            &&& streak <= n ==> decayed(streak, n) == 1
        }),
{
    if now > since {
        let d = now - since;
        let q = d / 300_000_012;
        assert(q * 300_000_012 <= d < (q + 1) * 300_000_012 && q >= 0) by (nonlinear_arith)
            requires
                q == d / 300_000_012,
                d >= 0,
        ;
        let n = ticks_passed(since, now, most);
        assert(n * 300_000_012 <= q * 300_000_012) by (nonlinear_arith)
            requires
                n <= q,
        ;
    }
}

/// Each recent step of the wheel in the same direction makes the streak longer by one; a step in
/// the other direction, or after a while, starts a new one. From then on the time counts anew.
pub proof fn a_streak_grows_in_one_direction(s: ScrollStreak, dir: i8, now: u64)
    ensures
        s.last_dir == dir && s.streak < u32::MAX ==> s.wheeled(dir, true, now).streak == s.streak
            + 1,
        s.last_dir == dir && s.streak == u32::MAX ==> s.wheeled(dir, true, now).streak == s.streak,
        s.last_dir != dir ==> s.wheeled(dir, true, now).streak == 1,
        s.wheeled(dir, false, now).streak == 1,
        forall|recent: bool|
            {
                let t = #[trigger] s.wheeled(dir, recent, now);
                t.last_dir == dir && t.last_at == Some(now) && t.last_decay_at == Some(now)
            },
{
}

} // verus!
