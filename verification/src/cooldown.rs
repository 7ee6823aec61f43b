//! Cooldown admission control for remote writes.
//!
//! A cooldown holds at most one expiry instant, in milliseconds since the
//! Unix epoch; no instant means "ready now". Queries take the current time
//! as an explicit argument, so every caller is verified for every clock
//! value; [`current_time_millis`] supplies the wall clock at the edge.

use vstd::prelude::*;

verus! {

/// Remaining wait at `now`, given an optional expiry instant: zero when no
/// expiry is armed or when it has passed, the distance to it otherwise.
/// Never negative.
pub open spec fn spec_remaining(end: Option<u64>, now: int) -> int {
    match end {
        Option::None => 0,
        Option::Some(e) => if e > now {
            e - now
        } else {
            0
        },
    }
}

/// The expiry instant `delay` after `now`, saturating at the end of the
/// clock's range.
pub open spec fn spec_armed(now: int, delay: int) -> u64 {
    if now + delay <= u64::MAX {
        (now + delay) as u64
    } else {
        u64::MAX
    }
}

/// Tracks the single instant at which remote writes open again.
pub struct Cooldown {
    end: Option<u64>,
}

impl View for Cooldown {
    type V = Option<u64>;

    closed spec fn view(&self) -> Option<u64> {
        self.end
    }
}

impl Cooldown {
    /// A cooldown that is ready at once: no expiry armed.
    pub fn new() -> (c: Cooldown)
        ensures
            c@ == None::<u64>,
    {
        Cooldown { end: None }
    }

    /// Arm the cooldown to expire `delay_ms` after `now_ms`.
    pub fn set(&mut self, now_ms: u64, delay_ms: u64)
        ensures
            final(self)@ == Some(spec_armed(now_ms as int, delay_ms as int)),
    {
        let end: u64 = if delay_ms <= u64::MAX - now_ms {
            now_ms + delay_ms
        } else {
            u64::MAX
        };
        self.end = Some(end);
    }

    /// Milliseconds left to wait at `now_ms`; zero once the expiry has
    /// passed, never negative.
    pub fn remaining(&self, now_ms: u64) -> (r: u64)
        ensures
            r == spec_remaining(self@, now_ms as int),
    {
        match self.end {
            None => 0,
            Some(e) => if e > now_ms {
                e - now_ms
            } else {
                0
            },
        }
    }

    /// Whether the wait is over at `now_ms`.
    pub fn is_ended(&self, now_ms: u64) -> (r: bool)
        ensures
            r == (spec_remaining(self@, now_ms as int) == 0),
    {
        self.remaining(now_ms) == 0
    }
}

/// The remaining wait never increases as the clock advances, and it clamps
/// to zero after the expiry: between two `set` calls the cooldown only
/// decays.
pub proof fn lemma_remaining_monotonic(end: Option<u64>, t1: int, t2: int)
    requires
        t1 <= t2,
    ensures
        spec_remaining(end, t2) <= spec_remaining(end, t1),
{
}

/// Admission after arming: once a cooldown is armed at `t0` for `delay`
/// milliseconds (within the clock's range), any query before `t0 + delay`
/// sees a positive wait of at most `delay`, and any query from `t0 + delay`
/// on sees no wait at all.
pub proof fn lemma_cooldown_admission(t0: int, delay: int, t: int)
    requires
        0 <= t0,
        0 <= delay,
        t0 + delay <= u64::MAX,
        t0 <= t,
    ensures
        t < t0 + delay ==> 0 < spec_remaining(Some(spec_armed(t0, delay)), t) <= delay,
        t >= t0 + delay ==> spec_remaining(Some(spec_armed(t0, delay)), t) == 0,
{
}

/// Relies on chrono's `Utc::now` and `DateTime::timestamp_millis` for the
/// wall clock, read as milliseconds since the Unix epoch. Nothing is assumed
/// of the value.
#[verifier::external_body]
fn clock_now_millis() -> i64 {
    chrono::Utc::now().timestamp_millis()
}

/// The current wall-clock time in milliseconds since the Unix epoch,
/// clamped to zero should the clock stand before the epoch. The value is
/// meaningful only as an argument to the time-taking queries; nothing else
/// is promised of it.
pub fn current_time_millis() -> u64 {
    let t = clock_now_millis();
    if t < 0 {
        0
    } else {
        t as u64
    }
}

} // verus!
