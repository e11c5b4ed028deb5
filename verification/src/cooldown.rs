//! The per-actor countdown that gates firing.

use vstd::prelude::*;

verus! {

/// What a cooldown is, as numbers: the configured duration and the time
/// elapsed since the last shot, both in nanoseconds.
pub struct Cooldown {
    pub duration: nat,
    pub elapsed: nat,
}

impl Cooldown {
    /// Elapsed time never passes the duration.
    pub open spec fn wf(self) -> bool {
        self.elapsed <= self.duration
    }

    /// Ready means that the whole duration has elapsed.
    pub open spec fn ready(self) -> bool {
        self.elapsed >= self.duration
    }

    /// The cooldown after `delta` more nanoseconds: elapsed time grows by
    /// `delta` and stops at the duration.
    pub open spec fn advanced(self, delta: nat) -> Cooldown {
        Cooldown {
            duration: self.duration,
            elapsed: if self.elapsed + delta >= self.duration {
                self.duration
            } else {
                self.elapsed + delta
            },
        }
    }

    /// The cooldown right after a shot: nothing has elapsed.
    pub open spec fn fired(self) -> Cooldown {
        Cooldown { duration: self.duration, elapsed: 0 }
    }

    /// One fire attempt: a ready cooldown fires and starts over, any other
    /// is left as it is.
    pub open spec fn attempted(self) -> Cooldown {
        if self.ready() {
            self.fired()
        } else {
            self
        }
    }

    /// Projectiles that one fire attempt produces: one if ready, else none.
    pub open spec fn yield_of_attempt(self) -> nat {
        if self.ready() {
            1
        } else {
            0
        }
    }
}

/// Countdown state of one actor, in nanoseconds. It starts with nothing
/// elapsed, so an actor with a positive duration starts out charging.
#[derive(Clone, Copy, Debug)]
pub struct CooldownTimer {
    duration: u64,
    elapsed: u64,
}

impl View for CooldownTimer {
    type V = Cooldown;

    closed spec fn view(&self) -> Cooldown {
        Cooldown { duration: self.duration as nat, elapsed: self.elapsed as nat }
    }
}

impl CooldownTimer {
    #[verifier::type_invariant]
    spec fn within_duration(self) -> bool {
        self.elapsed <= self.duration
    }

    /// A timer of the given duration with nothing elapsed.
    pub fn new(duration: u64) -> (timer: Self)
        ensures
            timer@ == (Cooldown { duration: duration as nat, elapsed: 0 }),
            timer@.wf(),
    {
        CooldownTimer { duration, elapsed: 0 }
    }

    /// The configured duration.
    pub fn duration(&self) -> (d: u64)
        ensures
            d == self@.duration,
    {
        self.duration
    }

    /// The time elapsed since the last reset, held at the duration.
    pub fn elapsed(&self) -> (e: u64)
        ensures
            e == self@.elapsed,
            self@.wf(),
    {
        proof {
            use_type_invariant(self);
        }
        self.elapsed
    }

    /// Whether the whole duration has elapsed.
    pub fn finished(&self) -> (ready: bool)
        ensures
            ready == self@.ready(),
    {
        self.elapsed >= self.duration
    }

    /// Advances the timer by `delta` nanoseconds.
    pub fn tick(&mut self, delta: u64)
        ensures
            final(self)@ == old(self)@.advanced(delta as nat),
            final(self)@.wf(),
    {
        proof {
            use_type_invariant(&*self);
        }
        if delta >= self.duration - self.elapsed {
            self.elapsed = self.duration;
        } else {
            self.elapsed = self.elapsed + delta;
        }
    }

    /// Starts the countdown over.
    pub fn reset(&mut self)
        ensures
            final(self)@ == old(self)@.fired(),
            final(self)@.wf(),
    {
        self.elapsed = 0;
    }
}

/// Ticking twice is ticking once by the sum, so it does not matter how many
/// frames a stretch of time is cut into.
pub proof fn lemma_ticks_add_up(c: Cooldown, a: nat, b: nat)
    requires
        c.wf(),
    ensures
        c.advanced(a).advanced(b) == c.advanced(a + b),
        c.advanced(0) == c,
        c.advanced(a).wf(),
{
}

/// Cooldown gating: an actor that fires when ready and tries again `gap`
/// nanoseconds later fires the second time exactly when the gap is at least
/// the duration. Two attempts closer than that give one projectile, two
/// attempts at least that far apart give two.
pub proof fn lemma_cooldown_gating(c: Cooldown, gap: nat)
    requires
        c.wf(),
        c.ready(),
    ensures
        c.attempted().advanced(gap).ready() <==> gap >= c.duration,
        c.yield_of_attempt() + c.attempted().advanced(gap).yield_of_attempt() == (if gap
            >= c.duration {
            2nat
        } else {
            1nat
        }),
{
}

/// A shot restarts the countdown in the same step, so a second attempt
/// before any time has passed fires nothing unless the duration is zero.
pub proof fn lemma_no_double_fire(c: Cooldown)
    requires
        c.wf(),
        c.duration > 0,
    ensures
        c.attempted().yield_of_attempt() == 0,
        c.attempted().attempted() == c.attempted(),
{
}

} // verus!
