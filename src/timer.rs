//! Frame-driven timers in whole milliseconds: the gravity timer and the
//! auto-repeat of held movement keys.
use vstd::prelude::*;
use vstd::arithmetic::div_mod::lemma_mod_add_multiples_vanish;

verus! {

/// Interval between two gravity steps.
pub const BLOCK_FALL_INTERVAL_MS: u64 = 500;

/// Interval between two repeated moves while a movement key is held.
pub const BLOCK_MOVE_INTERVAL_MS: u64 = 250;

/// A repeating timer that makes the piece fall one row per period.
#[derive(Clone, Copy, Debug, PartialEq, Eq, Structural)]
pub struct FallingTimer {
    pub duration_ms: u64,
    pub elapsed_ms: u64,
    pub paused: bool,
}

/// Does advancing `t` by `delta_ms` end a period?
pub open spec fn tick_fires(t: FallingTimer, delta_ms: u64) -> bool {
    !t.paused && t.elapsed_ms + delta_ms >= t.duration_ms
}

/// `t` advanced by `delta_ms`; a paused timer stays as it is.
pub open spec fn ticked(t: FallingTimer, delta_ms: u64) -> FallingTimer {
    if t.paused { t } else { FallingTimer { elapsed_ms: ((t.elapsed_ms + delta_ms) % (t.duration_ms as int)) as u64, ..t } }
}

impl FallingTimer {
    pub open spec fn wf(&self) -> bool {
        0 < self.duration_ms && self.elapsed_ms < self.duration_ms
    }

    /// A running timer with the default gravity interval and nothing elapsed.
    pub open spec fn spec_new() -> FallingTimer {
        FallingTimer { duration_ms: BLOCK_FALL_INTERVAL_MS, elapsed_ms: 0, paused: false }
    }

    /// A running timer with the default gravity interval.
    pub fn new() -> (r: Self)
        ensures
            r.wf(),
            r == FallingTimer::spec_new(),
    {
        FallingTimer { duration_ms: BLOCK_FALL_INTERVAL_MS, elapsed_ms: 0, paused: false }
    }

    /// A running timer with period `duration_ms`.
    pub fn with_interval(duration_ms: u64) -> (r: Self)
        requires
            duration_ms > 0,
        ensures
            r.wf(),
            r.duration_ms == duration_ms,
            r.elapsed_ms == 0,
            !r.paused,
    {
        FallingTimer { duration_ms, elapsed_ms: 0, paused: false }
    }

    /// Advances the timer by `delta_ms` unless it is paused. Returns whether
    /// a period ended during this advance; the time past the last period end
    /// is kept.
    pub fn tick(&mut self, delta_ms: u64) -> (fired: bool)
        requires
            old(self).wf(),
        ensures
            final(self).wf(),
            *final(self) == ticked(*old(self), delta_ms),
            fired == tick_fires(*old(self), delta_ms),
            final(self).duration_ms == old(self).duration_ms,
            final(self).paused == old(self).paused,
            old(self).paused ==> !fired && final(self).elapsed_ms == old(self).elapsed_ms,
            !old(self).paused ==> fired == (old(self).elapsed_ms + delta_ms >= old(self).duration_ms),
            !old(self).paused ==> final(self).elapsed_ms == (old(self).elapsed_ms + delta_ms) % (old(self).duration_ms as int),
    {
        if self.paused {
            return false;
        }
        let room = self.duration_ms - self.elapsed_ms;
        if delta_ms < room {
            self.elapsed_ms = self.elapsed_ms + delta_ms;
            assert((self.elapsed_ms as int) % (self.duration_ms as int) == self.elapsed_ms) by {
                vstd::arithmetic::div_mod::lemma_small_mod(self.elapsed_ms as nat, self.duration_ms as nat);
            }
            false
        } else {
            let rest = delta_ms - room;
            self.elapsed_ms = rest % self.duration_ms;
            proof {
                lemma_mod_add_multiples_vanish(rest as int, self.duration_ms as int);
                assert(old(self).elapsed_ms + delta_ms == self.duration_ms + rest);
            }
            true
        }
    }

    /// Restarts the current period.
    pub fn reset(&mut self)
        requires
            old(self).wf(),
        ensures
            *final(self) == (FallingTimer { elapsed_ms: 0, ..*old(self) }),
            final(self).wf(),
    {
        self.elapsed_ms = 0;
    }

    /// Stops the timer until `unpause`.
    pub fn pause(&mut self)
        ensures
            *final(self) == (FallingTimer { paused: true, ..*old(self) }),
    {
        self.paused = true;
    }

    /// Lets the timer run again.
    pub fn unpause(&mut self)
        ensures
            *final(self) == (FallingTimer { paused: false, ..*old(self) }),
    {
        self.paused = false;
    }
}

/// Time held so far after `delta_ms` more, saturating.
pub open spec fn held_for(k: RepeatTimer, delta_ms: u64) -> int {
    if k.elapsed_ms + delta_ms > u64::MAX { u64::MAX as int } else { k.elapsed_ms + delta_ms }
}

/// Does a held key repeat in this frame?
pub open spec fn repeats(k: RepeatTimer, pressed: bool, delta_ms: u64) -> bool {
    pressed && held_for(k, delta_ms) > k.interval_ms
}

/// Moves made by one frame of a movement key.
pub open spec fn repeat_moves(k: RepeatTimer, just_pressed: bool, pressed: bool, delta_ms: u64) -> int {
    (if just_pressed { 1int } else { 0int }) + (if repeats(k, pressed, delta_ms) { 1int } else { 0int })
}

/// The repeat timer after one frame of its key.
pub open spec fn repeated(k: RepeatTimer, just_pressed: bool, pressed: bool, just_released: bool, delta_ms: u64) -> RepeatTimer {
    RepeatTimer {
        elapsed_ms: if just_released || repeats(k, pressed, delta_ms) { 0 }
            else if pressed { held_for(k, delta_ms) as u64 } else { k.elapsed_ms },
        ..k
    }
}

/// The auto-repeat of one held movement key.
#[derive(Clone, Copy, Debug, PartialEq, Eq, Structural)]
pub struct RepeatTimer {
    pub interval_ms: u64,
    pub elapsed_ms: u64,
}

impl RepeatTimer {
    /// A timer with the default repeat interval and nothing elapsed.
    pub fn new() -> (r: Self)
        ensures
            r.interval_ms == BLOCK_MOVE_INTERVAL_MS,
            r.elapsed_ms == 0,
    {
        RepeatTimer { interval_ms: BLOCK_MOVE_INTERVAL_MS, elapsed_ms: 0 }
    }

    /// One frame of a movement key: a press moves at once; while the key is
    /// held the time adds up (saturating), and once it exceeds the interval
    /// it starts over and the key moves again; a release starts it over.
    /// Returns how many moves the frame makes.
    pub fn update(&mut self, just_pressed: bool, pressed: bool, just_released: bool, delta_ms: u64) -> (moves: u8)
        ensures
            moves == repeat_moves(*old(self), just_pressed, pressed, delta_ms),
            *final(self) == repeated(*old(self), just_pressed, pressed, just_released, delta_ms),
    {
        let mut moves: u8 = 0;
        if just_pressed {
            moves = moves + 1;
        }
        if pressed {
            self.elapsed_ms = self.elapsed_ms.saturating_add(delta_ms);
            if self.elapsed_ms > self.interval_ms {
                self.elapsed_ms = 0;
                moves = moves + 1;
            }
        }
        if just_released {
            self.elapsed_ms = 0;
        }
        moves
    }
}

} // verus!
