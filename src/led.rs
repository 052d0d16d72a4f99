//! The LED output: ten levels of output shown by pulsing an "up" and a
//! "down" LED; this module decides the pulses.
use vstd::prelude::*;

verus! {

/// The level, 0 to 10, that a command asks for: the command clamped into
/// 0 to 100, in tens.
pub open spec fn target_level(command: int) -> int {
    if command < 0 {
        0
    } else if command > 100 {
        10
    } else {
        command / 10
    }
}

#[derive(Clone, Copy, Debug, PartialEq, Eq, Structural)]
pub enum Direction {
    Up,
    Down,
}

/// `count` pulses of the LED for `direction`.
#[derive(Clone, Copy, Debug, PartialEq, Eq, Structural)]
pub struct Pulses {
    pub direction: Direction,
    pub count: u32,
}

/// The pulses that move the output from `from` to `to`.
pub open spec fn pulses_between(from: int, to: int) -> Pulses {
    if to >= from {
        Pulses { direction: Direction::Up, count: (to - from) as u32 }
    } else {
        Pulses { direction: Direction::Down, count: (from - to) as u32 }
    }
}

/// The level after `n` calls of `turn_off` from level `level`.
pub open spec fn level_after_turn_offs(level: int, n: nat) -> int
    decreases n,
{
    if n == 0 {
        level
    } else {
        level_after_turn_offs(0, (n - 1) as nat)
    }
}

/// The current level of the LED output.
pub struct LedLevel {
    state: u32,
}

impl LedLevel {
    pub closed spec fn level(&self) -> nat {
        self.state as nat
    }

    /// The level is at most 10.
    pub open spec fn wf(&self) -> bool {
        self.level() <= 10
    }

    /// An output at level zero.
    pub fn new() -> (r: LedLevel)
        ensures
            r.wf(),
            r.level() == 0,
    {
        LedLevel { state: 0 }
    }

    pub fn get_level(&self) -> (r: u32)
        ensures
            r == self.level(),
    {
        self.state
    }

    /// Moves to the level that `command` asks for; returns the pulses that
    /// take the LEDs there.
    pub fn set(&mut self, command: i128) -> (r: Pulses)
        requires
            old(self).wf(),
        ensures
            final(self).wf(),
            final(self).level() == target_level(command as int),
            r == pulses_between(old(self).level() as int, final(self).level() as int),
    {
        let target: u32 = if command < 0 {
            0
        } else if command > 100 {
            10
        } else {
            (command / 10) as u32
        };
        let r = if target >= self.state {
            Pulses { direction: Direction::Up, count: target - self.state }
        } else {
            Pulses { direction: Direction::Down, count: self.state - target }
        };
        self.state = target;
        r
    }

    /// Moves to level zero, the safe state; returns the pulses that take the
    /// LEDs there (none when already off).
    pub fn turn_off(&mut self) -> (r: Pulses)
        requires
            old(self).wf(),
        ensures
            final(self).wf(),
            final(self).level() == level_after_turn_offs(old(self).level() as int, 1),
            r == pulses_between(old(self).level() as int, 0),
            old(self).level() == 0 ==> r.count == 0,
    {
        let r = if self.state == 0 {
            Pulses { direction: Direction::Up, count: 0 }
        } else {
            Pulses { direction: Direction::Down, count: self.state }
        };
        self.state = 0;
        assert(level_after_turn_offs(0, 0) == 0);
        r
    }
}

/// Turning the output off `n >= 1` times leaves it where turning it off
/// once does, and every call after the first pulses nothing.
pub proof fn lemma_turn_off_idempotent(level: int, n: nat)
    requires
        n >= 1,
    ensures
        level_after_turn_offs(level, n) == level_after_turn_offs(level, 1),
        level_after_turn_offs(level, 1) == 0,
        pulses_between(level_after_turn_offs(level, 1), 0).count == 0,
    decreases n,
{
    if n > 1 {
        lemma_turn_off_idempotent(0, (n - 1) as nat);
    }
    assert(level_after_turn_offs(0, 0) == 0);
}

} // verus!
