//! The loading spinner, advanced by elapsed wall time.
use vstd::prelude::*;
use crate::notification::{duration_as_nanos, duration_nanos};

verus! {

/// Nanoseconds each spinner frame is shown.
pub const SPINNER_FRAME_NANOS: u128 = 80_000_000;

/// The current frame of the spinner and the time spent on it so far.
#[derive(Debug, Clone, PartialEq, Eq, Structural)]
pub struct Spinner {
    pub frame: usize,
    pub elapsed_nanos: u128,
}

/// The frame after `steps` more frames, counting round past the largest
/// `usize`.
pub open spec fn frame_after(frame: usize, steps: int) -> int {
    (frame + steps) % (usize::MAX as int + 1)
}

impl Default for Spinner {
    fn default() -> (r: Self)
        ensures
            r.frame == 0,
            r.elapsed_nanos == 0,
    {
        Spinner { frame: 0, elapsed_nanos: 0 }
    }
}

impl Spinner {
    /// Advances by the whole frame intervals in `dt`.
    pub fn tick(&mut self, dt: std::time::Duration)
        requires
            old(self).elapsed_nanos < SPINNER_FRAME_NANOS,
        ensures
            final(self).elapsed_nanos == (old(self).elapsed_nanos + duration_nanos(dt)) % (
            SPINNER_FRAME_NANOS as int),
            final(self).frame == frame_after(
                old(self).frame,
                (old(self).elapsed_nanos + duration_nanos(dt)) / SPINNER_FRAME_NANOS as int,
            ),
    {
        let nanos = duration_as_nanos(dt);
        self.tick_nanos(nanos);
    }

    /// Advances by the whole frame intervals in `dt` nanoseconds, keeping the
    /// remainder for the next tick.
    pub fn tick_nanos(&mut self, dt: u128)
        requires
            old(self).elapsed_nanos + dt <= u128::MAX,
        ensures
            final(self).elapsed_nanos == (old(self).elapsed_nanos + dt) % (SPINNER_FRAME_NANOS as int),
            final(self).frame == frame_after(
                old(self).frame,
                (old(self).elapsed_nanos + dt) / SPINNER_FRAME_NANOS as int,
            ),
    {
        let ghost total = self.elapsed_nanos + dt;
        let ghost start = self.frame;
        self.elapsed_nanos = self.elapsed_nanos + dt;
        let ghost mut steps: int = 0;
        proof {
            vstd::arithmetic::div_mod::lemma_small_mod(start as nat, usize::MAX as nat + 1);
        }
        while self.elapsed_nanos >= SPINNER_FRAME_NANOS
            invariant
                self.elapsed_nanos + steps * SPINNER_FRAME_NANOS == total,
                steps >= 0,
                self.frame == frame_after(start, steps),
            decreases self.elapsed_nanos,
        {
            self.elapsed_nanos = self.elapsed_nanos - SPINNER_FRAME_NANOS;
            proof {
                assert(frame_after(start, steps + 1) == (frame_after(start, steps) + 1) % (
                usize::MAX as int + 1)) by (nonlinear_arith)
                    requires
                        steps >= 0,
                ;
            }
            self.frame = self.frame.wrapping_add(1);
            proof {
                steps = steps + 1;
            }
        }
        assert(steps == total / SPINNER_FRAME_NANOS as int && self.elapsed_nanos == total
            % SPINNER_FRAME_NANOS as int) by (nonlinear_arith)
            requires
                self.elapsed_nanos + steps * SPINNER_FRAME_NANOS == total,
                0 <= self.elapsed_nanos < SPINNER_FRAME_NANOS,
                steps >= 0,
        ;
    }

    /// The glyph of the current frame: braille dots, or ASCII strokes where
    /// plain icons are preferred.
    pub fn glyph(&self, plain_icons: bool) -> (r: &'static str)
        ensures
            plain_icons ==> r@ == plain_frame(self.frame as int % 4),
            !plain_icons ==> r@ == braille_frame(self.frame as int % 10),
    {
        if plain_icons {
            match self.frame % 4 {
                0 => "|",
                1 => "/",
                2 => "-",
                _ => "\\",
            }
        } else {
            match self.frame % 10 {
                0 => "⠋",
                1 => "⠙",
                2 => "⠹",
                3 => "⠸",
                4 => "⠼",
                5 => "⠴",
                6 => "⠦",
                7 => "⠧",
                8 => "⠇",
                _ => "⠏",
            }
        }
    }
}

/// The braille frames, cycling clockwise.
pub open spec fn braille_frame(i: int) -> Seq<char> {
    if i == 0 {
        "⠋"@
    } else if i == 1 {
        "⠙"@
    } else if i == 2 {
        "⠹"@
    } else if i == 3 {
        "⠸"@
    } else if i == 4 {
        "⠼"@
    } else if i == 5 {
        "⠴"@
    } else if i == 6 {
        "⠦"@
    } else if i == 7 {
        "⠧"@
    } else if i == 8 {
        "⠇"@
    } else {
        "⠏"@
    }
}

/// The ASCII frames for plain icons.
pub open spec fn plain_frame(i: int) -> Seq<char> {
    if i == 0 {
        "|"@
    } else if i == 1 {
        "/"@
    } else if i == 2 {
        "-"@
    } else {
        "\\"@
    }
}

} // verus!
