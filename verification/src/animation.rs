//! The animation parameter of a viewport: an angle, moved by dragging.

use vstd::prelude::*;

verus! {

/// One millionth of a radian is the unit of an angle.
pub const MICRORADIANS_PER_RADIAN: i32 = 1_000_000;

/// A drag turns the viewport by one hundredth of a radian for each point,
/// that is by ten microradians for each thousandth of a point.
pub const MICRORADIANS_PER_MILLIPOINT: i64 = 10;

/// A rotation angle in microradians.
#[derive(Clone, Copy, Debug, PartialEq, Eq, Structural)]
pub struct Angle {
    pub microradians: i32,
}

/// The horizontal distance of a drag, in thousandths of a point.
#[derive(Clone, Copy, Debug, PartialEq, Eq, Structural)]
pub struct DragDelta {
    pub millipoints: i32,
}

/// The nearest value of an `i32` to `value`.
pub open spec fn clamp_i32(value: int) -> int {
    if value < i32::MIN {
        i32::MIN as int
    } else if value > i32::MAX {
        i32::MAX as int
    } else {
        value
    }
}

impl Angle {
    /// The 32-bit word that carries the angle to the device: its
    /// two's-complement pattern.
    pub open spec fn word(self) -> u32 {
        if self.microradians >= 0 {
            self.microradians as u32
        } else {
            (self.microradians + 0x1_0000_0000) as u32
        }
    }

    /// The angle that a word carries.
    pub open spec fn of_word(word: u32) -> Angle {
        if word <= i32::MAX {
            Angle { microradians: word as i32 }
        } else {
            Angle { microradians: (word - 0x1_0000_0000) as i32 }
        }
    }

    /// The angle after a drag: each millipoint adds ten microradians, and
    /// the sum stops at the ends of the range instead of wrapping.
    pub open spec fn after_drag(self, delta: DragDelta) -> Angle {
        Angle {
            microradians: clamp_i32(
                self.microradians + MICRORADIANS_PER_MILLIPOINT * delta.millipoints,
            ) as i32,
        }
    }

    pub fn new(microradians: i32) -> (res: Angle)
        ensures
            res.microradians == microradians,
    {
        Angle { microradians }
    }

    pub fn to_word(self) -> (res: u32)
        ensures
            res == self.word(),
    {
        if self.microradians >= 0 {
            self.microradians as u32
        } else {
            let lifted: i64 = self.microradians as i64 + 0x1_0000_0000;
            lifted as u32
        }
    }

    pub fn from_word(word: u32) -> (res: Angle)
        ensures
            res == Angle::of_word(word),
    {
        if word <= 0x7fff_ffff {
            Angle { microradians: word as i32 }
        } else {
            let lowered: i64 = word as i64 - 0x1_0000_0000;
            Angle { microradians: lowered as i32 }
        }
    }

    pub fn dragged(self, delta: DragDelta) -> (res: Angle)
        ensures
            res == self.after_drag(delta),
    {
        let moved: i64 = self.microradians as i64 + MICRORADIANS_PER_MILLIPOINT
            * delta.millipoints as i64;
        if moved < i32::MIN as i64 {
            Angle { microradians: i32::MIN }
        } else if moved > i32::MAX as i64 {
            Angle { microradians: i32::MAX }
        } else {
            Angle { microradians: moved as i32 }
        }
    }
}

/// An angle comes back unchanged from the word that carries it.
pub proof fn lemma_angle_word_round_trip(angle: Angle)
    ensures
        Angle::of_word(angle.word()) == angle,
{
}

} // verus!
