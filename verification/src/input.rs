//! The six-button input model: a set of named flags decoded from a packed
//! byte, combined across players, and reduced to a signed direction pair.

use vstd::prelude::*;

use crate::vec2::IVec2;

verus! {

/// One controller's state: six named buttons.
///
/// On the host boundary the buttons arrive packed in one byte, bit 0 = up,
/// bit 1 = down, bit 2 = left, bit 3 = right, bit 4 = button 1,
/// bit 5 = button 2; the two high bits are ignored.
#[derive(Clone, Copy, PartialEq, Eq, Structural, Debug)]
pub struct Input {
    pub up: bool,
    pub down: bool,
    pub left: bool,
    pub right: bool,
    pub button_1: bool,
    pub button_2: bool,
}

impl Input {
    /// The input with no button held.
    pub open spec fn none_spec() -> Input {
        Input { up: false, down: false, left: false, right: false, button_1: false, button_2: false }
    }

    /// The flag set encoded by a packed input byte; unrecognized bits are
    /// dropped, not rejected.
    pub open spec fn bits_spec(bits: u8) -> Input {
        Input {
            up: bits & 0x01 != 0,
            down: bits & 0x02 != 0,
            left: bits & 0x04 != 0,
            right: bits & 0x08 != 0,
            button_1: bits & 0x10 != 0,
            button_2: bits & 0x20 != 0,
        }
    }

    /// The union of two flag sets: a button counts as held if either
    /// controller holds it.
    pub open spec fn union_spec(a: Input, b: Input) -> Input {
        Input {
            up: a.up || b.up,
            down: a.down || b.down,
            left: a.left || b.left,
            right: a.right || b.right,
            button_1: a.button_1 || b.button_1,
            button_2: a.button_2 || b.button_2,
        }
    }

    /// The x-axis reduction: -1 if only left is held, 1 if only right is
    /// held, 0 if both or neither is.
    pub open spec fn x_spec(self) -> i32 {
        if self.left && !self.right {
            -1i32
        } else if self.right && !self.left {
            1i32
        } else {
            0i32
        }
    }

    /// The y-axis reduction: 1 if only up is held, -1 if only down is held,
    /// 0 if both or neither is.
    pub open spec fn y_spec(self) -> i32 {
        if self.down && !self.up {
            -1i32
        } else if self.up && !self.down {
            1i32
        } else {
            0i32
        }
    }

    /// The direction this flag set steers toward.
    pub open spec fn dir_spec(self) -> IVec2 {
        IVec2 { x: self.x_spec(), y: self.y_spec() }
    }

    /// Decodes a packed input byte into named flags.
    pub fn from_bits_truncate(bits: u8) -> (i: Input)
        ensures
            i == Input::bits_spec(bits),
    {
        Input {
            up: bits & 0x01 != 0,
            down: bits & 0x02 != 0,
            left: bits & 0x04 != 0,
            right: bits & 0x08 != 0,
            button_1: bits & 0x10 != 0,
            button_2: bits & 0x20 != 0,
        }
    }

    /// Combines two controllers' flags, so either controller can steer.
    pub fn union(self, other: Input) -> (i: Input)
        ensures
            i == Input::union_spec(self, other),
    {
        Input {
            up: self.up || other.up,
            down: self.down || other.down,
            left: self.left || other.left,
            right: self.right || other.right,
            button_1: self.button_1 || other.button_1,
            button_2: self.button_2 || other.button_2,
        }
    }

    /// Reduces the left/right buttons to a signed x direction.
    pub fn x(self) -> (r: i32)
        ensures
            r == self.x_spec(),
    {
        if self.left && !self.right {
            -1
        } else if self.right && !self.left {
            1
        } else {
            0
        }
    }

    /// Reduces the up/down buttons to a signed y direction.
    pub fn y(self) -> (r: i32)
        ensures
            r == self.y_spec(),
    {
        if self.down && !self.up {
            -1
        } else if self.up && !self.down {
            1
        } else {
            0
        }
    }
}

impl Default for Input {
    /// The input with no button held.
    fn default() -> (i: Input)
        ensures
            i == Input::none_spec(),
    {
        Input { up: false, down: false, left: false, right: false, button_1: false, button_2: false }
    }
}

} // verus!
