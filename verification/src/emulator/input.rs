//! What the user holds pressed.

use core::ops::{BitAnd, BitAndAssign, BitOr, BitOrAssign, Not};
use vstd::prelude::*;
use vstd::std_specs::ops::{BitAndSpecImpl, BitOrSpecImpl, NotSpecImpl};

verus! {

/// Describes a current input state.
#[derive(Copy, Clone, PartialEq, Eq, Debug)]
pub struct Input {
    pub a: bool,
    pub b: bool,
    pub start: bool,
    pub select: bool,
    pub d_up: bool,
    pub d_down: bool,
    pub d_left: bool,
    pub d_right: bool,
    pub l: bool,
    pub r: bool,
    pub x: bool,
    pub y: bool,
    pub zl: bool,
    pub zr: bool,
    /// The circle pad's deflection, right and up positive; `(0, 0)` when it is centered.
    pub circle: (i8, i8),
    /// The C stick's deflection, right and up positive; `(0, 0)` when it is centered.
    pub c_stick: (i8, i8),
    /// The point touched, if any.
    pub touch: Option<(u16, u16)>,
}

impl Default for Input {
    fn default() -> (r: Self)
        ensures
            r == Input::nothing(),
    {
        Self::new()
    }
}

/// The first of two stick positions that is not centered.
pub open spec fn first_deflected(a: (i8, i8), b: (i8, i8)) -> (i8, i8) {
    if a.0 != 0 || a.1 != 0 {
        a
    } else {
        b
    }
}

/// The second of two stick positions, unless the first is centered.
pub open spec fn second_if_deflected(a: (i8, i8), b: (i8, i8)) -> (i8, i8) {
    if a.0 != 0 || a.1 != 0 {
        b
    } else {
        (0, 0)
    }
}

fn is_deflected(a: (i8, i8)) -> (r: bool)
    ensures
        r == (a.0 != 0 || a.1 != 0),
{
    a.0 != 0 || a.1 != 0
}

impl Input {
    /// Nothing is pressed.
    pub open spec fn nothing() -> Input {
        Input {
            a: false,
            b: false,
            start: false,
            select: false,
            d_up: false,
            d_down: false,
            d_left: false,
            d_right: false,
            l: false,
            r: false,
            x: false,
            y: false,
            zl: false,
            zr: false,
            circle: (0, 0),
            c_stick: (0, 0),
            touch: None,
        }
    }

    /// Everything either input holds; where both touch or deflect a stick, the first one's.
    pub open spec fn either(self, rhs: Input) -> Input {
        Input {
            a: self.a || rhs.a,
            b: self.b || rhs.b,
            start: self.start || rhs.start,
            select: self.select || rhs.select,
            d_up: self.d_up || rhs.d_up,
            d_down: self.d_down || rhs.d_down,
            d_left: self.d_left || rhs.d_left,
            d_right: self.d_right || rhs.d_right,
            l: self.l || rhs.l,
            r: self.r || rhs.r,
            x: self.x || rhs.x,
            y: self.y || rhs.y,
            zl: self.zl || rhs.zl,
            zr: self.zr || rhs.zr,
            circle: first_deflected(self.circle, rhs.circle),
            c_stick: first_deflected(self.c_stick, rhs.c_stick),
            touch: if self.touch is Some {
                self.touch
            } else {
                rhs.touch
            },
        }
    }

    /// Everything both inputs hold; where both touch or deflect a stick, the second one's.
    pub open spec fn both(self, rhs: Input) -> Input {
        Input {
            a: self.a && rhs.a,
            b: self.b && rhs.b,
            start: self.start && rhs.start,
            select: self.select && rhs.select,
            d_up: self.d_up && rhs.d_up,
            d_down: self.d_down && rhs.d_down,
            d_left: self.d_left && rhs.d_left,
            d_right: self.d_right && rhs.d_right,
            l: self.l && rhs.l,
            r: self.r && rhs.r,
            x: self.x && rhs.x,
            y: self.y && rhs.y,
            zl: self.zl && rhs.zl,
            zr: self.zr && rhs.zr,
            circle: second_if_deflected(self.circle, rhs.circle),
            c_stick: second_if_deflected(self.c_stick, rhs.c_stick),
            touch: if self.touch is Some {
                rhs.touch
            } else {
                None
            },
        }
    }

    /// Every button the input does not hold; no touch and no stick.
    pub open spec fn released(self) -> Input {
        Input {
            a: !self.a,
            b: !self.b,
            start: !self.start,
            select: !self.select,
            d_up: !self.d_up,
            d_down: !self.d_down,
            d_left: !self.d_left,
            d_right: !self.d_right,
            l: !self.l,
            r: !self.r,
            x: !self.x,
            y: !self.y,
            zl: !self.zl,
            zr: !self.zr,
            circle: (0, 0),
            c_stick: (0, 0),
            touch: None,
        }
    }

    /// Instantiate an empty input.
    pub fn new() -> (r: Self)
        ensures
            r == Input::nothing(),
    {
        Self {
            a: false,
            b: false,
            start: false,
            select: false,
            d_up: false,
            d_down: false,
            d_left: false,
            d_right: false,
            l: false,
            r: false,
            x: false,
            y: false,
            zl: false,
            zr: false,
            circle: (0, 0),
            c_stick: (0, 0),
            touch: None,
        }
    }

    /// Return true if the input is empty.
    pub fn is_empty(&self) -> (r: bool)
        ensures
            r == (*self == Input::nothing()),
    {
        !self.a && !self.b && !self.start && !self.select && !self.d_up && !self.d_down
            && !self.d_left && !self.d_right && !self.l && !self.r && !self.x && !self.y
            && !self.zl && !self.zr && !is_deflected(self.circle) && !is_deflected(self.c_stick)
            && self.touch.is_none()
    }
}

impl BitOr<Input> for Input {
    type Output = Input;

    fn bitor(self, rhs: Input) -> (r: Input) {
        Input {
            a: self.a || rhs.a,
            b: self.b || rhs.b,
            start: self.start || rhs.start,
            select: self.select || rhs.select,
            d_up: self.d_up || rhs.d_up,
            d_down: self.d_down || rhs.d_down,
            d_left: self.d_left || rhs.d_left,
            d_right: self.d_right || rhs.d_right,
            l: self.l || rhs.l,
            r: self.r || rhs.r,
            x: self.x || rhs.x,
            y: self.y || rhs.y,
            zl: self.zl || rhs.zl,
            zr: self.zr || rhs.zr,
            circle: if is_deflected(self.circle) {
                self.circle
            } else {
                rhs.circle
            },
            c_stick: if is_deflected(self.c_stick) {
                self.c_stick
            } else {
                rhs.c_stick
            },
            touch: if self.touch.is_some() {
                self.touch
            } else {
                rhs.touch
            },
        }
    }
}

impl BitOrSpecImpl<Input> for Input {
    open spec fn obeys_bitor_spec() -> bool {
        true
    }

    open spec fn bitor_req(self, rhs: Input) -> bool {
        true
    }

    open spec fn bitor_spec(self, rhs: Input) -> Input {
        self.either(rhs)
    }
}

impl BitAnd<Input> for Input {
    type Output = Input;

    fn bitand(self, rhs: Input) -> (r: Input) {
        Input {
            a: self.a && rhs.a,
            b: self.b && rhs.b,
            start: self.start && rhs.start,
            select: self.select && rhs.select,
            d_up: self.d_up && rhs.d_up,
            d_down: self.d_down && rhs.d_down,
            d_left: self.d_left && rhs.d_left,
            d_right: self.d_right && rhs.d_right,
            l: self.l && rhs.l,
            r: self.r && rhs.r,
            x: self.x && rhs.x,
            y: self.y && rhs.y,
            zl: self.zl && rhs.zl,
            zr: self.zr && rhs.zr,
            circle: if is_deflected(self.circle) {
                rhs.circle
            } else {
                (0, 0)
            },
            c_stick: if is_deflected(self.c_stick) {
                rhs.c_stick
            } else {
                (0, 0)
            },
            touch: if self.touch.is_some() {
                rhs.touch
            } else {
                None
            },
        }
    }
}

impl BitAndSpecImpl<Input> for Input {
    open spec fn obeys_bitand_spec() -> bool {
        true
    }

    open spec fn bitand_req(self, rhs: Input) -> bool {
        true
    }

    open spec fn bitand_spec(self, rhs: Input) -> Input {
        self.both(rhs)
    }
}

impl Not for Input {
    type Output = Input;

    fn not(self) -> (r: Input) {
        Input {
            a: !self.a,
            b: !self.b,
            start: !self.start,
            select: !self.select,
            d_up: !self.d_up,
            d_down: !self.d_down,
            d_left: !self.d_left,
            d_right: !self.d_right,
            l: !self.l,
            r: !self.r,
            x: !self.x,
            y: !self.y,
            zl: !self.zl,
            zr: !self.zr,
            circle: (0, 0),
            c_stick: (0, 0),
            touch: None,
        }
    }
}

impl NotSpecImpl for Input {
    open spec fn obeys_not_spec() -> bool {
        true
    }

    open spec fn not_req(self) -> bool {
        true
    }

    open spec fn not_spec(self) -> Input {
        self.released()
    }
}

impl BitAndAssign for Input {
    fn bitand_assign(&mut self, rhs: Self)
        ensures
            *final(self) == old(self).both(rhs),
    {
        *self = *self & rhs;
    }
}

impl BitOrAssign for Input {
    fn bitor_assign(&mut self, rhs: Self)
        ensures
            *final(self) == old(self).either(rhs),
    {
        *self = *self | rhs;
    }
}

/// Adding an input that holds nothing changes nothing, from either side, and adding one twice is
/// adding it once.
pub proof fn law_either(a: Input, b: Input)
    ensures
        a.either(Input::nothing()) == a,
        Input::nothing().either(a) == a,
        a.either(b).either(b) == a.either(b),
        a.both(a) == a,
{
}

} // verus!
