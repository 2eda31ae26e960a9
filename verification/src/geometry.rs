//! Integer grid points and quarter-turn rotations.

use std::ops::{Add, Neg, Sub};
use vstd::prelude::*;
use vstd::std_specs::convert::FromSpecImpl;
use vstd::std_specs::ops::{AddSpecImpl, NegSpecImpl, SubSpecImpl};

verus! {

/// A cell coordinate. `x` grows to the right and `y` grows downwards; nothing
/// at this level confines a point to a grid.
#[derive(Clone, Copy, Debug, PartialEq, Eq, Hash, Structural)]
pub struct BottlePoint {
    pub x: i32,
    pub y: i32,
}

impl BottlePoint {
    /// Whether the point `dx` columns and `dy` rows away still fits the machine integer.
    pub open spec fn can_shift(self, dx: int, dy: int) -> bool {
        &&& i32::MIN <= self.x + dx <= i32::MAX
        &&& i32::MIN <= self.y + dy <= i32::MAX
    }

    pub fn new(x: i32, y: i32) -> (p: Self)
        ensures
            p.x == x,
            p.y == y,
    {
        Self { x, y }
    }

    pub fn translate_mut(&mut self, dx: i32, dy: i32)
        requires
            old(self).can_shift(dx as int, dy as int),
        ensures
            final(self).x == old(self).x + dx,
            final(self).y == old(self).y + dy,
    {
        self.x = self.x + dx;
        self.y = self.y + dy;
    }

    pub fn translate(&self, dx: i32, dy: i32) -> (p: Self)
        requires
            self.can_shift(dx as int, dy as int),
        ensures
            p.x == self.x + dx,
            p.y == self.y + dy,
    {
        Self { x: self.x + dx, y: self.y + dy }
    }

    pub fn x(&self) -> (x: i32)
        ensures
            x == self.x,
    {
        self.x
    }

    pub fn y(&self) -> (y: i32)
        ensures
            y == self.y,
    {
        self.y
    }
}

impl From<(i32, i32)> for BottlePoint {
    fn from(pair: (i32, i32)) -> (p: Self) {
        BottlePoint { x: pair.0, y: pair.1 }
    }
}

impl FromSpecImpl<(i32, i32)> for BottlePoint {
    open spec fn obeys_from_spec() -> bool {
        true
    }

    open spec fn from_spec(pair: (i32, i32)) -> Self {
        BottlePoint { x: pair.0, y: pair.1 }
    }
}

impl Neg for BottlePoint {
    type Output = BottlePoint;

    fn neg(self) -> (p: BottlePoint) {
        BottlePoint { x: -self.x, y: -self.y }
    }
}

impl NegSpecImpl for BottlePoint {
    open spec fn obeys_neg_spec() -> bool {
        true
    }

    open spec fn neg_req(self) -> bool {
        self.x != i32::MIN && self.y != i32::MIN
    }

    open spec fn neg_spec(self) -> BottlePoint {
        BottlePoint { x: (-self.x) as i32, y: (-self.y) as i32 }
    }
}

impl Sub for BottlePoint {
    type Output = BottlePoint;

    fn sub(self, rhs: BottlePoint) -> (p: BottlePoint) {
        BottlePoint { x: self.x - rhs.x, y: self.y - rhs.y }
    }
}

impl SubSpecImpl for BottlePoint {
    open spec fn obeys_sub_spec() -> bool {
        true
    }

    open spec fn sub_req(self, rhs: BottlePoint) -> bool {
        self.can_shift(-rhs.x, -rhs.y)
    }

    open spec fn sub_spec(self, rhs: BottlePoint) -> BottlePoint {
        BottlePoint { x: (self.x - rhs.x) as i32, y: (self.y - rhs.y) as i32 }
    }
}

impl Add for BottlePoint {
    type Output = BottlePoint;

    fn add(self, rhs: BottlePoint) -> (p: BottlePoint) {
        BottlePoint { x: self.x + rhs.x, y: self.y + rhs.y }
    }
}

impl AddSpecImpl for BottlePoint {
    open spec fn obeys_add_spec() -> bool {
        true
    }

    open spec fn add_req(self, rhs: BottlePoint) -> bool {
        self.can_shift(rhs.x as int, rhs.y as int)
    }

    open spec fn add_spec(self, rhs: BottlePoint) -> BottlePoint {
        BottlePoint { x: (self.x + rhs.x) as i32, y: (self.y + rhs.y) as i32 }
    }
}

/// The four orientations of a capsule.
#[derive(Clone, Copy, Debug, PartialEq, Eq, Hash, Structural)]
pub enum Rotation {
    North,
    East,
    South,
    West,
}

impl Rotation {
    /// The orientation one quarter turn clockwise of this one.
    pub open spec fn clockwise(self) -> Rotation {
        match self {
            Rotation::North => Rotation::East,
            Rotation::East => Rotation::South,
            Rotation::South => Rotation::West,
            Rotation::West => Rotation::North,
        }
    }

    /// The orientation one quarter turn anticlockwise of this one.
    pub open spec fn anticlockwise(self) -> Rotation {
        match self {
            Rotation::North => Rotation::West,
            Rotation::East => Rotation::North,
            Rotation::South => Rotation::East,
            Rotation::West => Rotation::South,
        }
    }

    /// The orientation after one quarter turn in the given direction.
    pub open spec fn turned(self, clockwise: bool) -> Rotation {
        if clockwise {
            self.clockwise()
        } else {
            self.anticlockwise()
        }
    }

    /// North and South lay a capsule flat; East and West stand it upright.
    pub open spec fn is_horizontal(self) -> bool {
        self == Rotation::North || self == Rotation::South
    }

    pub fn rotate(&self, clockwise: bool) -> (r: Rotation)
        ensures
            r == self.turned(clockwise),
    {
        match self {
            Rotation::North => {
                if clockwise {
                    Rotation::East
                } else {
                    Rotation::West
                }
            },
            Rotation::East => {
                if clockwise {
                    Rotation::South
                } else {
                    Rotation::North
                }
            },
            Rotation::South => {
                if clockwise {
                    Rotation::West
                } else {
                    Rotation::East
                }
            },
            Rotation::West => {
                if clockwise {
                    Rotation::North
                } else {
                    Rotation::South
                }
            },
        }
    }
}

/// A quarter turn one way undoes a quarter turn the other way.
pub proof fn lemma_turn_back(r: Rotation, clockwise: bool)
    ensures
        r.turned(clockwise).turned(!clockwise) == r,
{
}

/// Four quarter turns in one direction come back to the start.
pub proof fn lemma_four_turns(r: Rotation, clockwise: bool)
    ensures
        r.turned(clockwise).turned(clockwise).turned(clockwise).turned(clockwise) == r,
{
}

} // verus!
