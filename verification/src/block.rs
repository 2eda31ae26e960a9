//! What a cell of the grid can hold.

use crate::geometry::{BottlePoint, Rotation};
use crate::pill::{half_offset, VirusColor, VitaminOrdinal};
use std::ops::Neg;
use vstd::prelude::*;

verus! {

/// What a cell holds.
#[derive(Copy, Clone, Debug, PartialEq, Eq, Hash, Structural)]
pub enum Block {
    Empty,
    /// A half of the capsule that is falling.
    Vitamin(VirusColor, Rotation, VitaminOrdinal),
    /// A half of a capsule that has locked and still has its other half.
    Stack(VirusColor, Rotation, VitaminOrdinal),
    /// A loose cell: a locked half that lost its other half, or a cell that
    /// was dropped in from outside.
    Garbage(VirusColor),
    Virus(VirusColor),
    /// A preview of where a half of the falling capsule would land.
    GhostVitamin(VirusColor, Rotation, VitaminOrdinal),
}

/// The step from a half to the other half of the same capsule.
pub open spec fn partner_offset(rotation: Rotation, ordinal: VitaminOrdinal) -> (int, int) {
    let towards_right: (int, int) = match rotation {
        Rotation::North => (1, 0),
        Rotation::East => (0, 1),
        Rotation::South => (-1, 0),
        Rotation::West => (0, -1),
    };
    match ordinal {
        VitaminOrdinal::Left => towards_right,
        VitaminOrdinal::Right => (-towards_right.0, -towards_right.1),
    }
}

/// The step from a half to the other half of the same capsule.
pub fn block_partner_offset(rotation: Rotation, ordinal: VitaminOrdinal) -> (offset: BottlePoint)
    ensures
        (offset.x as int, offset.y as int) == partner_offset(rotation, ordinal),
{
    let offset = match rotation {
        Rotation::North => BottlePoint { x: 1, y: 0 },
        Rotation::East => BottlePoint { x: 0, y: 1 },
        Rotation::South => BottlePoint { x: -1, y: 0 },
        Rotation::West => BottlePoint { x: 0, y: -1 },
    };
    match ordinal {
        VitaminOrdinal::Left => offset,
        VitaminOrdinal::Right => offset.neg(),
    }
}

/// The step to the other half is the difference of the two halves' places in
/// the capsule, and the step back from there is its opposite.
pub proof fn lemma_partner_offset(rotation: Rotation, ordinal: VitaminOrdinal)
    ensures
        partner_offset(rotation, ordinal).0 == half_offset(rotation, ordinal.other()).0
            - half_offset(rotation, ordinal).0,
        partner_offset(rotation, ordinal).1 == half_offset(rotation, ordinal.other()).1
            - half_offset(rotation, ordinal).1,
        partner_offset(rotation, ordinal.other()).0 == -partner_offset(rotation, ordinal).0,
        partner_offset(rotation, ordinal.other()).1 == -partner_offset(rotation, ordinal).1,
        partner_offset(rotation, ordinal) != (0int, 0int),
{
}

impl Block {
    /// Viruses, loose cells and locked halves can be matched and destroyed,
    /// and they stop a capsule.
    pub open spec fn destructible(self) -> bool {
        self is Virus || self is Garbage || self is Stack
    }

    /// The color of a cell that can be destroyed.
    pub open spec fn color_of(self) -> Option<VirusColor> {
        match self {
            Block::Stack(color, _, _) => Some(color),
            Block::Garbage(color) => Some(color),
            Block::Virus(color) => Some(color),
            _ => None,
        }
    }

    /// For a locked half, the step to its other half.
    pub open spec fn stack_partner_offset(self) -> Option<(int, int)> {
        match self {
            Block::Stack(_, rotation, ordinal) => Some(partner_offset(rotation, ordinal)),
            _ => None,
        }
    }

    /// The cell with any preview taken away.
    pub open spec fn without_ghost(self) -> Block {
        if self is GhostVitamin {
            Block::Empty
        } else {
            self
        }
    }

    pub fn is_destructible(&self) -> (b: bool)
        ensures
            b == self.destructible(),
    {
        match self {
            Block::Virus(_) => true,
            Block::Garbage(_) => true,
            Block::Stack(_, _, _) => true,
            _ => false,
        }
    }

    pub fn is_empty(&self) -> (b: bool)
        ensures
            b == (*self == Block::Empty),
    {
        match self {
            Block::Empty => true,
            _ => false,
        }
    }

    pub fn is_virus(&self) -> (b: bool)
        ensures
            b == (*self is Virus),
    {
        match self {
            Block::Virus(_) => true,
            _ => false,
        }
    }

    pub fn is_ghost(&self) -> (b: bool)
        ensures
            b == (*self is GhostVitamin),
    {
        match self {
            Block::GhostVitamin(_, _, _) => true,
            _ => false,
        }
    }

    /// The color of a cell that can be destroyed; no other cell has one.
    pub fn destructible_color(&self) -> (color: Option<VirusColor>)
        ensures
            color == self.color_of(),
            color.is_some() == self.destructible(),
    {
        match self {
            Block::Stack(color, _, _) => Some(*color),
            Block::Garbage(color) => Some(*color),
            Block::Virus(color) => Some(*color),
            _ => None,
        }
    }

    /// For a locked half, the step to its other half.
    pub fn find_stack_partner_offset(&self) -> (offset: Option<BottlePoint>)
        ensures
            offset.is_some() == (*self is Stack),
            offset matches Some(p) ==> Some((p.x as int, p.y as int)) == self.stack_partner_offset(),
    {
        if let Block::Stack(_, rotation, ordinal) = self {
            Some(block_partner_offset(*rotation, *ordinal))
        } else {
            None
        }
    }
}

} // verus!
