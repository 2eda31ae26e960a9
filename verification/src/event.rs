//! What a game reports to whoever draws it and plays its sounds.

use crate::block::Block;
use crate::geometry::BottlePoint;
use crate::pill::{Garbage, PillShape, VirusColor, Vitamins};
use vstd::prelude::*;

verus! {

/// Something that has happened in a game or to a match.
#[derive(Clone, Debug, PartialEq, Eq)]
#[allow(inconsistent_fields)]
pub enum GameEvent {
    Move,
    Rotate,
    Hold,
    SoftDrop,
    HardDrop { player: u32, vitamins: Vitamins, dropped_rows: u32 },
    Fall,
    SendGarbage { player: u32, garbage: Vec<VirusColor> },
    ReceivedGarbage { player: u32, garbage: Vec<Garbage> },
    DropGarbage,
    Spawn { player: u32, shape: PillShape, is_hold: bool },
    SpeedLevelUp,
    GameOver { player: u32 },
    Victory { player: u32 },
    LevelComplete { player: u32 },
    Lock { player: u32, vitamins: Vitamins, hard_or_soft_dropped: bool },
    Destroy { player: u32, blocks: Vec<ColoredBlock>, is_combo: bool },
    Paused,
    UnPaused,
    Quit,
    NextTheme,
}

/// A cell that can be destroyed, with what a listener needs to know of it.
#[derive(Copy, Clone, Debug, Eq, PartialEq, Hash, Structural)]
pub struct ColoredBlock {
    pub position: BottlePoint,
    pub color: VirusColor,
    pub is_virus: bool,
}

impl ColoredBlock {
    /// What is reported of a destructible cell at a position.
    pub open spec fn of(position: BottlePoint, block: Block) -> ColoredBlock {
        ColoredBlock { position, color: block.color_of().unwrap(), is_virus: block is Virus }
    }

    pub fn virus(x: i32, y: i32, color: VirusColor) -> (b: Self)
        ensures
            b == (ColoredBlock { position: BottlePoint { x, y }, color, is_virus: true }),
    {
        Self { position: BottlePoint { x, y }, color, is_virus: true }
    }

    pub fn stack(x: i32, y: i32, color: VirusColor) -> (b: Self)
        ensures
            b == (ColoredBlock { position: BottlePoint { x, y }, color, is_virus: false }),
    {
        Self { position: BottlePoint { x, y }, color, is_virus: false }
    }

    pub fn from_block(position: BottlePoint, block: Block) -> (b: Self)
        requires
            block.destructible(),
        ensures
            b == ColoredBlock::of(position, block),
    {
        Self { position, color: block.destructible_color().unwrap(), is_virus: block.is_virus() }
    }
}

} // verus!
