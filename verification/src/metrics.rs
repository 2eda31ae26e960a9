//! A snapshot of one player's game for whoever displays it.

use crate::game::GameSpeed;
use crate::pill::PillShape;
use vstd::prelude::*;

verus! {

/// What a player is shown beside the bottle.
#[derive(Clone, Copy, Debug, PartialEq, Eq)]
pub struct GameMetrics {
    pub player: u32,
    pub virus_level: u32,
    pub speed: GameSpeed,
    pub viruses: u32,
    pub score: u32,
    pub queue: [PillShape; 5],
    pub hold: Option<PillShape>,
}

impl GameMetrics {
    pub fn new(
        player: u32,
        virus_level: u32,
        speed: GameSpeed,
        viruses: u32,
        score: u32,
        queue: [PillShape; 5],
        hold: Option<PillShape>,
    ) -> (metrics: Self)
        ensures
            metrics == (GameMetrics { player, virus_level, speed, viruses, score, queue, hold }),
    {
        Self { player, virus_level, speed, viruses, score, queue, hold }
    }

    pub fn player(&self) -> (player: u32)
        ensures
            player == self.player,
    {
        self.player
    }

    pub fn virus_level(&self) -> (level: u32)
        ensures
            level == self.virus_level,
    {
        self.virus_level
    }

    pub fn virus_count(&self) -> (count: u32)
        ensures
            count == self.viruses,
    {
        self.viruses
    }

    pub fn score(&self) -> (score: u32)
        ensures
            score == self.score,
    {
        self.score
    }

    pub fn queue(&self) -> (queue: [PillShape; 5])
        ensures
            queue == self.queue,
    {
        self.queue
    }

    pub fn hold(&self) -> (hold: Option<PillShape>)
        ensures
            hold == self.hold,
    {
        self.hold
    }
}

} // verus!
