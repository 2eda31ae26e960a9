//! One player's game: the turn cycle from spawn to lock, match, destroy and
//! settle, the timing that drives it, the hold slot and the score.

use crate::block::Block;
use crate::bottle::{Bottle, SendGarbage};
use crate::event::{ColoredBlock, GameEvent};
use crate::grid::{
    can_shift, cleared, destroyed, drop_rows, garbage_at, garbage_count, lemma_virus_cells, listed,
    locked, no_new_virus, open_columns, placed, placed_where_free, point_in_bounds, rendered,
    unghosted, virus_cells, viruses_of, with_garbage,
};
use crate::metrics::GameMetrics;
use crate::pattern::{matched_marks, run_colors};
use crate::pill::{Pill, PillShape, VirusColor};
use crate::random::{
    below_row, BottleSeed, GameRandom, some_order_fails, top_virus_row, virus_target,
};
use crate::settle::{any_falls, settled_once};
use vstd::prelude::*;

verus! {

/// Soft drop makes the capsule fall this many times faster.
pub const SOFT_DROP_STEP_FACTOR: u64 = 20;

/// Soft drop makes the next capsule come this many times sooner.
pub const SOFT_DROP_SPAWN_FACTOR: u64 = 10;

/// Nanoseconds between two steps of settling loose cells.
pub const GARBAGE_DROP_DURATION: u64 = 200_000_000;

/// The least time, in nanoseconds, before the next capsule comes.
pub const MIN_SPAWN_DELAY: u64 = 500_000_000;

/// Nanoseconds for which a capsule that rests can still be moved.
pub const LOCK_DURATION: u64 = 300_000_000;

/// The same under soft drop: half of it.
pub const SOFT_DROP_LOCK_DURATION: u64 = 150_000_000;

/// How often a capsule that rests can be moved before it locks at once.
pub const MAX_LOCK_PLACEMENTS: u32 = 15;

/// After this many capsules the fall gets faster.
pub const PILLS_PER_SPEED_LEVEL: usize = 10;

/// Nanoseconds per row for each step of the speed scale, slowest first.
pub const SPEED_TABLE: [u64; 81] = [
    1166666667,
    1133333333,
    1100000000,
    1066666667,
    1033333333,
    1000000000,
    966666667,
    933333333,
    900000000,
    866666667,
    833333333,
    800000000,
    766666667,
    733333333,
    700000000,
    666666667,
    633333333,
    600000000,
    566666667,
    533333333,
    500000000,
    466666667,
    433333333,
    400000000,
    366666667,
    333333333,
    316666667,
    300000000,
    283333333,
    266666667,
    250000000,
    233333333,
    216666667,
    200000000,
    183333333,
    166666667,
    166666667,
    150000000,
    150000000,
    133333333,
    133333333,
    116666667,
    116666667,
    100000000,
    100000000,
    100000000,
    100000000,
    100000000,
    100000000,
    100000000,
    100000000,
    100000000,
    100000000,
    100000000,
    100000000,
    83333333,
    83333333,
    83333333,
    83333333,
    83333333,
    66666667,
    66666667,
    66666667,
    66666667,
    66666667,
    50000000,
    50000000,
    50000000,
    50000000,
    50000000,
    33333333,
    33333333,
    33333333,
    33333333,
    33333333,
    33333333,
    33333333,
    33333333,
    33333333,
    33333333,
    16666667,
];

pub const BASE_SCORE_LOW: u32 = 100;

pub const BASE_SCORE_MEDIUM: u32 = 200;

pub const BASE_SCORE_HIGH: u32 = 300;

/// The three speeds a game can be played at.
#[derive(Debug, Copy, Clone, PartialEq, Eq, Structural)]
pub enum GameSpeed {
    Low,
    Medium,
    High,
}

impl GameSpeed {
    /// The fall gets no faster beyond this speed level.
    pub const MAX_LEVEL: usize = 49;

    /// Where on the speed scale a speed starts.
    pub open spec fn start_index(self) -> int {
        match self {
            GameSpeed::Low => 15,
            GameSpeed::Medium => 25,
            GameSpeed::High => 31,
        }
    }

    /// Nanoseconds per row at a speed level: the scale is read from where
    /// the speed starts, one step further for each level up to the last.
    pub open spec fn row_nanos(self, speed_level: int) -> u64 {
        SPEED_TABLE[self.start_index() + if speed_level < 49 {
            speed_level
        } else {
            49
        }]
    }

    /// What the first virus of a combo is worth.
    pub open spec fn base(self) -> int {
        match self {
            GameSpeed::Low => 100,
            GameSpeed::Medium => 200,
            GameSpeed::High => 300,
        }
    }

    pub fn names() -> (names: Vec<&'static str>)
        ensures
            names@.len() == 3,
            names@[0]@ == "low"@,
            names@[1]@ == "medium"@,
            names@[2]@ == "high"@,
    {
        vec!["low", "medium", "high"]
    }

    /// The time per row at the last speed level.
    pub fn min_drop_duration(&self) -> (nanos: u64)
        ensures
            nanos == self.row_nanos(49),
    {
        self.duration_of_level(Self::MAX_LEVEL)
    }

    /// Nanoseconds per row at a speed level.
    pub fn duration_of_level(&self, speed_level: usize) -> (nanos: u64)
        ensures
            nanos == self.row_nanos(speed_level as int),
            16_666_667 <= nanos <= 1_166_666_667,
    {
        let capped = if speed_level < Self::MAX_LEVEL {
            speed_level
        } else {
            Self::MAX_LEVEL
        };
        let index = self.base_index() + capped;
        let nanos = SPEED_TABLE[index];
        proof {
            lemma_speed_table_range(index as int);
        }
        nanos
    }

    pub fn base_index(&self) -> (index: usize)
        ensures
            index == self.start_index(),
    {
        match self {
            GameSpeed::Low => 15,
            GameSpeed::Medium => 25,
            GameSpeed::High => 31,
        }
    }

    pub fn base_score(&self) -> (score: u32)
        ensures
            score == self.base(),
    {
        match self {
            GameSpeed::Low => BASE_SCORE_LOW,
            GameSpeed::Medium => BASE_SCORE_MEDIUM,
            GameSpeed::High => BASE_SCORE_HIGH,
        }
    }
}

/// Every step of the speed scale is at least a sixtieth of a second and at
/// most seventy sixtieths, and no step is slower than the one before it.
pub proof fn lemma_speed_table_range(i: int)
    requires
        0 <= i < 81,
    ensures
        16_666_667 <= SPEED_TABLE[i] <= 1_166_666_667,
        i + 1 < 81 ==> SPEED_TABLE[i + 1] <= SPEED_TABLE[i],
{
    assert(SPEED_TABLE@ =~= seq![
        1166666667u64, 1133333333, 1100000000, 1066666667, 1033333333, 1000000000, 966666667,
        933333333, 900000000, 866666667, 833333333, 800000000, 766666667, 733333333, 700000000,
        666666667, 633333333, 600000000, 566666667, 533333333, 500000000, 466666667, 433333333,
        400000000, 366666667, 333333333, 316666667, 300000000, 283333333, 266666667, 250000000,
        233333333, 216666667, 200000000, 183333333, 166666667, 166666667, 150000000, 150000000,
        133333333, 133333333, 116666667, 116666667, 100000000, 100000000, 100000000, 100000000,
        100000000, 100000000, 100000000, 100000000, 100000000, 100000000, 100000000, 100000000,
        83333333, 83333333, 83333333, 83333333, 83333333, 66666667, 66666667, 66666667, 66666667,
        66666667, 50000000, 50000000, 50000000, 50000000, 50000000, 33333333, 33333333, 33333333,
        33333333, 33333333, 33333333, 33333333, 33333333, 33333333, 33333333, 16666667
    ]);
}

/// Where a game is in its turn cycle. Times are nanoseconds spent in the state.
#[derive(Clone, Debug, PartialEq, Eq)]
pub enum GameState {
    /// Waiting to bring the next capsule.
    Spawn(u64),
    /// About to bring the capsule that was held, or a fresh one if none was.
    SpawnHold(Option<PillShape>),
    /// The capsule is falling.
    Fall(u64),
    /// The capsule rests and can still be moved.
    Lock(u64),
    /// About to look for runs to destroy.
    Pattern(Combo),
    /// About to destroy the runs that were found.
    Destroy(Vec<ColoredBlock>, Combo),
    /// Letting loose cells settle.
    DropGarbage(u64, Combo),
    GameOver,
    LevelComplete,
}

impl GameState {
    pub fn is_game_over(&self) -> (over: bool)
        ensures
            over == (*self is GameOver),
    {
        match self {
            GameState::GameOver => true,
            _ => false,
        }
    }

    /// The state in which loose cells start to settle.
    pub fn drop_garbage(combo: Combo) -> (state: Self)
        ensures
            state == GameState::DropGarbage(0, combo),
    {
        GameState::DropGarbage(0, combo)
    }
}

/// What is in the hold slot, and whether the slot can be used again yet.
#[derive(Clone, Copy, Debug, PartialEq, Eq, Structural)]
pub struct HoldState {
    pub shape: PillShape,
    pub locked: bool,
}

impl HoldState {
    pub fn locked(shape: PillShape) -> (hold: Self)
        ensures
            hold == (HoldState { shape, locked: true }),
    {
        Self { shape, locked: true }
    }
}

/// Two to the power of `n`.
pub open spec fn pow2(n: nat) -> nat
    decreases n,
{
    if n == 0 {
        1
    } else {
        2 * pow2((n - 1) as nat)
    }
}

/// What a combo that destroyed `viruses` viruses is worth: the first virus
/// scores the base, and every further one twice as much as the one before.
pub open spec fn combo_score(base: int, viruses: nat) -> int
    decreases viruses,
{
    if viruses == 0 {
        0
    } else {
        combo_score(base, (viruses - 1) as nat) + base * pow2((viruses - 1) as nat)
    }
}

/// A score as a machine integer holds it: the largest one where it does not fit.
pub open spec fn capped(score: int) -> u32 {
    if score <= u32::MAX {
        score as u32
    } else {
        u32::MAX
    }
}

/// A combo is worth its base times one less than two to the number of its
/// viruses; so it is worth more with every virus.
pub proof fn lemma_combo_score(base: int, viruses: nat)
    requires
        base >= 0,
    ensures
        combo_score(base, viruses) == base * (pow2(viruses) - 1),
        pow2(viruses) >= 1,
        viruses > 0 ==> combo_score(base, viruses) >= combo_score(base, (viruses - 1) as nat),
    decreases viruses,
{
    if viruses > 0 {
        lemma_combo_score(base, (viruses - 1) as nat);
        let p = pow2((viruses - 1) as nat) as int;
        assert(base * (2 * p - 1) == base * (p - 1) + base * p) by (nonlinear_arith);
        assert(base * p >= 0) by (nonlinear_arith)
            requires
                base >= 0,
                p >= 1,
        ;
    } else {
        assert(base * (1 - 1) == 0);
    }
}

/// What one lock has set off so far: the colors of the runs that were
/// destroyed, and how many viruses were among the cells.
#[derive(Debug, Clone, Eq, PartialEq)]
pub struct Combo {
    pub patterns: Vec<VirusColor>,
    pub viruses: u32,
}

impl Combo {
    /// More than one run was destroyed.
    pub open spec fn chained(&self) -> bool {
        self.patterns@.len() > 1
    }

    pub fn empty() -> (combo: Self)
        ensures
            combo.patterns@ == Seq::<VirusColor>::empty(),
            combo.viruses == 0,
    {
        Self { patterns: Vec::new(), viruses: 0 }
    }

    pub fn new(patterns: Vec<VirusColor>, viruses: u32) -> (combo: Self)
        ensures
            combo.patterns == patterns,
            combo.viruses == viruses,
    {
        Self { patterns, viruses }
    }

    /// The combo with the runs and viruses of one more round of destruction.
    pub fn into_updated(self, patterns: Vec<VirusColor>, viruses: u32) -> (combo: Self)
        ensures
            combo.patterns@ == self.patterns@ + patterns@,
            combo.viruses == capped(self.viruses + viruses),
    {
        let mut combo = self;
        let mut i: usize = 0;
        while i < patterns.len()
            invariant
                i <= patterns.len(),
                combo.viruses == self.viruses,
                combo.patterns@ == self.patterns@ + patterns@.take(i as int),
            decreases patterns.len() - i,
        {
            combo.patterns.push(patterns[i]);
            assert(combo.patterns@ =~= self.patterns@ + patterns@.take(i + 1));
            i = i + 1;
        }
        assert(patterns@.take(patterns@.len() as int) =~= patterns@);
        combo.viruses = combo.viruses.saturating_add(viruses);
        combo
    }

    pub fn is_combo(&self) -> (chained: bool)
        ensures
            chained == self.chained(),
    {
        self.patterns.len() > 1
    }

    /// What the combo is worth at a speed.
    pub fn score(&self, speed: GameSpeed) -> (score: u32)
        ensures
            score == capped(combo_score(speed.base(), self.viruses as nat)),
    {
        let base = speed.base_score() as u64;
        let mut total: u64 = 0;
        let mut term: u64 = base;
        let mut i: u32 = 0;
        while i < self.viruses
            invariant
                i <= self.viruses,
                base == speed.base(),
                total == combo_score(base as int, i as nat),
                term == base * pow2(i as nat),
                total <= u32::MAX,
                term <= u32::MAX as u64 + 300,
            decreases self.viruses - i,
        {
            proof {
                lemma_combo_score(base as int, i as nat);
                lemma_combo_score(base as int, (i + 1) as nat);
            }
            if total + term > u32::MAX as u64 {
                proof {
                    lemma_combo_score_grows(base as int, (i + 1) as nat, self.viruses as nat);
                }
                return u32::MAX;
            }
            total = total + term;
            assert(base * (2 * pow2(i as nat)) == 2 * (base * pow2(i as nat))) by (nonlinear_arith);
            term = term * 2;
            i = i + 1;
        }
        total as u32
    }

    /// What the combo sends to the other players: the colors of its runs if
    /// there was more than one run, else nothing.
    pub fn garbage(&self) -> (colors: SendGarbage)
        ensures
            colors@ == if self.chained() {
                self.patterns@
            } else {
                Seq::<VirusColor>::empty()
            },
    {
        let mut colors: Vec<VirusColor> = Vec::new();
        if self.is_combo() {
            let mut i: usize = 0;
            while i < self.patterns.len()
                invariant
                    i <= self.patterns.len(),
                    colors@ == self.patterns@.take(i as int),
                decreases self.patterns.len() - i,
            {
                colors.push(self.patterns[i]);
                assert(colors@ =~= self.patterns@.take(i + 1));
                i = i + 1;
            }
            assert(self.patterns@.take(self.patterns@.len() as int) =~= self.patterns@);
        }
        colors
    }
}

/// A combo with more viruses is worth no less.
pub proof fn lemma_combo_score_grows(base: int, fewer: nat, more: nat)
    requires
        base >= 0,
        fewer <= more,
    ensures
        combo_score(base, fewer) <= combo_score(base, more),
    decreases more - fewer,
{
    if fewer < more {
        lemma_combo_score(base, more);
        lemma_combo_score_grows(base, fewer, (more - 1) as nat);
    }
}

/// A move that a player asks of the falling capsule.
#[derive(Clone, Copy, Debug, PartialEq, Eq, Structural)]
pub enum PillMove {
    Left,
    Right,
    Rotate(bool),
}

/// One player's game.
pub struct Game {
    pub player: u32,
    pub virus_level: u32,
    pub level_count: u32,
    pub speed: GameSpeed,
    pub random: GameRandom,
    pub events: Vec<GameEvent>,
    pub bottle: Bottle,
    pub state: GameState,
    pub score: u32,
    pub total_pills: usize,
    pub soft_drop: bool,
    pub hard_dropped: bool,
    pub hold: Option<HoldState>,
    pub garbage_buffer: Vec<SendGarbage>,
}

/// The larger of two times.
pub open spec fn later(a: u64, b: u64) -> u64 {
    if a >= b {
        a
    } else {
        b
    }
}

/// The sum of two times as a machine integer holds it.
pub open spec fn summed(a: u64, b: u64) -> u64 {
    if a + b <= u64::MAX {
        (a + b) as u64
    } else {
        u64::MAX
    }
}

/// One more capsule, as a machine integer counts it.
pub open spec fn one_more(n: usize) -> usize {
    if n < usize::MAX {
        (n + 1) as usize
    } else {
        n
    }
}

/// A copy of a list of cells.
fn copy_blocks(blocks: &Vec<ColoredBlock>) -> (copy: Vec<ColoredBlock>)
    ensures
        copy@ == blocks@,
{
    let mut copy: Vec<ColoredBlock> = Vec::new();
    let mut i: usize = 0;
    while i < blocks.len()
        invariant
            i <= blocks.len(),
            copy@ == blocks@.take(i as int),
        decreases blocks.len() - i,
    {
        copy.push(blocks[i]);
        assert(copy@ =~= blocks@.take(i + 1));
        i = i + 1;
    }
    assert(blocks@.take(blocks@.len() as int) =~= blocks@);
    copy
}

/// How many of the cells are viruses.
fn count_viruses(blocks: &Vec<ColoredBlock>) -> (count: u32)
    ensures
        count == capped(virus_cells(blocks@, blocks@.len() as int)),
{
    let mut count: u32 = 0;
    let mut i: usize = 0;
    while i < blocks.len()
        invariant
            i <= blocks.len(),
            count == capped(virus_cells(blocks@, i as int)),
        decreases blocks.len() - i,
    {
        proof {
            lemma_virus_cells(blocks@, i as int);
        }
        if blocks[i].is_virus {
            count = count.saturating_add(1);
        }
        i = i + 1;
    }
    count
}

impl Game {
    /// The time a capsule takes per row, before soft drop.
    pub open spec fn row_nanos(&self) -> u64 {
        self.speed.row_nanos(self.total_pills as int / 10)
    }

    /// The time per row that counts: under soft drop a fraction of it, but
    /// never less than at the last speed level.
    pub open spec fn base_delay_of(&self, soft_drop_factor: u64) -> u64 {
        if self.soft_drop {
            later(self.row_nanos() / soft_drop_factor, self.speed.row_nanos(49))
        } else {
            self.row_nanos()
        }
    }

    /// How long a game waits before it brings the next capsule.
    pub open spec fn spawn_delay_of(&self) -> u64 {
        later(self.base_delay_of(SOFT_DROP_SPAWN_FACTOR), MIN_SPAWN_DELAY)
    }

    /// How long a capsule stays in a row.
    pub open spec fn step_delay_of(&self) -> u64 {
        self.base_delay_of(SOFT_DROP_STEP_FACTOR)
    }

    /// How long a resting capsule can still be moved.
    pub open spec fn lock_delay_of(&self) -> u64 {
        if self.soft_drop {
            SOFT_DROP_LOCK_DURATION
        } else {
            LOCK_DURATION
        }
    }

    /// The bottle and the supply are in order and fit the state: a capsule
    /// is in the bottle exactly while it falls or rests; unless the game is
    /// over, nothing in the bottle is out of place and the preview is
    /// fresh, so that there is none without a capsule; and the cells that
    /// are about to be destroyed lie in the grid.
    pub open spec fn wf(&self) -> bool {
        &&& self.random.wf()
        &&& self.bottle.wf()
        &&& self.state is Fall || self.state is Lock ==> self.bottle.pill is Some
        &&& !(self.state is Fall || self.state is Lock || self.state is GameOver)
            ==> self.bottle.pill is None
        &&& !(self.state is GameOver) ==> self.bottle.tidy()
        &&& self.state matches GameState::Destroy(blocks, _) ==> forall|k: int|
            0 <= k < blocks@.len() ==> point_in_bounds(#[trigger] blocks@[k].position)
    }

    /// What no tick and no move changes.
    pub open spec fn same_setup(&self, before: &Game) -> bool {
        &&& self.player == before.player
        &&& self.virus_level == before.virus_level
        &&& self.level_count == before.level_count
        &&& self.speed == before.speed
        &&& self.soft_drop == before.soft_drop
    }

    /// Nothing but the state differs from `before`.
    pub open spec fn same_but_state(&self, before: &Game) -> bool {
        &&& self.same_setup(before)
        &&& self.random == before.random
        &&& self.events@ == before.events@
        &&& self.bottle == before.bottle
        &&& self.score == before.score
        &&& self.total_pills == before.total_pills
        &&& self.hard_dropped == before.hard_dropped
        &&& self.hold == before.hold
        &&& self.garbage_buffer@ == before.garbage_buffer@
    }

    /// Starts a game on a bottle that holds no capsule.
    pub fn from_bottle(
        player: u32,
        virus_level: u32,
        speed: GameSpeed,
        random: GameRandom,
        bottle: Bottle,
    ) -> (game: Self)
        requires
            random.wf(),
            bottle.pill is None,
            bottle.tidy(),
        ensures
            game.wf(),
            game.player == player,
            game.virus_level == virus_level,
            game.level_count == 0,
            game.speed == speed,
            game.random == random,
            game.events@ == Seq::<GameEvent>::empty(),
            game.bottle == bottle,
            game.state == GameState::Spawn(0),
            game.score == 0,
            game.total_pills == 0,
            !game.soft_drop,
            !game.hard_dropped,
            game.hold is None,
            game.garbage_buffer@ == Seq::<SendGarbage>::empty(),
    {
        Self {
            player,
            virus_level,
            level_count: 0,
            speed,
            random,
            events: Vec::new(),
            bottle,
            state: GameState::Spawn(0),
            score: 0,
            total_pills: 0,
            soft_drop: false,
            hard_dropped: false,
            hold: None,
            garbage_buffer: Vec::new(),
        }
    }

    /// The game is as it starts at a level: nothing has happened in it, the
    /// next capsule is awaited, and the bottle holds the viruses of a
    /// layout for the level and nothing else.
    pub open spec fn starts(&self, player: u32, virus_level: u32, speed: GameSpeed) -> bool {
        &&& self.wf()
        &&& self.player == player
        &&& self.virus_level == virus_level
        &&& self.level_count == 0
        &&& self.speed == speed
        &&& self.events@ == Seq::<GameEvent>::empty()
        &&& self.state == GameState::Spawn(0)
        &&& self.score == 0
        &&& self.total_pills == 0
        &&& !self.soft_drop
        &&& !self.hard_dropped
        &&& self.hold is None
        &&& self.garbage_buffer@ == Seq::<SendGarbage>::empty()
        &&& self.bottle.pill is None
        &&& exists|seed: BottleSeed|
            {
                &&& seed.wf()
                &&& seed.count == virus_target(virus_level)
                &&& seed.rules_hold()
                &&& below_row(seed.viruses@, top_virus_row(virus_level))
                &&& self.bottle.grid() == seed.blocks()
            }
    }

    /// Starts a game at a virus level, on a bottle seeded from the supply,
    /// whose waiting capsules stay as they are. There is no game if no
    /// layout of viruses is found.
    pub fn new(player: u32, virus_level: u32, speed: GameSpeed, random: GameRandom) -> (game: Result<
        Self,
        String,
    >)
        requires
            random.wf(),
        ensures
            match game {
                Ok(game) => {
                    &&& game.starts(player, virus_level, speed)
                    &&& game.random.mode == random.mode
                    &&& game.random.queue == random.queue
                },
                Err(message) => {
                    &&& message@ == "failed to generate valid bottle after 100000 attempts"@
                    &&& some_order_fails(virus_level)
                },
            },
    {
        let mut random = random;
        match random.bottle_seed(virus_level) {
            Ok(seed) => {
                let bottle = Bottle::from_seed(seed);
                Ok(Self::from_bottle(player, virus_level, speed, random, bottle))
            },
            Err(message) => Err(message),
        }
    }

    /// Goes on to the next virus level once a level is complete: a new
    /// bottle is seeded, and everything but the score and the count of
    /// levels starts afresh. Without a layout for the level the error is
    /// handed on; the level and the count have gone up all the same.
    pub fn next_level(&mut self) -> (started: Result<(), String>)
        requires
            old(self).wf(),
            old(self).state is LevelComplete,
            old(self).virus_level < u32::MAX,
            old(self).level_count < u32::MAX,
        ensures
            final(self).player == old(self).player,
            final(self).speed == old(self).speed,
            final(self).score == old(self).score,
            final(self).virus_level == old(self).virus_level + 1,
            final(self).level_count == old(self).level_count + 1,
            final(self).events@ == Seq::<GameEvent>::empty(),
            final(self).random.mode == old(self).random.mode,
            final(self).random.queue == old(self).random.queue,
            match started {
                Ok(_) => {
                    &&& final(self).wf()
                    &&& final(self).state == GameState::Spawn(0)
                    &&& final(self).total_pills == 0
                    &&& !final(self).soft_drop
                    &&& !final(self).hard_dropped
                    &&& final(self).hold is None
                    &&& final(self).garbage_buffer@ == Seq::<SendGarbage>::empty()
                    &&& exists|seed: BottleSeed|
                        {
                            &&& seed.wf()
                            &&& seed.count == virus_target(final(self).virus_level)
                            &&& seed.rules_hold()
                            &&& below_row(
                                seed.viruses@,
                                top_virus_row(final(self).virus_level),
                            )
                            &&& final(self).bottle.grid() == seed.blocks()
                        }
                },
                Err(message) => {
                    &&& message@ == "failed to generate valid bottle after 100000 attempts"@
                    &&& some_order_fails(final(self).virus_level)
                    &&& final(self).state == old(self).state
                    &&& final(self).bottle == old(self).bottle
                },
            },
    {
        self.virus_level = self.virus_level + 1;
        self.level_count = self.level_count + 1;
        self.events.clear();
        match self.random.bottle_seed(self.virus_level) {
            Ok(seed) => {
                self.bottle = Bottle::from_seed(seed);
            },
            Err(message) => {
                return Err(message);
            },
        }
        self.state = GameState::Spawn(0);
        self.total_pills = 0;
        self.soft_drop = false;
        self.hard_dropped = false;
        self.hold = None;
        self.garbage_buffer.clear();
        Ok(())
    }

    pub fn viruses(&self) -> (found: Vec<ColoredBlock>)
        ensures
            found@ == viruses_of(self.bottle.grid()),
    {
        self.bottle.viruses()
    }

    pub fn state(&self) -> (state: &GameState)
        ensures
            *state == self.state,
    {
        &self.state
    }

    pub fn speed(&self) -> (speed: GameSpeed)
        ensures
            speed == self.speed,
    {
        self.speed
    }

    pub fn virus_level(&self) -> (level: u32)
        ensures
            level == self.virus_level,
    {
        self.virus_level
    }

    pub fn completed_levels(&self) -> (levels: u32)
        ensures
            levels == self.level_count,
    {
        self.level_count
    }

    /// The snapshot shows the game as it is: who plays, the level, the
    /// speed, how many viruses are left, the score, the next five capsules
    /// and what is held.
    pub open spec fn shown_in(&self, metrics: GameMetrics) -> bool {
        &&& metrics.player == self.player
        &&& metrics.virus_level == self.virus_level
        &&& metrics.speed == self.speed
        &&& metrics.viruses == viruses_of(self.bottle.grid()).len()
        &&& metrics.score == self.score
        &&& metrics.queue@ == self.random.queue@.take(5)
        &&& metrics.hold == match self.hold {
            Some(hold) => Some(hold.shape),
            None => None::<PillShape>,
        }
    }

    /// A snapshot for display.
    pub fn metrics(&self) -> (metrics: GameMetrics)
        requires
            self.random.wf(),
        ensures
            self.shown_in(metrics),
    {
        let hold = match self.hold {
            Some(hold) => Some(hold.shape),
            None => None,
        };
        GameMetrics::new(
            self.player,
            self.virus_level,
            self.speed,
            self.bottle.virus_count(),
            self.score,
            self.random.peek(),
            hold,
        )
    }

    pub fn row(&self, y: u32) -> (cells: &[Block])
        requires
            y < 16,
        ensures
            cells@ == self.bottle.grid().subrange(8 * y, 8 * y + 8),
    {
        self.bottle.row(y)
    }

    /// What `hold` does where it does anything: the capsule leaves the
    /// bottle for the hold slot, which is then closed until a capsule
    /// locks, and what was in the slot comes next.
    pub open spec fn held_from(&self, before: &Game) -> bool {
        &&& self.same_setup(before)
        &&& self.random == before.random
        &&& self.score == before.score
        &&& self.total_pills == before.total_pills
        &&& self.hard_dropped == before.hard_dropped
        &&& self.garbage_buffer@ == before.garbage_buffer@
        &&& self.events@ == before.events@.push(GameEvent::Hold)
        &&& self.state == GameState::SpawnHold(
            match before.hold {
                Some(hold) => Some(hold.shape),
                None => None::<PillShape>,
            },
        )
        &&& self.hold == Some(
            HoldState { shape: before.bottle.pill.unwrap().shape_of(), locked: true },
        )
        &&& self.bottle.pill is None
        &&& self.bottle.grid() == unghosted(
            cleared(before.bottle.grid(), before.bottle.pill.unwrap().vitamins),
        )
    }

    /// Whether `hold` does anything: a capsule is in play, the game is not
    /// over, and the slot is not closed.
    pub open spec fn can_hold(&self) -> bool {
        &&& !(self.state is GameOver)
        &&& self.bottle.pill is Some
        &&& !(self.hold matches Some(hold) && hold.locked)
    }

    /// Swaps the falling capsule with the hold slot.
    pub fn hold(&mut self)
        requires
            old(self).wf(),
        ensures
            final(self).wf(),
            no_new_virus(old(self).bottle.grid(), final(self).bottle.grid()),
            if old(self).can_hold() {
                final(self).held_from(old(self))
            } else {
                *final(self) == *old(self)
            },
    {
        if self.state.is_game_over() {
            return ;
        }
        if let Some(hold) = self.hold {
            if hold.locked {
                return ;
            }
        }
        let held_shape = match self.bottle.hold() {
            None => {
                return ;
            },
            Some(shape) => shape,
        };
        let previous = match self.hold {
            Some(hold) => Some(hold.shape),
            None => None,
        };
        self.state = GameState::SpawnHold(previous);
        self.hold = Some(HoldState::locked(held_shape));
        self.events.push(GameEvent::Hold);
    }

    /// Turns soft drop on or off; turning it on is reported.
    pub fn set_soft_drop(&mut self, soft_drop: bool)
        requires
            old(self).wf(),
        ensures
            final(self).wf(),
            if soft_drop {
                &&& final(self).events@ == old(self).events@.push(GameEvent::SoftDrop)
                &&& *final(self) == (Game {
                    soft_drop: true,
                    events: final(self).events,
                    ..*old(self)
                })
            } else {
                *final(self) == (Game { soft_drop: false, ..*old(self) })
            },
    {
        self.soft_drop = soft_drop;
        if soft_drop {
            self.events.push(GameEvent::SoftDrop);
        }
    }

    /// Whether `hard_drop` does anything: the game is not over and the
    /// capsule has room to fall.
    pub open spec fn can_hard_drop(&self) -> bool {
        &&& !(self.state is GameOver)
        &&& self.bottle.pill is Some
        &&& !self.bottle.resting()
    }

    /// What `hard_drop` does where it does anything: the capsule goes down
    /// as far as it can and will lock at the next tick.
    pub open spec fn hard_dropped_from(&self, before: &Game) -> bool {
        let pill = before.bottle.pill.unwrap();
        let rows = drop_rows(before.bottle.grid(), pill.vitamins);
        &&& self.same_setup(before)
        &&& self.random == before.random
        &&& self.score == before.score
        &&& self.total_pills == before.total_pills
        &&& self.hold == before.hold
        &&& self.garbage_buffer@ == before.garbage_buffer@
        &&& self.hard_dropped
        &&& self.state == GameState::Lock(LOCK_DURATION)
        &&& self.bottle.moved_from(&before.bottle, pill.moved(0, rows as int))
        &&& self.bottle.resting()
        &&& self.events@ == before.events@.push(
            GameEvent::HardDrop {
                player: before.player,
                vitamins: pill.moved(0, rows as int).vitamins,
                dropped_rows: rows as u32,
            },
        )
    }

    /// Drops the capsule straight down.
    pub fn hard_drop(&mut self)
        requires
            old(self).wf(),
        ensures
            final(self).wf(),
            no_new_virus(old(self).bottle.grid(), final(self).bottle.grid()),
            if old(self).can_hard_drop() {
                final(self).hard_dropped_from(old(self))
            } else {
                *final(self) == *old(self)
            },
    {
        if self.state.is_game_over() {
            return ;
        }
        if let Some((dropped_rows, vitamins)) = self.bottle.hard_drop() {
            self.state = GameState::Lock(LOCK_DURATION);
            self.hard_dropped = true;
            self.events.push(GameEvent::HardDrop { player: self.player, dropped_rows, vitamins });
        }
    }

    /// What a move asks of the bottle comes to.
    pub open spec fn move_target(&self, pill_move: PillMove) -> Option<Pill> {
        match self.bottle.pill {
            None => None,
            Some(pill) => match pill_move {
                PillMove::Left => if can_shift(self.bottle.grid(), pill.vitamins, -1, 0) {
                    Some(pill.moved(-1, 0))
                } else {
                    None
                },
                PillMove::Right => if can_shift(self.bottle.grid(), pill.vitamins, 1, 0) {
                    Some(pill.moved(1, 0))
                } else {
                    None
                },
                PillMove::Rotate(clockwise) => match self.bottle.rotation_kick(clockwise) {
                    Some(kick) => Some(pill.turned(clockwise).moved(kick.0 as int, kick.1 as int)),
                    None => None,
                },
            },
        }
    }

    /// Whether a move is taken up at all: not when the game is over, and
    /// while the capsule rests only as long as neither its time nor its
    /// moves have run out.
    pub open spec fn move_allowed(&self) -> bool {
        &&& !(self.state is GameOver)
        &&& self.state matches GameState::Lock(elapsed) ==> elapsed < LOCK_DURATION
            && self.bottle.pill.unwrap().lock_placements < MAX_LOCK_PLACEMENTS
    }

    /// The event that reports a move.
    pub open spec fn move_event(pill_move: PillMove) -> GameEvent {
        match pill_move {
            PillMove::Rotate(_) => GameEvent::Rotate,
            _ => GameEvent::Move,
        }
    }

    /// A move is taken up and the bottle lets the capsule make it.
    pub open spec fn move_succeeds(&self, pill_move: PillMove) -> bool {
        self.move_allowed() && self.move_target(pill_move) is Some
    }

    /// A capsule rests with time left but no moves: asking it to move sets
    /// it to lock at once.
    pub open spec fn out_of_moves(&self) -> bool {
        &&& self.state matches GameState::Lock(elapsed)
        &&& elapsed < LOCK_DURATION
        &&& self.bottle.pill.unwrap().lock_placements >= MAX_LOCK_PLACEMENTS
    }

    /// What a request for a move does to everything but the events. A move
    /// that is not taken up or that the bottle refuses changes nothing,
    /// except that a resting capsule whose moves have run out is set to
    /// lock at once. A move that succeeds while the capsule falls changes
    /// the bottle and nothing else. One that succeeds while the capsule
    /// rests is counted, and the capsule falls again, unless this was the
    /// last move it had: then it locks at once.
    pub open spec fn move_outcome(&self, before: &Game, pill_move: PillMove) -> bool {
        &&& self.same_setup(before)
        &&& self.random == before.random
        &&& self.score == before.score
        &&& self.total_pills == before.total_pills
        &&& self.hard_dropped == before.hard_dropped
        &&& self.hold == before.hold
        &&& self.garbage_buffer@ == before.garbage_buffer@
        &&& if before.move_succeeds(pill_move) {
            let next = before.move_target(pill_move).unwrap();
            if before.state is Lock {
                &&& self.bottle.counted_from(&before.bottle, next)
                &&& self.state == if next.lock_placements + 1 < MAX_LOCK_PLACEMENTS {
                    GameState::Fall(0)
                } else {
                    GameState::Lock(LOCK_DURATION)
                }
            } else {
                &&& self.bottle.moved_from(&before.bottle, next)
                &&& self.state == before.state
            }
        } else {
            &&& self.bottle == before.bottle
            &&& self.state == if before.out_of_moves() {
                GameState::Lock(LOCK_DURATION)
            } else {
                before.state
            }
        }
    }

    /// What a request for a move does: the outcome above, and a report of
    /// the move if it succeeded.
    pub open spec fn moved_by(&self, before: &Game, pill_move: PillMove) -> bool {
        &&& self.move_outcome(before, pill_move)
        &&& self.events@ == if before.move_succeeds(pill_move) {
            before.events@.push(Self::move_event(pill_move))
        } else {
            before.events@
        }
    }

    /// Asks for a move to the left.
    pub fn left(&mut self)
        requires
            old(self).wf(),
        ensures
            final(self).wf(),
            no_new_virus(old(self).bottle.grid(), final(self).bottle.grid()),
            final(self).moved_by(old(self), PillMove::Left),
    {
        if self.with_checking_lock(PillMove::Left) {
            self.events.push(GameEvent::Move);
        }
    }

    /// Asks for a move to the right.
    pub fn right(&mut self)
        requires
            old(self).wf(),
        ensures
            final(self).wf(),
            no_new_virus(old(self).bottle.grid(), final(self).bottle.grid()),
            final(self).moved_by(old(self), PillMove::Right),
    {
        if self.with_checking_lock(PillMove::Right) {
            self.events.push(GameEvent::Move);
        }
    }

    /// Asks for a quarter turn.
    pub fn rotate(&mut self, clockwise: bool)
        requires
            old(self).wf(),
        ensures
            final(self).wf(),
            no_new_virus(old(self).bottle.grid(), final(self).bottle.grid()),
            final(self).moved_by(old(self), PillMove::Rotate(clockwise)),
    {
        if self.with_checking_lock(PillMove::Rotate(clockwise)) {
            self.events.push(GameEvent::Rotate);
        }
    }

    /// This game is `before` with one more batch of loose cells at the end
    /// of its queue, and nothing else is different.
    pub open spec fn queued_from(&self, before: &Game, garbage: SendGarbage) -> bool {
        &&& self.garbage_buffer@ == before.garbage_buffer@.push(garbage)
        &&& *self == (Game { garbage_buffer: self.garbage_buffer, ..*before })
    }

    /// Queues a batch of loose cells that another player has sent.
    pub fn send_garbage(&mut self, garbage: SendGarbage)
        requires
            old(self).wf(),
        ensures
            final(self).wf(),
            final(self).queued_from(old(self), garbage),
    {
        self.garbage_buffer.push(garbage);
    }

    /// Hands the events that have gathered on to `target`, oldest first,
    /// and keeps none.
    pub fn consume_events(&mut self, target: &mut Vec<GameEvent>)
        requires
            old(self).wf(),
        ensures
            final(self).wf(),
            final(target)@ == old(target)@ + old(self).events@,
            final(self).events@ == Seq::<GameEvent>::empty(),
            final(self).same_setup(old(self)),
            final(self).random == old(self).random,
            final(self).bottle == old(self).bottle,
            final(self).state == old(self).state,
            final(self).score == old(self).score,
            final(self).total_pills == old(self).total_pills,
            final(self).hard_dropped == old(self).hard_dropped,
            final(self).hold == old(self).hold,
            final(self).garbage_buffer@ == old(self).garbage_buffer@,
    {
        target.append(&mut self.events);
    }

    /// Asks the bottle for a move.
    fn apply(&mut self, pill_move: PillMove) -> (moved: bool)
        requires
            old(self).bottle.wf(),
        ensures
            no_new_virus(old(self).bottle.grid(), final(self).bottle.grid()),
            moved <==> old(self).move_target(pill_move) is Some,
            !moved ==> *final(self) == *old(self),
            final(self).state == old(self).state,
            final(self).events@ == old(self).events@,
            final(self).same_setup(old(self)),
            final(self).random == old(self).random,
            final(self).score == old(self).score,
            final(self).total_pills == old(self).total_pills,
            final(self).hard_dropped == old(self).hard_dropped,
            final(self).hold == old(self).hold,
            final(self).garbage_buffer@ == old(self).garbage_buffer@,
            moved ==> final(self).bottle.moved_from(
                &old(self).bottle,
                old(self).move_target(pill_move).unwrap(),
            ),
    {
        match pill_move {
            PillMove::Left => self.bottle.left(),
            PillMove::Right => self.bottle.right(),
            PillMove::Rotate(clockwise) => self.bottle.rotate(clockwise),
        }
    }

    /// Takes up a move unless the state forbids it, and says whether the
    /// capsule moved.
    fn with_checking_lock(&mut self, pill_move: PillMove) -> (moved: bool)
        requires
            old(self).wf(),
        ensures
            no_new_virus(old(self).bottle.grid(), final(self).bottle.grid()),
            final(self).wf(),
            moved <==> old(self).move_succeeds(pill_move),
            final(self).move_outcome(old(self), pill_move),
            final(self).events@ == old(self).events@,
    {
        if self.state.is_game_over() {
            return false;
        }
        let lock_duration = match self.state {
            GameState::Lock(lock_duration) => Some(lock_duration),
            _ => None,
        };
        match lock_duration {
            Some(lock_duration) => {
                if lock_duration >= LOCK_DURATION {
                    return false;
                }
                if self.bottle.lock_placements() >= MAX_LOCK_PLACEMENTS {
                    self.state = GameState::Lock(LOCK_DURATION);
                    return false;
                }
                if !self.apply(pill_move) {
                    return false;
                }
                if self.bottle.register_lock_placement() < MAX_LOCK_PLACEMENTS {
                    self.state = GameState::Fall(0);
                } else {
                    self.state = GameState::Lock(LOCK_DURATION);
                }
                true
            },
            None => self.apply(pill_move),
        }
    }
}

impl Game {
    /// What bringing a capsule of a shape into the bottle does to all but
    /// the supply and the mark of a hard drop. Where both cells that the
    /// capsule needs are free it is counted and reported, every tenth
    /// capsule with a step up in speed, and starts to fall. Where one is
    /// not, the game is over.
    pub open spec fn spawned_from(&self, before: &Game, shape: PillShape, is_hold: bool) -> bool {
        let halves = Pill::spawned(shape).vitamins;
        &&& self.same_setup(before)
        &&& self.score == before.score
        &&& self.hold == before.hold
        &&& self.garbage_buffer@ == before.garbage_buffer@
        &&& self.bottle.pill == Some(Pill::spawned(shape))
        &&& if can_shift(before.bottle.grid(), halves, 0, 0) {
            &&& self.bottle.grid() == rendered(placed(before.bottle.grid(), halves), Some(halves))
            &&& self.total_pills == one_more(before.total_pills)
            &&& self.events@ == before.events@.push(
                GameEvent::Spawn { player: before.player, shape, is_hold },
            ) + if self.total_pills % 10 == 0 {
                seq![GameEvent::SpeedLevelUp]
            } else {
                Seq::<GameEvent>::empty()
            }
            &&& self.state == GameState::Fall(0)
        } else {
            &&& self.bottle.grid() == placed_where_free(before.bottle.grid(), halves)
            &&& self.total_pills == before.total_pills
            &&& self.events@ == before.events@.push(GameEvent::GameOver { player: before.player })
            &&& self.state == GameState::GameOver
        }
    }

    /// What taking in a batch of loose cells does: the batch that was
    /// queued last leaves the queue, its cells are dropped into free
    /// columns of the top row, which is reported, and they start to settle.
    pub open spec fn received_from(&self, before: &Game) -> bool {
        let batch = before.garbage_buffer@.last();
        &&& self.same_setup(before)
        &&& self.random == before.random
        &&& self.score == before.score
        &&& self.total_pills == before.total_pills
        &&& self.hard_dropped == before.hard_dropped
        &&& self.hold == before.hold
        &&& self.garbage_buffer@ == before.garbage_buffer@.drop_last()
        &&& self.bottle.pill == before.bottle.pill
        &&& self.state matches GameState::DropGarbage(elapsed, combo)
        &&& elapsed == 0
        &&& combo.patterns@.len() == 0
        &&& combo.viruses == 0
        &&& self.events@.len() == before.events@.len() + 1
        &&& self.events@.drop_last() == before.events@
        &&& self.events@.last() matches GameEvent::ReceivedGarbage { player, garbage }
        &&& player == before.player
        &&& exists|columns: Seq<u32>|
            {
                &&& columns.to_multiset() == open_columns(before.bottle.grid(), 8).to_multiset()
                &&& garbage@.len() == garbage_count(batch@, columns)
                &&& forall|k: int|
                    0 <= k < garbage@.len() ==> #[trigger] garbage@[k] == garbage_at(
                        batch@,
                        columns,
                        k,
                    )
                &&& self.bottle.grid() == with_garbage(
                    before.bottle.grid(),
                    batch@,
                    columns,
                    garbage@.len() as int,
                )
            }
    }

    /// What a tick does while the next capsule is awaited. Loose cells
    /// that another player has sent come first. Else the game waits out
    /// the spawn delay, unless the last capsule was dropped hard, and then
    /// draws the next capsule and brings it into the bottle.
    pub open spec fn spawn_step(&self, before: &Game, elapsed: u64) -> bool {
        if before.garbage_buffer@.len() > 0 {
            self.received_from(before)
        } else if !before.hard_dropped && elapsed < before.spawn_delay_of() {
            self.same_but_state(before) && self.state == GameState::Spawn(elapsed)
        } else {
            &&& self.spawned_from(before, before.random.queue@[0], false)
            &&& !self.hard_dropped
            &&& self.random.drew_from(&before.random)
        }
    }

    /// What a tick does while the capsule falls. Once it has been in its
    /// row for the step delay it goes down a row, which is reported; if it
    /// then rests, it can still be moved for a while, unless its moves have
    /// run out. A capsule that cannot go down rests from now on.
    pub open spec fn fall_step(&self, before: &Game, elapsed: u64) -> bool {
        if elapsed < before.step_delay_of() {
            self.same_but_state(before) && self.state == GameState::Fall(elapsed)
        } else if before.bottle.resting() {
            self.same_but_state(before) && self.state == GameState::Lock(0)
        } else {
            let next = before.bottle.pill.unwrap().moved(0, 1);
            &&& self.same_setup(before)
            &&& self.random == before.random
            &&& self.score == before.score
            &&& self.total_pills == before.total_pills
            &&& self.hard_dropped == before.hard_dropped
            &&& self.hold == before.hold
            &&& self.garbage_buffer@ == before.garbage_buffer@
            &&& self.bottle.moved_from(&before.bottle, next)
            &&& self.events@ == before.events@.push(GameEvent::Fall)
            &&& self.state == if !self.bottle.resting() {
                GameState::Fall(0)
            } else if next.lock_placements >= MAX_LOCK_PLACEMENTS {
                GameState::Lock(LOCK_DURATION)
            } else {
                GameState::Lock(0)
            }
        }
    }

    /// What a tick does while the capsule rests. Until its time has run
    /// out, and unless it was dropped hard, it goes on resting. Then, if it
    /// still cannot go down, it locks: its halves become locked halves, the
    /// hold slot opens again, the lock is reported, and the search for runs
    /// begins. If it has been moved over free cells, it falls again.
    pub open spec fn lock_step(&self, before: &Game, elapsed: u64) -> bool {
        if !before.hard_dropped && elapsed < before.lock_delay_of() {
            self.same_but_state(before) && self.state == GameState::Lock(elapsed)
        } else if before.bottle.resting() {
            let halves = before.bottle.pill.unwrap().vitamins;
            &&& self.same_setup(before)
            &&& self.random == before.random
            &&& self.score == before.score
            &&& self.total_pills == before.total_pills
            &&& self.hard_dropped == before.hard_dropped
            &&& self.garbage_buffer@ == before.garbage_buffer@
            &&& self.hold == match before.hold {
                Some(hold) => Some(HoldState { locked: false, ..hold }),
                None => None::<HoldState>,
            }
            &&& self.bottle.pill is None
            &&& self.bottle.grid() == locked(before.bottle.grid(), halves)
            &&& self.events@ == before.events@.push(
                GameEvent::Lock {
                    player: before.player,
                    vitamins: halves,
                    hard_or_soft_dropped: before.hard_dropped || before.soft_drop,
                },
            )
            &&& self.state matches GameState::Pattern(combo)
            &&& combo.patterns@.len() == 0
            &&& combo.viruses == 0
        } else {
            self.same_but_state(before) && self.state == GameState::Fall(0)
        }
    }

    /// What a tick does when runs are looked for. If there are any, their
    /// cells are set to be destroyed, and their colors and viruses join the
    /// combo. If there are none, the combo is over: it is scored, its
    /// colors are sent to the other players if it had more than one run,
    /// and the next capsule is awaited.
    pub open spec fn pattern_step(&self, before: &Game, combo: Combo) -> bool {
        let grid = before.bottle.grid();
        let cells = listed(grid, matched_marks(grid), 128);
        if cells.len() > 0 {
            &&& self.same_but_state(before)
            &&& self.state matches GameState::Destroy(blocks, next)
            &&& blocks@ == cells
            &&& next.patterns@ == combo.patterns@ + run_colors(grid)
            &&& next.viruses == capped(
                combo.viruses + capped(virus_cells(cells, cells.len() as int)),
            )
        } else {
            &&& self.same_setup(before)
            &&& self.random == before.random
            &&& self.bottle == before.bottle
            &&& self.total_pills == before.total_pills
            &&& self.hard_dropped == before.hard_dropped
            &&& self.hold == before.hold
            &&& self.garbage_buffer@ == before.garbage_buffer@
            &&& self.score == capped(
                before.score + capped(combo_score(before.speed.base(), combo.viruses as nat)),
            )
            &&& self.state == GameState::Spawn(0)
            &&& if combo.chained() {
                &&& self.events@.len() == before.events@.len() + 1
                &&& self.events@.drop_last() == before.events@
                &&& self.events@.last() matches GameEvent::SendGarbage { player, garbage }
                &&& player == before.player
                &&& garbage@ == combo.patterns@
            } else {
                self.events@ == before.events@
            }
        }
    }

    /// What a tick does when cells are destroyed: they are destroyed, which
    /// is reported, as part of a combo if more than one run has been
    /// destroyed since the lock. With the last virus gone the level is
    /// complete; else loose cells start to settle.
    pub open spec fn destroy_step(&self, before: &Game, blocks: Vec<ColoredBlock>, combo: Combo) -> bool {
        let report = GameEvent::Destroy {
            player: before.player,
            blocks,
            is_combo: combo.chained(),
        };
        &&& self.same_setup(before)
        &&& self.random == before.random
        &&& self.score == before.score
        &&& self.total_pills == before.total_pills
        &&& self.hard_dropped == before.hard_dropped
        &&& self.hold == before.hold
        &&& self.garbage_buffer@ == before.garbage_buffer@
        &&& self.bottle.pill == before.bottle.pill
        &&& self.bottle.grid() == destroyed(before.bottle.grid(), blocks@, blocks@.len() as int)
        &&& if viruses_of(self.bottle.grid()).len() == 0 {
            &&& self.events@ == before.events@.push(report).push(
                GameEvent::LevelComplete { player: before.player },
            )
            &&& self.state == GameState::LevelComplete
        } else {
            &&& self.events@ == before.events@.push(report)
            &&& self.state == GameState::DropGarbage(0, combo)
        }
    }

    /// What a tick does while loose cells settle. After the settle delay,
    /// those that hang in the air go down a row, which is reported, and the
    /// delay starts again. When none hangs in the air any more, runs are
    /// looked for again.
    pub open spec fn drop_step(&self, before: &Game, elapsed: u64, combo: Combo) -> bool {
        if elapsed < GARBAGE_DROP_DURATION {
            self.same_but_state(before) && self.state == GameState::DropGarbage(elapsed, combo)
        } else if any_falls(before.bottle.grid()) {
            &&& self.same_setup(before)
            &&& self.random == before.random
            &&& self.score == before.score
            &&& self.total_pills == before.total_pills
            &&& self.hard_dropped == before.hard_dropped
            &&& self.hold == before.hold
            &&& self.garbage_buffer@ == before.garbage_buffer@
            &&& self.bottle.pill == before.bottle.pill
            &&& self.bottle.grid() == settled_once(before.bottle.grid())
            &&& self.events@ == before.events@.push(GameEvent::DropGarbage)
            &&& self.state == GameState::DropGarbage(0, combo)
        } else {
            self.same_but_state(before) && self.state == GameState::Pattern(combo)
        }
    }

    /// What a tick of `delta` nanoseconds does. A tick of no time does
    /// nothing, and neither does any tick once the game is over or the
    /// level complete. Else the time is added to the time spent in the
    /// state, and the state takes its step.
    pub open spec fn stepped_from(&self, before: &Game, delta: u64) -> bool {
        if delta == 0 {
            *self == *before
        } else {
            match before.state {
                GameState::Spawn(elapsed) => self.spawn_step(before, summed(elapsed, delta)),
                GameState::SpawnHold(Some(shape)) => {
                    &&& self.spawned_from(before, shape, true)
                    &&& self.hard_dropped == before.hard_dropped
                    &&& self.random == before.random
                },
                GameState::SpawnHold(None) => {
                    &&& self.spawned_from(before, before.random.queue@[0], false)
                    &&& self.hard_dropped == before.hard_dropped
                    &&& self.random.drew_from(&before.random)
                },
                GameState::Fall(elapsed) => self.fall_step(before, summed(elapsed, delta)),
                GameState::Lock(elapsed) => self.lock_step(before, summed(elapsed, delta)),
                GameState::Pattern(combo) => self.pattern_step(before, combo),
                GameState::Destroy(blocks, combo) => self.destroy_step(before, blocks, combo),
                GameState::DropGarbage(elapsed, combo) => self.drop_step(
                    before,
                    summed(elapsed, delta),
                    combo,
                ),
                GameState::GameOver => *self == *before,
                GameState::LevelComplete => *self == *before,
            }
        }
    }

    /// Lets `delta` nanoseconds pass.
    pub fn update(&mut self, delta: u64)
        requires
            old(self).wf(),
        ensures
            final(self).wf(),
            no_new_virus(old(self).bottle.grid(), final(self).bottle.grid()),
            final(self).stepped_from(old(self), delta),
    {
        if delta == 0 {
            return ;
        }
        match self.state {
            GameState::GameOver => {
                return ;
            },
            GameState::LevelComplete => {
                return ;
            },
            _ => {},
        }
        let mut state = GameState::GameOver;
        std::mem::swap(&mut self.state, &mut state);
        match state {
            GameState::Spawn(elapsed) => self.next_spawn(elapsed.saturating_add(delta)),
            GameState::SpawnHold(Some(shape)) => self.spawn_shape(shape, true),
            GameState::SpawnHold(None) => {
                let shape = self.random.next_pill();
                self.spawn_shape(shape, false)
            },
            GameState::Fall(elapsed) => self.next_fall(elapsed.saturating_add(delta)),
            GameState::Lock(elapsed) => self.next_lock(elapsed.saturating_add(delta)),
            GameState::Pattern(combo) => self.next_pattern(combo),
            GameState::Destroy(blocks, combo) => self.next_destroy(blocks, combo),
            GameState::DropGarbage(elapsed, combo) => self.next_drop_garbage(
                elapsed.saturating_add(delta),
                combo,
            ),
            GameState::GameOver => {},
            GameState::LevelComplete => {},
        }
    }

    fn next_spawn(&mut self, elapsed: u64)
        requires
            old(self).random.wf(),
            old(self).bottle.tidy(),
            old(self).bottle.pill is None,
        ensures
            no_new_virus(old(self).bottle.grid(), final(self).bottle.grid()),
            final(self).spawn_step(old(self), elapsed),
            final(self).random.wf(),
            final(self).bottle.wf(),
            final(self).state is GameOver || final(self).bottle.tidy(),
            final(self).state is GameOver || final(self).state is Fall || final(self).state
                is Spawn || final(self).state is DropGarbage,
            final(self).state is Fall ==> final(self).bottle.pill is Some,
            final(self).state is Fall || final(self).state is GameOver || final(self).bottle.pill
                is None,
    {
        if let Some(next_garbage) = self.garbage_buffer.pop() {
            let ghost batch = next_garbage;
            let garbage = self.bottle.send_garbage(next_garbage);
            let ghost sent = garbage;
            let ghost columns = choose|columns: Seq<u32>|
                {
                    &&& columns.to_multiset() == open_columns(old(self).bottle.grid(), 8).to_multiset()
                    &&& sent@.len() == garbage_count(batch@, columns)
                    &&& forall|k: int|
                        0 <= k < sent@.len() ==> #[trigger] sent@[k] == garbage_at(
                            batch@,
                            columns,
                            k,
                        )
                    &&& self.bottle.grid() == with_garbage(
                        old(self).bottle.grid(),
                        batch@,
                        columns,
                        sent@.len() as int,
                    )
                };
            self.events.push(GameEvent::ReceivedGarbage { player: self.player, garbage });
            self.state = GameState::drop_garbage(Combo::empty());
            assert(self.events@.drop_last() =~= old(self).events@);
            assert(self.garbage_buffer@ =~= old(self).garbage_buffer@.drop_last());
            assert(batch == old(self).garbage_buffer@.last());
            assert(self.events@.last() == (GameEvent::ReceivedGarbage {
                player: self.player,
                garbage: sent,
            }));
            return ;
        }
        if !self.hard_dropped && elapsed < self.spawn_delay() {
            self.state = GameState::Spawn(elapsed);
            return ;
        }
        self.hard_dropped = false;
        let shape = self.random.next_pill();
        self.spawn_shape(shape, false)
    }

    fn spawn_shape(&mut self, shape: PillShape, is_hold: bool)
        requires
            old(self).bottle.tidy(),
            old(self).bottle.pill is None,
        ensures
            no_new_virus(old(self).bottle.grid(), final(self).bottle.grid()),
            final(self).spawned_from(old(self), shape, is_hold),
            final(self).random == old(self).random,
            final(self).hard_dropped == old(self).hard_dropped,
            final(self).bottle.wf(),
            final(self).state is GameOver || (final(self).state is Fall && final(self).bottle.tidy()),
    {
        if self.bottle.try_spawn(shape).is_some() {
            self.events.push(GameEvent::Spawn { player: self.player, shape, is_hold });
            if self.total_pills < usize::MAX {
                self.total_pills = self.total_pills + 1;
            }
            if self.total_pills % PILLS_PER_SPEED_LEVEL == 0 {
                self.events.push(GameEvent::SpeedLevelUp);
                assert(self.events@ =~= old(self).events@.push(
                    GameEvent::Spawn { player: self.player, shape, is_hold },
                ) + seq![GameEvent::SpeedLevelUp]);
            } else {
                assert(self.events@ =~= old(self).events@.push(
                    GameEvent::Spawn { player: self.player, shape, is_hold },
                ) + Seq::<GameEvent>::empty());
            }
            self.state = GameState::Fall(0);
        } else {
            self.events.push(GameEvent::GameOver { player: self.player });
            self.state = GameState::GameOver;
        }
    }

    fn next_fall(&mut self, elapsed: u64)
        requires
            old(self).bottle.tidy(),
            old(self).bottle.pill is Some,
        ensures
            no_new_virus(old(self).bottle.grid(), final(self).bottle.grid()),
            final(self).fall_step(old(self), elapsed),
            final(self).bottle.tidy(),
            final(self).bottle.pill is Some,
            final(self).state is Fall || final(self).state is Lock,
    {
        if elapsed < self.step_delay() {
            self.state = GameState::Fall(elapsed);
            return ;
        }
        if !self.bottle.step_down_pill() {
            self.state = GameState::Lock(0);
            return ;
        }
        self.events.push(GameEvent::Fall);
        if self.bottle.is_collision() {
            if self.bottle.lock_placements() >= MAX_LOCK_PLACEMENTS {
                self.state = GameState::Lock(LOCK_DURATION);
            } else {
                self.state = GameState::Lock(0);
            }
        } else {
            self.state = GameState::Fall(0);
        }
    }

    fn next_lock(&mut self, elapsed: u64)
        requires
            old(self).bottle.tidy(),
            old(self).bottle.pill is Some,
        ensures
            no_new_virus(old(self).bottle.grid(), final(self).bottle.grid()),
            final(self).lock_step(old(self), elapsed),
            final(self).bottle.tidy(),
            final(self).state is Lock || final(self).state is Fall || final(self).state is Pattern,
            final(self).state is Pattern <==> final(self).bottle.pill is None,
    {
        let max_lock_duration = if self.soft_drop {
            SOFT_DROP_LOCK_DURATION
        } else {
            LOCK_DURATION
        };
        if !self.hard_dropped && elapsed < max_lock_duration {
            self.state = GameState::Lock(elapsed);
        } else if self.bottle.is_collision() {
            let vitamins = self.bottle.lock().unwrap();
            if let Some(hold) = self.hold {
                self.hold = Some(HoldState { shape: hold.shape, locked: false });
            }
            self.events.push(
                GameEvent::Lock {
                    player: self.player,
                    vitamins,
                    hard_or_soft_dropped: self.hard_dropped || self.soft_drop,
                },
            );
            self.state = GameState::Pattern(Combo::empty());
        } else {
            self.state = GameState::Fall(0);
        }
    }

    fn next_pattern(&mut self, combo: Combo)
        requires
            old(self).bottle.pill is None,
        ensures
            no_new_virus(old(self).bottle.grid(), final(self).bottle.grid()),
            final(self).pattern_step(old(self), combo),
            final(self).bottle == old(self).bottle,
            final(self).random == old(self).random,
            final(self).state is Destroy || final(self).state is Spawn,
            final(self).state matches GameState::Destroy(blocks, _) ==> forall|k: int|
                0 <= k < blocks@.len() ==> point_in_bounds(#[trigger] blocks@[k].position),
    {
        let (blocks, patterns) = self.bottle.pattern();
        if blocks.len() > 0 {
            let viruses = count_viruses(&blocks);
            self.state = GameState::Destroy(blocks, combo.into_updated(patterns, viruses));
            return ;
        }
        self.score = self.score.saturating_add(combo.score(self.speed));
        let garbage = combo.garbage();
        if garbage.len() > 0 {
            self.events.push(GameEvent::SendGarbage { player: self.player, garbage });
            assert(self.events@.drop_last() =~= old(self).events@);
        }
        self.state = GameState::Spawn(0);
    }

    fn next_destroy(&mut self, blocks: Vec<ColoredBlock>, combo: Combo)
        requires
            old(self).bottle.tidy(),
            old(self).bottle.pill is None,
            forall|k: int| 0 <= k < blocks@.len() ==> point_in_bounds(#[trigger] blocks@[k].position),
        ensures
            no_new_virus(old(self).bottle.grid(), final(self).bottle.grid()),
            final(self).destroy_step(old(self), blocks, combo),
            final(self).bottle.tidy(),
            final(self).bottle.pill is None,
            final(self).state is LevelComplete || final(self).state is DropGarbage,
    {
        self.bottle.destroy(copy_blocks(&blocks));
        let is_combo = combo.is_combo();
        self.events.push(GameEvent::Destroy { player: self.player, blocks, is_combo });
        if self.bottle.virus_count() == 0 {
            self.events.push(GameEvent::LevelComplete { player: self.player });
            self.state = GameState::LevelComplete;
        } else {
            self.state = GameState::drop_garbage(combo);
        }
    }

    fn next_drop_garbage(&mut self, elapsed: u64, combo: Combo)
        requires
            old(self).bottle.tidy(),
            old(self).bottle.pill is None,
        ensures
            no_new_virus(old(self).bottle.grid(), final(self).bottle.grid()),
            final(self).drop_step(old(self), elapsed, combo),
            final(self).bottle.tidy(),
            final(self).bottle.pill is None,
            final(self).state is DropGarbage || final(self).state is Pattern,
    {
        if elapsed < GARBAGE_DROP_DURATION {
            self.state = GameState::DropGarbage(elapsed, combo);
            return ;
        }
        if self.bottle.step_down_garbage() {
            self.events.push(GameEvent::DropGarbage);
            self.state = GameState::drop_garbage(combo);
        } else {
            self.state = GameState::Pattern(combo);
        }
    }

    fn spawn_delay(&self) -> (nanos: u64)
        ensures
            nanos == self.spawn_delay_of(),
    {
        let base = self.base_delay(SOFT_DROP_SPAWN_FACTOR);
        if base >= MIN_SPAWN_DELAY {
            base
        } else {
            MIN_SPAWN_DELAY
        }
    }

    fn step_delay(&self) -> (nanos: u64)
        ensures
            nanos == self.step_delay_of(),
    {
        self.base_delay(SOFT_DROP_STEP_FACTOR)
    }

    fn base_delay(&self, soft_drop_factor: u64) -> (nanos: u64)
        requires
            soft_drop_factor > 0,
        ensures
            nanos == self.base_delay_of(soft_drop_factor),
    {
        let base = self.speed.duration_of_level(self.total_pills / PILLS_PER_SPEED_LEVEL);
        if self.soft_drop {
            let fast = base / soft_drop_factor;
            let least = self.speed.min_drop_duration();
            if fast >= least {
                fast
            } else {
                least
            }
        } else {
            base
        }
    }
}

/// A capsule that rests and makes the last move it has is set to lock at
/// once: at the next tick that takes any time it locks if it still rests,
/// however little of its time has passed, and falls if it does not.
pub proof fn lemma_lock_ceiling(before: Game, moved: Game, after: Game, pill_move: PillMove, delta: u64)
    requires
        before.wf(),
        before.state is Lock,
        before.move_succeeds(pill_move),
        before.move_target(pill_move).unwrap().lock_placements + 1 == MAX_LOCK_PLACEMENTS,
        moved.moved_by(&before, pill_move),
        delta > 0,
        after.stepped_from(&moved, delta),
    ensures
        moved.state == GameState::Lock(LOCK_DURATION),
        moved.bottle.pill.unwrap().lock_placements == MAX_LOCK_PLACEMENTS,
        moved.bottle.resting() ==> after.state is Pattern && after.bottle.pill is None
            && after.bottle.grid() == locked(
            moved.bottle.grid(),
            moved.bottle.pill.unwrap().vitamins,
        ),
        !moved.bottle.resting() ==> after.state == GameState::Fall(0),
{
}

/// Once its moves have run out, a capsule that rests takes no further move.
pub proof fn lemma_no_move_after_the_last(before: Game, after: Game, pill_move: PillMove)
    requires
        before.state is Lock,
        before.bottle.pill is Some,
        before.bottle.pill.unwrap().lock_placements >= MAX_LOCK_PLACEMENTS,
        after.moved_by(&before, pill_move),
    ensures
        after.bottle == before.bottle,
        after.events@ == before.events@,
        after.state is Lock,
{
}

/// A capsule that falls into a row below every row it has been in has
/// all its moves again, however many it had used in the row above: if it
/// then rests, it can still be moved for a while.
pub proof fn lemma_fall_renews_moves(before: Game, after: Game, delta: u64)
    requires
        before.wf(),
        before.state matches GameState::Fall(elapsed) && summed(elapsed, delta)
            >= before.step_delay_of(),
        !before.bottle.resting(),
        before.bottle.pill.unwrap().lowest_row == before.bottle.pill.unwrap().position.y,
        delta > 0,
        after.stepped_from(&before, delta),
    ensures
        after.bottle.pill == Some(before.bottle.pill.unwrap().moved(0, 1)),
        after.bottle.pill.unwrap().lock_placements == 0,
        after.bottle.pill.unwrap().lowest_row == after.bottle.pill.unwrap().position.y,
        after.state == if after.bottle.resting() {
            GameState::Lock(0)
        } else {
            GameState::Fall(0)
        },
{
}

} // verus!
