//! Where the viruses start and which capsules come: both are drawn from a
//! seeded generator, so that a seed gives the same game again.

use crate::block::Block;
use crate::geometry::BottlePoint;
use crate::grid::{cell_index, in_bounds, point_in_bounds, point_index};
use crate::pill::{PillShape, VirusColor};
use crate::rng::{choose_all, gen_below, random_seed, rng_from_seed, rng_from_u64, shuffle};
use rand_chacha::ChaCha20Rng;
use std::collections::VecDeque;
use vstd::prelude::*;

verus! {

/// How many upcoming capsules a player is shown.
pub const PEEK_SIZE: usize = 5;

/// How many layouts are tried before seeding gives up.
pub const MAX_BOTTLE_SEED_ATTEMPTS: usize = 100_000;

pub const MAX_VIRUSES: u32 = 99;

/// How the next capsule is chosen.
#[derive(Clone, Copy, Debug, PartialEq, Eq, Structural)]
pub enum RandomMode {
    /// All nine shapes go into a bag in a random order and are drawn until
    /// the bag is empty; then a new bag is made.
    Bag,
    /// Every capsule is drawn on its own.
    True,
}

impl Default for RandomMode {
    fn default() -> (mode: Self)
        ensures
            mode == RandomMode::Bag,
    {
        RandomMode::Bag
    }
}

impl RandomMode {
    pub fn names() -> (names: Vec<&'static str>)
        ensures
            names@.len() == 2,
            names@[0]@ == "bag"@,
            names@[1]@ == "true"@,
    {
        vec!["bag", "true"]
    }
}

/// One generator for each player, all started from the same fresh seed, so
/// that every player is dealt the same viruses and the same capsules.
pub fn random(count: usize, mode: RandomMode) -> (randoms: Vec<GameRandom>)
    ensures
        randoms@.len() == count,
        forall|i: int| 0 <= i < count ==> (#[trigger] randoms@[i]).wf() && randoms@[i].mode == mode,
{
    let seed = random_seed();
    let mut randoms: Vec<GameRandom> = Vec::new();
    let mut i: usize = 0;
    while i < count
        invariant
            i <= count,
            randoms@.len() == i,
            forall|j: int| 0 <= j < i ==> (#[trigger] randoms@[j]).wf() && randoms@[j].mode == mode,
        decreases count - i,
    {
        randoms.push(GameRandom::from_seed(seed, mode));
        i = i + 1;
    }
    randoms
}

/// The colors among the first `n` cells that hold one.
pub open spec fn count_some(colors: Seq<Option<VirusColor>>, n: int) -> int
    decreases n,
{
    if n <= 0 {
        0
    } else {
        count_some(colors, n - 1) + if colors[n - 1] is Some {
            1int
        } else {
            0int
        }
    }
}

/// The color of a cell of a layout; outside the grid there is none.
pub open spec fn color_in(colors: Seq<Option<VirusColor>>, x: int, y: int) -> Option<VirusColor> {
    if in_bounds(x, y) {
        colors[cell_index(x, y)]
    } else {
        None
    }
}

/// A virus of color `c` may be put at a cell: it would not stand between
/// two viruses of its color, and no virus of its color stands two cells
/// away in its row or in its column.
pub open spec fn legal(colors: Seq<Option<VirusColor>>, x: int, y: int, c: VirusColor) -> bool {
    &&& !(color_in(colors, x - 1, y) == Some(c) && color_in(colors, x + 1, y) == Some(c))
    &&& !(color_in(colors, x, y - 1) == Some(c) && color_in(colors, x, y + 1) == Some(c))
    &&& color_in(colors, x, y - 2) != Some(c)
    &&& color_in(colors, x + 2, y) != Some(c)
    &&& color_in(colors, x, y + 2) != Some(c)
    &&& color_in(colors, x - 2, y) != Some(c)
}

/// No two viruses of one color stand two cells apart in a row or a column.
#[verifier::opaque]
pub open spec fn no_gap_pairs(colors: Seq<Option<VirusColor>>) -> bool {
    forall|x: int, y: int|
        in_bounds(x, y) && (#[trigger] color_in(colors, x, y)) is Some ==> {
            &&& color_in(colors, x + 2, y) != color_in(colors, x, y)
            &&& color_in(colors, x, y + 2) != color_in(colors, x, y)
        }
}

/// No three viruses of one color stand side by side in a row or one above
/// the other in a column.
#[verifier::opaque]
pub open spec fn no_triples(colors: Seq<Option<VirusColor>>) -> bool {
    forall|x: int, y: int|
        in_bounds(x, y) && (#[trigger] color_in(colors, x, y)) is Some ==> {
            &&& !(color_in(colors, x + 1, y) == color_in(colors, x, y) && color_in(colors, x + 2, y)
                == color_in(colors, x, y))
            &&& !(color_in(colors, x, y + 1) == color_in(colors, x, y) && color_in(colors, x, y + 2)
                == color_in(colors, x, y))
        }
}

/// The first color that may be put at a cell, trying the colors in their
/// cycle from the one that the placement's number gives.
pub open spec fn pick(colors: Seq<Option<VirusColor>>, x: int, y: int, i: int) -> Option<
    VirusColor,
> {
    if legal(colors, x, y, VirusColor::at(i)) {
        Some(VirusColor::at(i))
    } else if legal(colors, x, y, VirusColor::at(i + 1)) {
        Some(VirusColor::at(i + 1))
    } else if legal(colors, x, y, VirusColor::at(i + 2)) {
        Some(VirusColor::at(i + 2))
    } else {
        None
    }
}

/// How many viruses a level starts with.
pub open spec fn virus_target(virus_level: u32) -> int {
    if 4 * virus_level + 4 < 99 {
        4 * virus_level + 4
    } else {
        99
    }
}

/// The topmost row in which a level puts viruses.
pub open spec fn top_virus_row(virus_level: u32) -> int {
    if virus_level <= 14 {
        6
    } else if virus_level <= 16 {
        5
    } else if virus_level <= 18 {
        4
    } else {
        3
    }
}

/// The cells in which a level may put viruses, row by row.
pub open spec fn eligible_cells(virus_level: u32) -> Seq<BottlePoint> {
    Seq::new(
        ((16 - top_virus_row(virus_level)) * 8) as nat,
        |i: int| BottlePoint { x: (i % 8) as i32, y: (top_virus_row(virus_level) + i / 8) as i32 },
    )
}

/// The layout that comes of visiting cells from the end of `order` until
/// `target` viruses stand, of which `placed` stand already. A cell that
/// can take no color is passed over. Any other cell gets a virus: the
/// placement's number is the number of viruses that stand before it, and
/// the color is the first that may be put there, trying the colors in
/// their cycle from the one that this number gives. There is no layout if
/// the cells run out before the viruses are complete.
pub open spec fn fill(
    colors: Seq<Option<VirusColor>>,
    order: Seq<BottlePoint>,
    placed: int,
    target: int,
) -> Option<Seq<Option<VirusColor>>>
    decreases order.len(),
{
    if placed >= target {
        Some(colors)
    } else if order.len() == 0 {
        None
    } else {
        let p = order.last();
        match pick(colors, p.x as int, p.y as int, placed) {
            Some(c) => fill(
                colors.update(point_index(p), Some(c)),
                order.drop_last(),
                placed + 1,
                target,
            ),
            None => fill(colors, order.drop_last(), placed, target),
        }
    }
}

/// Every virus of the layout stands in one of the cells.
pub open spec fn within(colors: Seq<Option<VirusColor>>, cells: Seq<BottlePoint>) -> bool {
    forall|i: int|
        0 <= i < 128 && (#[trigger] colors[i]) is Some ==> exists|j: int|
            0 <= j < cells.len() && point_index(#[trigger] cells[j]) == i
}

/// No virus of the layout stands above row `top`.
pub open spec fn below_row(colors: Seq<Option<VirusColor>>, top: int) -> bool {
    forall|i: int| 0 <= i < 128 && (#[trigger] colors[i]) is Some ==> i >= 8 * top
}

/// There is an order of the level's cells that gives no layout.
pub open spec fn some_order_fails(virus_level: u32) -> bool {
    exists|order: Seq<BottlePoint>|
        order.to_multiset() == eligible_cells(virus_level).to_multiset() && seeded(
            virus_level,
            order,
        ) is None
}

/// The layout of a level for the cells in the order given, if there is one.
pub open spec fn seeded(virus_level: u32, order: Seq<BottlePoint>) -> Option<Seq<Option<VirusColor>>> {
    fill(Seq::new(128, |i: int| None::<VirusColor>), order, 0, virus_target(virus_level))
}

/// The colors that may be put at a cell.
#[derive(Clone, Copy, Debug, PartialEq, Eq, Structural)]
pub struct AvailableColors {
    pub yellow: bool,
    pub blue: bool,
    pub red: bool,
}

impl AvailableColors {
    pub open spec fn has(self, color: VirusColor) -> bool {
        match color {
            VirusColor::Yellow => self.yellow,
            VirusColor::Blue => self.blue,
            VirusColor::Red => self.red,
        }
    }

    pub fn all() -> (colors: Self)
        ensures
            forall|c: VirusColor| colors.has(c),
    {
        Self { yellow: true, blue: true, red: true }
    }

    pub fn contains(&self, color: &VirusColor) -> (b: bool)
        ensures
            b == self.has(*color),
    {
        match color {
            VirusColor::Yellow => self.yellow,
            VirusColor::Blue => self.blue,
            VirusColor::Red => self.red,
        }
    }

    pub fn is_empty(&self) -> (b: bool)
        ensures
            b <==> forall|c: VirusColor| !self.has(c),
    {
        let b = !self.yellow && !self.blue && !self.red;
        proof {
            if b {
                assert forall|c: VirusColor| !self.has(c) by {}
            } else {
                assert(self.has(VirusColor::Yellow) || self.has(VirusColor::Blue) || self.has(
                    VirusColor::Red,
                ));
            }
        }
        b
    }

    pub fn remove(&mut self, color: &VirusColor)
        ensures
            forall|c: VirusColor| final(self).has(c) == (old(self).has(c) && c != *color),
    {
        match color {
            VirusColor::Yellow => {
                self.yellow = false;
            },
            VirusColor::Blue => {
                self.blue = false;
            },
            VirusColor::Red => {
                self.red = false;
            },
        }
    }
}

/// Where the viruses of a level start.
#[derive(Copy, Clone, Debug, PartialEq, Eq)]
pub struct BottleSeed {
    pub viruses: [Option<VirusColor>; 128],
    pub count: u32,
}

impl BottleSeed {
    /// The count is the number of viruses in the layout.
    pub open spec fn wf(self) -> bool {
        self.count == count_some(self.viruses@, 128)
    }

    /// The layout keeps both placement rules.
    pub open spec fn rules_hold(self) -> bool {
        no_gap_pairs(self.viruses@) && no_triples(self.viruses@)
    }

    /// The grid that a bottle starts with: a virus wherever the layout has one.
    pub open spec fn blocks(self) -> Seq<Block> {
        Seq::new(
            128,
            |i: int|
                match self.viruses[i] {
                    Some(color) => Block::Virus(color),
                    None => Block::Empty,
                },
        )
    }

    pub fn new() -> (seed: Self)
        ensures
            seed.viruses@ == Seq::new(128, |i: int| None::<VirusColor>),
            seed.count == 0,
            seed.wf(),
            seed.rules_hold(),
    {
        let seed = Self { viruses: [None; 128], count: 0 };
        proof {
            reveal(no_gap_pairs);
            reveal(no_triples);
            assert(seed.viruses@ =~= Seq::new(128, |i: int| None::<VirusColor>));
            lemma_count_none(seed.viruses@, 128);
        }
        seed
    }

    pub fn into_blocks(self) -> (blocks: [Block; 128])
        ensures
            blocks@ == self.blocks(),
    {
        let mut blocks = [Block::Empty; 128];
        let mut i: usize = 0;
        while i < 128
            invariant
                i <= 128,
                forall|j: int| 0 <= j < i ==> #[trigger] blocks@[j] == self.blocks()[j],
            decreases 128 - i,
        {
            let ghost before = blocks@;
            match self.viruses[i] {
                Some(color) => {
                    blocks[i] = Block::Virus(color);
                    assert(blocks@ =~= before.update(i as int, Block::Virus(color)));
                },
                None => {
                    blocks[i] = Block::Empty;
                    assert(blocks@ =~= before.update(i as int, Block::Empty));
                },
            }
            i = i + 1;
        }
        assert(blocks@ =~= self.blocks());
        blocks
    }

    pub fn count(&self) -> (count: u32)
        ensures
            count == self.count,
    {
        self.count
    }

    /// The color of the virus at a cell, if there is one.
    pub fn get(&self, x: i32, y: i32) -> (color: Option<VirusColor>)
        ensures
            color == color_in(self.viruses@, x as int, y as int),
    {
        if x >= 0 && x < 8 && y >= 0 && y < 16 {
            self.viruses[BottleSeed::index(x, y)]
        } else {
            None
        }
    }

    /// The colors that a virus at the cell may have.
    pub fn get_available_colors(&self, x: i32, y: i32) -> (colors: AvailableColors)
        requires
            i32::MIN + 2 <= x <= i32::MAX - 2,
            i32::MIN + 2 <= y <= i32::MAX - 2,
        ensures
            forall|c: VirusColor| colors.has(c) == legal(self.viruses@, x as int, y as int, c),
    {
        let mut colors = AvailableColors::all();
        if let Some(color) = self.get(x - 1, y) {
            if let Some(other) = self.get(x + 1, y) {
                if other == color {
                    colors.remove(&color);
                }
            }
        }
        if let Some(color) = self.get(x, y - 1) {
            if let Some(other) = self.get(x, y + 1) {
                if other == color {
                    colors.remove(&color);
                }
            }
        }
        if let Some(color) = self.get(x, y - 2) {
            colors.remove(&color);
        }
        if let Some(color) = self.get(x + 2, y) {
            colors.remove(&color);
        }
        if let Some(color) = self.get(x, y + 2) {
            colors.remove(&color);
        }
        if let Some(color) = self.get(x - 2, y) {
            colors.remove(&color);
        }
        colors
    }

    /// Puts a virus at a cell that has none.
    pub fn set(&mut self, x: i32, y: i32, color: VirusColor)
        requires
            in_bounds(x as int, y as int),
            old(self).viruses[cell_index(x as int, y as int)] is None,
            old(self).wf(),
        ensures
            final(self).viruses@ == old(self).viruses@.update(
                cell_index(x as int, y as int),
                Some(color),
            ),
            final(self).count == old(self).count + 1,
            final(self).wf(),
            old(self).rules_hold() && legal(old(self).viruses@, x as int, y as int, color)
                ==> final(self).rules_hold(),
    {
        let index = BottleSeed::index(x, y);
        proof {
            lemma_count_put(self.viruses@, index as int, color, 128);
            lemma_count_bound(self.viruses@, 128);
            lemma_put_keeps_rules(self.viruses@, x as int, y as int, color);
        }
        self.count = self.count + 1;
        self.viruses[index] = Some(color);
        assert(self.viruses@ =~= old(self).viruses@.update(index as int, Some(color)));
    }

    pub fn index(x: i32, y: i32) -> (i: usize)
        requires
            in_bounds(x as int, y as int),
        ensures
            i == cell_index(x as int, y as int),
            i < 128,
    {
        (y * 8 + x) as usize
    }

    /// Fills a layout for a level by visiting cells from the end of `order`
    /// until the level's number of viruses stands. A cell that can take no
    /// color is passed over. Any other cell gets the first color that the
    /// rules allow, trying the colors in their cycle from the one that the
    /// number of viruses placed so far gives. The attempt has failed if
    /// the cells run out before the viruses are complete.
    pub fn from_order(virus_level: u32, order: Vec<BottlePoint>) -> (seed: Option<BottleSeed>)
        requires
            order@.no_duplicates(),
            forall|j: int| 0 <= j < order@.len() ==> point_in_bounds(#[trigger] order@[j]),
        ensures
            match seed {
                Some(seed) => {
                    &&& seeded(virus_level, order@) == Some(seed.viruses@)
                    &&& seed.wf()
                    &&& seed.count == virus_target(virus_level)
                    &&& seed.rules_hold()
                    &&& within(seed.viruses@, order@)
                },
                None => seeded(virus_level, order@) is None,
            },
    {
        let mut cells = order;
        let ghost given = order@;
        let mut bottle = BottleSeed::new();
        let target: u32 = if virus_level >= 24 {
            MAX_VIRUSES
        } else {
            virus_level * 4 + 4
        };
        while bottle.count < target
            invariant
                bottle.count <= target,
                target == virus_target(virus_level),
                target <= 99,
                given == order@,
                cells@.len() <= given.len(),
                cells@ == given.take(cells@.len() as int),
                within(bottle.viruses@, given),
                cells@.no_duplicates(),
                forall|j: int| 0 <= j < cells@.len() ==> point_in_bounds(#[trigger] cells@[j]),
                forall|j: int|
                    0 <= j < cells@.len() ==> bottle.viruses[point_index(#[trigger] cells@[j])]
                        is None,
                bottle.wf(),
                bottle.rules_hold(),
                seeded(virus_level, given) == fill(
                    bottle.viruses@,
                    cells@,
                    bottle.count as int,
                    target as int,
                ),
            decreases cells@.len(),
        {
            let ghost before = cells@;
            let placed = bottle.count;
            let point = match cells.pop() {
                Some(point) => point,
                None => {
                    return None;
                },
            };
            assert(cells@ =~= before.drop_last());
            assert(cells@ =~= given.take(cells@.len() as int));
            assert(point == before.last());
            assert(forall|j: int| 0 <= j < cells@.len() ==> cells@[j] == before[j]);
            let available_colors = bottle.get_available_colors(point.x(), point.y());
            if available_colors.is_empty() {
                proof {
                    assert(!available_colors.has(VirusColor::at(placed as int)));
                    assert(!available_colors.has(VirusColor::at(placed + 1)));
                    assert(!available_colors.has(VirusColor::at(placed + 2)));
                    assert(pick(bottle.viruses@, point.x as int, point.y as int, placed as int)
                        is None);
                }
            } else {
                let mut color = match placed % 3 {
                    0 => VirusColor::Yellow,
                    1 => VirusColor::Blue,
                    _ => VirusColor::Red,
                };
                let mut tried: u32 = 0;
                while !available_colors.contains(&color)
                    invariant
                        tried <= 2,
                        color == VirusColor::at(placed + tried),
                        exists|c: VirusColor| available_colors.has(c),
                        tried >= 1 ==> !available_colors.has(VirusColor::at(placed as int)),
                        tried >= 2 ==> !available_colors.has(VirusColor::at(placed + 1)),
                    decreases 2 - tried,
                {
                    proof {
                        if tried == 2 {
                            let c = choose|c: VirusColor| available_colors.has(c);
                            assert(c == VirusColor::at(placed as int) || c == VirusColor::at(
                                placed + 1,
                            ) || c == VirusColor::at(placed + 2));
                        }
                    }
                    color = color.next();
                    tried = tried + 1;
                }
                proof {
                    assert(pick(bottle.viruses@, point.x as int, point.y as int, placed as int)
                        == Some(color));
                }
                let ghost filled = bottle.viruses@;
                bottle.set(point.x(), point.y(), color);
                proof {
                    assert(point == given[cells@.len() as int]);
                    assert forall|k: int| 0 <= k < 128 && (#[trigger] bottle.viruses@[k])
                        is Some implies exists|j: int|
                        0 <= j < given.len() && point_index(#[trigger] given[j]) == k by {
                        if k != point_index(point) {
                            assert(filled[k] is Some);
                        }
                    }
                }
            }
        }
        Some(bottle)
    }
}

/// A layout without viruses counts none.
pub proof fn lemma_count_none(colors: Seq<Option<VirusColor>>, n: int)
    requires
        forall|i: int| 0 <= i < n ==> colors[i] is None,
    ensures
        count_some(colors, n) == 0,
    decreases n,
{
    if n > 0 {
        lemma_count_none(colors, n - 1);
    }
}

/// No more viruses are counted than cells are looked at.
pub proof fn lemma_count_bound(colors: Seq<Option<VirusColor>>, n: int)
    ensures
        0 <= count_some(colors, n),
        count_some(colors, n) <= n || n < 0,
    decreases n,
{
    if n > 0 {
        lemma_count_bound(colors, n - 1);
    }
}

/// A virus put where there was none is one virus more.
pub proof fn lemma_count_put(colors: Seq<Option<VirusColor>>, at: int, color: VirusColor, n: int)
    requires
        0 <= at < colors.len(),
        0 <= n <= colors.len(),
        colors[at] is None,
    ensures
        count_some(colors.update(at, Some(color)), n) == count_some(colors, n) + if at < n {
            1int
        } else {
            0int
        },
    decreases n,
{
    if n > 0 {
        lemma_count_put(colors, at, color, n - 1);
    }
}

/// A virus put where the rules allow its color leaves a layout that keeps
/// both rules, if the layout kept them before.
pub proof fn lemma_put_keeps_rules(colors: Seq<Option<VirusColor>>, x: int, y: int, color: VirusColor)
    requires
        colors.len() == 128,
        in_bounds(x, y),
    ensures
        no_gap_pairs(colors) && no_triples(colors) && legal(colors, x, y, color) ==> {
            let after = colors.update(cell_index(x, y), Some(color));
            no_gap_pairs(after) && no_triples(after)
        },
{
    reveal(no_gap_pairs);
    reveal(no_triples);
    let after = colors.update(cell_index(x, y), Some(color));
    if no_gap_pairs(colors) && no_triples(colors) && legal(colors, x, y, color) {
        assert forall|a: int, b: int|
            in_bounds(a, b) && (#[trigger] color_in(after, a, b)) is Some implies {
            &&& color_in(after, a + 2, b) != color_in(after, a, b)
            &&& color_in(after, a, b + 2) != color_in(after, a, b)
        } by {
            if !(a == x && b == y) {
                assert(color_in(colors, a, b) is Some);
            }
        }
        assert forall|a: int, b: int|
            in_bounds(a, b) && (#[trigger] color_in(after, a, b)) is Some implies {
            &&& !(color_in(after, a + 1, b) == color_in(after, a, b) && color_in(after, a + 2, b)
                == color_in(after, a, b))
            &&& !(color_in(after, a, b + 1) == color_in(after, a, b) && color_in(after, a, b + 2)
                == color_in(after, a, b))
        } by {}
    }
}

/// The supply of capsules of one player, and the source of that player's
/// virus layouts.
pub struct GameRandom {
    pub mode: RandomMode,
    pub pill_rng: ChaCha20Rng,
    pub queue: VecDeque<PillShape>,
}

/// A whole bag: every shape once, in some order.
pub open spec fn is_bag(shapes: Seq<PillShape>) -> bool {
    shapes.to_multiset() == PillShape::all_shapes().to_multiset()
}

/// Draws one color: a number below the number of colors is drawn, and the
/// color is the one that the conversion from numbers gives for it. Which
/// number comes is the generator's to decide, so any color may come.
fn random_color(rng: &mut ChaCha20Rng) -> (color: VirusColor) {
    let n = gen_below(rng, VirusColor::N);
    VirusColor::try_from(n).unwrap()
}

/// Draws one shape: its left color first, then its right color. Both are
/// the generator's to decide, so any shape may come.
fn random_shape(rng: &mut ChaCha20Rng) -> (shape: PillShape) {
    let left = random_color(rng);
    let right = random_color(rng);
    PillShape::new(left, right)
}

impl GameRandom {
    /// Enough capsules are waiting to show the player the next five: just
    /// those five where each is drawn on its own, and at least one more
    /// where they come from bags.
    pub open spec fn wf(&self) -> bool {
        match self.mode {
            RandomMode::True => self.queue@.len() == 5,
            RandomMode::Bag => 5 < self.queue@.len() <= 14,
        }
    }

    /// This supply is what `before` becomes when the capsule that is first
    /// in line is handed out. Where each capsule is drawn on its own, one
    /// is drawn and joins the end of the line; where they come from bags, a
    /// whole new bag joins the end of the line as soon as no more than five
    /// are waiting.
    pub open spec fn drew_from(&self, before: &GameRandom) -> bool {
        &&& self.wf()
        &&& self.mode == before.mode
        &&& match before.mode {
            RandomMode::True => self.queue@.take(4) == before.queue@.skip(1),
            RandomMode::Bag => if before.queue@.len() > 6 {
                self.queue@ == before.queue@.skip(1)
            } else {
                exists|bag: Seq<PillShape>|
                    is_bag(bag) && self.queue@ == before.queue@.skip(1) + bag
            },
        }
    }

    /// A supply whose capsules and layouts follow from 32 seed bytes.
    pub fn from_seed(seed: [u8; 32], mode: RandomMode) -> (random: Self)
        ensures
            random.wf(),
            random.mode == mode,
            mode == RandomMode::Bag ==> is_bag(random.queue@),
    {
        Self::new(rng_from_seed(seed), mode)
    }

    /// A supply whose capsules and layouts follow from one number.
    pub fn from_u64_seed(seed: u64, mode: RandomMode) -> (random: Self)
        ensures
            random.wf(),
            random.mode == mode,
            mode == RandomMode::Bag ==> is_bag(random.queue@),
    {
        Self::new(rng_from_u64(seed), mode)
    }

    /// A supply that draws from the generator given, with its first capsules waiting.
    pub fn new(rng: ChaCha20Rng, mode: RandomMode) -> (random: Self)
        ensures
            random.wf(),
            random.mode == mode,
            mode == RandomMode::Bag ==> is_bag(random.queue@),
    {
        let mut pill_rng = rng;
        let mut queue: VecDeque<PillShape> = VecDeque::new();
        match mode {
            RandomMode::True => {
                let mut i: usize = 0;
                while i < PEEK_SIZE
                    invariant
                        i <= PEEK_SIZE,
                        queue@.len() == i,
                    decreases PEEK_SIZE - i,
                {
                    queue.push_back(random_shape(&mut pill_rng));
                    i = i + 1;
                }
            },
            RandomMode::Bag => {
                fill_bag(&mut queue, &mut pill_rng);
                proof {
                    let bag = choose|bag: Seq<PillShape>|
                        is_bag(bag) && bag.len() == 9 && queue@ == Seq::<PillShape>::empty() + bag;
                    assert(queue@ =~= bag);
                }
            },
        }
        Self { mode, pill_rng, queue }
    }

    /// Makes bags until more capsules are waiting than the player is shown.
    fn assert_bags(&mut self)
        requires
            old(self).queue@.len() >= 5,
        ensures
            final(self).mode == old(self).mode,
            old(self).queue@.len() > 5 ==> final(self).queue@ == old(self).queue@,
            old(self).queue@.len() == 5 ==> exists|bag: Seq<PillShape>|
                is_bag(bag) && final(self).queue@ == old(self).queue@ + bag,
    {
        while self.queue.len() <= PEEK_SIZE
            invariant
                self.mode == old(self).mode,
                self.queue@.len() >= 5,
                self.queue@ == old(self).queue@ || (old(self).queue@.len() == 5 && self.queue@.len()
                    == 14 && exists|bag: Seq<PillShape>|
                    is_bag(bag) && self.queue@ == old(self).queue@ + bag),
            decreases 14 - self.queue@.len(),
        {
            fill_bag(&mut self.queue, &mut self.pill_rng);
        }
    }

    /// The next five capsules.
    pub fn peek(&self) -> (shapes: [PillShape; 5])
        requires
            self.wf(),
        ensures
            shapes@ == self.queue@.take(5),
    {
        let shapes = [self.queue[0], self.queue[1], self.queue[2], self.queue[3], self.queue[4]];
        assert(shapes@ =~= self.queue@.take(5));
        shapes
    }

    /// Hands out the capsule that is first in line. Where each capsule is
    /// drawn on its own, one is drawn and joins the end of the line; where
    /// they come from bags, a whole new bag joins the end of the line as
    /// soon as no more than five are waiting.
    pub fn next_pill(&mut self) -> (shape: PillShape)
        requires
            old(self).wf(),
        ensures
            shape == old(self).queue@[0],
            final(self).drew_from(old(self)),
    {
        match self.mode {
            RandomMode::True => self.next_true(),
            RandomMode::Bag => self.next_bag(),
        }
    }

    fn next_true(&mut self) -> (shape: PillShape)
        requires
            old(self).queue@.len() == 5,
        ensures
            shape == old(self).queue@[0],
            final(self).mode == old(self).mode,
            final(self).queue@.len() == 5,
            final(self).queue@.take(4) == old(self).queue@.skip(1),
    {
        self.queue.push_back(random_shape(&mut self.pill_rng));
        let shape = self.queue.pop_front().unwrap();
        assert(self.queue@.take(4) =~= old(self).queue@.skip(1));
        shape
    }

    fn next_bag(&mut self) -> (shape: PillShape)
        requires
            5 < old(self).queue@.len() <= 14,
        ensures
            shape == old(self).queue@[0],
            final(self).mode == old(self).mode,
            5 < final(self).queue@.len() <= 14,
            if old(self).queue@.len() > 6 {
                final(self).queue@ == old(self).queue@.skip(1)
            } else {
                exists|bag: Seq<PillShape>|
                    is_bag(bag) && final(self).queue@ == old(self).queue@.skip(1) + bag
            },
    {
        let result = self.queue.pop_front().unwrap();
        assert(self.queue@ =~= old(self).queue@.skip(1));
        self.assert_bags();
        proof {
            if old(self).queue@.len() == 6 {
                let bag = choose|bag: Seq<PillShape>|
                    is_bag(bag) && self.queue@ == old(self).queue@.skip(1) + bag;
                lemma_bag_len(bag);
            }
        }
        result
    }

    /// Looks for a layout of viruses for a level, with a fresh random order
    /// of the cells for every attempt, and gives up after a hundred thousand
    /// attempts, each of which has then met an order that gives no layout.
    pub fn bottle_seed(&mut self, virus_level: u32) -> (seed: Result<BottleSeed, String>)
        ensures
            final(self).mode == old(self).mode,
            final(self).queue == old(self).queue,
            match seed {
                Ok(seed) => {
                    &&& seed.wf()
                    &&& seed.count == virus_target(virus_level)
                    &&& seed.rules_hold()
                    &&& below_row(seed.viruses@, top_virus_row(virus_level))
                    &&& exists|order: Seq<BottlePoint>|
                        order.to_multiset() == eligible_cells(virus_level).to_multiset() && seeded(
                            virus_level,
                            order,
                        ) == Some(seed.viruses@)
                },
                Err(message) => {
                    &&& message@ == "failed to generate valid bottle after 100000 attempts"@
                    &&& some_order_fails(virus_level)
                },
            },
    {
        let mut attempt: usize = 0;
        while attempt < MAX_BOTTLE_SEED_ATTEMPTS
            invariant
                attempt <= MAX_BOTTLE_SEED_ATTEMPTS,
                self.mode == old(self).mode,
                self.queue == old(self).queue,
                attempt > 0 ==> some_order_fails(virus_level),
            decreases MAX_BOTTLE_SEED_ATTEMPTS - attempt,
        {
            if let Some(seed) = self.try_bottle_seed(virus_level) {
                return Ok(seed);
            }
            attempt = attempt + 1;
        }
        Err("failed to generate valid bottle after 100000 attempts".to_string())
    }

    /// One attempt at a layout: the cells of the level's rows in a random
    /// order, filled one by one.
    fn try_bottle_seed(&mut self, virus_level: u32) -> (seed: Option<BottleSeed>)
        ensures
            final(self).mode == old(self).mode,
            final(self).queue == old(self).queue,
            exists|order: Seq<BottlePoint>|
                order.to_multiset() == eligible_cells(virus_level).to_multiset() && match seed {
                    Some(seed) => seeded(virus_level, order) == Some(seed.viruses@),
                    None => seeded(virus_level, order) is None,
                },
            seed matches Some(seed) ==> {
                &&& seed.wf()
                &&& seed.count == virus_target(virus_level)
                &&& seed.rules_hold()
                &&& below_row(seed.viruses@, top_virus_row(virus_level))
            },
    {
        let max_virus_row: u32 = if virus_level <= 14 {
            6
        } else if virus_level <= 16 {
            5
        } else if virus_level <= 18 {
            4
        } else {
            3
        };
        let mut available: Vec<BottlePoint> = Vec::new();
        let mut y: u32 = max_virus_row;
        while y < 16
            invariant
                max_virus_row == top_virus_row(virus_level),
                max_virus_row <= y <= 16,
                available@ == eligible_cells(virus_level).take((y - max_virus_row) * 8),
            decreases 16 - y,
        {
            let mut x: u32 = 0;
            while x < 8
                invariant
                    max_virus_row == top_virus_row(virus_level),
                    max_virus_row <= y < 16,
                    x <= 8,
                    available@ == eligible_cells(virus_level).take((y - max_virus_row) * 8 + x),
                decreases 8 - x,
            {
                available.push(BottlePoint { x: x as i32, y: y as i32 });
                assert(available@ =~= eligible_cells(virus_level).take(
                    (y - max_virus_row) * 8 + x + 1,
                ));
                x = x + 1;
            }
            y = y + 1;
        }
        assert(available@ =~= eligible_cells(virus_level));
        shuffle(&mut available, &mut self.pill_rng);
        proof {
            lemma_shuffled_cells(virus_level, available@);
        }
        let ghost order = available@;
        let seed = BottleSeed::from_order(virus_level, available);
        proof {
            if let Some(found) = seed {
                assert forall|i: int| 0 <= i < 128 && (#[trigger] found.viruses@[i])
                    is Some implies i >= 8 * top_virus_row(virus_level) by {
                    let j = choose|j: int| 0 <= j < order.len() && point_index(#[trigger] order[j]) == i;
                    lemma_shuffled_rows(virus_level, order, j);
                }
            }
        }
        seed
    }
}

/// Puts a whole new bag at the end of the line.
fn fill_bag(queue: &mut VecDeque<PillShape>, rng: &mut ChaCha20Rng)
    ensures
        exists|bag: Seq<PillShape>|
            is_bag(bag) && bag.len() == 9 && final(queue)@ == old(queue)@ + bag,
{
    let shapes = choose_all(&PillShape::all(), rng);
    proof {
        lemma_bag_len(shapes@);
    }
    let mut i: usize = 0;
    while i < shapes.len()
        invariant
            i <= shapes.len(),
            queue@ == old(queue)@ + shapes@.take(i as int),
        decreases shapes.len() - i,
    {
        queue.push_back(shapes[i]);
        assert(queue@ =~= old(queue)@ + shapes@.take(i + 1));
        i = i + 1;
    }
    assert(shapes@.take(shapes@.len() as int) =~= shapes@);
    assert(is_bag(shapes@) && shapes@.len() == 9 && queue@ == old(queue)@ + shapes@);
}

/// A bag holds nine capsules.
pub proof fn lemma_bag_len(bag: Seq<PillShape>)
    requires
        is_bag(bag),
    ensures
        bag.len() == 9,
{
    broadcast use vstd::seq_lib::to_multiset_len;

    assert(bag.to_multiset().len() == bag.len());
    assert(PillShape::all_shapes().to_multiset().len() == PillShape::all_shapes().len());
}

/// However the cells of a level are rearranged, none lies above the
/// level's topmost row.
pub proof fn lemma_shuffled_rows(virus_level: u32, order: Seq<BottlePoint>, j: int)
    requires
        order.to_multiset() == eligible_cells(virus_level).to_multiset(),
        0 <= j < order.len(),
    ensures
        point_index(order[j]) >= 8 * top_virus_row(virus_level),
        point_in_bounds(order[j]),
{
    broadcast use vstd::seq_lib::to_multiset_contains;

    let cells = eligible_cells(virus_level);
    assert(order.contains(order[j]));
    assert(order.to_multiset().count(order[j]) > 0);
    assert(cells.contains(order[j]));
    let k = choose|k: int| 0 <= k < cells.len() && cells[k] == order[j];
    assert(point_in_bounds(cells[k]));
}

/// However the cells of a level are rearranged, each is in the grid and
/// none comes twice.
pub proof fn lemma_shuffled_cells(virus_level: u32, order: Seq<BottlePoint>)
    requires
        order.to_multiset() == eligible_cells(virus_level).to_multiset(),
    ensures
        order.no_duplicates(),
        forall|j: int| 0 <= j < order.len() ==> point_in_bounds(#[trigger] order[j]),
{
    broadcast use vstd::seq_lib::to_multiset_contains;

    let cells = eligible_cells(virus_level);
    assert(cells.no_duplicates()) by {
        assert forall|i: int, j: int| 0 <= i < cells.len() && 0 <= j < cells.len() && i != j implies cells[i]
            != cells[j] by {}
    }
    cells.lemma_multiset_has_no_duplicates();
    order.lemma_multiset_has_no_duplicates_conv();
    assert forall|j: int| 0 <= j < order.len() implies point_in_bounds(#[trigger] order[j]) by {
        assert(order.contains(order[j]));
        assert(order.to_multiset().count(order[j]) > 0);
        assert(cells.contains(order[j]));
        let k = choose|k: int| 0 <= k < cells.len() && cells[k] == order[j];
        assert(point_in_bounds(cells[k]));
    }
}

/// What the two rules of a layout say of a virus: neither two cells to its
/// right nor two cells below it stands a virus of its color, and it is not
/// the first of three of its color side by side or one above the other.
pub proof fn lemma_rules(colors: Seq<Option<VirusColor>>, x: int, y: int)
    requires
        no_gap_pairs(colors),
        no_triples(colors),
        in_bounds(x, y),
        color_in(colors, x, y) is Some,
    ensures
        color_in(colors, x + 2, y) != color_in(colors, x, y),
        color_in(colors, x, y + 2) != color_in(colors, x, y),
        !(color_in(colors, x + 1, y) == color_in(colors, x, y) && color_in(colors, x + 2, y)
            == color_in(colors, x, y)),
        !(color_in(colors, x, y + 1) == color_in(colors, x, y) && color_in(colors, x, y + 2)
            == color_in(colors, x, y)),
{
    reveal(no_gap_pairs);
    reveal(no_triples);
}

} // verus!
