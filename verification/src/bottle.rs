//! The bottle: the grid of cells together with the capsule that is falling.

use crate::block::{Block, block_partner_offset};
use crate::event::ColoredBlock;
use crate::geometry::BottlePoint;
use crate::grid::{
    after_move, can_shift, cell_index, cleared, collides, destroyed, drop_rows, first_kick,
    free_at, garbage_at, garbage_count, halves_in_bounds, has_partner, keeps_content, kick_fits,
    landing_of, lemma_after_move_paired, lemma_after_move_shows, lemma_destroy_step,
    lemma_destroyed_no_new_virus, lemma_destroyed_paired, lemma_drop_rows,
    lemma_garbage_no_new_virus, lemma_ghost_beyond_capsule, lemma_ghost_cells, lemma_hold_paired,
    lemma_landed, lemma_listed_bounds, lemma_locked_fresh, lemma_locked_paired, lemma_lowered,
    lemma_no_new_trace, lemma_no_new_virus, lemma_only_halves_gone, lemma_only_halves_moved,
    lemma_only_halves_spawned, lemma_open_columns, lemma_quiet, lemma_rendered_idempotent,
    lemma_spawn_paired, lemma_unghosted, lemma_with_garbage, listed, locked, lowered, no_new_virus,
    only_halves, open_columns, paired, partner_index, placed, placed_where_free, point_at,
    point_in_bounds, point_index, previews, previews_beyond_capsule, rendered, shows, unghosted,
    virus_marks, viruses_of, vitamin_block, with_garbage,
};
use crate::pattern::{
    color_at, in_run, in_run_before, lemma_in_run_colored, lemma_run_len, line_colors, line_count,
    line_len, line_place, lines_colors, matched_marks, PatternMatchContext, run_colors, run_len,
};
use crate::pill::{Garbage, Pill, PillShape, VirusColor, Vitamin, Vitamins};
use crate::random::BottleSeed;
use crate::rng::{random_seed, rng_from_seed, shuffle};
use crate::settle::{
    any_falls, closed_group, count_true, falls, hangs, held, lemma_closed_falls, lemma_count_set,
    lemma_count_true, lemma_held_supported, lemma_queued_pop, lemma_queued_push,
    lemma_settled_no_new, lemma_settled_paired, lemma_supported_step, loose, queued, settled_once,
    supported,
};
use rand_chacha::ChaCha20Rng;
use std::ops::Range;
use vstd::prelude::*;

verus! {

/// The index at which the cell of column `x` and row `y` is kept.
pub fn index_at(x: u32, y: u32) -> (i: usize)
    requires
        x < 8,
        y < 16,
    ensures
        i == cell_index(x as int, y as int),
        i < 128,
{
    (y * 8 + x) as usize
}

/// The point whose cell is kept at an index.
pub fn index_to_point(index: usize) -> (p: BottlePoint)
    requires
        index < 128,
    ensures
        p == point_at(index as int),
        point_in_bounds(p),
        point_index(p) == index,
{
    BottlePoint { x: (index % 8) as i32, y: (index / 8) as i32 }
}

/// The index at which the cell of a point is kept.
pub fn index(point: BottlePoint) -> (i: usize)
    requires
        point_in_bounds(point),
    ensures
        i == point_index(point),
        i < 128,
{
    index_at(point.x as u32, point.y as u32)
}

/// The indices of one row.
pub fn row_range(y: u32) -> (r: Range<usize>)
    requires
        y < 16,
    ensures
        r.start == 8 * y,
        r.end == 8 * y + 8,
{
    (y as usize * 8)..(y as usize * 8 + 8)
}

/// The indices of the rows from `y_from` to `y_to`, both included.
pub fn rows_range(y_from: u32, y_to: u32) -> (r: Range<usize>)
    requires
        y_from <= y_to < 16,
    ensures
        r.start == 8 * y_from,
        r.end == 8 * y_to + 8,
{
    (y_from as usize * 8)..(y_to as usize * 8 + 8)
}

/// The colors that one player sends to another.
pub type SendGarbage = Vec<VirusColor>;

/// A grid of eight columns and sixteen rows, the capsule that is falling
/// in it, if one is, and the generator that decides where loose cells from
/// outside come down.
#[derive(Clone, Debug)]
pub struct Bottle {
    pub blocks: [Block; 128],
    pub pill: Option<Pill>,
    pub rng: ChaCha20Rng,
}

impl Bottle {
    /// The cells, row by row from the top.
    pub open spec fn grid(&self) -> Seq<Block> {
        self.blocks@
    }

    /// The halves of the falling capsule, if there is one.
    pub open spec fn halves(&self) -> Option<Vitamins> {
        match self.pill {
            Some(pill) => Some(pill.vitamins),
            None => None,
        }
    }

    /// The falling capsule, if there is one, is in one piece and inside the grid.
    pub open spec fn wf(&self) -> bool {
        self.pill matches Some(pill) ==> pill.wf() && halves_in_bounds(pill.vitamins)
    }

    /// The falling capsule can be seen in the grid: each of its halves is in
    /// its cell, so it overlaps nothing.
    pub open spec fn pill_shown(&self) -> bool {
        self.pill matches Some(pill) ==> shows(self.grid(), pill.vitamins)
    }

    /// Every locked half has its other half beside it.
    pub open spec fn stacks_paired(&self) -> bool {
        paired(self.grid())
    }

    /// Nothing in the bottle is out of place: the capsule overlaps nothing,
    /// no cell holds a half of a capsule that is not falling, and every
    /// locked half has its other half.
    pub open spec fn sound(&self) -> bool {
        &&& self.wf()
        &&& self.pill_shown()
        &&& only_halves(self.grid(), self.halves())
        &&& self.stacks_paired()
    }

    /// The preview is fresh: drawing it again would change no cell.
    pub open spec fn ghost_fresh(&self) -> bool {
        self.grid() == rendered(self.grid(), self.halves())
    }

    /// Nothing is out of place and the preview is fresh.
    pub open spec fn tidy(&self) -> bool {
        self.sound() && self.ghost_fresh()
    }

    /// The falling capsule can go no further down.
    pub open spec fn resting(&self) -> bool {
        self.pill matches Some(pill) && collides(self.grid(), pill.vitamins)
    }

    /// This bottle is what `before` becomes when its capsule is replaced by
    /// `next`: the old halves are taken off, the new ones written, and the
    /// preview drawn afresh.
    pub open spec fn moved_from(&self, before: &Bottle, next: Pill) -> bool {
        &&& before.pill is Some
        &&& self.pill == Some(next)
        &&& self.grid() == after_move(before.grid(), before.pill.unwrap().vitamins, next.vitamins)
        &&& self.wf()
        &&& self.pill_shown()
        &&& self.ghost_fresh()
        &&& no_new_virus(before.grid(), self.grid())
        &&& before.sound() ==> self.sound()
    }

    /// This bottle is what `before` becomes when its capsule is replaced by
    /// `next` and the move is counted against the capsule.
    pub open spec fn counted_from(&self, before: &Bottle, next: Pill) -> bool {
        &&& before.pill is Some
        &&& self.pill == Some(Pill { lock_placements: (next.lock_placements + 1) as u32, ..next })
        &&& self.grid() == after_move(before.grid(), before.pill.unwrap().vitamins, next.vitamins)
        &&& self.wf()
        &&& self.pill_shown()
        &&& self.ghost_fresh()
        &&& no_new_virus(before.grid(), self.grid())
        &&& before.sound() ==> self.sound()
    }

    /// The kick with which the capsule can turn, if any does.
    pub open spec fn rotation_kick(&self, clockwise: bool) -> Option<(i32, i32)> {
        match self.pill {
            Some(pill) => first_kick(self.grid(), pill.turned_cells(clockwise), pill.wall_kicks(), 0),
            None => None,
        }
    }

    /// An empty bottle.
    pub fn new() -> (bottle: Self)
        ensures
            bottle.pill is None,
            forall|i: int| 0 <= i < 128 ==> bottle.grid()[i] == Block::Empty,
            bottle.sound(),
            bottle.ghost_fresh(),
    {
        let bottle = Self { blocks: [Block::Empty; 128], pill: None, rng: rng_from_seed(random_seed()) };
        proof {
            assert(unghosted(bottle.grid()) =~= bottle.grid());
            assert forall|i: int| 0 <= i < 128 implies #[trigger] has_partner(
                bottle.grid(),
                i,
            ) by {}
        }
        bottle
    }

    /// A bottle with the viruses of a layout and nothing else.
    pub fn from_seed(seed: BottleSeed) -> (bottle: Self)
        ensures
            bottle.pill is None,
            bottle.grid() == seed.blocks(),
            bottle.sound(),
            bottle.ghost_fresh(),
    {
        let bottle = Self { blocks: seed.into_blocks(), pill: None, rng: rng_from_seed(random_seed()) };
        proof {
            assert(unghosted(bottle.grid()) =~= bottle.grid());
            assert forall|i: int| 0 <= i < 128 implies #[trigger] has_partner(
                bottle.grid(),
                i,
            ) by {}
        }
        bottle
    }

    /// The falling capsule.
    pub fn pill(&self) -> (pill: &Pill)
        requires
            self.pill is Some,
        ensures
            *pill == self.pill.unwrap(),
    {
        self.pill.as_ref().unwrap()
    }

    /// The falling capsule, to change it; the grid is not touched.
    pub fn pill_mut(&mut self) -> (pill: &mut Pill)
        requires
            old(self).pill is Some,
        ensures
            *pill == old(self).pill.unwrap(),
            *final(self) == (Bottle { pill: Some(*final(pill)), ..*old(self) }),
    {
        self.pill.as_mut().unwrap()
    }

    /// The cells of a row, from the left.
    pub fn row(&self, y: u32) -> (cells: &[Block])
        requires
            y < 16,
        ensures
            cells@ == self.grid().subrange(8 * y, 8 * y + 8),
    {
        let start = y as usize * 8;
        vstd::slice::slice_subrange(vstd::array::array_as_slice(&self.blocks), start, start + 8)
    }

    /// What the cell at a point holds.
    pub fn block(&self, point: BottlePoint) -> (b: Block)
        requires
            point_in_bounds(point),
        ensures
            b == self.grid()[point_index(point)],
    {
        self.blocks[index(point)]
    }

    /// What the cell in column `x` and row `y` holds.
    pub fn block_at(&self, x: u32, y: u32) -> (b: Block)
        requires
            x < 8,
            y < 16,
        ensures
            b == self.grid()[cell_index(x as int, y as int)],
    {
        self.blocks[index_at(x, y)]
    }

    fn set_block(&mut self, point: BottlePoint, state: Block)
        requires
            point_in_bounds(point),
        ensures
            final(self).grid() == old(self).grid().update(point_index(point), state),
            final(self).pill == old(self).pill,
            final(self).rng == old(self).rng,
    {
        let i = index(point);
        self.blocks[i] = state;
        assert(self.grid() =~= old(self).grid().update(point_index(point), state));
    }

    /// Overwrites one cell, whatever it held.
    pub fn set_block_at(&mut self, x: u32, y: u32, state: Block)
        requires
            x < 8,
            y < 16,
        ensures
            final(self).grid() == old(self).grid().update(cell_index(x as int, y as int), state),
            final(self).pill == old(self).pill,
            final(self).rng == old(self).rng,
    {
        let i = index_at(x, y);
        self.blocks[i] = state;
        assert(self.grid() =~= old(self).grid().update(cell_index(x as int, y as int), state));
    }

    fn set_vitamin(&mut self, pill: &Pill, vitamin: &Vitamin)
        requires
            point_in_bounds(vitamin.position),
        ensures
            final(self).grid() == old(self).grid().update(
                point_index(vitamin.position),
                Block::Vitamin(vitamin.color, pill.rotation, vitamin.ordinal),
            ),
            final(self).pill == old(self).pill,
    {
        self.set_block(
            vitamin.position(),
            Block::Vitamin(vitamin.color(), pill.rotation(), vitamin.ordinal()),
        )
    }

    /// Puts a virus into a cell, whatever it held.
    pub fn set_virus_at(&mut self, x: u32, y: u32, color: VirusColor)
        requires
            x < 8,
            y < 16,
        ensures
            final(self).grid() == old(self).grid().update(
                cell_index(x as int, y as int),
                Block::Virus(color),
            ),
            final(self).pill == old(self).pill,
            final(self).rng == old(self).rng,
    {
        self.set_block_at(x, y, Block::Virus(color));
    }

    /// How many viruses are left.
    pub fn virus_count(&self) -> (count: u32)
        ensures
            count == viruses_of(self.grid()).len(),
    {
        let mut count: u32 = 0;
        let mut i: usize = 0;
        while i < 128
            invariant
                i <= 128,
                count == listed(self.grid(), virus_marks(self.grid()), i as int).len(),
                count <= i,
            decreases 128 - i,
        {
            if self.blocks[i].is_virus() {
                count = count + 1;
            }
            i = i + 1;
        }
        count
    }

    /// The viruses that are left, row by row from the top.
    pub fn viruses(&self) -> (found: Vec<ColoredBlock>)
        ensures
            found@ == viruses_of(self.grid()),
    {
        let mut found: Vec<ColoredBlock> = Vec::new();
        let mut i: usize = 0;
        while i < 128
            invariant
                i <= 128,
                found@ == listed(self.grid(), virus_marks(self.grid()), i as int),
            decreases 128 - i,
        {
            if self.blocks[i].is_virus() {
                found.push(ColoredBlock::from_block(index_to_point(i), self.blocks[i]));
            }
            i = i + 1;
        }
        found
    }

    /// Puts a new capsule at the top of the bottle. Where a cell that it
    /// needs holds something that stops a capsule, that half is not written
    /// and the spawn has failed; the capsule is there all the same.
    pub fn try_spawn(&mut self, shape: PillShape) -> (spawned: Option<Vitamins>)
        requires
            old(self).pill is None,
        ensures
            final(self).pill == Some(Pill::spawned(shape)),
            final(self).wf(),
            no_new_virus(old(self).grid(), final(self).grid()),
            spawned is Some <==> can_shift(old(self).grid(), Pill::spawned(shape).vitamins, 0, 0),
            spawned is Some ==> {
                &&& spawned == Some(Pill::spawned(shape).vitamins)
                &&& final(self).grid() == rendered(
                    placed(old(self).grid(), Pill::spawned(shape).vitamins),
                    Some(Pill::spawned(shape).vitamins),
                )
                &&& final(self).pill_shown()
                &&& final(self).ghost_fresh()
                &&& old(self).sound() ==> final(self).sound()
            },
            spawned is None ==> final(self).grid() == placed_where_free(
                old(self).grid(),
                Pill::spawned(shape).vitamins,
            ),
    {
        let pill = Pill::new(shape);
        let halves = pill.vitamins();
        proof {
            lemma_no_new_virus(self.grid(), halves, halves);
        }
        let mut success = true;
        if self.block(halves[0].position()).is_destructible() {
            success = false;
        } else {
            self.set_vitamin(&pill, &halves[0]);
        }
        if self.block(halves[1].position()).is_destructible() {
            success = false;
        } else {
            self.set_vitamin(&pill, &halves[1]);
        }
        self.pill = Some(pill);
        if success {
            proof {
                let written = placed(old(self).grid(), halves);
                assert(self.grid() == written);
                lemma_rendered_idempotent(written, halves);
                lemma_unghosted(written);
                lemma_drop_rows(unghosted(written), halves);
                if old(self).sound() {
                    lemma_spawn_paired(old(self).grid(), halves);
                    lemma_only_halves_spawned(old(self).grid(), halves);
                }
            }
            self.render_ghost();
            Some(halves)
        } else {
            None
        }
    }

    /// Moves the capsule one column to the left, if both halves find free
    /// cells there; else nothing changes.
    pub fn left(&mut self) -> (moved: bool)
        requires
            old(self).wf(),
        ensures
            moved <==> old(self).pill is Some && can_shift(
                old(self).grid(),
                old(self).pill.unwrap().vitamins,
                -1,
                0,
            ),
            moved ==> final(self).moved_from(old(self), old(self).pill.unwrap().moved(-1, 0)),
            !moved ==> *final(self) == *old(self),
    {
        self.move_pill(-1)
    }

    /// Moves the capsule one column to the right, if both halves find free
    /// cells there; else nothing changes.
    pub fn right(&mut self) -> (moved: bool)
        requires
            old(self).wf(),
        ensures
            moved <==> old(self).pill is Some && can_shift(
                old(self).grid(),
                old(self).pill.unwrap().vitamins,
                1,
                0,
            ),
            moved ==> final(self).moved_from(old(self), old(self).pill.unwrap().moved(1, 0)),
            !moved ==> *final(self) == *old(self),
    {
        self.move_pill(1)
    }

    fn half_can_shift(&self, vitamin: &Vitamin, dx: i32) -> (free: bool)
        requires
            point_in_bounds(vitamin.position),
            dx == 1 || dx == -1,
        ensures
            free == free_at(
                self.grid(),
                vitamin.position.x + dx,
                vitamin.position.y as int,
            ),
    {
        if dx > 0 && vitamin.position().x() == 7 {
            return false;
        } else if dx < 0 && vitamin.position().x() == 0 {
            return false;
        }
        let check_point = vitamin.position().translate(dx, 0);
        !self.block(check_point).is_destructible()
    }

    fn move_pill(&mut self, dx: i32) -> (moved: bool)
        requires
            old(self).wf(),
            dx == 1 || dx == -1,
        ensures
            moved <==> old(self).pill is Some && can_shift(
                old(self).grid(),
                old(self).pill.unwrap().vitamins,
                dx as int,
                0,
            ),
            moved ==> final(self).moved_from(old(self), old(self).pill.unwrap().moved(dx as int, 0)),
            !moved ==> *final(self) == *old(self),
    {
        let mut pill = match self.pill {
            Some(pill) => pill,
            None => {
                return false;
            },
        };
        let halves = pill.vitamins();
        if !self.half_can_shift(&halves[0], dx) {
            return false;
        }
        if !self.half_can_shift(&halves[1], dx) {
            return false;
        }
        pill.translate(dx, 0);
        self.mutate_pill(pill);
        true
    }

    /// Turns the capsule a quarter, with the first kick that lets both
    /// halves stand on free cells; with none, nothing changes.
    pub fn rotate(&mut self, clockwise: bool) -> (rotated: bool)
        requires
            old(self).wf(),
        ensures
            rotated <==> old(self).rotation_kick(clockwise) is Some,
            rotated ==> final(self).moved_from(
                old(self),
                old(self).pill.unwrap().turned(clockwise).moved(
                    old(self).rotation_kick(clockwise).unwrap().0 as int,
                    old(self).rotation_kick(clockwise).unwrap().1 as int,
                ),
            ),
            !rotated ==> *final(self) == *old(self),
    {
        match self.try_rotate(clockwise) {
            Some((dx, dy)) => {
                let mut pill = self.pill.unwrap();
                pill.rotate(clockwise, dx, dy);
                self.mutate_pill(pill);
                true
            },
            None => false,
        }
    }

    /// Moves the capsule down one row, unless it is at rest or there is none.
    pub fn step_down_pill(&mut self) -> (stepped: bool)
        requires
            old(self).wf(),
        ensures
            stepped <==> old(self).pill is Some && !old(self).resting(),
            stepped ==> final(self).moved_from(old(self), old(self).pill.unwrap().moved(0, 1)),
            !stepped ==> *final(self) == *old(self),
    {
        let mut pill = match self.pill {
            Some(pill) => pill,
            None => {
                return false;
            },
        };
        if self.vitamins_collide(pill.vitamins()) {
            false
        } else {
            pill.translate(0, 1);
            self.mutate_pill(pill);
            true
        }
    }

    /// Moves the capsule straight down to where it comes to rest, and
    /// reports how many rows that was and where the halves are now. A
    /// capsule that is at rest already stays, and nothing is reported.
    pub fn hard_drop(&mut self) -> (dropped: Option<(u32, Vitamins)>)
        requires
            old(self).wf(),
        ensures
            dropped is Some <==> old(self).pill is Some && !old(self).resting(),
            dropped matches Some((rows, halves)) ==> {
                &&& rows == drop_rows(old(self).grid(), old(self).pill.unwrap().vitamins)
                &&& halves == old(self).pill.unwrap().moved(0, rows as int).vitamins
                &&& final(self).moved_from(old(self), old(self).pill.unwrap().moved(0, rows as int))
                &&& old(self).pill_shown() ==> final(self).resting()
            },
            dropped is None ==> *final(self) == *old(self),
    {
        let (rows, landing) = match self.dropped_vitamins() {
            Some(found) => found,
            None => {
                return None;
            },
        };
        if rows > 0 {
            let mut pill = self.pill.unwrap();
            proof {
                lemma_drop_rows(self.grid(), pill.vitamins);
                assert(!collides(self.grid(), lowered(pill.vitamins, rows - 1)));
                assert(lowered(lowered(pill.vitamins, rows - 1), 1) =~= landing);
            }
            pill.translate(0, rows as i32);
            assert(pill.vitamins =~= landing);
            self.mutate_pill(pill);
            proof {
                if old(self).pill_shown() {
                    lemma_landed(
                        old(self).grid(),
                        old(self).pill.unwrap().vitamins,
                        rows as int,
                    );
                }
            }
            Some((rows, pill.vitamins()))
        } else {
            None
        }
    }

    /// Turns the falling capsule into two locked halves that belong together.
    pub fn lock(&mut self) -> (halves: Option<Vitamins>)
        requires
            old(self).wf(),
        ensures
            halves == old(self).halves(),
            final(self).pill is None,
            final(self).wf(),
            final(self).grid() == match old(self).halves() {
                Some(v) => locked(old(self).grid(), v),
                None => old(self).grid(),
            },
            old(self).sound() ==> final(self).sound(),
            no_new_virus(old(self).grid(), final(self).grid()),
            old(self).pill_shown() && old(self).ghost_fresh() && (old(self).pill is Some ==> old(
                self,
            ).resting()) ==> final(self).ghost_fresh(),
    {
        let pill = match self.pill {
            Some(pill) => pill,
            None => {
                return None;
            },
        };
        let halves = pill.vitamins();
        proof {
            lemma_no_new_virus(self.grid(), halves, halves);
            if old(self).pill_shown() && old(self).ghost_fresh() && old(self).resting() {
                lemma_locked_fresh(self.grid(), halves);
            }
        }
        self.set_block(
            halves[0].position(),
            Block::Stack(halves[0].color(), pill.rotation(), halves[0].ordinal()),
        );
        self.set_block(
            halves[1].position(),
            Block::Stack(halves[1].color(), pill.rotation(), halves[1].ordinal()),
        );
        self.pill = None;
        proof {
            if old(self).sound() {
                lemma_locked_paired(old(self).grid(), pill);
                lemma_only_halves_gone(old(self).grid(), halves);
            }
        }
        Some(halves)
    }

    /// Scans one row or one column for runs of four or more.
    fn scan_line(&self, context: &mut PatternMatchContext, line: u32)
        requires
            old(context).count == 0,
            old(context).last_color is None,
            line < line_count(old(context).is_vertical),
        ensures
            final(context).is_vertical == old(context).is_vertical,
            final(context).patterns@ == old(context).patterns@ + line_colors(
                self.grid(),
                old(context).is_vertical,
                line as int,
                line_len(old(context).is_vertical),
            ),
            forall|i: int|
                0 <= i < 128 ==> #[trigger] final(context).result@[i] == (old(context).result@[i] || (
                line_place(old(context).is_vertical, i).0 == line && in_run(
                    self.grid(),
                    old(context).is_vertical,
                    line as int,
                    line_place(old(context).is_vertical, i).1,
                ))),
    {
        let vertical = context.is_vertical;
        let len: u32 = if vertical {
            16
        } else {
            8
        };
        let ghost g = self.grid();
        let ghost l = line as int;
        let mut k: u32 = 0;
        assert(context.patterns@ =~= old(context).patterns@ + line_colors(g, vertical, l, -1));
        while k < len
            invariant
                k <= len,
                len == line_len(vertical),
                line < line_count(vertical),
                g == self.grid(),
                l == line as int,
                context.is_vertical == vertical,
                old(context).is_vertical == vertical,
                context.count == run_len(g, vertical, l, k - 1),
                context.last_color == color_at(g, vertical, l, k - 1),
                context.patterns@ == old(context).patterns@ + line_colors(g, vertical, l, k - 1),
                forall|i: int|
                    0 <= i < 128 ==> #[trigger] context.result@[i] == (old(context).result@[i] || (
                    line_place(vertical, i).0 == l && in_run_before(
                        g,
                        vertical,
                        l,
                        line_place(vertical, i).1,
                        k - 1,
                    ))),
            decreases len - k,
        {
            let ghost before = *context;
            let x: u32 = if vertical {
                line
            } else {
                k
            };
            let y: u32 = if vertical {
                k
            } else {
                line
            };
            proof {
                lemma_run_len(g, vertical, l, k - 1);
                lemma_run_len(g, vertical, l, k as int);
            }
            let block = self.block_at(x, y);
            assert(block.color_of() == color_at(g, vertical, l, k as int));
            context.block(x, y, block);
            proof {
                assert(context.count == run_len(g, vertical, l, k as int));
                assert(context.patterns@ =~= old(context).patterns@ + line_colors(
                    g,
                    vertical,
                    l,
                    k as int,
                ));
                assert forall|i: int| 0 <= i < 128 implies #[trigger] context.result@[i] == (old(
                    context,
                ).result@[i] || (line_place(vertical, i).0 == l && in_run_before(
                    g,
                    vertical,
                    l,
                    line_place(vertical, i).1,
                    k as int,
                ))) by {
                    assert(before.result@[i] == (old(context).result@[i] || (line_place(
                        vertical,
                        i,
                    ).0 == l && in_run_before(g, vertical, l, line_place(vertical, i).1, k - 1))));
                }
            }
            k = k + 1;
        }
        let ghost before = *context;
        proof {
            lemma_run_len(g, vertical, l, len - 1);
        }
        if vertical {
            context.maybe_pattern(line, 15, 0);
        } else {
            context.maybe_pattern(7, line, 0);
        }
        proof {
            assert(context.patterns@ =~= old(context).patterns@ + line_colors(
                g,
                vertical,
                l,
                len as int,
            ));
            assert forall|i: int| 0 <= i < 128 implies #[trigger] context.result@[i] == (old(
                context,
            ).result@[i] || (line_place(vertical, i).0 == l && in_run(
                g,
                vertical,
                l,
                line_place(vertical, i).1,
            ))) by {
                assert(before.result@[i] == (old(context).result@[i] || (line_place(vertical, i).0
                    == l && in_run_before(g, vertical, l, line_place(vertical, i).1, len - 1))));
            }
        }
    }

    /// Finds every run of four or more cells of one color, along the rows
    /// and along the columns. The first list holds each cell of such a run
    /// once, row by row; the second holds one color for each run.
    pub fn pattern(&self) -> (found: (Vec<ColoredBlock>, Vec<VirusColor>))
        ensures
            found.0@ == listed(self.grid(), matched_marks(self.grid()), 128),
            found.1@ == run_colors(self.grid()),
            forall|k: int| 0 <= k < found.0@.len() ==> point_in_bounds(#[trigger] found.0@[k].position),
    {
        let ghost g = self.grid();
        let mut context = PatternMatchContext::new(false);
        let mut y: u32 = 0;
        while y < 16
            invariant
                y <= 16,
                g == self.grid(),
                context.is_vertical == false,
                context.patterns@ == lines_colors(g, false, y as int),
                forall|i: int|
                    0 <= i < 128 ==> #[trigger] context.result@[i] == (i / 8 < y && in_run(
                        g,
                        false,
                        i / 8,
                        i % 8,
                    )),
            decreases 16 - y,
        {
            context.reset(false);
            self.scan_line(&mut context, y);
            y = y + 1;
        }
        let mut x: u32 = 0;
        assert(context.patterns@ =~= lines_colors(g, false, 16) + lines_colors(g, true, 0));
        while x < 8
            invariant
                x <= 8,
                g == self.grid(),
                context.patterns@ == lines_colors(g, false, 16) + lines_colors(g, true, x as int),
                forall|i: int|
                    0 <= i < 128 ==> #[trigger] context.result@[i] == (in_run(
                        g,
                        false,
                        i / 8,
                        i % 8,
                    ) || (i % 8 < x && in_run(g, true, i % 8, i / 8))),
            decreases 8 - x,
        {
            let ghost before = context.patterns@;
            context.reset(true);
            self.scan_line(&mut context, x);
            assert(context.patterns@ =~= lines_colors(g, false, 16) + lines_colors(
                g,
                true,
                x + 1,
            ));
            x = x + 1;
        }
        assert(context.result@ =~= matched_marks(g));
        let mut blocks: Vec<ColoredBlock> = Vec::new();
        let mut i: usize = 0;
        while i < 128
            invariant
                i <= 128,
                g == self.grid(),
                context.result@ == matched_marks(g),
                blocks@ == listed(g, matched_marks(g), i as int),
            decreases 128 - i,
        {
            if context.result[i] {
                proof {
                    let at = i as int;
                    if in_run(g, false, at / 8, at % 8) {
                        lemma_in_run_colored(g, false, at / 8, at % 8, 8);
                    } else {
                        lemma_in_run_colored(g, true, at % 8, at / 8, 16);
                    }
                }
                blocks.push(ColoredBlock::from_block(index_to_point(i), self.blocks[i]));
            }
            i = i + 1;
        }
        proof {
            lemma_listed_bounds(g, matched_marks(g), 128);
        }
        (blocks, context.patterns)
    }

    /// Turns a cell that can be destroyed into a loose cell of its color.
    fn set_garbage(&mut self, point: BottlePoint)
        requires
            point_in_bounds(point),
            old(self).grid()[point_index(point)].destructible(),
        ensures
            final(self).grid() == old(self).grid().update(
                point_index(point),
                Block::Garbage(old(self).grid()[point_index(point)].color_of().unwrap()),
            ),
            final(self).pill == old(self).pill,
    {
        let color = self.block(point).destructible_color().unwrap();
        self.set_block(point, Block::Garbage(color));
    }

    /// Empties each of the cells named. Where such a cell held a locked
    /// half, the other half stays behind as a loose cell.
    pub fn destroy(&mut self, blocks: Vec<ColoredBlock>)
        requires
            old(self).stacks_paired(),
            forall|k: int| 0 <= k < blocks@.len() ==> point_in_bounds(#[trigger] blocks@[k].position),
        ensures
            final(self).grid() == destroyed(old(self).grid(), blocks@, blocks@.len() as int),
            final(self).pill == old(self).pill,
            final(self).stacks_paired(),
            no_new_virus(old(self).grid(), final(self).grid()),
            old(self).pill is None && old(self).tidy() ==> final(self).tidy(),
    {
        let ghost before = self.grid();
        let mut k: usize = 0;
        assert(self.grid() =~= destroyed(before, blocks@, 0));
        while k < blocks.len()
            invariant
                k <= blocks.len(),
                before == old(self).grid(),
                paired(before),
                forall|j: int|
                    0 <= j < blocks@.len() ==> point_in_bounds(#[trigger] blocks@[j].position),
                self.grid() == destroyed(before, blocks@, k as int),
                self.pill == old(self).pill,
            decreases blocks.len() - k,
        {
            let point = blocks[k].position;
            let block = self.block(point);
            proof {
                lemma_destroy_step(before, blocks@, k as int);
            }
            self.set_block(point, Block::Empty);
            match block.find_stack_partner_offset() {
                Some(offset) => {
                    let ghost now = destroyed(before, blocks@, k as int);
                    assert(has_partner(before, point_index(point)));
                    self.set_garbage(point.translate(offset.x, offset.y));
                },
                None => {},
            }
            k = k + 1;
        }
        proof {
            lemma_destroyed_paired(before, blocks@, blocks@.len() as int);
            lemma_destroyed_no_new_virus(before, blocks@, blocks@.len() as int);
            lemma_no_new_trace(before, blocks@, Seq::empty(), Seq::empty(), blocks@.len() as int, 0);
            lemma_quiet(before, self.grid());
        }
    }

    /// Lets every loose cell that hangs in the air go down one row, all at
    /// once, and says whether any did. A loose cell hangs in the air unless
    /// it rests, directly or through the loose cells below it and the other
    /// halves of locked halves, on the floor or on a cell that is not loose.
    pub fn step_down_garbage(&mut self) -> (moved: bool)
        requires
            old(self).stacks_paired(),
        ensures
            moved <==> any_falls(old(self).grid()),
            final(self).grid() == settled_once(old(self).grid()),
            final(self).pill == old(self).pill,
            final(self).stacks_paired(),
            no_new_virus(old(self).grid(), final(self).grid()),
            old(self).pill is None && old(self).tidy() ==> final(self).tidy(),
            !moved ==> *final(self) == *old(self),
    {
        let ghost g = self.grid();
        proof {
            lemma_settled_no_new(g);
            lemma_quiet(g, settled_once(g));
        }
        let mut to_fall = [false; 128];
        let mut any = false;
        let mut x: u32 = 0;
        while x < 8
            invariant
                x <= 8,
                g == self.grid(),
                *self == *old(self),
                paired(g),
                forall|i: int| 0 <= i < 128 && #[trigger] to_fall@[i] ==> falls(g, i),
                forall|i: int|
                    0 <= i < 120 && i % 8 < x && #[trigger] falls(g, i) ==> to_fall@[i],
                any <==> exists|i: int| 0 <= i < 128 && to_fall@[i],
            decreases 8 - x,
        {
            let mut y: u32 = 0;
            while y < 15
                invariant
                    x < 8,
                    y <= 15,
                    g == self.grid(),
                    *self == *old(self),
                    paired(g),
                    forall|i: int| 0 <= i < 128 && #[trigger] to_fall@[i] ==> falls(g, i),
                    forall|i: int|
                        0 <= i < 120 && (i % 8 < x || (i % 8 == x && i / 8 < y)) && #[trigger] falls(
                            g,
                            i,
                        ) ==> to_fall@[i],
                    any <==> exists|i: int| 0 <= i < 128 && to_fall@[i],
                decreases 15 - y,
            {
                let point = BottlePoint { x: x as i32, y: y as i32 };
                let at = index(point);
                if !to_fall[at] {
                    match self.get_falling_group(point) {
                        Some(group) => {
                            let mut i: usize = 0;
                            let ghost before = to_fall@;
                            while i < 128
                                invariant
                                    i <= 128,
                                    before.len() == 128,
                                    forall|j: int|
                                        0 <= j < i ==> #[trigger] to_fall@[j] == (before[j]
                                            || group@[j]),
                                    forall|j: int|
                                        i <= j < 128 ==> #[trigger] to_fall@[j] == before[j],
                                    any <==> exists|i: int| 0 <= i < 128 && to_fall@[i],
                                decreases 128 - i,
                            {
                                let ghost marks = to_fall@;
                                if group[i] {
                                    to_fall[i] = true;
                                    any = true;
                                    assert(to_fall@ =~= marks.update(i as int, true));
                                    assert(to_fall@[i as int]);
                                } else {
                                    assert(to_fall@[i as int] == before[i as int]);
                                    assert(!group@[i as int]);
                                }
                                assert(to_fall@[i as int] == (before[i as int] || group@[i as int]));
                                assert(forall|j: int| 0 <= j < i ==> to_fall@[j] == marks[j]);
                                i = i + 1;
                            }
                        },
                        None => {},
                    }
                }
                y = y + 1;
            }
            x = x + 1;
        }
        if !any {
            proof {
                assert(settled_once(g) =~= g);
                assert(!any_falls(g)) by {
                    if any_falls(g) {
                        let i = choose|i: int| falls(g, i);
                        assert(to_fall@[i]);
                    }
                }
            }
            return false;
        }
        proof {
            let i = choose|i: int| 0 <= i < 128 && to_fall@[i];
            assert(falls(g, i));
        }
        let mut x: u32 = 0;
        while x < 8
            invariant
                x <= 8,
                g == old(self).grid(),
                self.pill == old(self).pill,
                forall|i: int| 0 <= i < 128 ==> to_fall@[i] == falls(g, i),
                forall|i: int|
                    0 <= i < 128 ==> #[trigger] self.grid()[i] == (if i >= 8 && falls(g, i - 8) && (i
                        - 8) % 8 < x {
                        g[i - 8]
                    } else if falls(g, i) && i % 8 < x {
                        Block::Empty
                    } else {
                        g[i]
                    }),
            decreases 8 - x,
        {
            let mut y: u32 = 15;
            while y > 0
                invariant
                    x < 8,
                    y <= 15,
                    g == old(self).grid(),
                    self.pill == old(self).pill,
                    forall|i: int| 0 <= i < 128 ==> to_fall@[i] == falls(g, i),
                    forall|i: int|
                        0 <= i < 128 ==> #[trigger] self.grid()[i] == (if i >= 8 && falls(g, i - 8)
                            && ((i - 8) % 8 < x || ((i - 8) % 8 == x && (i - 8) / 8 >= y)) {
                            g[i - 8]
                        } else if falls(g, i) && (i % 8 < x || (i % 8 == x && i / 8 >= y)) {
                            Block::Empty
                        } else {
                            g[i]
                        }),
                decreases y,
            {
                y = y - 1;
                let point = BottlePoint { x: x as i32, y: y as i32 };
                let at = index(point);
                if to_fall[at] {
                    let block = self.block(point);
                    self.set_block(point.translate(0, 1), block);
                    self.set_block(point, Block::Empty);
                }
            }
            x = x + 1;
        }
        proof {
            assert(self.grid() =~= settled_once(g));
            lemma_settled_paired(g);
        }
        true
    }

    /// The loose cells that hang in the air together with the cell at
    /// `point`: the cell itself, the cells it rests on, the other halves of
    /// the locked halves among them, and so on. There are none if the cell
    /// is empty or anything among them is held up. A group is complete:
    /// its cells rest on nothing but each other.
    fn get_falling_group(&self, point: BottlePoint) -> (group: Option<[bool; 128]>)
        requires
            point_in_bounds(point),
            self.stacks_paired(),
        ensures
            group matches Some(marks) ==> closed_group(self.grid(), marks@),
            group matches Some(marks) ==> forall|i: int|
                0 <= i < 128 && #[trigger] marks@[i] ==> falls(self.grid(), i),
            falls(self.grid(), point_index(point)) ==> group is Some && group.unwrap()@[point_index(
                point,
            )],
    {
        let ghost g = self.grid();
        let ghost start = point_index(point);
        let mut result = [false; 128];
        let mut marked: usize = 0;
        let mut queue: Vec<BottlePoint> = Vec::new();
        queue.push(point);
        proof {
            lemma_count_true(result@, 128);
            assert(point_index(queue@[0]) == start);
        }
        while queue.len() > 0
            invariant
                g == self.grid(),
                paired(g),
                0 <= start < 128,
                start == point_index(point),
                marked == count_true(result@, 128),
                forall|j: int| 0 <= j < queue@.len() ==> point_in_bounds(#[trigger] queue@[j]),
                forall|i: int|
                    0 <= i < 128 && #[trigger] result@[i] ==> hangs(g, result@, queue@, i),
                forall|j: int|
                    0 <= j < queue@.len() && supported(g, point_index(#[trigger] queue@[j]))
                        ==> supported(g, start),
                falls(g, start) ==> result@[start] || queued(queue@, start),
            decreases 128 - marked, queue.len(),
        {
            let ghost before_queue = queue@;
            let ghost before_marks = result@;
            let current = queue.pop().unwrap();
            let at = index(current);
            proof {
                lemma_count_true(before_marks, 128);
                assert(current == before_queue[before_queue.len() - 1]);
                assert forall|d: int| queued(before_queue, d) implies queued(queue@, d) || d
                    == at by {
                    lemma_queued_pop(before_queue, d);
                }
                assert forall|j: int| 0 <= j < queue@.len() implies before_queue[j]
                    == #[trigger] queue@[j] by {}
            }
            if result[at] {
                assert forall|i: int| 0 <= i < 128 && #[trigger] result@[i] implies hangs(
                    g,
                    result@,
                    queue@,
                    i,
                ) by {
                    assert(hangs(g, before_marks, before_queue, i));
                }
            } else {
                let block = self.block(current);
                let is_floor = current.y() == 15;
                match block {
                    Block::Empty => {
                        assert forall|i: int| 0 <= i < 128 && #[trigger] result@[i] implies hangs(
                            g,
                            result@,
                            queue@,
                            i,
                        ) by {
                            assert(hangs(g, before_marks, before_queue, i));
                        }
                    },
                    Block::Stack(_, rotation, ordinal) => {
                        if is_floor {
                            proof {
                                lemma_held_supported(g, at as int);
                                assert(supported(g, at as int));
                                assert(supported(g, point_index(before_queue[before_queue.len() - 1])));
                                assert(supported(g, start));
                            }
                            return None;
                        }
                        let below = current.translate(0, 1);
                        let offset = block_partner_offset(rotation, ordinal);
                        assert(has_partner(g, at as int));
                        let partner = current.translate(offset.x, offset.y);
                        let ghost popped = queue@;
                        queue.push(below);
                        queue.push(partner);
                        result[at] = true;
                        marked = marked + 1;
                        proof {
                            lemma_count_set(before_marks, at as int, 128);
                            lemma_count_true(result@, 128);
                            assert(result@ =~= before_marks.update(at as int, true));
                            assert forall|d: int| queued(before_queue, d) implies queued(
                                queue@,
                                d,
                            ) || d == at by {
                                lemma_queued_push(popped, below, d);
                                lemma_queued_push(popped.push(below), partner, d);
                            }
                            lemma_queued_push(popped, below, at + 8);
                            lemma_queued_push(popped.push(below), partner, at + 8);
                            lemma_queued_push(popped.push(below), partner, partner_index(g, at as int));
                            assert forall|i: int|
                                0 <= i < 128 && #[trigger] result@[i] implies hangs(
                                g,
                                result@,
                                queue@,
                                i,
                            ) by {
                                if i != at {
                                    assert(hangs(g, before_marks, before_queue, i));
                                }
                            }
                            assert forall|j: int|
                                0 <= j < queue@.len() && supported(
                                    g,
                                    point_index(#[trigger] queue@[j]),
                                ) implies supported(g, start) by {
                                if j >= popped.len() {
                                    lemma_supported_step(g, at as int, point_index(queue@[j]));
                                }
                            }
                        }
                    },
                    Block::Garbage(_) => {
                        if is_floor {
                            proof {
                                lemma_held_supported(g, at as int);
                                assert(supported(g, at as int));
                                assert(supported(g, point_index(before_queue[before_queue.len() - 1])));
                                assert(supported(g, start));
                            }
                            return None;
                        }
                        let below = current.translate(0, 1);
                        let ghost popped = queue@;
                        result[at] = true;
                        marked = marked + 1;
                        queue.push(below);
                        proof {
                            lemma_count_set(before_marks, at as int, 128);
                            lemma_count_true(result@, 128);
                            assert(result@ =~= before_marks.update(at as int, true));
                            assert forall|d: int| queued(before_queue, d) implies queued(
                                queue@,
                                d,
                            ) || d == at by {
                                lemma_queued_push(popped, below, d);
                            }
                            lemma_queued_push(popped, below, at + 8);
                            assert forall|i: int|
                                0 <= i < 128 && #[trigger] result@[i] implies hangs(
                                g,
                                result@,
                                queue@,
                                i,
                            ) by {
                                if i != at {
                                    assert(hangs(g, before_marks, before_queue, i));
                                }
                            }
                            assert forall|j: int|
                                0 <= j < queue@.len() && supported(
                                    g,
                                    point_index(#[trigger] queue@[j]),
                                ) implies supported(g, start) by {
                                if j >= popped.len() {
                                    lemma_supported_step(g, at as int, point_index(queue@[j]));
                                }
                            }
                        }
                    },
                    _ => {
                        proof {
                            lemma_held_supported(g, at as int);
                            assert(supported(g, at as int));
                            assert(supported(g, point_index(before_queue[before_queue.len() - 1])));
                            assert(supported(g, start));
                        }
                        return None;
                    },
                }
            }
        }
        proof {
            lemma_count_true(result@, 128);
            assert(queue@ =~= Seq::<BottlePoint>::empty());
            lemma_closed_falls(g, result@);
        }
        if marked == 0 {
            None
        } else {
            Some(result)
        }
    }

    /// Takes the falling capsule out of the bottle and hands back its shape.
    pub fn hold(&mut self) -> (shape: Option<PillShape>)
        requires
            old(self).wf(),
        ensures
            shape == match old(self).pill {
                Some(pill) => Some(pill.shape_of()),
                None => None::<PillShape>,
            },
            shape is None ==> *final(self) == *old(self),
            no_new_virus(old(self).grid(), final(self).grid()),
            shape is Some ==> {
                &&& final(self).pill is None
                &&& final(self).grid() == unghosted(
                    cleared(old(self).grid(), old(self).pill.unwrap().vitamins),
                )
                &&& final(self).ghost_fresh()
                &&& old(self).sound() ==> final(self).sound()
            },
    {
        let pill = match self.pill {
            Some(pill) => pill,
            None => {
                return None;
            },
        };
        let halves = pill.vitamins();
        proof {
            lemma_no_new_virus(self.grid(), halves, halves);
            if old(self).sound() {
                lemma_hold_paired(old(self).grid(), halves);
                lemma_only_halves_gone(old(self).grid(), halves);
            }
        }
        self.set_block(halves[0].position(), Block::Empty);
        self.set_block(halves[1].position(), Block::Empty);
        self.pill = None;
        self.render_ghost();
        proof {
            lemma_unghosted(cleared(old(self).grid(), halves));
        }
        Some(pill.shape())
    }

    /// Drops loose cells into the top row: one for each color, in the order
    /// of the colors, each into a column whose top cell is empty. Which
    /// columns, and in what order, is left to chance; when they run out, the
    /// colors that are left over are dropped.
    pub fn send_garbage(&mut self, garbage: SendGarbage) -> (sent: Vec<Garbage>)
        ensures
            final(self).pill == old(self).pill,
            old(self).stacks_paired() ==> final(self).stacks_paired(),
            no_new_virus(old(self).grid(), final(self).grid()),
            old(self).pill is None && old(self).tidy() ==> final(self).tidy(),
            exists|columns: Seq<u32>|
                {
                    &&& columns.to_multiset() == open_columns(old(self).grid(), 8).to_multiset()
                    &&& sent@.len() == garbage_count(garbage@, columns)
                    &&& forall|k: int|
                        0 <= k < sent@.len() ==> #[trigger] sent@[k] == garbage_at(
                            garbage@,
                            columns,
                            k,
                        )
                    &&& final(self).grid() == with_garbage(
                        old(self).grid(),
                        garbage@,
                        columns,
                        sent@.len() as int,
                    )
                },
    {
        let mut available_x: Vec<u32> = Vec::new();
        let mut x: u32 = 0;
        while x < 8
            invariant
                x <= 8,
                *self == *old(self),
                available_x@ == open_columns(self.grid(), x as int),
            decreases 8 - x,
        {
            if self.block_at(x, 0).is_empty() {
                available_x.push(x);
            }
            x = x + 1;
        }
        let ghost open = available_x@;
        shuffle(&mut available_x, &mut self.rng);
        proof {
            broadcast use vstd::seq_lib::to_multiset_contains;

            lemma_open_columns(self.grid(), 8);
            assert forall|j: int| 0 <= j < available_x@.len() implies (#[trigger] available_x@[j])
                < 8 && self.grid()[available_x@[j] as int] == Block::Empty by {
                assert(available_x@.contains(available_x@[j]));
                assert(available_x@.to_multiset().count(available_x@[j]) > 0);
                assert(open.contains(available_x@[j]));
                let k = choose|k: int| 0 <= k < open.len() && open[k] == available_x@[j];
                assert(open[k] < 8);
            }
            lemma_with_garbage(
                self.grid(),
                garbage@,
                available_x@,
                garbage_count(garbage@, available_x@),
            );
        }
        let ghost columns = available_x@;
        let sent = self.place_garbage(garbage, available_x);
        proof {
            lemma_no_new_trace(
                old(self).grid(),
                Seq::empty(),
                garbage@,
                columns,
                0,
                sent@.len() as int,
            );
            lemma_quiet(old(self).grid(), self.grid());
            assert(columns.to_multiset() == open_columns(old(self).grid(), 8).to_multiset());
        }
        sent
    }

    /// Drops loose cells into the top row: the first color into the last
    /// column of the list, the second into the one before it, and so on,
    /// until the colors or the columns run out.
    pub fn place_garbage(&mut self, garbage: SendGarbage, columns: Vec<u32>) -> (sent: Vec<Garbage>)
        requires
            forall|j: int| 0 <= j < columns@.len() ==> (#[trigger] columns@[j]) < 8,
        ensures
            final(self).pill == old(self).pill,
            sent@.len() == garbage_count(garbage@, columns@),
            forall|k: int|
                0 <= k < sent@.len() ==> #[trigger] sent@[k] == garbage_at(garbage@, columns@, k),
            final(self).grid() == with_garbage(
                old(self).grid(),
                garbage@,
                columns@,
                sent@.len() as int,
            ),
            no_new_virus(old(self).grid(), final(self).grid()),
    {
        proof {
            lemma_garbage_no_new_virus(
                self.grid(),
                garbage@,
                columns@,
                garbage_count(garbage@, columns@),
            );
        }
        let mut left = columns;
        let mut sent: Vec<Garbage> = Vec::new();
        let mut k: usize = 0;
        while k < garbage.len() && left.len() > 0
            invariant
                k <= garbage.len(),
                sent@.len() == k,
                self.pill == old(self).pill,
                k <= columns@.len(),
                left@ == columns@.take(columns@.len() - k),
                forall|j: int| 0 <= j < columns@.len() ==> (#[trigger] columns@[j]) < 8,
                forall|j: int|
                    0 <= j < sent@.len() ==> #[trigger] sent@[j] == garbage_at(
                        garbage@,
                        columns@,
                        j,
                    ),
                self.grid() == with_garbage(old(self).grid(), garbage@, columns@, k as int),
            decreases garbage.len() - k,
        {
            let color = garbage[k];
            let x = left.pop().unwrap();
            self.set_block_at(x, 0, Block::Garbage(color));
            sent.push(Garbage::new(color, BottlePoint { x: x as i32, y: 0 }));
            assert(left@ =~= columns@.take(columns@.len() - (k + 1)));
            k = k + 1;
        }
        sent
    }

    /// Counts one more move of the resting capsule, and says how many that makes.
    pub fn register_lock_placement(&mut self) -> (used: u32)
        requires
            old(self).pill is Some,
            old(self).pill.unwrap().lock_placements < u32::MAX,
        ensures
            used == old(self).pill.unwrap().lock_placements + 1,
            *final(self) == (Bottle {
                pill: Some(Pill { lock_placements: used, ..old(self).pill.unwrap() }),
                ..*old(self)
            }),
    {
        let mut pill = self.pill.unwrap();
        let used = pill.register_lock_placement();
        self.pill = Some(pill);
        used
    }

    /// How many moves the capsule has made while resting.
    pub fn lock_placements(&self) -> (used: u32)
        requires
            self.pill is Some,
        ensures
            used == self.pill.unwrap().lock_placements,
    {
        self.pill.unwrap().lock_placements()
    }

    /// Whether there is a falling capsule that would be stopped if it went
    /// down a row.
    pub fn is_collision(&self) -> (stopped: bool)
        requires
            self.wf(),
        ensures
            stopped == self.resting(),
    {
        match self.pill {
            Some(pill) => self.vitamins_collide(pill.vitamins()),
            None => false,
        }
    }

    fn kick_fits(&self, cells: &[BottlePoint; 2], dx: i32, dy: i32) -> (fits: bool)
        requires
            -2 <= cells[0].x <= 9,
            -2 <= cells[0].y <= 17,
            -2 <= cells[1].x <= 9,
            -2 <= cells[1].y <= 17,
            -1 <= dx <= 1,
            -1 <= dy <= 1,
        ensures
            fits == kick_fits(self.grid(), *cells, (dx, dy)),
    {
        let mut k: usize = 0;
        while k < 2
            invariant
                k <= 2,
                -2 <= cells[0].x <= 9,
                -2 <= cells[0].y <= 17,
                -2 <= cells[1].x <= 9,
                -2 <= cells[1].y <= 17,
                -1 <= dx <= 1,
                -1 <= dy <= 1,
                forall|j: int|
                    0 <= j < k ==> free_at(
                        self.grid(),
                        #[trigger] cells[j].x + dx,
                        cells[j].y + dy,
                    ),
            decreases 2 - k,
        {
            let p = cells[k].translate(dx, dy);
            if p.x() < 0 || p.x() >= 8 || p.y() < 0 || p.y() >= 16 {
                return false;
            }
            if self.block(p).is_destructible() {
                return false;
            }
            k = k + 1;
        }
        true
    }

    fn try_rotate(&self, clockwise: bool) -> (kick: Option<(i32, i32)>)
        requires
            self.wf(),
        ensures
            kick == self.rotation_kick(clockwise),
            kick matches Some(k) ==> {
                &&& self.pill is Some
                &&& self.pill.unwrap().can_move(k.0 as int, k.1 as int)
                &&& halves_in_bounds(
                    self.pill.unwrap().turned(clockwise).moved(k.0 as int, k.1 as int).vitamins,
                )
                &&& can_shift(
                    self.grid(),
                    self.pill.unwrap().turned(clockwise).moved(k.0 as int, k.1 as int).vitamins,
                    0,
                    0,
                )
            },
    {
        let pill = match self.pill {
            Some(pill) => pill,
            None => {
                return None;
            },
        };
        let next_points = pill.next_rotation(clockwise);
        let kicks = pill.available_wall_kicks();
        let mut i: usize = 0;
        while i < kicks.len()
            invariant
                i <= kicks.len(),
                self.pill == Some(pill),
                self.wf(),
                next_points == pill.turned_cells(clockwise),
                kicks@ == pill.wall_kicks(),
                first_kick(self.grid(), next_points, kicks@, 0) == first_kick(
                    self.grid(),
                    next_points,
                    kicks@,
                    i as int,
                ),
            decreases kicks.len() - i,
        {
            let (dx, dy) = kicks[i];
            if self.kick_fits(&next_points, dx, dy) {
                return Some((dx, dy));
            }
            i = i + 1;
        }
        None
    }

    /// Replaces the falling capsule by `next`, in the grid too.
    fn mutate_pill(&mut self, next: Pill)
        requires
            old(self).wf(),
            old(self).pill is Some,
            next.wf(),
            halves_in_bounds(next.vitamins),
            can_shift(old(self).grid(), next.vitamins, 0, 0),
        ensures
            final(self).moved_from(old(self), next),
    {
        let pill = self.pill.unwrap();
        let halves = pill.vitamins();
        self.set_block(halves[0].position(), Block::Empty);
        self.set_block(halves[1].position(), Block::Empty);
        let halves = next.vitamins();
        self.set_vitamin(&next, &halves[0]);
        self.set_vitamin(&next, &halves[1]);
        self.pill = Some(next);
        proof {
            lemma_after_move_shows(old(self).grid(), pill.vitamins, next.vitamins);
            lemma_no_new_virus(old(self).grid(), pill.vitamins, next.vitamins);
            if old(self).sound() {
                lemma_after_move_paired(old(self).grid(), pill.vitamins, next.vitamins);
                lemma_only_halves_moved(old(self).grid(), pill.vitamins, next.vitamins);
            }
        }
        self.render_ghost();
    }

    /// Where the falling capsule would come to rest, and how many rows down that is.
    fn dropped_vitamins(&self) -> (landing: Option<(u32, Vitamins)>)
        requires
            self.wf(),
        ensures
            landing is Some <==> self.pill is Some,
            landing matches Some((rows, halves)) ==> {
                &&& rows == drop_rows(self.grid(), self.pill.unwrap().vitamins)
                &&& halves == lowered(self.pill.unwrap().vitamins, rows as int)
                &&& halves_in_bounds(halves)
                &&& rows <= 15
            },
    {
        let start = match self.pill {
            Some(pill) => pill.vitamins(),
            None => {
                return None;
            },
        };
        let mut halves = start;
        let mut dropped_rows: u32 = 0;
        proof {
            lemma_lowered(start, 0, 0);
            lemma_drop_rows(self.grid(), start);
        }
        while !self.vitamins_collide(halves)
            invariant
                halves_in_bounds(start),
                halves_in_bounds(halves),
                halves == lowered(start, dropped_rows as int),
                dropped_rows <= 15 - start[0].position.y,
                drop_rows(self.grid(), start) == dropped_rows + drop_rows(self.grid(), halves),
            decreases 15 - halves[0].position.y,
        {
            let ghost before = halves;
            dropped_rows = dropped_rows + 1;
            let mut left = halves[0];
            let mut right = halves[1];
            left.translate(0, 1);
            right.translate(0, 1);
            halves = [left, right];
            proof {
                assert(halves =~= lowered(before, 1));
                lemma_lowered(start, dropped_rows as int - 1, 1);
            }
        }
        Some((dropped_rows, halves))
    }

    /// Draws the preview afresh: every old preview cell is emptied, and the
    /// cells in which the capsule would land become preview cells where they
    /// are empty. Nothing else is touched. Where the capsule overlaps
    /// nothing, the preview then stands in every cell in which the capsule
    /// would land and is not yet; without a capsule there is no preview.
    pub fn render_ghost(&mut self)
        requires
            old(self).wf(),
        ensures
            final(self).pill == old(self).pill,
            final(self).grid() == rendered(old(self).grid(), old(self).halves()),
            keeps_content(old(self).grid(), final(self).grid()),
            previews(old(self).grid(), final(self).grid(), old(self).halves()),
            old(self).pill is Some && old(self).pill_shown() && only_halves(
                old(self).grid(),
                old(self).halves(),
            ) ==> previews_beyond_capsule(
                old(self).grid(),
                final(self).grid(),
                old(self).pill.unwrap().vitamins,
            ),
            final(self).ghost_fresh(),
    {
        proof {
            lemma_ghost_cells(self.grid(), self.halves());
            match self.pill {
                Some(pill) => {
                    lemma_rendered_idempotent(self.grid(), pill.vitamins);
                    if self.pill_shown() && only_halves(self.grid(), self.halves()) {
                        lemma_ghost_beyond_capsule(self.grid(), pill.vitamins);
                    }
                },
                None => {
                    lemma_unghosted(self.grid());
                    lemma_unghosted(unghosted(self.grid()));
                },
            }
        }
        let mut i: usize = 0;
        while i < 128
            invariant
                i <= 128,
                self.pill == old(self).pill,
                forall|j: int| 0 <= j < i ==> self.grid()[j] == old(self).grid()[j].without_ghost(),
                forall|j: int| i <= j < 128 ==> self.grid()[j] == old(self).grid()[j],
            decreases 128 - i,
        {
            let ghost before = self.grid();
            if self.blocks[i].is_ghost() {
                self.blocks[i] = Block::Empty;
                assert(self.grid() =~= before.update(i as int, Block::Empty));
            }
            i = i + 1;
        }
        assert(self.grid() =~= unghosted(old(self).grid()));
        let pill = match self.pill {
            Some(pill) => pill,
            None => {
                return ;
            },
        };
        let rotation = pill.rotation();
        let (_, landing) = self.dropped_vitamins().unwrap();
        if self.block(landing[0].position()).is_empty() {
            self.set_block(
                landing[0].position(),
                Block::GhostVitamin(landing[0].color(), rotation, landing[0].ordinal()),
            );
        }
        if self.block(landing[1].position()).is_empty() {
            self.set_block(
                landing[1].position(),
                Block::GhostVitamin(landing[1].color(), rotation, landing[1].ordinal()),
            );
        }
    }

    fn vitamins_collide(&self, vitamins: Vitamins) -> (stopped: bool)
        requires
            halves_in_bounds(vitamins),
        ensures
            stopped == collides(self.grid(), vitamins),
    {
        if vitamins[0].position().y() == 15 {
            return true;
        }
        if self.block(vitamins[0].position().translate(0, 1)).is_destructible() {
            return true;
        }
        if vitamins[1].position().y() == 15 {
            return true;
        }
        self.block(vitamins[1].position().translate(0, 1)).is_destructible()
    }
}

/// A capsule that has moved lies inside the grid, and each of its halves
/// is in its cell: it overlaps nothing that stops a capsule.
pub proof fn lemma_moved_capsule_clear(before: Bottle, after: Bottle, next: Pill)
    requires
        after.moved_from(&before, next),
    ensures
        after.pill == Some(next),
        forall|k: int|
            0 <= k < 2 ==> {
                &&& point_in_bounds(#[trigger] next.vitamins[k].position)
                &&& after.grid()[point_index(next.vitamins[k].position)] == vitamin_block(
                    next.vitamins[k],
                )
                &&& !after.grid()[point_index(next.vitamins[k].position)].destructible()
            },
{
}

/// A bottle whose preview is fresh shows it exactly in the cells in which
/// its capsule would land and which hold nothing else, each with the half
/// that would land in it, and has no preview without a capsule. Where
/// nothing is out of place, these are the cells in which the capsule
/// would land and is not yet.
pub proof fn lemma_fresh_preview(bottle: Bottle)
    requires
        bottle.wf(),
        bottle.ghost_fresh(),
    ensures
        previews(bottle.grid(), bottle.grid(), bottle.halves()),
        keeps_content(bottle.grid(), bottle.grid()),
        bottle.pill is Some ==> collides(
            bottle.grid(),
            landing_of(bottle.grid(), bottle.pill.unwrap().vitamins),
        ),
        bottle.pill is Some && bottle.sound() ==> previews_beyond_capsule(
            bottle.grid(),
            bottle.grid(),
            bottle.pill.unwrap().vitamins,
        ),
{
    lemma_ghost_cells(bottle.grid(), bottle.halves());
    if bottle.pill is Some && bottle.sound() {
        lemma_ghost_beyond_capsule(bottle.grid(), bottle.pill.unwrap().vitamins);
    }
}

/// A bottle whose capsule has moved shows the preview exactly where the
/// capsule would land from its new place, on cells that are otherwise
/// empty, and previews nothing else.
pub proof fn lemma_moved_ghost(before: Bottle, after: Bottle, next: Pill)
    requires
        after.moved_from(&before, next),
    ensures
        previews(after.grid(), after.grid(), Some(next.vitamins)),
        collides(after.grid(), landing_of(after.grid(), next.vitamins)),
        before.sound() ==> previews_beyond_capsule(after.grid(), after.grid(), next.vitamins),
{
    lemma_fresh_preview(after);
}

/// As long as the grid stays as it is, the search for runs finds the same
/// cells and the same colors.
pub proof fn lemma_pattern_stable(before: Bottle, after: Bottle)
    requires
        after.grid() == before.grid(),
    ensures
        listed(after.grid(), matched_marks(after.grid()), 128) == listed(
            before.grid(),
            matched_marks(before.grid()),
            128,
        ),
        run_colors(after.grid()) == run_colors(before.grid()),
{
}

} // verus!
