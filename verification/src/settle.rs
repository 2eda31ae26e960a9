//! Which loose cells hang in the air, and what the grid looks like after
//! they have all gone down one row.

use crate::block::Block;
use crate::geometry::BottlePoint;
use crate::grid::{
    cell_index, has_partner, is_grid, lemma_partner_back, no_new_trace, no_new_virus, paired,
    partner_index, point_index,
};
use vstd::prelude::*;

verus! {

/// Locked halves and loose cells are what can come down.
pub open spec fn loose(b: Block) -> bool {
    b is Stack || b is Garbage
}

/// A cell that stays where it is whatever happens around it: anything on
/// the floor, and anything that is not loose.
pub open spec fn held(g: Seq<Block>, i: int) -> bool {
    g[i] != Block::Empty && (!loose(g[i]) || i >= 120)
}

/// Within `n` steps, each to the cell below or from a locked half to its
/// other half, and each from a loose cell, one gets from cell `i` to a cell
/// that stays where it is.
pub open spec fn supported_within(g: Seq<Block>, i: int, n: nat) -> bool
    decreases n,
{
    if !(0 <= i < 128) || g[i] == Block::Empty {
        false
    } else if held(g, i) {
        true
    } else if n == 0 {
        false
    } else {
        ||| supported_within(g, i + 8, (n - 1) as nat)
        ||| (g[i] is Stack && supported_within(g, partner_index(g, i), (n - 1) as nat))
    }
}

/// Something holds the cell up: it rests, directly or through other loose
/// cells and their other halves, on a cell that stays where it is.
pub open spec fn supported(g: Seq<Block>, i: int) -> bool {
    exists|n: nat| supported_within(g, i, n)
}

/// The cell is loose and nothing holds it up.
pub open spec fn falls(g: Seq<Block>, i: int) -> bool {
    0 <= i < 120 && loose(g[i]) && !supported(g, i)
}

/// Some cell of the grid hangs in the air.
pub open spec fn any_falls(g: Seq<Block>) -> bool {
    exists|i: int| falls(g, i)
}

/// The grid after every cell that hangs in the air has gone down one row.
pub open spec fn settled_once(g: Seq<Block>) -> Seq<Block> {
    Seq::new(
        128,
        |i: int|
            if i >= 8 && falls(g, i - 8) {
                g[i - 8]
            } else if falls(g, i) {
                Block::Empty
            } else {
                g[i]
            },
    )
}

/// The grid after `rounds` rounds in which every cell that hangs in the air
/// goes down one row.
pub open spec fn settled(g: Seq<Block>, rounds: nat) -> Seq<Block>
    decreases rounds,
{
    if rounds == 0 {
        g
    } else {
        settled(settled_once(g), (rounds - 1) as nat)
    }
}

/// The cell at index `d` is waiting in the queue.
pub open spec fn queued(queue: Seq<BottlePoint>, d: int) -> bool {
    exists|j: int| 0 <= j < queue.len() && point_index(#[trigger] queue[j]) == d
}

/// How many of the first `n` marks are set.
pub open spec fn count_true(marks: Seq<bool>, n: int) -> int
    decreases n,
{
    if n <= 0 {
        0
    } else {
        count_true(marks, n - 1) + if marks[n - 1] {
            1int
        } else {
            0int
        }
    }
}

/// No more marks are set than there are, and none is counted where none is set.
pub proof fn lemma_count_true(marks: Seq<bool>, n: int)
    requires
        0 <= n <= marks.len(),
    ensures
        0 <= count_true(marks, n) <= n,
        count_true(marks, n) == 0 <==> forall|i: int| 0 <= i < n ==> !marks[i],
    decreases n,
{
    if n > 0 {
        lemma_count_true(marks, n - 1);
    }
}

/// Setting a mark that was not set makes one more.
pub proof fn lemma_count_set(marks: Seq<bool>, at: int, n: int)
    requires
        0 <= n <= marks.len(),
        0 <= at < marks.len(),
        !marks[at],
    ensures
        count_true(marks.update(at, true), n) == count_true(marks, n) + if at < n {
            1int
        } else {
            0int
        },
    decreases n,
{
    if n > 0 {
        lemma_count_set(marks, at, n - 1);
    }
}

/// What waits after a cell has joined the queue is what waited before, and that cell.
pub proof fn lemma_queued_push(queue: Seq<BottlePoint>, p: BottlePoint, d: int)
    ensures
        queued(queue.push(p), d) <==> queued(queue, d) || point_index(p) == d,
{
    let longer = queue.push(p);
    if queued(queue, d) {
        let j = choose|j: int| 0 <= j < queue.len() && point_index(#[trigger] queue[j]) == d;
        assert(point_index(longer[j]) == d);
    }
    if point_index(p) == d {
        assert(point_index(longer[queue.len() as int]) == d);
    }
    if queued(longer, d) {
        let j = choose|j: int| 0 <= j < longer.len() && point_index(#[trigger] longer[j]) == d;
        if j < queue.len() {
            assert(point_index(queue[j]) == d);
        }
    }
}

/// What waited before the last cell left the queue is what waits now, and that cell.
pub proof fn lemma_queued_pop(queue: Seq<BottlePoint>, d: int)
    requires
        queue.len() > 0,
    ensures
        queued(queue, d) <==> queued(queue.drop_last(), d) || point_index(queue.last()) == d,
{
    let shorter = queue.drop_last();
    if queued(shorter, d) {
        let j = choose|j: int| 0 <= j < shorter.len() && point_index(#[trigger] shorter[j]) == d;
        assert(point_index(queue[j]) == d);
    }
    if point_index(queue.last()) == d {
        assert(point_index(queue[queue.len() - 1]) == d);
    }
    if queued(queue, d) {
        let j = choose|j: int| 0 <= j < queue.len() && point_index(#[trigger] queue[j]) == d;
        if j < shorter.len() {
            assert(point_index(shorter[j]) == d);
        }
    }
}

/// A cell that stays where it is holds itself up.
pub proof fn lemma_held_supported(g: Seq<Block>, i: int)
    requires
        0 <= i < 128,
        held(g, i),
    ensures
        supported(g, i),
{
    assert(supported_within(g, i, 0));
}

/// A loose cell above the floor is held up by whatever holds up the cell
/// below it, and a locked half by whatever holds up its other half.
pub proof fn lemma_supported_step(g: Seq<Block>, i: int, d: int)
    requires
        0 <= i < 120,
        loose(g[i]),
        d == i + 8 || (g[i] is Stack && d == partner_index(g, i)),
        supported(g, d),
    ensures
        supported(g, i),
{
    let n = choose|n: nat| supported_within(g, d, n);
    assert(supported_within(g, i, n + 1));
}

/// Nothing at index `d` can hold a cell up: it is outside the grid, empty,
/// marked, or still waiting to be looked at.
pub open spec fn gives_way(g: Seq<Block>, marks: Seq<bool>, queue: Seq<BottlePoint>, d: int) -> bool {
    !(0 <= d < 128) || g[d] == Block::Empty || marks[d] || queued(queue, d)
}

/// The cell at index `i` is loose and above the floor, and neither the cell
/// below it nor, for a locked half, its other half can hold it up.
pub open spec fn hangs(g: Seq<Block>, marks: Seq<bool>, queue: Seq<BottlePoint>, i: int) -> bool {
    &&& i < 120
    &&& loose(g[i])
    &&& gives_way(g, marks, queue, i + 8)
    &&& g[i] is Stack ==> gives_way(g, marks, queue, partner_index(g, i))
}

/// The marked cells rest on nothing but each other.
pub open spec fn closed_group(g: Seq<Block>, marks: Seq<bool>) -> bool {
    forall|i: int| 0 <= i < 128 && #[trigger] marks[i] ==> hangs(g, marks, Seq::empty(), i)
}

proof fn lemma_closed_unsupported(g: Seq<Block>, marks: Seq<bool>, i: int, n: nat)
    requires
        is_grid(g),
        marks.len() == 128,
        closed_group(g, marks),
        0 <= i < 128,
        marks[i],
    ensures
        !supported_within(g, i, n),
    decreases n,
{
    reveal_with_fuel(supported_within, 2);
    assert(hangs(g, marks, Seq::empty(), i));
    assert(forall|d: int| !queued(Seq::<BottlePoint>::empty(), d));
    if n > 0 {
        if marks[i + 8] {
            lemma_closed_unsupported(g, marks, i + 8, (n - 1) as nat);
        }
        if g[i] is Stack {
            let p = partner_index(g, i);
            if 0 <= p < 128 && marks[p] {
                lemma_closed_unsupported(g, marks, p, (n - 1) as nat);
            }
        }
    }
}

/// Cells that rest on nothing but each other all hang in the air.
pub proof fn lemma_closed_falls(g: Seq<Block>, marks: Seq<bool>)
    requires
        is_grid(g),
        marks.len() == 128,
        closed_group(g, marks),
    ensures
        forall|i: int| 0 <= i < 128 && marks[i] ==> falls(g, i),
{
    assert forall|i: int| 0 <= i < 128 && marks[i] implies falls(g, i) by {
        assert forall|n: nat| !supported_within(g, i, n) by {
            lemma_closed_unsupported(g, marks, i, n);
        }
    }
}

/// What hangs in the air rests on nothing but what hangs in the air: below
/// it there is such a cell or none at all, and the other half of a locked
/// half that hangs in the air does so too.
pub proof fn lemma_falls_closed(g: Seq<Block>, i: int)
    requires
        is_grid(g),
        paired(g),
        falls(g, i),
    ensures
        g[i + 8] == Block::Empty || falls(g, i + 8),
        g[i] is Stack ==> falls(g, partner_index(g, i)),
{
    let below = i + 8;
    if g[below] != Block::Empty && !falls(g, below) {
        if held(g, below) {
            lemma_held_supported(g, below);
        }
        lemma_supported_step(g, i, below);
    }
    if g[i] is Stack {
        assert(has_partner(g, i));
        lemma_partner_back(g, i);
        let p = partner_index(g, i);
        if !falls(g, p) {
            if held(g, p) {
                lemma_held_supported(g, p);
            }
            lemma_supported_step(g, i, p);
        }
    }
}

/// When the loose cells that hang in the air go down a row, every locked
/// half keeps its other half beside it.
pub proof fn lemma_settled_paired(g: Seq<Block>)
    requires
        is_grid(g),
        paired(g),
    ensures
        paired(settled_once(g)),
{
    let after = settled_once(g);
    assert forall|j: int| 0 <= j < 128 implies #[trigger] has_partner(after, j) by {
        if after[j] is Stack {
            if j >= 8 && falls(g, j - 8) {
                let i = j - 8;
                assert(has_partner(g, i));
                lemma_partner_back(g, i);
                lemma_falls_closed(g, i);
                let p = partner_index(g, i);
                assert(falls(g, p));
                assert(after[p + 8] == g[p]);
            } else {
                assert(!falls(g, j));
                assert(has_partner(g, j));
                lemma_partner_back(g, j);
                let p = partner_index(g, j);
                assert(has_partner(g, p));
                if falls(g, p) {
                    lemma_falls_closed(g, p);
                }
                if p >= 8 && falls(g, p - 8) {
                    lemma_falls_closed(g, p - 8);
                }
                assert(after[p] == g[p]);
            }
        }
    }
}

proof fn lemma_supported_within_stays(g: Seq<Block>, i: int, n: nat)
    requires
        is_grid(g),
        paired(g),
        supported_within(g, i, n),
    ensures
        settled_once(g)[i] == g[i],
        supported_within(settled_once(g), i, n),
    decreases n,
{
    let h = settled_once(g);
    assert(supported(g, i));
    if i >= 8 && falls(g, i - 8) {
        lemma_falls_closed(g, i - 8);
    }
    assert(h[i] == g[i]);
    if !held(g, i) {
        if supported_within(g, i + 8, (n - 1) as nat) {
            lemma_supported_within_stays(g, i + 8, (n - 1) as nat);
        } else {
            lemma_supported_within_stays(g, partner_index(g, i), (n - 1) as nat);
        }
    }
}

/// A cell that something holds up stays where it is when the cells that
/// hang in the air go down, and is held up afterwards as before.
pub proof fn lemma_supported_stays(g: Seq<Block>, i: int)
    requires
        is_grid(g),
        paired(g),
        supported(g, i),
    ensures
        settled_once(g)[i] == g[i],
        supported(settled_once(g), i),
{
    let n = choose|n: nat| supported_within(g, i, n);
    lemma_supported_within_stays(g, i, n);
}

/// A loose cell without another half that has nothing below it hangs in the air.
pub proof fn lemma_garbage_over_nothing_falls(g: Seq<Block>, i: int)
    requires
        is_grid(g),
        0 <= i < 120,
        g[i] is Garbage,
        g[i + 8] == Block::Empty,
    ensures
        falls(g, i),
{
    reveal_with_fuel(supported_within, 2);
    assert forall|n: nat| !supported_within(g, i, n) by {}
}

/// A loose cell without another half, with `rows` empty cells below it and
/// under those the floor or a cell that something holds up, goes down one
/// row in each of the next `rows` rounds of settling, so in each of them
/// something moves; after them it lies on the floor or on that cell, and
/// hangs in the air no longer.
pub proof fn lemma_garbage_settles(g: Seq<Block>, x: int, y: int, rows: nat)
    requires
        is_grid(g),
        paired(g),
        0 <= x < 8,
        0 <= y,
        y + rows <= 15,
        g[cell_index(x, y)] is Garbage,
        forall|j: int| 1 <= j <= rows ==> g[#[trigger] cell_index(x, y + j)] == Block::Empty,
        y + rows == 15 || supported(g, cell_index(x, y + rows + 1)),
    ensures
        forall|round: nat| round < rows ==> any_falls(#[trigger] settled(g, round)),
        settled(g, rows)[cell_index(x, y + rows)] == g[cell_index(x, y)],
        !falls(settled(g, rows), cell_index(x, y + rows)),
    decreases rows,
{
    let i = cell_index(x, y);
    if rows == 0 {
        if y < 15 {
            lemma_supported_step(g, i, i + 8);
        }
    } else {
        let h = settled_once(g);
        assert(g[cell_index(x, y + 1)] == Block::Empty);
        lemma_garbage_over_nothing_falls(g, i);
        lemma_settled_paired(g);
        assert forall|j: int| 1 <= j <= rows - 1 implies h[#[trigger] cell_index(x, y + 1 + j)]
            == Block::Empty by {
            assert(g[cell_index(x, y + j)] == Block::Empty);
            assert(g[cell_index(x, y + (j + 1))] == Block::Empty);
        }
        if y + rows < 15 {
            lemma_supported_stays(g, cell_index(x, y + rows + 1));
        }
        lemma_garbage_settles(h, x, y + 1, (rows - 1) as nat);
        assert forall|round: nat| round < rows implies any_falls(#[trigger] settled(g, round)) by {
            if round > 0 {
                assert(settled(g, round) == settled(h, (round - 1) as nat));
            }
        }
    }
}

/// Loose cells that go down make no virus, no preview and no half of a capsule.
pub proof fn lemma_settled_no_new(g: Seq<Block>)
    requires
        is_grid(g),
    ensures
        no_new_virus(g, settled_once(g)),
        no_new_trace(g, settled_once(g)),
{
}

} // verus!
