//! The grid as a sequence of cells, and what a capsule does to it. Everything
//! here is specification: the bottle's contracts are written in these terms.

use crate::block::{Block, lemma_partner_offset, partner_offset};
use crate::event::ColoredBlock;
use crate::geometry::BottlePoint;
use crate::pill::{Garbage, VirusColor, Vitamin, Vitamins};
use vstd::prelude::*;

verus! {

pub const BOTTLE_WIDTH: u32 = 8;

pub const BOTTLE_HEIGHT: u32 = 16;

pub const BOTTLE_FLOOR: u32 = BOTTLE_HEIGHT - 1;

pub const TOTAL_BLOCKS: u32 = 128;

pub open spec fn in_bounds(x: int, y: int) -> bool {
    0 <= x < 8 && 0 <= y < 16
}

pub open spec fn point_in_bounds(p: BottlePoint) -> bool {
    in_bounds(p.x as int, p.y as int)
}

/// Cells are kept row by row, the top row first.
pub open spec fn cell_index(x: int, y: int) -> int {
    y * 8 + x
}

pub open spec fn point_index(p: BottlePoint) -> int {
    cell_index(p.x as int, p.y as int)
}

/// The point whose cell is kept at an index.
pub open spec fn point_at(i: int) -> BottlePoint {
    BottlePoint { x: (i % 8) as i32, y: (i / 8) as i32 }
}

pub open spec fn is_grid(g: Seq<Block>) -> bool {
    g.len() == 128
}

pub open spec fn halves_in_bounds(v: Vitamins) -> bool {
    point_in_bounds(v[0].position) && point_in_bounds(v[1].position)
}

/// The two halves occupy different cells.
pub open spec fn halves_apart(v: Vitamins) -> bool {
    v[0].position != v[1].position
}

pub open spec fn lowered_half(v: Vitamin, rows: int) -> Vitamin {
    Vitamin { position: BottlePoint { x: v.position.x, y: (v.position.y + rows) as i32 }, ..v }
}

/// The halves as they would be a number of rows further down.
pub open spec fn lowered(v: Vitamins, rows: int) -> Vitamins {
    [lowered_half(v[0], rows), lowered_half(v[1], rows)]
}

/// A half cannot go down: it is on the floor, or what lies below stops it.
pub open spec fn blocked_below(g: Seq<Block>, v: Vitamin) -> bool {
    v.position.y >= 15 || g[cell_index(v.position.x as int, v.position.y + 1)].destructible()
}

/// A capsule cannot go down as soon as one of its halves cannot.
pub open spec fn collides(g: Seq<Block>, v: Vitamins) -> bool {
    blocked_below(g, v[0]) || blocked_below(g, v[1])
}

/// How many rows a capsule can fall before it comes to rest.
pub open spec fn drop_rows(g: Seq<Block>, v: Vitamins) -> nat
    decreases 15 - v[0].position.y,
{
    if collides(g, v) {
        0
    } else {
        1 + drop_rows(g, lowered(v, 1))
    }
}

/// A cell is inside the grid and holds nothing that stops a capsule.
pub open spec fn free_at(g: Seq<Block>, x: int, y: int) -> bool {
    in_bounds(x, y) && !g[cell_index(x, y)].destructible()
}

/// Both halves could stand `dx` columns and `dy` rows from where they are.
pub open spec fn can_shift(g: Seq<Block>, v: Vitamins, dx: int, dy: int) -> bool {
    &&& free_at(g, v[0].position.x + dx, v[0].position.y + dy)
    &&& free_at(g, v[1].position.x + dx, v[1].position.y + dy)
}

pub open spec fn vitamin_block(v: Vitamin) -> Block {
    Block::Vitamin(v.color, v.rotation, v.ordinal)
}

pub open spec fn stack_block(v: Vitamin) -> Block {
    Block::Stack(v.color, v.rotation, v.ordinal)
}

pub open spec fn ghost_block(v: Vitamin) -> Block {
    Block::GhostVitamin(v.color, v.rotation, v.ordinal)
}

/// The grid with the cells of both halves overwritten.
pub open spec fn with_halves(g: Seq<Block>, v: Vitamins, left: Block, right: Block) -> Seq<Block> {
    g.update(point_index(v[0].position), left).update(point_index(v[1].position), right)
}

/// The grid with the capsule taken off.
pub open spec fn cleared(g: Seq<Block>, v: Vitamins) -> Seq<Block> {
    with_halves(g, v, Block::Empty, Block::Empty)
}

/// The grid with the capsule written on.
pub open spec fn placed(g: Seq<Block>, v: Vitamins) -> Seq<Block> {
    with_halves(g, v, vitamin_block(v[0]), vitamin_block(v[1]))
}

/// The grid with the capsule turned into two locked halves.
pub open spec fn locked(g: Seq<Block>, v: Vitamins) -> Seq<Block> {
    with_halves(g, v, stack_block(v[0]), stack_block(v[1]))
}

/// The grid with every preview cell emptied.
pub open spec fn unghosted(g: Seq<Block>) -> Seq<Block> {
    Seq::new(g.len(), |i: int| g[i].without_ghost())
}

/// A preview of one half, drawn only where the grid is empty.
pub open spec fn with_ghost(g: Seq<Block>, v: Vitamin) -> Seq<Block> {
    if g[point_index(v.position)] == Block::Empty {
        g.update(point_index(v.position), ghost_block(v))
    } else {
        g
    }
}

/// The grid with the preview of where the capsule would land.
pub open spec fn ghosted(g: Seq<Block>, v: Vitamins) -> Seq<Block> {
    let landing = lowered(v, drop_rows(g, v) as int);
    with_ghost(with_ghost(g, landing[0]), landing[1])
}

/// The grid with the preview drawn afresh for the capsule, if there is one.
pub open spec fn rendered(g: Seq<Block>, v: Option<Vitamins>) -> Seq<Block> {
    match v {
        Some(v) => ghosted(unghosted(g), v),
        None => unghosted(g),
    }
}

/// The halves where the capsule would come to rest if it fell from where it is.
pub open spec fn landing_of(g: Seq<Block>, v: Vitamins) -> Vitamins {
    lowered(v, drop_rows(g, v) as int)
}

/// The cell at index `i` is the cell of one of the halves.
pub open spec fn holds_half(v: Vitamins, i: int) -> bool {
    i == point_index(v[0].position) || i == point_index(v[1].position)
}

/// `h` holds all that `g` holds, previews apart: what is neither empty nor
/// a preview in `g` is the same in `h`, and a preview stands in `h` only
/// where `g` is empty or has a preview.
pub open spec fn keeps_content(g: Seq<Block>, h: Seq<Block>) -> bool {
    forall|i: int|
        0 <= i < 128 ==> {
            &&& !((#[trigger] g[i]) is GhostVitamin) && g[i] != Block::Empty ==> h[i] == g[i]
            &&& h[i] is GhostVitamin ==> g[i] is GhostVitamin || g[i] == Block::Empty
        }
}

/// The preview cells of `h` are exactly the cells in which the capsule
/// would land in `g` and in which `g` holds nothing, old previews apart;
/// each previews the half that would land in it. Without a capsule `h`
/// has no preview cell.
pub open spec fn previews(g: Seq<Block>, h: Seq<Block>, v: Option<Vitamins>) -> bool {
    match v {
        None => forall|i: int| 0 <= i < 128 ==> !((#[trigger] h[i]) is GhostVitamin),
        Some(v) => {
            let landing = landing_of(g, v);
            &&& forall|i: int|
                0 <= i < 128 ==> ((#[trigger] h[i]) is GhostVitamin <==> holds_half(landing, i)
                    && g[i].without_ghost() == Block::Empty)
            &&& h[point_index(landing[0].position)] is GhostVitamin ==> h[point_index(
                landing[0].position,
            )] == ghost_block(landing[0])
            &&& h[point_index(landing[1].position)] is GhostVitamin ==> h[point_index(
                landing[1].position,
            )] == ghost_block(landing[1])
        },
    }
}

/// The preview cells of `h` are exactly the cells in which the capsule
/// would land in `g`, but for those that the capsule is in already.
pub open spec fn previews_beyond_capsule(g: Seq<Block>, h: Seq<Block>, v: Vitamins) -> bool {
    forall|i: int|
        0 <= i < 128 ==> ((#[trigger] h[i]) is GhostVitamin <==> holds_half(landing_of(g, v), i)
            && !holds_half(v, i))
}

/// The grid after the capsule has gone from one place to another.
pub open spec fn after_move(g: Seq<Block>, from: Vitamins, to: Vitamins) -> Seq<Block> {
    rendered(placed(cleared(g, from), to), Some(to))
}

/// The grid with the capsule written wherever nothing stands in its way.
pub open spec fn placed_where_free(g: Seq<Block>, v: Vitamins) -> Seq<Block> {
    let first = if g[point_index(v[0].position)].destructible() {
        g
    } else {
        g.update(point_index(v[0].position), vitamin_block(v[0]))
    };
    if first[point_index(v[1].position)].destructible() {
        first
    } else {
        first.update(point_index(v[1].position), vitamin_block(v[1]))
    }
}

/// Both cells are free once a kick has been added to them.
pub open spec fn kick_fits(g: Seq<Block>, cells: [BottlePoint; 2], kick: (i32, i32)) -> bool {
    &&& free_at(g, cells[0].x + kick.0, cells[0].y + kick.1)
    &&& free_at(g, cells[1].x + kick.0, cells[1].y + kick.1)
}

/// The first kick that fits among those from position `from` on.
pub open spec fn first_kick(
    g: Seq<Block>,
    cells: [BottlePoint; 2],
    kicks: Seq<(i32, i32)>,
    from: int,
) -> Option<(i32, i32)>
    decreases kicks.len() - from,
{
    if from < 0 || from >= kicks.len() {
        None
    } else if kick_fits(g, cells, kicks[from]) {
        Some(kicks[from])
    } else {
        first_kick(g, cells, kicks, from + 1)
    }
}

/// Every half of the capsule is in the grid, as itself.
pub open spec fn shows(g: Seq<Block>, v: Vitamins) -> bool {
    &&& g[point_index(v[0].position)] == vitamin_block(v[0])
    &&& g[point_index(v[1].position)] == vitamin_block(v[1])
}

/// What is reported of the marked cells among the first `n`, row by row
/// from the top and from left to right within a row.
pub open spec fn listed(g: Seq<Block>, marks: Seq<bool>, n: int) -> Seq<ColoredBlock>
    decreases n,
{
    if n <= 0 {
        Seq::empty()
    } else if marks[n - 1] {
        listed(g, marks, n - 1).push(ColoredBlock::of(point_at(n - 1), g[n - 1]))
    } else {
        listed(g, marks, n - 1)
    }
}

/// Which cells hold a virus.
pub open spec fn virus_marks(g: Seq<Block>) -> Seq<bool> {
    Seq::new(128, |i: int| g[i] is Virus)
}

/// The viruses of a grid, row by row.
pub open spec fn viruses_of(g: Seq<Block>) -> Seq<ColoredBlock> {
    listed(g, virus_marks(g), 128)
}

/// For a locked half, the index of the cell in which its other half
/// belongs; for every other cell, its own index.
pub open spec fn partner_index(g: Seq<Block>, i: int) -> int {
    match g[i] {
        Block::Stack(_, rotation, ordinal) => i + 8 * partner_offset(rotation, ordinal).1
            + partner_offset(rotation, ordinal).0,
        _ => i,
    }
}

/// A locked half has its other half beside it: the cell one step towards
/// it is in the grid and holds a locked half of the same rotation and the
/// other ordinal.
pub open spec fn has_partner(g: Seq<Block>, i: int) -> bool {
    match g[i] {
        Block::Stack(_, rotation, ordinal) => {
            let at = point_at(i);
            let step = partner_offset(rotation, ordinal);
            &&& in_bounds(at.x + step.0, at.y + step.1)
            &&& g[partner_index(g, i)] matches Block::Stack(_, r, o)
            &&& r == rotation
            &&& o == ordinal.other()
        },
        _ => true,
    }
}

/// Every locked half has its other half beside it.
pub open spec fn paired(g: Seq<Block>) -> bool {
    forall|i: int| 0 <= i < 128 ==> #[trigger] has_partner(g, i)
}

/// One of the first `n` cells named lies at index `i`.
pub open spec fn hit(cells: Seq<ColoredBlock>, i: int, n: int) -> bool
    decreases n,
{
    if n <= 0 {
        false
    } else {
        hit(cells, i, n - 1) || point_index(cells[n - 1].position) == i
    }
}

/// The grid after the first `n` of the cells named have been destroyed:
/// each of them is empty, and a locked half whose other half is among them
/// has become a loose cell of its own color.
pub open spec fn destroyed(g: Seq<Block>, cells: Seq<ColoredBlock>, n: int) -> Seq<Block> {
    Seq::new(
        128,
        |i: int|
            if hit(cells, i, n) {
                Block::Empty
            } else if g[i] is Stack && hit(cells, partner_index(g, i), n) {
                Block::Garbage(g[i].color_of().unwrap())
            } else {
                g[i]
            },
    )
}

/// The columns among the first `n` whose top cell is empty, from the left.
pub open spec fn open_columns(g: Seq<Block>, n: int) -> Seq<u32>
    decreases n,
{
    if n <= 0 {
        Seq::empty()
    } else if g[n - 1] == Block::Empty {
        open_columns(g, n - 1).push((n - 1) as u32)
    } else {
        open_columns(g, n - 1)
    }
}

/// How many loose cells are dropped in: one for each color, as long as
/// there are columns for them.
pub open spec fn garbage_count(colors: Seq<VirusColor>, columns: Seq<u32>) -> int {
    if colors.len() <= columns.len() {
        colors.len() as int
    } else {
        columns.len() as int
    }
}

/// The `k`-th loose cell that is dropped in: it has the `k`-th color and
/// goes to the top of the `k`-th column from the end of the list.
pub open spec fn garbage_at(colors: Seq<VirusColor>, columns: Seq<u32>, k: int) -> Garbage {
    Garbage {
        color: colors[k],
        position: BottlePoint { x: columns[columns.len() - 1 - k] as i32, y: 0 },
    }
}

/// The grid after the first `n` loose cells have been dropped in.
pub open spec fn with_garbage(
    g: Seq<Block>,
    colors: Seq<VirusColor>,
    columns: Seq<u32>,
    n: int,
) -> Seq<Block>
    decreases n,
{
    if n <= 0 {
        g
    } else {
        with_garbage(g, colors, columns, n - 1).update(
            columns[columns.len() - n] as int,
            Block::Garbage(colors[n - 1]),
        )
    }
}

/// How many of the first `n` cells named are viruses.
pub open spec fn virus_cells(cells: Seq<ColoredBlock>, n: int) -> int
    decreases n,
{
    if n <= 0 {
        0
    } else {
        virus_cells(cells, n - 1) + if cells[n - 1].is_virus {
            1int
        } else {
            0int
        }
    }
}

/// No cell holds a virus in `h` that held none in `g`.
pub open spec fn no_new_virus(g: Seq<Block>, h: Seq<Block>) -> bool {
    forall|i: int| 0 <= i < 128 && #[trigger] h[i] is Virus ==> g[i] is Virus
}

/// No cell of `h` holds a preview or a half of a falling capsule unless
/// the same cell of `g` does.
pub open spec fn no_new_trace(g: Seq<Block>, h: Seq<Block>) -> bool {
    forall|i: int|
        0 <= i < 128 ==> {
            &&& (#[trigger] h[i]) is GhostVitamin ==> g[i] is GhostVitamin
            &&& h[i] is Vitamin ==> g[i] is Vitamin
        }
}

/// No cell holds a half of a falling capsule but the cells of the halves
/// given; with none given, no cell does.
pub open spec fn only_halves(g: Seq<Block>, v: Option<Vitamins>) -> bool {
    forall|i: int|
        0 <= i < 128 && (#[trigger] g[i]) is Vitamin ==> v is Some && (i == point_index(
            v.unwrap()[0].position,
        ) || i == point_index(v.unwrap()[1].position))
}

/// Lowering by no rows changes nothing, and lowering twice adds up.
pub proof fn lemma_lowered(v: Vitamins, a: int, b: int)
    requires
        halves_in_bounds(v),
        0 <= a,
        0 <= b,
        a + b <= 16,
    ensures
        lowered(v, 0) == v,
        lowered(lowered(v, a), b) == lowered(v, a + b),
{
    assert(lowered(v, 0) =~= v);
    assert(lowered(lowered(v, a), b) =~= lowered(v, a + b));
}

/// A capsule inside the grid stays inside while it falls, and where it
/// comes to rest it can fall no further.
pub proof fn lemma_drop_rows(g: Seq<Block>, v: Vitamins)
    requires
        is_grid(g),
        halves_in_bounds(v),
    ensures
        drop_rows(g, v) <= 15 - v[0].position.y,
        drop_rows(g, v) <= 15 - v[1].position.y,
        halves_in_bounds(lowered(v, drop_rows(g, v) as int)),
        collides(g, lowered(v, drop_rows(g, v) as int)),
        forall|d: int| 0 <= d < drop_rows(g, v) ==> !collides(g, #[trigger] lowered(v, d)),
    decreases 15 - v[0].position.y,
{
    if collides(g, v) {
        assert(lowered(v, 0) =~= v);
    } else {
        let w = lowered(v, 1);
        lemma_drop_rows(g, w);
        let n = drop_rows(g, w) as int;
        assert(lowered(w, n) =~= lowered(v, n + 1));
        assert forall|d: int| 0 <= d < drop_rows(g, v) implies !collides(g, #[trigger] lowered(v, d)) by {
            if d == 0 {
                assert(lowered(v, 0) =~= v);
            } else {
                assert(lowered(w, d - 1) =~= lowered(v, d));
            }
        }
    }
}

/// Preview cells stop nothing, so taking them away changes neither whether
/// a capsule is stopped nor how far it falls.
pub proof fn lemma_unghosted_drop(g: Seq<Block>, v: Vitamins)
    requires
        is_grid(g),
        halves_in_bounds(v),
    ensures
        collides(unghosted(g), v) == collides(g, v),
        drop_rows(unghosted(g), v) == drop_rows(g, v),
    decreases 15 - v[0].position.y,
{
    if !collides(g, v) {
        lemma_unghosted_drop(g, lowered(v, 1));
    }
}

/// Taking previews away twice is taking them away once, and a grid without
/// previews has none to take away.
pub proof fn lemma_unghosted(g: Seq<Block>)
    ensures
        unghosted(unghosted(g)) == unghosted(g),
        unghosted(g).len() == g.len(),
        forall|i: int| 0 <= i < g.len() ==> !(#[trigger] unghosted(g)[i] is GhostVitamin),
{
    assert(unghosted(unghosted(g)) =~= unghosted(g));
}

/// Drawing the preview afresh on a grid whose preview is fresh changes
/// nothing: the preview is exactly where the capsule would land, on empty
/// cells only, and nowhere else.
pub proof fn lemma_rendered_idempotent(g: Seq<Block>, v: Vitamins)
    requires
        is_grid(g),
        halves_in_bounds(v),
    ensures
        rendered(rendered(g, Some(v)), Some(v)) == rendered(g, Some(v)),
        rendered(rendered(g, None), None) == rendered(g, None),
        unghosted(rendered(g, Some(v))) == unghosted(g),
{
    lemma_unghosted(g);
    let base = unghosted(g);
    lemma_drop_rows(base, v);
    let landing = lowered(v, drop_rows(base, v) as int);
    let shown = ghosted(base, v);
    assert(unghosted(shown) =~= base);
}

/// Drawing the preview afresh touches only preview cells and empty cells,
/// and leaves them preview cells or empty.
pub proof fn lemma_rendered_touch(g: Seq<Block>, v: Option<Vitamins>)
    requires
        is_grid(g),
        v matches Some(halves) ==> halves_in_bounds(halves),
    ensures
        is_grid(rendered(g, v)),
        forall|i: int|
            0 <= i < 128 ==> (#[trigger] rendered(g, v)[i]) == g[i] || ((g[i] is GhostVitamin || g[i]
                == Block::Empty) && (rendered(g, v)[i] is GhostVitamin || rendered(g, v)[i]
                == Block::Empty)),
{
    lemma_unghosted(g);
    if let Some(halves) = v {
        lemma_drop_rows(unghosted(g), halves);
    }
}

/// After a move both halves are in the grid as themselves: nothing of the
/// old capsule, of any preview or of what the capsule moved onto is left in
/// their cells.
pub proof fn lemma_after_move_shows(g: Seq<Block>, from: Vitamins, to: Vitamins)
    requires
        is_grid(g),
        halves_in_bounds(from),
        halves_in_bounds(to),
        halves_apart(to),
    ensures
        is_grid(after_move(g, from, to)),
        shows(after_move(g, from, to), to),
        rendered(after_move(g, from, to), Some(to)) == after_move(g, from, to),
{
    let written = placed(cleared(g, from), to);
    lemma_rendered_idempotent(written, to);
    lemma_unghosted(written);
    lemma_drop_rows(unghosted(written), to);
}

/// A capsule that stood on cells of its own and has gone down as far as it
/// can fall is at rest there, whatever the move has drawn or wiped on the way.
pub proof fn lemma_landed(g: Seq<Block>, v: Vitamins, rows: int)
    requires
        is_grid(g),
        halves_in_bounds(v),
        halves_apart(v),
        can_shift(g, v, 0, 0),
        rows == drop_rows(g, v),
    ensures
        collides(after_move(g, v, lowered(v, rows)), lowered(v, rows)),
{
    lemma_drop_rows(g, v);
    let to = lowered(v, rows);
    let written = placed(cleared(g, v), to);
    lemma_unghosted(written);
    lemma_drop_rows(unghosted(written), to);
    if rows > 0 {
        assert(!collides(g, lowered(v, rows - 1)));
        assert(lowered(lowered(v, rows - 1), 1) =~= to);
    } else {
        assert(to =~= v);
    }
    assert(can_shift(g, to, 0, 0));
    let after = after_move(g, v, to);
    if to[0].position.y < 15 && g[cell_index(to[0].position.x as int, to[0].position.y + 1)].destructible() {
        let below = cell_index(to[0].position.x as int, to[0].position.y + 1);
        assert(written[below] == g[below]);
        assert(after[below] == g[below]);
    } else if to[1].position.y < 15 && g[cell_index(to[1].position.x as int, to[1].position.y + 1)].destructible() {
        let below = cell_index(to[1].position.x as int, to[1].position.y + 1);
        assert(written[below] == g[below]);
        assert(after[below] == g[below]);
    }
}

/// The other half of the other half of a locked half is that half itself.
pub proof fn lemma_partner_back(g: Seq<Block>, i: int)
    requires
        is_grid(g),
        0 <= i < 128,
        g[i] is Stack,
        has_partner(g, i),
    ensures
        0 <= partner_index(g, i) < 128,
        partner_index(g, i) != i,
        g[partner_index(g, i)] is Stack,
        partner_index(g, partner_index(g, i)) == i,
{
    match g[i] {
        Block::Stack(_, rotation, ordinal) => {
            lemma_partner_offset(rotation, ordinal);
        },
        _ => {},
    }
}

/// Destroying one more cell of a grid in which every locked half has its
/// other half: the cell is emptied, and if it held a locked half, the other
/// half becomes a loose cell.
pub proof fn lemma_destroy_step(g: Seq<Block>, cells: Seq<ColoredBlock>, n: int)
    requires
        is_grid(g),
        paired(g),
        0 <= n < cells.len(),
        point_in_bounds(cells[n].position),
    ensures
        ({
            let now = destroyed(g, cells, n);
            let at = point_index(cells[n].position);
            let emptied = now.update(at, Block::Empty);
            &&& now[at] is Stack ==> {
                &&& 0 <= partner_index(now, at) < 128
                &&& now[partner_index(now, at)].destructible()
                &&& destroyed(g, cells, n + 1) == emptied.update(
                    partner_index(now, at),
                    Block::Garbage(now[partner_index(now, at)].color_of().unwrap()),
                )
            }
            &&& !(now[at] is Stack) ==> destroyed(g, cells, n + 1) == emptied
        }),
{
    let now = destroyed(g, cells, n);
    let at = point_index(cells[n].position);
    let emptied = now.update(at, Block::Empty);
    let next = destroyed(g, cells, n + 1);
    if now[at] is Stack {
        assert(has_partner(g, at));
        lemma_partner_back(g, at);
        let other = partner_index(g, at);
        assert(has_partner(g, other));
        let expected = emptied.update(other, Block::Garbage(now[other].color_of().unwrap()));
        assert forall|i: int| 0 <= i < 128 implies next[i] == expected[i] by {
            if g[i] is Stack {
                assert(has_partner(g, i));
                lemma_partner_back(g, i);
            }
        }
        assert(next =~= expected);
    } else {
        assert forall|i: int| 0 <= i < 128 implies next[i] == emptied[i] by {
            if g[i] is Stack {
                assert(has_partner(g, i));
                lemma_partner_back(g, i);
            }
            if g[at] is Stack {
                assert(has_partner(g, at));
                lemma_partner_back(g, at);
            }
        }
        assert(next =~= emptied);
    }
}

/// Destroying cells leaves no locked half without its other half.
pub proof fn lemma_destroyed_paired(g: Seq<Block>, cells: Seq<ColoredBlock>, n: int)
    requires
        is_grid(g),
        paired(g),
    ensures
        paired(destroyed(g, cells, n)),
{
    let after = destroyed(g, cells, n);
    assert forall|i: int| 0 <= i < 128 implies #[trigger] has_partner(after, i) by {
        if after[i] is Stack {
            assert(has_partner(g, i));
            lemma_partner_back(g, i);
            assert(has_partner(g, partner_index(g, i)));
        }
    }
}

/// The columns listed as open are columns, and their top cells are empty.
pub proof fn lemma_open_columns(g: Seq<Block>, n: int)
    requires
        is_grid(g),
        n <= 8,
    ensures
        forall|j: int|
            0 <= j < open_columns(g, n).len() ==> (#[trigger] open_columns(g, n)[j]) < 8 && g[open_columns(
                g,
                n,
            )[j] as int] == Block::Empty,
    decreases n,
{
    if n > 0 {
        lemma_open_columns(g, n - 1);
    }
}

/// Loose cells dropped into empty cells change nothing else, so every
/// locked half keeps its other half.
pub proof fn lemma_with_garbage(g: Seq<Block>, colors: Seq<VirusColor>, columns: Seq<u32>, n: int)
    requires
        is_grid(g),
        0 <= n <= garbage_count(colors, columns),
        forall|j: int|
            0 <= j < columns.len() ==> (#[trigger] columns[j]) < 8 && g[columns[j] as int]
                == Block::Empty,
    ensures
        is_grid(with_garbage(g, colors, columns, n)),
        forall|i: int|
            0 <= i < 128 ==> (#[trigger] with_garbage(g, colors, columns, n)[i]) == g[i] || (g[i]
                == Block::Empty && with_garbage(g, colors, columns, n)[i] is Garbage),
        paired(g) ==> paired(with_garbage(g, colors, columns, n)),
    decreases n,
{
    if n > 0 {
        lemma_with_garbage(g, colors, columns, n - 1);
        assert(columns[columns.len() - n] < 8);
    }
    let after = with_garbage(g, colors, columns, n);
    if paired(g) {
        assert forall|i: int| 0 <= i < 128 implies #[trigger] has_partner(after, i) by {
            if after[i] is Stack {
                assert(has_partner(g, i));
                lemma_partner_back(g, i);
            }
        }
    }
}

/// A grid that differs from one in which every locked half has its other
/// half, but in no cell that holds a locked half in either, is such a grid too.
pub proof fn lemma_paired_kept(g: Seq<Block>, h: Seq<Block>)
    requires
        is_grid(g),
        is_grid(h),
        paired(g),
        forall|i: int| 0 <= i < 128 && (g[i] is Stack || h[i] is Stack) ==> g[i] == h[i],
    ensures
        paired(h),
{
    assert forall|i: int| 0 <= i < 128 implies #[trigger] has_partner(h, i) by {
        if h[i] is Stack {
            assert(has_partner(g, i));
            lemma_partner_back(g, i);
        }
    }
}

/// Moving a capsule that overlaps nothing onto free cells, and drawing the
/// preview afresh, touches no locked half.
pub proof fn lemma_after_move_paired(g: Seq<Block>, from: Vitamins, to: Vitamins)
    requires
        is_grid(g),
        paired(g),
        halves_in_bounds(from),
        halves_in_bounds(to),
        shows(g, from),
        can_shift(g, to, 0, 0),
    ensures
        paired(after_move(g, from, to)),
{
    lemma_rendered_touch(placed(cleared(g, from), to), Some(to));
    lemma_paired_kept(g, after_move(g, from, to));
}

/// A capsule written onto free cells, with the preview drawn afresh,
/// touches no locked half.
pub proof fn lemma_spawn_paired(g: Seq<Block>, v: Vitamins)
    requires
        is_grid(g),
        paired(g),
        halves_in_bounds(v),
        can_shift(g, v, 0, 0),
    ensures
        paired(rendered(placed(g, v), Some(v))),
{
    lemma_rendered_touch(placed(g, v), Some(v));
    lemma_paired_kept(g, rendered(placed(g, v), Some(v)));
}

/// A capsule that is taken off, previews and all, leaves every locked half
/// with its other half.
pub proof fn lemma_hold_paired(g: Seq<Block>, v: Vitamins)
    requires
        is_grid(g),
        paired(g),
        halves_in_bounds(v),
        shows(g, v),
    ensures
        paired(unghosted(cleared(g, v))),
{
    lemma_unghosted(cleared(g, v));
    lemma_paired_kept(g, unghosted(cleared(g, v)));
}

/// The two halves of a capsule that locks are each other's other half, and
/// no other locked half is touched.
pub proof fn lemma_locked_paired(g: Seq<Block>, pill: crate::pill::Pill)
    requires
        is_grid(g),
        paired(g),
        pill.wf(),
        halves_in_bounds(pill.vitamins),
        shows(g, pill.vitamins),
    ensures
        paired(locked(g, pill.vitamins)),
{
    let v = pill.vitamins;
    let after = locked(g, v);
    let a = point_index(v[0].position);
    let b = point_index(v[1].position);
    lemma_partner_offset(pill.rotation, crate::pill::VitaminOrdinal::Left);
    lemma_partner_offset(pill.rotation, crate::pill::VitaminOrdinal::Right);
    assert forall|i: int| 0 <= i < 128 implies #[trigger] has_partner(after, i) by {
        if i == a {
            assert(point_at(a) == v[0].position);
            assert(partner_index(after, a) == b);
        } else if i == b {
            assert(point_at(b) == v[1].position);
            assert(partner_index(after, b) == a);
        } else if after[i] is Stack {
            assert(has_partner(g, i));
            lemma_partner_back(g, i);
        }
    }
}

/// Every cell that is listed lies in the grid.
pub proof fn lemma_listed_bounds(g: Seq<Block>, marks: Seq<bool>, n: int)
    requires
        n <= 128,
    ensures
        forall|k: int|
            0 <= k < listed(g, marks, n).len() ==> point_in_bounds(
                (#[trigger] listed(g, marks, n)[k]).position,
            ),
    decreases n,
{
    if n > 0 {
        lemma_listed_bounds(g, marks, n - 1);
    }
}

/// No more viruses are counted than cells are looked at.
pub proof fn lemma_virus_cells(cells: Seq<ColoredBlock>, n: int)
    ensures
        0 <= virus_cells(cells, n),
        virus_cells(cells, n) <= n || n < 0,
    decreases n,
{
    if n > 0 {
        lemma_virus_cells(cells, n - 1);
    }
}

/// Where the preview is after it has been drawn afresh: a cell is a preview
/// cell exactly if the capsule would land in it and nothing else is in it,
/// and it then previews the half that would land there; without a capsule
/// there is none. Every cell that held something other than a preview
/// holds the same afterwards.
pub proof fn lemma_ghost_cells(g: Seq<Block>, v: Option<Vitamins>)
    requires
        is_grid(g),
        v matches Some(halves) ==> halves_in_bounds(halves) && halves_apart(halves),
    ensures
        previews(g, rendered(g, v), v),
        keeps_content(g, rendered(g, v)),
        v matches Some(halves) ==> halves_in_bounds(landing_of(g, halves)) && collides(
            g,
            landing_of(g, halves),
        ),
{
    lemma_unghosted(g);
    if let Some(halves) = v {
        lemma_unghosted_drop(g, halves);
        lemma_drop_rows(unghosted(g), halves);
        lemma_drop_rows(g, halves);
    }
}

/// The cells in which a capsule would land hold nothing that stops a
/// capsule; in a grid in which the capsule overlaps nothing and no cell
/// holds a half of another capsule, they hold nothing at all, previews
/// apart, unless the capsule is in them already.
pub proof fn lemma_landing_free(g: Seq<Block>, v: Vitamins)
    requires
        is_grid(g),
        halves_in_bounds(v),
        shows(g, v),
        only_halves(g, Some(v)),
    ensures
        forall|i: int|
            0 <= i < 128 && holds_half(landing_of(g, v), i) ==> ((#[trigger] g[i]).without_ghost()
                == Block::Empty <==> !holds_half(v, i)),
{
    lemma_drop_rows(g, v);
    let rows = drop_rows(g, v) as int;
    let landing = landing_of(g, v);
    if rows > 0 {
        assert(!collides(g, lowered(v, rows - 1)));
        assert(lowered(lowered(v, rows - 1), 1) =~= landing);
    } else {
        assert(landing =~= v);
    }
}

/// In a grid in which the capsule overlaps nothing and no cell holds a
/// half of another capsule, the preview drawn afresh stands exactly in the
/// cells in which the capsule would land, but for those that the capsule
/// is in already.
pub proof fn lemma_ghost_beyond_capsule(g: Seq<Block>, v: Vitamins)
    requires
        is_grid(g),
        halves_in_bounds(v),
        halves_apart(v),
        shows(g, v),
        only_halves(g, Some(v)),
    ensures
        previews_beyond_capsule(g, rendered(g, Some(v)), v),
{
    lemma_ghost_cells(g, Some(v));
    lemma_landing_free(g, v);
    let h = rendered(g, Some(v));
    assert forall|i: int| 0 <= i < 128 implies ((#[trigger] h[i]) is GhostVitamin <==> holds_half(
        landing_of(g, v),
        i,
    ) && !holds_half(v, i)) by {
        if holds_half(landing_of(g, v), i) {
            assert(g[i].without_ghost() == Block::Empty <==> !holds_half(v, i));
        }
    }
}

proof fn lemma_fewer_listed(g: Seq<Block>, h: Seq<Block>, n: int)
    requires
        no_new_virus(g, h),
        n <= 128,
    ensures
        listed(h, virus_marks(h), n).len() <= listed(g, virus_marks(g), n).len(),
    decreases n,
{
    if n > 0 {
        lemma_fewer_listed(g, h, n - 1);
        assert(virus_marks(h)[n - 1] == (h[n - 1] is Virus));
        assert(virus_marks(g)[n - 1] == (g[n - 1] is Virus));
    }
}

/// A grid without new viruses has no more viruses.
pub proof fn lemma_fewer_viruses(g: Seq<Block>, h: Seq<Block>)
    requires
        no_new_virus(g, h),
    ensures
        viruses_of(h).len() <= viruses_of(g).len(),
{
    lemma_fewer_listed(g, h, 128);
}

/// Neither a capsule that spawns, moves, locks or is taken off, nor a
/// preview that is drawn afresh, nor cells that are destroyed or dropped
/// in, make a virus.
pub proof fn lemma_no_new_virus(g: Seq<Block>, from: Vitamins, to: Vitamins)
    requires
        is_grid(g),
        halves_in_bounds(from),
        halves_in_bounds(to),
    ensures
        no_new_virus(g, after_move(g, from, to)),
        no_new_virus(g, rendered(placed(g, to), Some(to))),
        no_new_virus(g, placed_where_free(g, to)),
        no_new_virus(g, locked(g, from)),
        no_new_virus(g, unghosted(cleared(g, from))),
        no_new_virus(g, rendered(g, Some(to))),
        no_new_virus(g, rendered(g, None)),
{
    lemma_rendered_touch(g, Some(to));
    lemma_rendered_touch(g, None);
    lemma_rendered_touch(placed(cleared(g, from), to), Some(to));
    lemma_rendered_touch(placed(g, to), Some(to));
    lemma_rendered_touch(cleared(g, from), None);
}

/// Destroying cells makes no virus.
pub proof fn lemma_destroyed_no_new_virus(g: Seq<Block>, cells: Seq<ColoredBlock>, n: int)
    requires
        is_grid(g),
    ensures
        no_new_virus(g, destroyed(g, cells, n)),
{
}

/// Dropping loose cells in makes no virus.
pub proof fn lemma_garbage_no_new_virus(
    g: Seq<Block>,
    colors: Seq<VirusColor>,
    columns: Seq<u32>,
    n: int,
)
    requires
        is_grid(g),
        forall|j: int| 0 <= j < columns.len() ==> (#[trigger] columns[j]) < 8,
        n <= garbage_count(colors, columns),
    ensures
        is_grid(with_garbage(g, colors, columns, n)),
        no_new_virus(g, with_garbage(g, colors, columns, n)),
    decreases n,
{
    if n > 0 {
        lemma_garbage_no_new_virus(g, colors, columns, n - 1);
        assert(columns[columns.len() - n] < 8);
    }
}

/// A grid without a capsule that gains neither a preview cell nor a half
/// of a capsule keeps its preview fresh, which is to have none, and stays
/// without halves of capsules.
pub proof fn lemma_quiet(g: Seq<Block>, h: Seq<Block>)
    requires
        is_grid(g),
        is_grid(h),
        no_new_trace(g, h),
    ensures
        g == rendered(g, None) ==> h == rendered(h, None),
        only_halves(g, None) ==> only_halves(h, None),
{
    if g == rendered(g, None) {
        assert forall|i: int| 0 <= i < 128 implies !(#[trigger] h[i] is GhostVitamin) by {
            assert(g[i] == unghosted(g)[i]);
        }
        assert(h =~= unghosted(h));
    }
}

/// A move takes the old halves off, so afterwards no cell holds a half
/// but the cells of the new halves.
pub proof fn lemma_only_halves_moved(g: Seq<Block>, from: Vitamins, to: Vitamins)
    requires
        is_grid(g),
        halves_in_bounds(from),
        halves_in_bounds(to),
        only_halves(g, Some(from)),
    ensures
        only_halves(after_move(g, from, to), Some(to)),
{
    let written = placed(cleared(g, from), to);
    lemma_rendered_touch(written, Some(to));
    let moved = after_move(g, from, to);
    assert forall|i: int| 0 <= i < 128 && (#[trigger] moved[i]) is Vitamin implies i
        == point_index(to[0].position) || i == point_index(to[1].position) by {
        assert(written[i] is Vitamin);
        if i != point_index(to[0].position) && i != point_index(to[1].position) {
            assert(g[i] is Vitamin);
        }
    }
}

/// A capsule that locks or is taken off leaves no half of a capsule behind.
pub proof fn lemma_only_halves_gone(g: Seq<Block>, from: Vitamins)
    requires
        is_grid(g),
        halves_in_bounds(from),
        only_halves(g, Some(from)),
    ensures
        only_halves(locked(g, from), None),
        only_halves(unghosted(cleared(g, from)), None),
{
    let after = locked(g, from);
    assert forall|i: int| 0 <= i < 128 implies !((#[trigger] after[i]) is Vitamin) by {
        if after[i] is Vitamin {
            assert(g[i] is Vitamin);
        }
    }
    let off = unghosted(cleared(g, from));
    assert forall|i: int| 0 <= i < 128 implies !((#[trigger] off[i]) is Vitamin) by {
        if off[i] is Vitamin {
            assert(cleared(g, from)[i] is Vitamin);
            assert(g[i] is Vitamin);
        }
    }
}

/// A capsule that spawns into a grid without halves of capsules brings
/// its own two and no others.
pub proof fn lemma_only_halves_spawned(g: Seq<Block>, to: Vitamins)
    requires
        is_grid(g),
        halves_in_bounds(to),
        only_halves(g, None),
    ensures
        only_halves(rendered(placed(g, to), Some(to)), Some(to)),
{
    let written = placed(g, to);
    lemma_rendered_touch(written, Some(to));
    let shown = rendered(written, Some(to));
    assert forall|i: int| 0 <= i < 128 && (#[trigger] shown[i]) is Vitamin implies i
        == point_index(to[0].position) || i == point_index(to[1].position) by {
        assert(written[i] is Vitamin);
        if i != point_index(to[0].position) && i != point_index(to[1].position) {
            assert(g[i] is Vitamin);
        }
    }
}

/// A capsule at rest whose preview is fresh has no preview at all, so the
/// grid has none after the capsule has locked.
pub proof fn lemma_locked_fresh(g: Seq<Block>, v: Vitamins)
    requires
        is_grid(g),
        halves_in_bounds(v),
        shows(g, v),
        collides(g, v),
        g == rendered(g, Some(v)),
    ensures
        locked(g, v) == rendered(locked(g, v), None),
{
    lemma_unghosted(g);
    lemma_unghosted_drop(g, v);
    assert(lowered(v, 0) =~= v);
    let base = unghosted(g);
    assert(g =~= base);
    assert(locked(g, v) =~= unghosted(locked(g, v)));
}

/// Destroying cells and dropping loose cells in add neither a preview
/// cell nor a half of a capsule.
pub proof fn lemma_no_new_trace(
    g: Seq<Block>,
    cells: Seq<ColoredBlock>,
    colors: Seq<VirusColor>,
    columns: Seq<u32>,
    n: int,
    m: int,
)
    requires
        is_grid(g),
        forall|j: int| 0 <= j < columns.len() ==> (#[trigger] columns[j]) < 8,
        m <= garbage_count(colors, columns),
    ensures
        no_new_trace(g, destroyed(g, cells, n)),
        no_new_trace(g, with_garbage(g, colors, columns, m)),
        is_grid(with_garbage(g, colors, columns, m)),
    decreases m,
{
    if m > 0 {
        lemma_no_new_trace(g, cells, colors, columns, n, m - 1);
        assert(columns[columns.len() - m] < 8);
    }
}

} // verus!
