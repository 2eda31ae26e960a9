//! Runs of four or more cells of one color, along the rows and along the columns.

use crate::block::Block;
use crate::pill::VirusColor;
use vstd::prelude::*;

verus! {

/// A row has eight cells, a column sixteen.
pub open spec fn line_len(vertical: bool) -> int {
    if vertical {
        16
    } else {
        8
    }
}

/// There are sixteen rows and eight columns.
pub open spec fn line_count(vertical: bool) -> int {
    if vertical {
        8
    } else {
        16
    }
}

/// The index of the `k`-th cell of a line: of row `line` from the left, or
/// of column `line` from the top.
pub open spec fn line_index(vertical: bool, line: int, k: int) -> int {
    if vertical {
        k * 8 + line
    } else {
        line * 8 + k
    }
}

/// The line through the cell at an index, and the cell's place on it.
pub open spec fn line_place(vertical: bool, i: int) -> (int, int) {
    if vertical {
        (i % 8, i / 8)
    } else {
        (i / 8, i % 8)
    }
}

/// The color of the `k`-th cell of a line, if it has one that can be
/// matched; beyond either end of the line there is none.
pub open spec fn color_at(g: Seq<Block>, vertical: bool, line: int, k: int) -> Option<VirusColor> {
    if 0 <= k < line_len(vertical) {
        g[line_index(vertical, line, k)].color_of()
    } else {
        None
    }
}

/// How many cells of one color in a row end at the `k`-th cell of a line.
pub open spec fn run_len(g: Seq<Block>, vertical: bool, line: int, k: int) -> nat
    decreases k,
{
    if k < 0 {
        0
    } else {
        match color_at(g, vertical, line, k) {
            None => 0,
            Some(color) => if color_at(g, vertical, line, k - 1) == Some(color) {
                1 + run_len(g, vertical, line, k - 1)
            } else {
                1
            },
        }
    }
}

/// A run of four or more ends at the `k`-th cell: the next cell has another
/// color or none, or there is no next cell.
pub open spec fn run_ends_at(g: Seq<Block>, vertical: bool, line: int, k: int) -> bool {
    &&& run_len(g, vertical, line, k) >= 4
    &&& color_at(g, vertical, line, k + 1) != color_at(g, vertical, line, k)
}

/// The `k`-th cell of a line belongs to a run of four or more that ends
/// before place `bound`.
pub open spec fn in_run_before(g: Seq<Block>, vertical: bool, line: int, k: int, bound: int) -> bool
    decreases bound,
{
    if bound <= k || bound <= 0 {
        false
    } else {
        ||| in_run_before(g, vertical, line, k, bound - 1)
        ||| (run_ends_at(g, vertical, line, bound - 1) && bound - 1 - run_len(
            g,
            vertical,
            line,
            bound - 1,
        ) < k)
    }
}

/// The `k`-th cell of a line belongs to a run of four or more on that line.
pub open spec fn in_run(g: Seq<Block>, vertical: bool, line: int, k: int) -> bool {
    in_run_before(g, vertical, line, k, line_len(vertical))
}

/// The cell at an index belongs to a run of four or more, along its row or
/// along its column.
pub open spec fn matched(g: Seq<Block>, i: int) -> bool {
    ||| in_run(g, false, i / 8, i % 8)
    ||| in_run(g, true, i % 8, i / 8)
}

/// The colors of the runs of four or more that end before place `bound` of a
/// line, in the order in which they end.
pub open spec fn line_colors(g: Seq<Block>, vertical: bool, line: int, bound: int) -> Seq<VirusColor>
    decreases bound,
{
    if bound <= 0 {
        Seq::empty()
    } else if run_ends_at(g, vertical, line, bound - 1) {
        line_colors(g, vertical, line, bound - 1).push(
            color_at(g, vertical, line, bound - 1).unwrap(),
        )
    } else {
        line_colors(g, vertical, line, bound - 1)
    }
}

/// The colors of the runs on the first `lines` rows, or columns, one line
/// after the other.
pub open spec fn lines_colors(g: Seq<Block>, vertical: bool, lines: int) -> Seq<VirusColor>
    decreases lines,
{
    if lines <= 0 {
        Seq::empty()
    } else {
        lines_colors(g, vertical, lines - 1) + line_colors(
            g,
            vertical,
            lines - 1,
            line_len(vertical),
        )
    }
}

/// One color for every run of four or more: the runs along the rows from
/// the top row down, then those along the columns from the left.
pub open spec fn run_colors(g: Seq<Block>) -> Seq<VirusColor> {
    lines_colors(g, false, 16) + lines_colors(g, true, 8)
}

/// Which cells belong to a run of four or more.
pub open spec fn matched_marks(g: Seq<Block>) -> Seq<bool> {
    Seq::new(128, |i: int| matched(g, i))
}

/// A run is no longer than the part of the line it lies on, and every cell
/// that ends a run has a color.
pub proof fn lemma_run_len(g: Seq<Block>, vertical: bool, line: int, k: int)
    ensures
        run_len(g, vertical, line, k) <= k + 1 || k < 0,
        k < 0 ==> run_len(g, vertical, line, k) == 0,
        run_len(g, vertical, line, k) > 0 <==> color_at(g, vertical, line, k) is Some,
    decreases k,
{
    if k >= 1 {
        lemma_run_len(g, vertical, line, k - 1);
    }
}

/// A cell that belongs to a run has a color, so it can be destroyed.
pub proof fn lemma_in_run_colored(g: Seq<Block>, vertical: bool, line: int, k: int, bound: int)
    requires
        0 <= k,
        bound <= line_len(vertical),
        in_run_before(g, vertical, line, k, bound),
    ensures
        color_at(g, vertical, line, k) is Some,
    decreases bound,
{
    if in_run_before(g, vertical, line, k, bound - 1) {
        lemma_in_run_colored(g, vertical, line, k, bound - 1);
    } else {
        lemma_run_covers(g, vertical, line, bound - 1, k);
    }
}

/// Every cell of a run has the color of the cell in which the run ends.
pub proof fn lemma_run_covers(g: Seq<Block>, vertical: bool, line: int, end: int, k: int)
    requires
        end - run_len(g, vertical, line, end) < k <= end,
    ensures
        color_at(g, vertical, line, k) == color_at(g, vertical, line, end),
        color_at(g, vertical, line, k) is Some,
    decreases end - k,
{
    lemma_run_len(g, vertical, line, end);
    if k < end {
        lemma_run_covers(g, vertical, line, end - 1, k);
    }
}

/// What the scan of the grid knows at a moment: the cells marked so far,
/// the color of the run it is in, how long that run is so far, and the
/// colors of the runs that it has marked.
pub struct PatternMatchContext {
    pub is_vertical: bool,
    pub result: [bool; 128],
    pub last_color: Option<VirusColor>,
    pub count: u32,
    pub patterns: Vec<VirusColor>,
}

/// The part of the scan's state that the next line starts from.
pub open spec fn marked_between(
    marks: Seq<bool>,
    vertical: bool,
    line: int,
    after: int,
    upto: int,
) -> Seq<bool> {
    Seq::new(
        128,
        |i: int|
            marks[i] || (line_place(vertical, i).0 == line && after < line_place(vertical, i).1
                <= upto),
    )
}

impl PatternMatchContext {
    /// The place on its line of the cell in column `x` and row `y`.
    pub open spec fn along(self, x: int, y: int) -> int {
        if self.is_vertical {
            y
        } else {
            x
        }
    }

    /// The line on which the cell in column `x` and row `y` lies.
    pub open spec fn line_of(self, x: int, y: int) -> int {
        if self.is_vertical {
            x
        } else {
            y
        }
    }

    /// The run so far has not yet grown beyond the start of its line, and a
    /// run that has begun has a color.
    pub open spec fn wf(self, k: int) -> bool {
        &&& self.count <= k
        &&& self.count > 0 ==> self.last_color is Some
    }

    pub fn new(is_vertical: bool) -> (context: Self)
        ensures
            context.is_vertical == is_vertical,
            context.count == 0,
            context.last_color is None,
            context.patterns@ == Seq::<VirusColor>::empty(),
            forall|i: int| 0 <= i < 128 ==> !context.result@[i],
    {
        Self { is_vertical, count: 0, last_color: None, result: [false; 128], patterns: Vec::new() }
    }

    /// Starts a new line; what has been marked stays marked.
    pub fn reset(&mut self, is_vertical: bool)
        ensures
            final(self).is_vertical == is_vertical,
            final(self).count == 0,
            final(self).last_color is None,
            final(self).result == old(self).result,
            final(self).patterns == old(self).patterns,
    {
        self.is_vertical = is_vertical;
        self.count = 0;
        self.last_color = None;
    }

    /// Takes the next cell of the line. A cell of the color of the run so
    /// far makes the run one longer. Any other cell ends it: the run is
    /// marked if it was long enough, and a new run starts with this cell if
    /// the cell has a color.
    pub fn block(&mut self, x: u32, y: u32, block: Block)
        requires
            x < 8,
            y < 16,
            old(self).wf(old(self).along(x as int, y as int)),
        ensures
            final(self).is_vertical == old(self).is_vertical,
            block.color_of() is Some && old(self).last_color == block.color_of() ==> {
                &&& final(self).count == old(self).count + 1
                &&& final(self).last_color == old(self).last_color
                &&& final(self).result == old(self).result
                &&& final(self).patterns == old(self).patterns
            },
            !(block.color_of() is Some && old(self).last_color == block.color_of()) ==> {
                &&& final(self).count == (if block.color_of() is Some {
                    1u32
                } else {
                    0u32
                })
                &&& final(self).last_color == block.color_of()
                &&& old(self).flushed_to(
                    final(self),
                    old(self).line_of(x as int, y as int),
                    old(self).along(x as int, y as int) - 1,
                )
            },
    {
        let color = block.destructible_color();
        let same = match (color, self.last_color) {
            (Some(a), Some(b)) => a == b,
            _ => false,
        };
        if same {
            self.count = self.count + 1;
        } else {
            self.maybe_pattern(x, y, -1);
            match color {
                Some(_) => {
                    self.count = 1;
                },
                None => {
                    self.count = 0;
                },
            }
            self.last_color = color;
        }
    }

    /// What `after` has marked and noted beyond this state when the run so
    /// far, which ends at place `end` of its line, is ended: if it has four
    /// cells or more, its cells and its color; else nothing.
    pub open spec fn flushed_to(self, after: &PatternMatchContext, line: int, end: int) -> bool {
        if self.count > 3 {
            &&& after.result@ == marked_between(
                self.result@,
                self.is_vertical,
                line,
                end - self.count,
                end,
            )
            &&& after.patterns@ == self.patterns@.push(self.last_color.unwrap())
        } else {
            &&& after.result == self.result
            &&& after.patterns == self.patterns
        }
    }

    /// Ends the run so far. `offset` is 0 where the run ends in the cell
    /// given, and -1 where it ends in the cell before it.
    pub fn maybe_pattern(&mut self, x: u32, y: u32, offset: i32)
        requires
            x < 8,
            y < 16,
            offset == 0 || offset == -1,
            old(self).wf(old(self).along(x as int, y as int) + offset + 1),
        ensures
            final(self).is_vertical == old(self).is_vertical,
            old(self).flushed_to(
                final(self),
                old(self).line_of(x as int, y as int),
                old(self).along(x as int, y as int) + offset,
            ),
            old(self).count > 3 ==> final(self).count == 0 && final(self).last_color is None,
            old(self).count <= 3 ==> final(self).count == old(self).count && final(self).last_color
                == old(self).last_color,
    {
        if self.count > 3 {
            self.patterns.push(self.last_color.unwrap());
            let x = x as i32;
            let y = y as i32;
            let ghost line = old(self).line_of(x as int, y as int);
            let ghost end = old(self).along(x as int, y as int) + offset;
            let mut i: i32 = 0;
            while i < self.count as i32
                invariant
                    0 <= i <= self.count,
                    0 <= x < 8,
                    0 <= y < 16,
                    offset == 0 || offset == -1,
                    self.count == old(self).count,
                    self.count <= end + 1,
                    self.is_vertical == old(self).is_vertical,
                    self.last_color == old(self).last_color,
                    self.patterns@ == old(self).patterns@.push(old(self).last_color.unwrap()),
                    line == old(self).line_of(x as int, y as int),
                    end == old(self).along(x as int, y as int) + offset,
                    self.result@ == marked_between(
                        old(self).result@,
                        self.is_vertical,
                        line,
                        end - i,
                        end,
                    ),
                decreases self.count - i,
            {
                let ghost before = self.result@;
                let at: usize = if self.is_vertical {
                    ((y - i + offset) * 8 + x) as usize
                } else {
                    (y * 8 + (x - i + offset)) as usize
                };
                self.result[at] = true;
                i = i + 1;
                assert(self.result@ =~= marked_between(
                    old(self).result@,
                    self.is_vertical,
                    line,
                    end - i,
                    end,
                ));
            }
            self.count = 0;
            self.last_color = None;
        }
    }
}

} // verus!
