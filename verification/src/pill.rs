//! Colors, capsule shapes and the live capsule.

use crate::geometry::{BottlePoint, Rotation};
use vstd::prelude::*;
use vstd::std_specs::convert::TryFromSpecImpl;

verus! {

/// Column of the reference point of a freshly spawned capsule.
pub const SPAWN_X: i32 = 3;

/// Row of the reference point of a freshly spawned capsule; one above the grid.
pub const SPAWN_Y: i32 = -1;

/// The three colors of viruses and capsule halves.
#[derive(Clone, Copy, Debug, PartialEq, Eq, Hash, Structural)]
pub enum VirusColor {
    Yellow,
    Blue,
    Red,
}

impl VirusColor {
    pub const N: usize = 3;

    /// The position of a color in the cycle Yellow, Blue, Red.
    pub open spec fn index(self) -> int {
        match self {
            VirusColor::Yellow => 0,
            VirusColor::Blue => 1,
            VirusColor::Red => 2,
        }
    }

    /// The color at a position of the cycle; positions wrap around.
    pub open spec fn at(i: int) -> VirusColor {
        if i % 3 == 0 {
            VirusColor::Yellow
        } else if i % 3 == 1 {
            VirusColor::Blue
        } else {
            VirusColor::Red
        }
    }

    /// The cyclic successor of a color.
    pub open spec fn successor(self) -> VirusColor {
        Self::at(self.index() + 1)
    }

    pub open spec fn letter(self) -> char {
        match self {
            VirusColor::Red => 'r',
            VirusColor::Blue => 'b',
            VirusColor::Yellow => 'y',
        }
    }

    pub fn next(self) -> (c: Self)
        ensures
            c == self.successor(),
    {
        match self {
            VirusColor::Yellow => VirusColor::Blue,
            VirusColor::Blue => VirusColor::Red,
            VirusColor::Red => VirusColor::Yellow,
        }
    }

    pub fn to_char(self) -> (c: char)
        ensures
            c == self.letter(),
    {
        match self {
            VirusColor::Red => 'r',
            VirusColor::Blue => 'b',
            VirusColor::Yellow => 'y',
        }
    }
}

impl TryFrom<usize> for VirusColor {
    type Error = ();

    fn try_from(v: usize) -> (r: Result<Self, Self::Error>) {
        if v == 0 {
            Ok(VirusColor::Yellow)
        } else if v == 1 {
            Ok(VirusColor::Blue)
        } else if v == 2 {
            Ok(VirusColor::Red)
        } else {
            Err(())
        }
    }
}

impl TryFromSpecImpl<usize> for VirusColor {
    open spec fn obeys_try_from_spec() -> bool {
        true
    }

    open spec fn try_from_spec(v: usize) -> Result<Self, Self::Error> {
        if v < 3 {
            Ok(VirusColor::at(v as int))
        } else {
            Err(())
        }
    }
}

/// Three successors lead back to the color one started from, and fewer do not.
pub proof fn lemma_color_cycle(c: VirusColor)
    ensures
        c.successor() != c,
        c.successor().successor() != c,
        c.successor().successor() != c.successor(),
        c.successor().successor().successor() == c,
        VirusColor::at(c.index()) == c,
{
}

/// The two colors of a capsule, left then right as it spawns.
#[derive(Clone, Copy, Debug, PartialEq, Eq, Hash, Structural)]
pub struct PillShape {
    pub left_color: VirusColor,
    pub right_color: VirusColor,
}

impl PillShape {
    /// All nine shapes, each once: first those with a yellow left half,
    /// then those with a blue one, then those with a red one; among those
    /// of one left color, first the one whose halves are alike.
    pub open spec fn all_shapes() -> Seq<PillShape> {
        seq![
            PillShape { left_color: VirusColor::Yellow, right_color: VirusColor::Yellow },
            PillShape { left_color: VirusColor::Yellow, right_color: VirusColor::Blue },
            PillShape { left_color: VirusColor::Yellow, right_color: VirusColor::Red },
            PillShape { left_color: VirusColor::Blue, right_color: VirusColor::Blue },
            PillShape { left_color: VirusColor::Blue, right_color: VirusColor::Yellow },
            PillShape { left_color: VirusColor::Blue, right_color: VirusColor::Red },
            PillShape { left_color: VirusColor::Red, right_color: VirusColor::Red },
            PillShape { left_color: VirusColor::Red, right_color: VirusColor::Yellow },
            PillShape { left_color: VirusColor::Red, right_color: VirusColor::Blue },
        ]
    }

    pub fn new(left_color: VirusColor, right_color: VirusColor) -> (s: Self)
        ensures
            s.left_color == left_color,
            s.right_color == right_color,
    {
        Self { left_color, right_color }
    }

    /// Every shape there is.
    pub fn all() -> (shapes: Vec<PillShape>)
        ensures
            shapes@ == PillShape::all_shapes(),
    {
        let shapes = vec![
            PillShape::new(VirusColor::Yellow, VirusColor::Yellow),
            PillShape::new(VirusColor::Yellow, VirusColor::Blue),
            PillShape::new(VirusColor::Yellow, VirusColor::Red),
            PillShape::new(VirusColor::Blue, VirusColor::Blue),
            PillShape::new(VirusColor::Blue, VirusColor::Yellow),
            PillShape::new(VirusColor::Blue, VirusColor::Red),
            PillShape::new(VirusColor::Red, VirusColor::Red),
            PillShape::new(VirusColor::Red, VirusColor::Yellow),
            PillShape::new(VirusColor::Red, VirusColor::Blue),
        ];
        assert(shapes@ =~= PillShape::all_shapes());
        shapes
    }

    pub fn left_color(&self) -> (c: VirusColor)
        ensures
            c == self.left_color,
    {
        self.left_color
    }

    pub fn right_color(&self) -> (c: VirusColor)
        ensures
            c == self.right_color,
    {
        self.right_color
    }
}

/// The list of all shapes misses none and repeats none.
pub proof fn lemma_all_shapes_complete(s: PillShape)
    ensures
        PillShape::all_shapes().len() == 9,
        PillShape::all_shapes().contains(s),
        PillShape::all_shapes().no_duplicates(),
{
    let all = PillShape::all_shapes();
    let left: int = match s.left_color {
        VirusColor::Yellow => 0,
        VirusColor::Blue => 3,
        VirusColor::Red => 6,
    };
    let right: int = if s.right_color == s.left_color {
        0
    } else if s.right_color == VirusColor::Red || (s.right_color == VirusColor::Blue
        && s.left_color == VirusColor::Red) {
        2
    } else {
        1
    };
    assert(all[left + right] == s);
}

/// Which half of a capsule a cell is, named by where it lies in the North rotation.
#[derive(Clone, Copy, Debug, PartialEq, Eq, Hash, Structural)]
pub enum VitaminOrdinal {
    Left,
    Right,
}

impl VitaminOrdinal {
    pub open spec fn other(self) -> VitaminOrdinal {
        match self {
            VitaminOrdinal::Left => VitaminOrdinal::Right,
            VitaminOrdinal::Right => VitaminOrdinal::Left,
        }
    }
}

/// A loose cell that was dropped into a bottle.
#[derive(Clone, Copy, Debug, PartialEq, Eq, Structural)]
pub struct Garbage {
    pub color: VirusColor,
    pub position: BottlePoint,
}

impl Garbage {
    pub fn new(color: VirusColor, position: BottlePoint) -> (g: Self)
        ensures
            g.color == color,
            g.position == position,
    {
        Self { color, position }
    }
}

/// One half of a capsule together with where it is.
#[derive(Clone, Copy, Debug, PartialEq, Eq, Structural)]
pub struct Vitamin {
    pub ordinal: VitaminOrdinal,
    pub rotation: Rotation,
    pub color: VirusColor,
    pub position: BottlePoint,
}

pub type Vitamins = [Vitamin; 2];

/// Where a half sits relative to the capsule's reference point.
pub open spec fn half_offset(rotation: Rotation, ordinal: VitaminOrdinal) -> (int, int) {
    match (rotation, ordinal) {
        (Rotation::North, VitaminOrdinal::Left) => (0, 1),
        (Rotation::North, VitaminOrdinal::Right) => (1, 1),
        (Rotation::East, VitaminOrdinal::Left) => (0, 0),
        (Rotation::East, VitaminOrdinal::Right) => (0, 1),
        (Rotation::South, VitaminOrdinal::Left) => (1, 1),
        (Rotation::South, VitaminOrdinal::Right) => (0, 1),
        (Rotation::West, VitaminOrdinal::Left) => (0, 1),
        (Rotation::West, VitaminOrdinal::Right) => (0, 0),
    }
}

/// The half of a capsule of the given shape, reference point and rotation.
pub open spec fn half_at(
    shape: PillShape,
    position: BottlePoint,
    rotation: Rotation,
    ordinal: VitaminOrdinal,
) -> Vitamin {
    let offset = half_offset(rotation, ordinal);
    Vitamin {
        ordinal,
        rotation,
        color: match ordinal {
            VitaminOrdinal::Left => shape.left_color,
            VitaminOrdinal::Right => shape.right_color,
        },
        position: BottlePoint {
            x: (position.x + offset.0) as i32,
            y: (position.y + offset.1) as i32,
        },
    }
}

/// Both halves of such a capsule, left half first.
pub open spec fn halves_at(shape: PillShape, position: BottlePoint, rotation: Rotation) -> Vitamins {
    [
        half_at(shape, position, rotation, VitaminOrdinal::Left),
        half_at(shape, position, rotation, VitaminOrdinal::Right),
    ]
}

/// The offsets of the left and the right half in a rotation.
pub fn rotated_pills(rotation: Rotation) -> (offsets: [BottlePoint; 2])
    ensures
        (offsets[0].x as int, offsets[0].y as int) == half_offset(rotation, VitaminOrdinal::Left),
        (offsets[1].x as int, offsets[1].y as int) == half_offset(rotation, VitaminOrdinal::Right),
{
    match rotation {
        Rotation::North => [BottlePoint { x: 0, y: 1 }, BottlePoint { x: 1, y: 1 }],
        Rotation::East => [BottlePoint { x: 0, y: 0 }, BottlePoint { x: 0, y: 1 }],
        Rotation::South => [BottlePoint { x: 1, y: 1 }, BottlePoint { x: 0, y: 1 }],
        Rotation::West => [BottlePoint { x: 0, y: 1 }, BottlePoint { x: 0, y: 0 }],
    }
}

/// The cell in which the left half of a fresh capsule appears.
pub fn left_vitamin_spawn_point() -> (p: BottlePoint)
    ensures
        p == (BottlePoint { x: 3, y: 0 }),
{
    BottlePoint { x: SPAWN_X, y: SPAWN_Y + 1 }
}

impl Vitamin {
    pub fn left(color: VirusColor, position: BottlePoint, rotation: Rotation) -> (v: Self)
        ensures
            v == (Vitamin { ordinal: VitaminOrdinal::Left, rotation, color, position }),
    {
        Self { ordinal: VitaminOrdinal::Left, color, position, rotation }
    }

    pub fn right(color: VirusColor, position: BottlePoint, rotation: Rotation) -> (v: Self)
        ensures
            v == (Vitamin { ordinal: VitaminOrdinal::Right, rotation, color, position }),
    {
        Self { ordinal: VitaminOrdinal::Right, color, position, rotation }
    }

    /// The two halves of a capsule as it spawns.
    pub fn vitamins(shape: PillShape) -> (halves: Vitamins)
        ensures
            halves == halves_at(shape, BottlePoint { x: SPAWN_X, y: SPAWN_Y }, Rotation::North),
    {
        let halves = [
            Vitamin::left(shape.left_color, BottlePoint { x: SPAWN_X, y: SPAWN_Y + 1 }, Rotation::North),
            Vitamin::right(
                shape.right_color,
                BottlePoint { x: SPAWN_X + 1, y: SPAWN_Y + 1 },
                Rotation::North,
            ),
        ];
        assert(halves =~= halves_at(shape, BottlePoint { x: SPAWN_X, y: SPAWN_Y }, Rotation::North));
        halves
    }

    pub fn ordinal(&self) -> (o: VitaminOrdinal)
        ensures
            o == self.ordinal,
    {
        self.ordinal
    }

    pub fn color(&self) -> (c: VirusColor)
        ensures
            c == self.color,
    {
        self.color
    }

    pub fn position(&self) -> (p: BottlePoint)
        ensures
            p == self.position,
    {
        self.position
    }

    pub fn translate(&mut self, dx: i32, dy: i32)
        requires
            old(self).position.can_shift(dx as int, dy as int),
        ensures
            final(self).position.x == old(self).position.x + dx,
            final(self).position.y == old(self).position.y + dy,
            final(self).ordinal == old(self).ordinal,
            final(self).rotation == old(self).rotation,
            final(self).color == old(self).color,
    {
        self.position = self.position.translate(dx, dy);
    }

    pub fn rotation(&self) -> (r: Rotation)
        ensures
            r == self.rotation,
    {
        self.rotation
    }
}

/// The capsule that is falling: its halves, the reference point and rotation
/// they derive from, the moves it has used up while resting at its
/// altitude, and the lowest row that its reference point has reached. Rows
/// are numbered downwards, so the lowest row has the greatest number.
#[derive(Clone, Copy, Debug, PartialEq, Eq)]
pub struct Pill {
    pub vitamins: Vitamins,
    pub position: BottlePoint,
    pub rotation: Rotation,
    pub lock_placements: u32,
    pub lowest_row: i32,
}

impl Pill {
    pub open spec fn shape_of(self) -> PillShape {
        PillShape { left_color: self.vitamins[0].color, right_color: self.vitamins[1].color }
    }

    /// The halves are the ones that shape, reference point and rotation
    /// give, the reference point leaves room for them in the machine
    /// integer, and the capsule is not below the lowest row it has reached.
    pub open spec fn wf(self) -> bool {
        &&& self.position.x < i32::MAX
        &&& self.position.y < i32::MAX
        &&& self.position.y <= self.lowest_row
        &&& self.vitamins == halves_at(self.shape_of(), self.position, self.rotation)
    }

    /// A capsule of the given shape as it spawns.
    pub open spec fn spawned(shape: PillShape) -> Pill {
        Pill {
            vitamins: halves_at(shape, BottlePoint { x: SPAWN_X, y: SPAWN_Y }, Rotation::North),
            position: BottlePoint { x: SPAWN_X, y: SPAWN_Y },
            rotation: Rotation::North,
            lock_placements: 0,
            lowest_row: SPAWN_Y,
        }
    }

    /// Whether the capsule can be shifted without leaving the machine integer.
    pub open spec fn can_move(self, dx: int, dy: int) -> bool {
        &&& i32::MIN <= self.position.x + dx < i32::MAX
        &&& i32::MIN <= self.position.y + dy < i32::MAX
    }

    /// The capsule shifted by `(dx, dy)`. Entering a row below every row it
    /// has been in clears the count of the moves used while resting: the
    /// count is of the moves at one altitude. A shift that enters no such
    /// row keeps the count.
    pub open spec fn moved(self, dx: int, dy: int) -> Pill {
        let position = BottlePoint {
            x: (self.position.x + dx) as i32,
            y: (self.position.y + dy) as i32,
        };
        Pill {
            vitamins: halves_at(self.shape_of(), position, self.rotation),
            position,
            rotation: self.rotation,
            lock_placements: if position.y > self.lowest_row {
                0
            } else {
                self.lock_placements
            },
            lowest_row: if position.y > self.lowest_row {
                position.y
            } else {
                self.lowest_row
            },
        }
    }

    /// The capsule after a quarter turn about its reference point.
    pub open spec fn turned(self, clockwise: bool) -> Pill {
        Pill {
            vitamins: halves_at(self.shape_of(), self.position, self.rotation.turned(clockwise)),
            position: self.position,
            rotation: self.rotation.turned(clockwise),
            lock_placements: self.lock_placements,
            lowest_row: self.lowest_row,
        }
    }

    /// The cells that the halves would take after a quarter turn, before any kick.
    pub open spec fn turned_cells(self, clockwise: bool) -> [BottlePoint; 2] {
        [self.turned(clockwise).vitamins[0].position, self.turned(clockwise).vitamins[1].position]
    }

    /// The kicks to try after a quarter turn, in order of preference. A flat
    /// capsule that stands up may stay, go right, down, or both; an upright
    /// one that lies down may stay or go left.
    pub open spec fn wall_kicks(self) -> Seq<(i32, i32)> {
        if self.rotation.is_horizontal() {
            seq![(0i32, 0i32), (1i32, 0i32), (0i32, 1i32), (1i32, 1i32)]
        } else {
            seq![(0i32, 0i32), (-1i32, 0i32)]
        }
    }

    pub fn new(shape: PillShape) -> (pill: Self)
        ensures
            pill == Pill::spawned(shape),
            pill.wf(),
            pill.shape_of() == shape,
    {
        let pill = Self {
            vitamins: Vitamin::vitamins(shape),
            position: BottlePoint { x: SPAWN_X, y: SPAWN_Y },
            rotation: Rotation::North,
            lock_placements: 0,
            lowest_row: SPAWN_Y,
        };
        assert(pill.vitamins =~= halves_at(pill.shape_of(), pill.position, pill.rotation));
        pill
    }

    pub fn shape(&self) -> (s: PillShape)
        ensures
            s == self.shape_of(),
    {
        PillShape::new(self.vitamins[0].color, self.vitamins[1].color)
    }

    pub fn vitamins(&self) -> (halves: Vitamins)
        ensures
            halves == self.vitamins,
    {
        self.vitamins
    }

    /// The kicks to try after a quarter turn, in order of preference.
    pub fn available_wall_kicks(&self) -> (kicks: Vec<(i32, i32)>)
        ensures
            kicks@ == self.wall_kicks(),
    {
        let kicks = match self.rotation {
            Rotation::North | Rotation::South => vec![(0i32, 0i32), (1i32, 0i32), (0i32, 1i32), (1i32, 1i32)],
            Rotation::East | Rotation::West => vec![(0i32, 0i32), (-1i32, 0i32)],
        };
        assert(kicks@ =~= self.wall_kicks());
        kicks
    }

    /// The cells that the halves would take after a quarter turn, before any kick.
    pub fn next_rotation(&self, clockwise: bool) -> (cells: [BottlePoint; 2])
        requires
            self.wf(),
        ensures
            cells == self.turned_cells(clockwise),
    {
        let offsets = rotated_pills(self.rotation.rotate(clockwise));
        let cells = [
            self.position.translate(offsets[0].x, offsets[0].y),
            self.position.translate(offsets[1].x, offsets[1].y),
        ];
        assert(cells =~= self.turned_cells(clockwise));
        cells
    }

    /// Turns the capsule a quarter about its reference point and then shifts it by the kick.
    pub fn rotate(&mut self, clockwise: bool, kick_x: i32, kick_y: i32)
        requires
            old(self).wf(),
            old(self).can_move(kick_x as int, kick_y as int),
        ensures
            *final(self) == old(self).turned(clockwise).moved(kick_x as int, kick_y as int),
            final(self).wf(),
            final(self).shape_of() == old(self).shape_of(),
    {
        let ghost before = *self;
        self.rotation = self.rotation.rotate(clockwise);
        let offsets = rotated_pills(self.rotation);
        self.vitamins = [
            Vitamin {
                ordinal: self.vitamins[0].ordinal,
                rotation: self.rotation,
                color: self.vitamins[0].color,
                position: self.position.translate(offsets[0].x, offsets[0].y),
            },
            Vitamin {
                ordinal: self.vitamins[1].ordinal,
                rotation: self.rotation,
                color: self.vitamins[1].color,
                position: self.position.translate(offsets[1].x, offsets[1].y),
            },
        ];
        assert(self.vitamins =~= before.turned(clockwise).vitamins);
        assert(*self == before.turned(clockwise));
        self.translate(kick_x, kick_y);
    }

    /// Shifts the capsule.
    pub fn translate(&mut self, dx: i32, dy: i32)
        requires
            old(self).wf(),
            old(self).can_move(dx as int, dy as int),
        ensures
            *final(self) == old(self).moved(dx as int, dy as int),
            final(self).wf(),
            final(self).shape_of() == old(self).shape_of(),
    {
        let ghost before = *self;
        self.position = self.position.translate(dx, dy);
        let mut left = self.vitamins[0];
        let mut right = self.vitamins[1];
        left.translate(dx, dy);
        right.translate(dx, dy);
        self.vitamins = [left, right];
        if self.position.y > self.lowest_row {
            self.lowest_row = self.position.y;
            self.lock_placements = 0;
        }
        assert(self.vitamins =~= before.moved(dx as int, dy as int).vitamins);
    }

    /// Counts one more move made while resting, and says how many that makes.
    pub fn register_lock_placement(&mut self) -> (used: u32)
        requires
            old(self).lock_placements < u32::MAX,
        ensures
            used == old(self).lock_placements + 1,
            *final(self) == (Pill { lock_placements: used, ..*old(self) }),
    {
        self.lock_placements = self.lock_placements + 1;
        self.lock_placements
    }

    pub fn position(&self) -> (p: BottlePoint)
        ensures
            p == self.position,
    {
        self.position
    }

    pub fn rotation(&self) -> (r: Rotation)
        ensures
            r == self.rotation,
    {
        self.rotation
    }

    pub fn lock_placements(&self) -> (n: u32)
        ensures
            n == self.lock_placements,
    {
        self.lock_placements
    }
}

/// A capsule that goes down into a row below every row it has been in has
/// all its moves again, and that row is then the lowest it has reached. A
/// capsule that is shifted without entering such a row, as by any shift to
/// the side, keeps its count and its lowest row.
pub proof fn lemma_descent_resets(pill: Pill, dx: int, dy: int)
    requires
        pill.wf(),
        pill.can_move(dx, dy),
    ensures
        pill.moved(dx, dy).position.x == pill.position.x + dx,
        pill.moved(dx, dy).position.y == pill.position.y + dy,
        pill.position.y + dy > pill.lowest_row ==> pill.moved(dx, dy).lock_placements == 0
            && pill.moved(dx, dy).lowest_row == pill.position.y + dy,
        pill.position.y + dy <= pill.lowest_row ==> pill.moved(dx, dy).lock_placements
            == pill.lock_placements && pill.moved(dx, dy).lowest_row == pill.lowest_row,
        pill.lowest_row == pill.position.y && dy > 0 ==> pill.moved(dx, dy).lock_placements == 0,
        dy == 0 ==> pill.moved(dx, dy).lock_placements == pill.lock_placements,
{
}

} // verus!
