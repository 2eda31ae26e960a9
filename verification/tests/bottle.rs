use dr_rustario::block::Block;
use dr_rustario::bottle::{index, index_at, index_to_point, row_range, rows_range, Bottle};
use dr_rustario::event::ColoredBlock;
use dr_rustario::geometry::{BottlePoint, Rotation};
use dr_rustario::grid::{BOTTLE_FLOOR, BOTTLE_HEIGHT, BOTTLE_WIDTH, TOTAL_BLOCKS};
use dr_rustario::pill::{Garbage, PillShape, VirusColor, VitaminOrdinal};
use std::collections::hash_map::RandomState;
use std::collections::HashSet;

fn is_empty(bottle: &Bottle) {
    assert_eq!(bottle.blocks, [Block::Empty; 128], "{:?}", bottle);
}

fn is_empty_at(bottle: &Bottle, x: u32, y: u32) {
    assert_eq!(bottle.blocks[index_at(x, y)], Block::Empty, "{:?}", bottle);
}

fn is_garbage_at(bottle: &Bottle, x: u32, y: u32, color: VirusColor) {
    assert_eq!(bottle.blocks[index_at(x, y)], Block::Garbage(color), "{:?}", bottle);
}

fn has_vitamin_at(bottle: &Bottle, x: u32, y: u32, color: VirusColor, rotation: Rotation, ordinal: VitaminOrdinal) {
    assert_eq!(bottle.blocks[index_at(x, y)], Block::Vitamin(color, rotation, ordinal), "{:?}", bottle);
}

fn has_stack_at(bottle: &Bottle, x: u32, y: u32, color: VirusColor, rotation: Rotation, ordinal: VitaminOrdinal) {
    assert_eq!(bottle.blocks[index_at(x, y)], Block::Stack(color, rotation, ordinal), "{:?}", bottle);
}

fn has_garbage_at(bottle: &Bottle, x: u32, y: u32, color: VirusColor) {
    assert_eq!(bottle.blocks[index_at(x, y)], Block::Garbage(color), "{:?}", bottle);
}

fn has_ghost_at(bottle: &Bottle, x: u32, y: u32, color: VirusColor, rotation: Rotation, ordinal: VitaminOrdinal) {
    assert_eq!(bottle.blocks[index_at(x, y)], Block::GhostVitamin(color, rotation, ordinal), "{:?}", bottle);
}

fn has_virus_at(bottle: &Bottle, x: u32, y: u32, color: VirusColor) {
    assert_eq!(bottle.blocks[index_at(x, y)], Block::Virus(color), "{:?}", bottle);
}

fn having_virus(bottle: &mut Bottle, x: u32, y: u32, color: VirusColor) {
    bottle.blocks[index_at(x, y)] = Block::Virus(color);
}

fn having_stack(bottle: &mut Bottle, x: u32, y: u32, color: VirusColor, rotation: Rotation, ordinal: VitaminOrdinal) {
    bottle.blocks[index_at(x, y)] = Block::Stack(color, rotation, ordinal);
}

fn having_garbage(bottle: &mut Bottle, x: u32, y: u32, color: VirusColor) {
    bottle.blocks[index_at(x, y)] = Block::Garbage(color);
}

#[test]
fn spawns_pill() {
    let mut bottle = Bottle::new();
    let vitamins = bottle.try_spawn(PillShape::new(VirusColor::Red, VirusColor::Blue));
    assert!(vitamins.is_some());
    has_vitamin_at(&bottle, 3, 0, VirusColor::Red, Rotation::North, VitaminOrdinal::Left);
    has_vitamin_at(&bottle, 4, 0, VirusColor::Blue, Rotation::North, VitaminOrdinal::Right);
}

#[test]
fn renders_ghost_to_floor() {
    let mut bottle = Bottle::new();
    bottle.try_spawn(PillShape::new(VirusColor::Red, VirusColor::Blue));
    has_ghost_at(&bottle, 3, 15, VirusColor::Red, Rotation::North, VitaminOrdinal::Left);
    has_ghost_at(&bottle, 4, 15, VirusColor::Blue, Rotation::North, VitaminOrdinal::Right);
}

#[test]
fn renders_ghost_to_virus() {
    let mut bottle = Bottle::new();
    having_virus(&mut bottle, 3, 15, VirusColor::Yellow);
    bottle.try_spawn(PillShape::new(VirusColor::Red, VirusColor::Blue));
    has_ghost_at(&bottle, 3, 14, VirusColor::Red, Rotation::North, VitaminOrdinal::Left);
    has_ghost_at(&bottle, 4, 14, VirusColor::Blue, Rotation::North, VitaminOrdinal::Right);
}

#[test]
fn ignores_move_left_when_no_pill() {
    let mut bottle = Bottle::new();
    assert!(!bottle.left());
}

#[test]
fn ignores_move_right_when_no_pill() {
    let mut bottle = Bottle::new();
    assert!(!bottle.right());
}

#[test]
fn ignores_rotate_when_no_pill() {
    let mut bottle = Bottle::new();
    assert!(!bottle.rotate(true));
}

#[test]
fn can_move_left() {
    let mut bottle = Bottle::new();
    bottle.try_spawn(PillShape::new(VirusColor::Red, VirusColor::Blue));
    assert!(bottle.left(), "{:?}", bottle);
    has_ghost_at(&bottle, 2, 15, VirusColor::Red, Rotation::North, VitaminOrdinal::Left);
    has_ghost_at(&bottle, 3, 15, VirusColor::Blue, Rotation::North, VitaminOrdinal::Right);
}

#[test]
fn cannot_move_left_through_virus() {
    let mut bottle = Bottle::new();
    bottle.try_spawn(PillShape::new(VirusColor::Red, VirusColor::Blue));
    having_virus(&mut bottle, 2, 0, VirusColor::Yellow);
    assert!(!bottle.left(), "{:?}", bottle);
}

#[test]
fn cannot_move_left_through_wall() {
    let mut bottle = Bottle::new();
    bottle.try_spawn(PillShape::new(VirusColor::Red, VirusColor::Blue));
    for _ in 0..3 {
        assert!(bottle.left(), "{:?}", bottle);
    }
    assert!(!bottle.left(), "{:?}", bottle);
}

#[test]
fn can_move_right() {
    let mut bottle = Bottle::new();
    bottle.try_spawn(PillShape::new(VirusColor::Red, VirusColor::Blue));
    assert!(bottle.right(), "{:?}", bottle);
    has_ghost_at(&bottle, 4, 15, VirusColor::Red, Rotation::North, VitaminOrdinal::Left);
    has_ghost_at(&bottle, 5, 15, VirusColor::Blue, Rotation::North, VitaminOrdinal::Right);
}

#[test]
fn cannot_move_right_through_virus() {
    let mut bottle = Bottle::new();
    bottle.try_spawn(PillShape::new(VirusColor::Red, VirusColor::Blue));
    having_virus(&mut bottle, 5, 0, VirusColor::Yellow);
    assert!(!bottle.right(), "{:?}", bottle);
}

#[test]
fn cannot_move_right_through_wall() {
    let mut bottle = Bottle::new();
    bottle.try_spawn(PillShape::new(VirusColor::Red, VirusColor::Blue));
    for _ in 0..3 {
        assert!(bottle.right(), "{:?}", bottle);
    }
    assert!(!bottle.right(), "{:?}", bottle);
}

#[test]
fn can_rotate_clockwise() {
    let mut bottle = Bottle::new();
    bottle.try_spawn(PillShape::new(VirusColor::Red, VirusColor::Blue));
    assert!(bottle.rotate(true));
    has_vitamin_at(&bottle, 3, 0, VirusColor::Red, Rotation::East, VitaminOrdinal::Left);
    has_vitamin_at(&bottle, 3, 1, VirusColor::Blue, Rotation::East, VitaminOrdinal::Right);
}

#[test]
fn can_rotate_anticlockwise() {
    let mut bottle = Bottle::new();
    bottle.try_spawn(PillShape::new(VirusColor::Red, VirusColor::Blue));
    assert!(bottle.rotate(false));
    has_vitamin_at(&bottle, 3, 1, VirusColor::Red, Rotation::West, VitaminOrdinal::Left);
    has_vitamin_at(&bottle, 3, 0, VirusColor::Blue, Rotation::West, VitaminOrdinal::Right);
}

#[test]
fn clockwise_rotation_kicks_off_right_wall() {
    let mut bottle = Bottle::new();
    bottle.try_spawn(PillShape::new(VirusColor::Red, VirusColor::Blue));
    assert!(bottle.rotate(true));
    for _ in 0..4 {
        assert!(bottle.right(), "{:?}", bottle);
    }
    assert!(bottle.rotate(true));
    has_vitamin_at(&bottle, 7, 1, VirusColor::Red, Rotation::South, VitaminOrdinal::Left);
    has_vitamin_at(&bottle, 6, 1, VirusColor::Blue, Rotation::South, VitaminOrdinal::Right);
}

#[test]
fn steps_down_to_floor() {
    let mut bottle = Bottle::new();
    bottle.try_spawn(PillShape::new(VirusColor::Red, VirusColor::Blue));
    for _ in 1..BOTTLE_HEIGHT {
        assert!(bottle.step_down_pill());
    }
    assert!(!bottle.step_down_pill());
    has_vitamin_at(&bottle, 3, 15, VirusColor::Red, Rotation::North, VitaminOrdinal::Left);
    has_vitamin_at(&bottle, 4, 15, VirusColor::Blue, Rotation::North, VitaminOrdinal::Right);
}

#[test]
fn steps_down_to_virus() {
    let mut bottle = Bottle::new();
    bottle.try_spawn(PillShape::new(VirusColor::Red, VirusColor::Blue));
    having_virus(&mut bottle, 4, 15, VirusColor::Yellow);
    for _ in 2..BOTTLE_HEIGHT {
        assert!(bottle.step_down_pill());
    }
    assert!(!bottle.step_down_pill());
    has_vitamin_at(&bottle, 3, 14, VirusColor::Red, Rotation::North, VitaminOrdinal::Left);
    has_vitamin_at(&bottle, 4, 14, VirusColor::Blue, Rotation::North, VitaminOrdinal::Right);
}

#[test]
fn hard_drops_to_floor() {
    let mut bottle = Bottle::new();
    bottle.try_spawn(PillShape::new(VirusColor::Red, VirusColor::Blue));
    assert!(bottle.hard_drop().is_some());
    has_vitamin_at(&bottle, 3, 15, VirusColor::Red, Rotation::North, VitaminOrdinal::Left);
    has_vitamin_at(&bottle, 4, 15, VirusColor::Blue, Rotation::North, VitaminOrdinal::Right);
}

#[test]
fn hard_drops_to_virus() {
    let mut bottle = Bottle::new();
    bottle.try_spawn(PillShape::new(VirusColor::Red, VirusColor::Blue));
    having_virus(&mut bottle, 4, 15, VirusColor::Yellow);
    assert!(bottle.hard_drop().is_some());
    has_vitamin_at(&bottle, 3, 14, VirusColor::Red, Rotation::North, VitaminOrdinal::Left);
    has_vitamin_at(&bottle, 4, 14, VirusColor::Blue, Rotation::North, VitaminOrdinal::Right);
}

#[test]
fn locks() {
    let mut bottle = Bottle::new();
    bottle.try_spawn(PillShape::new(VirusColor::Red, VirusColor::Blue));
    bottle.hard_drop();
    assert!(bottle.lock().is_some());
    has_stack_at(&bottle, 3, 15, VirusColor::Red, Rotation::North, VitaminOrdinal::Left);
    has_stack_at(&bottle, 4, 15, VirusColor::Blue, Rotation::North, VitaminOrdinal::Right);
}

#[test]
fn empty_patterns() {
    let bottle = Bottle::new();
    let (pattern, patterns) = bottle.pattern();
    assert_eq!(pattern, vec![]);
    assert_eq!(patterns.len(), 0);
}

#[test]
fn no_patterns() {
    let mut bottle = Bottle::new();
    having_virus(&mut bottle, 1, 10, VirusColor::Yellow);
    having_virus(&mut bottle, 2, 10, VirusColor::Yellow);
    having_virus(&mut bottle, 3, 10, VirusColor::Yellow);

    having_stack(&mut bottle, 2, 11, VirusColor::Blue, Rotation::North, VitaminOrdinal::Left);
    having_stack(&mut bottle, 3, 11, VirusColor::Blue, Rotation::North, VitaminOrdinal::Right);
    having_garbage(&mut bottle, 4, 11, VirusColor::Blue);

    having_garbage(&mut bottle, 3, 12, VirusColor::Red);
    having_garbage(&mut bottle, 4, 12, VirusColor::Red);
    having_garbage(&mut bottle, 5, 12, VirusColor::Red);

    let (pattern, patterns) = bottle.pattern();
    assert_eq!(pattern, vec![]);
    assert_eq!(patterns.len(), 0);
}

#[test]
fn pattern_horizontal_4() {
    let mut bottle = Bottle::new();
    having_virus(&mut bottle, 1, 10, VirusColor::Yellow);
    having_virus(&mut bottle, 2, 10, VirusColor::Yellow);
    having_stack(&mut bottle, 3, 10, VirusColor::Yellow, Rotation::North, VitaminOrdinal::Left);
    having_stack(&mut bottle, 4, 10, VirusColor::Yellow, Rotation::North, VitaminOrdinal::Right);
    having_garbage(&mut bottle, 5, 10, VirusColor::Red);
    having_garbage(&mut bottle, 1, 11, VirusColor::Yellow);
    let (pattern, patterns) = bottle.pattern();
    let observed: HashSet<ColoredBlock, RandomState> = HashSet::from_iter(pattern.into_iter());
    assert_eq!(
        observed,
        HashSet::from_iter([
            ColoredBlock::from_block(BottlePoint::new(1, 10), Block::Virus(VirusColor::Yellow)),
            ColoredBlock::from_block(BottlePoint::new(2, 10), Block::Virus(VirusColor::Yellow)),
            ColoredBlock::from_block(BottlePoint::new(3, 10), Block::Stack(VirusColor::Yellow, Rotation::North, VitaminOrdinal::Left)),
            ColoredBlock::from_block(BottlePoint::new(4, 10), Block::Stack(VirusColor::Yellow, Rotation::North, VitaminOrdinal::Right))
        ])
    );
    assert_eq!(patterns.len(), 1);
}

#[test]
fn pattern_vertical_4() {
    let mut bottle = Bottle::new();
    having_virus(&mut bottle, 5, 10, VirusColor::Yellow);
    having_virus(&mut bottle, 5, 11, VirusColor::Yellow);
    having_garbage(&mut bottle, 5, 12, VirusColor::Yellow);
    having_garbage(&mut bottle, 5, 13, VirusColor::Yellow);
    having_garbage(&mut bottle, 5, 14, VirusColor::Red);
    having_garbage(&mut bottle, 4, 10, VirusColor::Yellow);
    let (pattern, patterns) = bottle.pattern();
    let observed: HashSet<ColoredBlock, RandomState> = HashSet::from_iter(pattern.into_iter());
    assert_eq!(
        observed,
        HashSet::from_iter([
            ColoredBlock::from_block(BottlePoint::new(5, 10), Block::Virus(VirusColor::Yellow)),
            ColoredBlock::from_block(BottlePoint::new(5, 11), Block::Virus(VirusColor::Yellow)),
            ColoredBlock::from_block(BottlePoint::new(5, 12), Block::Garbage(VirusColor::Yellow)),
            ColoredBlock::from_block(BottlePoint::new(5, 13), Block::Garbage(VirusColor::Yellow))
        ])
    );
    assert_eq!(patterns.len(), 1);
}

#[test]
fn pattern_5() {
    let mut bottle = Bottle::new();
    having_virus(&mut bottle, 1, 10, VirusColor::Yellow);
    having_virus(&mut bottle, 2, 10, VirusColor::Yellow);
    having_garbage(&mut bottle, 3, 10, VirusColor::Yellow);
    having_garbage(&mut bottle, 4, 10, VirusColor::Yellow);
    having_garbage(&mut bottle, 5, 10, VirusColor::Yellow);
    let (pattern, patterns) = bottle.pattern();
    let observed: HashSet<ColoredBlock, RandomState> = HashSet::from_iter(pattern.into_iter());
    assert_eq!(
        observed,
        HashSet::from_iter([
            ColoredBlock::from_block(BottlePoint::new(1, 10), Block::Virus(VirusColor::Yellow)),
            ColoredBlock::from_block(BottlePoint::new(2, 10), Block::Virus(VirusColor::Yellow)),
            ColoredBlock::from_block(BottlePoint::new(3, 10), Block::Garbage(VirusColor::Yellow)),
            ColoredBlock::from_block(BottlePoint::new(4, 10), Block::Garbage(VirusColor::Yellow)),
            ColoredBlock::from_block(BottlePoint::new(5, 10), Block::Garbage(VirusColor::Yellow))
        ])
    );
    assert_eq!(patterns.len(), 1);
}

#[test]
fn multiple_patterns() {
    let mut bottle = Bottle::new();
    having_virus(&mut bottle, 1, 10, VirusColor::Yellow);
    having_virus(&mut bottle, 2, 10, VirusColor::Yellow);
    having_stack(&mut bottle, 3, 10, VirusColor::Yellow, Rotation::North, VitaminOrdinal::Left);
    having_stack(&mut bottle, 4, 10, VirusColor::Yellow, Rotation::North, VitaminOrdinal::Right);
    having_garbage(&mut bottle, 4, 11, VirusColor::Yellow);
    having_garbage(&mut bottle, 4, 12, VirusColor::Yellow);
    having_garbage(&mut bottle, 4, 13, VirusColor::Yellow);

    let (pattern, patterns) = bottle.pattern();
    let observed: HashSet<ColoredBlock, RandomState> = HashSet::from_iter(pattern.into_iter());
    assert_eq!(
        observed,
        HashSet::from_iter([
            ColoredBlock::from_block(BottlePoint::new(1, 10), Block::Virus(VirusColor::Yellow)),
            ColoredBlock::from_block(BottlePoint::new(2, 10), Block::Virus(VirusColor::Yellow)),
            ColoredBlock::from_block(BottlePoint::new(3, 10), Block::Stack(VirusColor::Yellow, Rotation::North, VitaminOrdinal::Left)),
            ColoredBlock::from_block(BottlePoint::new(4, 10), Block::Stack(VirusColor::Yellow, Rotation::North, VitaminOrdinal::Right)),
            ColoredBlock::from_block(BottlePoint::new(4, 11), Block::Garbage(VirusColor::Yellow)),
            ColoredBlock::from_block(BottlePoint::new(4, 12), Block::Garbage(VirusColor::Yellow)),
            ColoredBlock::from_block(BottlePoint::new(4, 13), Block::Garbage(VirusColor::Yellow)),
        ])
    );
    assert_eq!(patterns.len(), 2);
}

#[test]
fn pattern_with_repeating_block_on_bottom_of_bottle() {
    let mut bottle = Bottle::new();
    having_garbage(&mut bottle, 7, 12, VirusColor::Red);
    having_garbage(&mut bottle, 7, 13, VirusColor::Red);
    having_garbage(&mut bottle, 7, 14, VirusColor::Red);
    having_virus(&mut bottle, 7, 15, VirusColor::Red);
    having_garbage(&mut bottle, 6, 15, VirusColor::Red);
    having_garbage(&mut bottle, 5, 15, VirusColor::Red);
    having_garbage(&mut bottle, 4, 15, VirusColor::Red);
    let (pattern, patterns) = bottle.pattern();
    assert_eq!(pattern.len(), 7, "{:?}", pattern);
    assert_eq!(patterns.len(), 2);
}

#[test]
fn destroy() {
    let mut bottle = Bottle::new();
    having_virus(&mut bottle, 0, 10, VirusColor::Yellow);
    having_virus(&mut bottle, 1, 10, VirusColor::Yellow);
    having_garbage(&mut bottle, 2, 10, VirusColor::Yellow);
    having_garbage(&mut bottle, 3, 10, VirusColor::Yellow);
    having_virus(&mut bottle, 0, 11, VirusColor::Yellow);
    let (pattern, _) = bottle.pattern();
    bottle.destroy(pattern);
    is_empty_at(&bottle, 0, 10);
    is_empty_at(&bottle, 1, 10);
    is_empty_at(&bottle, 2, 10);
    is_empty_at(&bottle, 3, 10);
    has_virus_at(&bottle, 0, 11, VirusColor::Yellow);
}

#[test]
fn destroy_generates_garbage() {
    let mut bottle = Bottle::new();
    having_stack(&mut bottle, 5, BOTTLE_FLOOR, VirusColor::Red, Rotation::North, VitaminOrdinal::Left);
    having_stack(&mut bottle, 6, BOTTLE_FLOOR, VirusColor::Blue, Rotation::North, VitaminOrdinal::Right);
    bottle.destroy(vec![ColoredBlock::from_block(BottlePoint::new(5, BOTTLE_FLOOR as i32), Block::Stack(VirusColor::Red, Rotation::North, VitaminOrdinal::Left))]);
    is_empty_at(&bottle, 5, BOTTLE_FLOOR);
    is_garbage_at(&bottle, 6, BOTTLE_FLOOR, VirusColor::Blue);
}

#[test]
fn step_down_no_garbage() {
    let mut bottle = Bottle::new();
    having_virus(&mut bottle, 0, 10, VirusColor::Yellow);
    having_garbage(&mut bottle, 0, 9, VirusColor::Yellow);
    assert!(!bottle.step_down_garbage());
}

#[test]
fn step_down_free_garbage() {
    let mut bottle = Bottle::new();
    having_virus(&mut bottle, 0, 10, VirusColor::Yellow);
    having_garbage(&mut bottle, 0, 8, VirusColor::Yellow);
    assert!(bottle.step_down_garbage());
    has_garbage_at(&bottle, 0, 9, VirusColor::Yellow);
}

#[test]
fn step_down_free_stacked_garbage() {
    let mut bottle = Bottle::new();
    having_virus(&mut bottle, 0, 10, VirusColor::Yellow);
    having_garbage(&mut bottle, 0, 8, VirusColor::Yellow);
    having_garbage(&mut bottle, 0, 7, VirusColor::Yellow);
    assert!(bottle.step_down_garbage());
    has_garbage_at(&bottle, 0, 9, VirusColor::Yellow);
    has_garbage_at(&bottle, 0, 8, VirusColor::Yellow);
}

#[test]
fn step_down_kitchen_sink() {
    let mut bottle = Bottle::new();
    having_garbage(&mut bottle, 0, 14, VirusColor::Yellow);
    having_stack(&mut bottle, 0, 13, VirusColor::Red, Rotation::North, VitaminOrdinal::Left);
    having_stack(&mut bottle, 1, 13, VirusColor::Red, Rotation::North, VitaminOrdinal::Right);
    having_stack(&mut bottle, 1, 12, VirusColor::Blue, Rotation::North, VitaminOrdinal::Left);
    having_stack(&mut bottle, 2, 12, VirusColor::Blue, Rotation::North, VitaminOrdinal::Right);
    assert!(bottle.step_down_garbage());
    has_garbage_at(&bottle, 0, 15, VirusColor::Yellow);
    has_stack_at(&bottle, 0, 14, VirusColor::Red, Rotation::North, VitaminOrdinal::Left);
    has_stack_at(&bottle, 1, 14, VirusColor::Red, Rotation::North, VitaminOrdinal::Right);
    has_stack_at(&bottle, 1, 13, VirusColor::Blue, Rotation::North, VitaminOrdinal::Left);
    has_stack_at(&bottle, 2, 13, VirusColor::Blue, Rotation::North, VitaminOrdinal::Right);
}

#[test]
fn hold() {
    let mut bottle = Bottle::new();
    let shape = PillShape::new(VirusColor::Red, VirusColor::Blue);
    bottle.try_spawn(shape);
    assert_eq!(bottle.hold(), Some(shape));
    is_empty(&bottle);
}

#[test]
fn bottle_send_garbage() {
    let mut bottle = Bottle::new();
    assert_eq!(
        bottle.send_garbage(vec![VirusColor::Blue, VirusColor::Red]).len(),
        2
    );
    let mut garbage = HashSet::new();
    for block in bottle.row(0).into_iter() {
        if let Block::Garbage(color) = block {
            garbage.insert(*color);
        }
    }
    assert_eq!(garbage, HashSet::from_iter([VirusColor::Blue, VirusColor::Red]))
}

#[test]
fn indices_run_row_by_row() {
    assert_eq!(BOTTLE_WIDTH, 8);
    assert_eq!(BOTTLE_HEIGHT, 16);
    assert_eq!(BOTTLE_FLOOR, 15);
    assert_eq!(TOTAL_BLOCKS, 128);
    assert_eq!(index_at(0, 0), 0);
    assert_eq!(index_at(7, 0), 7);
    assert_eq!(index_at(3, 2), 19);
    assert_eq!(index_at(7, 15), 127);
    assert_eq!(index(BottlePoint::new(3, 2)), 19);
    assert_eq!(index_to_point(19), BottlePoint::new(3, 2));
    assert_eq!(row_range(2), 16..24);
    assert_eq!(rows_range(2, 3), 16..32);
}

#[test]
fn reads_and_writes_single_cells() {
    let mut bottle = Bottle::new();
    bottle.set_virus_at(2, 9, VirusColor::Red);
    bottle.set_block_at(3, 9, Block::Garbage(VirusColor::Blue));
    assert_eq!(bottle.block_at(2, 9), Block::Virus(VirusColor::Red));
    assert_eq!(bottle.block(BottlePoint::new(3, 9)), Block::Garbage(VirusColor::Blue));
    assert_eq!(bottle.row(9)[2], Block::Virus(VirusColor::Red));
    assert_eq!(bottle.row(9).len(), 8);
    assert_eq!(bottle.virus_count(), 1);
    assert_eq!(bottle.viruses(), vec![ColoredBlock::virus(2, 9, VirusColor::Red)]);
}

#[test]
fn viruses_are_listed_row_by_row() {
    let mut bottle = Bottle::new();
    bottle.set_virus_at(5, 12, VirusColor::Red);
    bottle.set_virus_at(1, 12, VirusColor::Blue);
    bottle.set_virus_at(7, 3, VirusColor::Yellow);
    assert_eq!(bottle.virus_count(), 3);
    assert_eq!(
        bottle.viruses(),
        vec![
            ColoredBlock::virus(7, 3, VirusColor::Yellow),
            ColoredBlock::virus(1, 12, VirusColor::Blue),
            ColoredBlock::virus(5, 12, VirusColor::Red),
        ]
    );
}

#[test]
fn spawn_onto_a_virus_fails_and_writes_only_the_free_half() {
    let mut bottle = Bottle::new();
    having_virus(&mut bottle, 3, 0, VirusColor::Yellow);
    assert_eq!(bottle.try_spawn(PillShape::new(VirusColor::Red, VirusColor::Blue)), None);
    has_virus_at(&bottle, 3, 0, VirusColor::Yellow);
    has_vitamin_at(&bottle, 4, 0, VirusColor::Blue, Rotation::North, VitaminOrdinal::Right);
    assert!(bottle.pill.is_some());
    for i in 0..128 {
        assert!(!bottle.blocks[i].is_ghost());
    }
}

#[test]
fn moves_never_leave_the_grid_or_overlap_what_stops_a_capsule() {
    let mut bottle = Bottle::new();
    having_virus(&mut bottle, 1, 3, VirusColor::Yellow);
    having_garbage(&mut bottle, 6, 5, VirusColor::Red);
    having_virus(&mut bottle, 3, 9, VirusColor::Blue);
    bottle.try_spawn(PillShape::new(VirusColor::Red, VirusColor::Blue));
    let script = [0, 0, 2, 0, 0, 3, 2, 1, 1, 1, 1, 2, 3, 1, 1, 4, 2, 2, 0, 0, 0, 0, 2, 2, 3, 3, 2, 2, 2, 2, 2];
    for step in script {
        let before = bottle.blocks;
        let moved = match step {
            0 => bottle.left(),
            1 => bottle.right(),
            2 => bottle.step_down_pill(),
            3 => bottle.rotate(true),
            _ => bottle.rotate(false),
        };
        let pill = bottle.pill.unwrap();
        for vitamin in pill.vitamins() {
            let p = vitamin.position();
            assert!(0 <= p.x() && p.x() < 8 && 0 <= p.y() && p.y() < 16);
            assert_eq!(
                bottle.block(p),
                Block::Vitamin(vitamin.color(), pill.rotation(), vitamin.ordinal())
            );
        }
        if !moved {
            assert_eq!(bottle.blocks, before);
        }
        has_virus_at(&bottle, 1, 3, VirusColor::Yellow);
        has_garbage_at(&bottle, 6, 5, VirusColor::Red);
        has_virus_at(&bottle, 3, 9, VirusColor::Blue);
    }
}

#[test]
fn the_ghost_is_where_a_hard_drop_would_land() {
    let mut bottle = Bottle::new();
    having_virus(&mut bottle, 2, 12, VirusColor::Yellow);
    having_virus(&mut bottle, 5, 9, VirusColor::Yellow);
    bottle.try_spawn(PillShape::new(VirusColor::Red, VirusColor::Blue));
    let script = [3, 0, 0, 2, 3, 1, 1, 1, 2, 4, 2, 1, 2, 2, 0, 0, 0, 0, 2, 2, 2];
    for step in script {
        match step {
            0 => bottle.left(),
            1 => bottle.right(),
            2 => bottle.step_down_pill(),
            3 => bottle.rotate(true),
            _ => bottle.rotate(false),
        };
        let ghosts: Vec<usize> = (0..128).filter(|i| bottle.blocks[*i].is_ghost()).collect();
        let mut dropped = bottle.clone();
        let before = dropped.pill.unwrap().vitamins();
        let landing = match dropped.hard_drop() {
            Some((_, halves)) => halves,
            None => before,
        };
        let mut expected: Vec<usize> = landing
            .iter()
            .map(|v| index(v.position()))
            .filter(|i| !before.iter().any(|v| index(v.position()) == *i))
            .collect();
        expected.sort();
        assert_eq!(ghosts, expected);
        for vitamin in landing {
            let at = index(vitamin.position());
            if ghosts.contains(&at) {
                assert_eq!(
                    bottle.blocks[at],
                    Block::GhostVitamin(vitamin.color(), vitamin.rotation(), vitamin.ordinal())
                );
            }
        }
    }
}

#[test]
fn hard_drop_reports_rows_and_where_the_halves_end_up() {
    let mut bottle = Bottle::new();
    having_virus(&mut bottle, 3, 11, VirusColor::Yellow);
    bottle.try_spawn(PillShape::new(VirusColor::Red, VirusColor::Blue));
    let (rows, halves) = bottle.hard_drop().unwrap();
    assert_eq!(rows, 10);
    assert_eq!(halves[0].position(), BottlePoint::new(3, 10));
    assert_eq!(halves[1].position(), BottlePoint::new(4, 10));
    assert!(bottle.is_collision());
    assert_eq!(bottle.hard_drop(), None);
    assert_eq!(bottle.lock_placements(), 0);
    assert_eq!(bottle.register_lock_placement(), 1);
    assert_eq!(bottle.pill().lock_placements(), 1);
    bottle.pill_mut().lock_placements = 7;
    assert_eq!(bottle.lock_placements(), 7);
}

#[test]
fn lock_pairs_the_halves_in_every_rotation() {
    for turns in 0..4 {
        let mut bottle = Bottle::new();
        bottle.try_spawn(PillShape::new(VirusColor::Red, VirusColor::Blue));
        for _ in 0..turns {
            assert!(bottle.rotate(true));
        }
        bottle.hard_drop();
        let halves = bottle.lock().unwrap();
        assert!(bottle.pill.is_none());
        for vitamin in halves {
            let block = bottle.block(vitamin.position());
            let offset = block.find_stack_partner_offset().unwrap();
            let partner = bottle.block(vitamin.position() + offset);
            let back = partner.find_stack_partner_offset().unwrap();
            assert_eq!(vitamin.position() + offset + back, vitamin.position());
            assert!(matches!(partner, Block::Stack(_, _, _)));
        }
    }
    assert_eq!(Bottle::new().lock(), None);
}

#[test]
fn destroying_both_halves_leaves_no_garbage() {
    let mut bottle = Bottle::new();
    having_stack(&mut bottle, 5, 15, VirusColor::Red, Rotation::North, VitaminOrdinal::Left);
    having_stack(&mut bottle, 6, 15, VirusColor::Blue, Rotation::North, VitaminOrdinal::Right);
    bottle.destroy(vec![
        ColoredBlock::stack(5, 15, VirusColor::Red),
        ColoredBlock::stack(6, 15, VirusColor::Blue),
    ]);
    is_empty(&bottle);
}

#[test]
fn pattern_is_the_same_until_the_grid_changes() {
    let mut bottle = Bottle::new();
    having_virus(&mut bottle, 1, 10, VirusColor::Yellow);
    having_virus(&mut bottle, 2, 10, VirusColor::Yellow);
    having_garbage(&mut bottle, 3, 10, VirusColor::Yellow);
    having_garbage(&mut bottle, 4, 10, VirusColor::Yellow);
    having_garbage(&mut bottle, 4, 11, VirusColor::Yellow);
    having_garbage(&mut bottle, 4, 12, VirusColor::Yellow);
    having_garbage(&mut bottle, 4, 13, VirusColor::Yellow);
    let first = bottle.pattern();
    let second = bottle.pattern();
    assert_eq!(first, second);
    assert_eq!(
        first.0.iter().map(|b| (b.position.x(), b.position.y())).collect::<Vec<_>>(),
        vec![(1, 10), (2, 10), (3, 10), (4, 10), (4, 11), (4, 12), (4, 13)]
    );
    assert_eq!(first.1, vec![VirusColor::Yellow, VirusColor::Yellow]);
    assert_eq!(first.0.iter().filter(|b| b.is_virus).count(), 2);
}

#[test]
fn a_loose_cell_settles_on_the_floor_or_on_the_first_obstacle() {
    for (obstacle, rests_at) in [(None, 15u32), (Some(11u32), 10u32)] {
        let mut bottle = Bottle::new();
        having_garbage(&mut bottle, 2, 4, VirusColor::Red);
        if let Some(y) = obstacle {
            having_virus(&mut bottle, 2, y, VirusColor::Blue);
        }
        for step in 0..(rests_at - 4) {
            assert!(bottle.step_down_garbage());
            has_garbage_at(&bottle, 2, 5 + step, VirusColor::Red);
            is_empty_at(&bottle, 2, 4 + step);
        }
        assert!(!bottle.step_down_garbage());
        has_garbage_at(&bottle, 2, rests_at, VirusColor::Red);
    }
}

#[test]
fn a_locked_half_holds_up_its_other_half() {
    let mut bottle = Bottle::new();
    having_virus(&mut bottle, 0, 10, VirusColor::Yellow);
    having_stack(&mut bottle, 0, 9, VirusColor::Red, Rotation::North, VitaminOrdinal::Left);
    having_stack(&mut bottle, 1, 9, VirusColor::Red, Rotation::North, VitaminOrdinal::Right);
    having_garbage(&mut bottle, 1, 8, VirusColor::Blue);
    assert!(!bottle.step_down_garbage());
    bottle.destroy(vec![ColoredBlock::stack(0, 9, VirusColor::Red)]);
    is_garbage_at(&bottle, 1, 9, VirusColor::Red);
    assert!(bottle.step_down_garbage());
    has_garbage_at(&bottle, 1, 10, VirusColor::Red);
    has_garbage_at(&bottle, 1, 9, VirusColor::Blue);
}

#[test]
fn garbage_goes_to_the_columns_given_from_the_last_one_on() {
    let mut bottle = Bottle::new();
    let sent = bottle.place_garbage(
        vec![VirusColor::Blue, VirusColor::Red, VirusColor::Yellow],
        vec![6, 1],
    );
    assert_eq!(
        sent,
        vec![
            Garbage::new(VirusColor::Blue, BottlePoint::new(1, 0)),
            Garbage::new(VirusColor::Red, BottlePoint::new(6, 0)),
        ]
    );
    has_garbage_at(&bottle, 1, 0, VirusColor::Blue);
    has_garbage_at(&bottle, 6, 0, VirusColor::Red);
    assert_eq!(bottle.blocks.iter().filter(|b| !b.is_empty()).count(), 2);
}

#[test]
fn garbage_is_sent_to_empty_top_cells_only() {
    let mut bottle = Bottle::new();
    for x in 0..7 {
        having_virus(&mut bottle, x, 0, VirusColor::Yellow);
    }
    let sent = bottle.send_garbage(vec![VirusColor::Blue, VirusColor::Red]);
    assert_eq!(sent, vec![Garbage::new(VirusColor::Blue, BottlePoint::new(7, 0))]);
    has_garbage_at(&bottle, 7, 0, VirusColor::Blue);
    for x in 0..7 {
        has_virus_at(&bottle, x, 0, VirusColor::Yellow);
    }
}

#[test]
fn without_a_capsule_nothing_steps_down_or_rests() {
    let mut bottle = Bottle::new();
    assert!(!bottle.step_down_pill());
    assert!(!bottle.is_collision());
    assert_eq!(bottle.hard_drop(), None);
    assert_eq!(bottle.hold(), None);
    is_empty(&bottle);
}

#[test]
fn the_preview_is_drawn_afresh_over_what_is_stale() {
    let mut bottle = Bottle::new();
    having_virus(&mut bottle, 3, 9, VirusColor::Yellow);
    bottle.blocks[index_at(0, 0)] = Block::GhostVitamin(VirusColor::Red, Rotation::North, VitaminOrdinal::Left);
    bottle.try_spawn(PillShape::new(VirusColor::Red, VirusColor::Blue));
    // the capsule is moved behind the bottle's back, so the preview is stale
    bottle.blocks[index_at(3, 0)] = Block::Empty;
    bottle.blocks[index_at(4, 0)] = Block::Empty;
    let mut pill = bottle.pill.unwrap();
    pill.translate(2, 3);
    bottle.pill = Some(pill);
    bottle.blocks[index_at(5, 3)] = Block::Vitamin(VirusColor::Red, Rotation::North, VitaminOrdinal::Left);
    bottle.blocks[index_at(6, 3)] = Block::Vitamin(VirusColor::Blue, Rotation::North, VitaminOrdinal::Right);
    has_ghost_at(&bottle, 3, 8, VirusColor::Red, Rotation::North, VitaminOrdinal::Left);
    bottle.render_ghost();
    is_empty_at(&bottle, 3, 8);
    is_empty_at(&bottle, 4, 8);
    has_ghost_at(&bottle, 5, 15, VirusColor::Red, Rotation::North, VitaminOrdinal::Left);
    has_ghost_at(&bottle, 6, 15, VirusColor::Blue, Rotation::North, VitaminOrdinal::Right);
    has_virus_at(&bottle, 3, 9, VirusColor::Yellow);
    has_vitamin_at(&bottle, 5, 3, VirusColor::Red, Rotation::North, VitaminOrdinal::Left);
    assert_eq!(bottle.blocks.iter().filter(|b| b.is_ghost()).count(), 2);

    // a capsule at rest has no preview, and neither has a bottle without a capsule
    bottle.hard_drop();
    assert_eq!(bottle.blocks.iter().filter(|b| b.is_ghost()).count(), 0);
    bottle.blocks[index_at(0, 0)] = Block::GhostVitamin(VirusColor::Red, Rotation::North, VitaminOrdinal::Left);
    bottle.lock();
    bottle.render_ghost();
    assert_eq!(bottle.blocks.iter().filter(|b| b.is_ghost()).count(), 0);
    has_stack_at(&bottle, 5, 15, VirusColor::Red, Rotation::North, VitaminOrdinal::Left);
}
