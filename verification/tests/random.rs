use dr_rustario::block::Block;
use dr_rustario::bottle::Bottle;
use dr_rustario::geometry::BottlePoint;
use dr_rustario::grid::{BOTTLE_HEIGHT, BOTTLE_WIDTH};
use dr_rustario::pill::{PillShape, VirusColor};
use dr_rustario::random::{
    random, AvailableColors, BottleSeed, GameRandom, RandomMode, MAX_BOTTLE_SEED_ATTEMPTS,
    MAX_VIRUSES, PEEK_SIZE,
};

fn virus_count(seed: &BottleSeed) -> usize {
    seed.viruses.iter().filter(|x| x.is_some()).count()
}

fn keeps_the_rules(result: &BottleSeed) {
    // revalidate all placements
    for x in 0..BOTTLE_WIDTH as i32 {
        for y in 0..BOTTLE_HEIGHT as i32 {
            if let Some(color) = result.get(x, y) {
                assert!(result.get_available_colors(x, y).contains(&color));
                assert_ne!(result.get(x + 2, y), Some(color));
                assert_ne!(result.get(x, y + 2), Some(color));
            }
        }
    }

    // validate 3 in a row rule
    for color in [VirusColor::Yellow, VirusColor::Red, VirusColor::Blue] {
        // horizontal
        for y in 0..BOTTLE_HEIGHT as i32 {
            let mut count = 0;
            for x in 0..BOTTLE_WIDTH as i32 {
                if result.get(x, y) == Some(color) {
                    count += 1;
                } else {
                    count = 0;
                }
                assert!(count < 3, "({}, {}) {:?}", x, y, result);
            }
        }

        // vertical
        for x in 0..BOTTLE_WIDTH as i32 {
            let mut count = 0;
            for y in 0..BOTTLE_HEIGHT as i32 {
                if result.get(x, y) == Some(color) {
                    count += 1;
                } else {
                    count = 0;
                }
                assert!(count < 3, "({}, {}) {:?}", x, y, result);
            }
        }
    }
}

#[test]
fn seeds_bottle_at_level_0() {
    let mut source = GameRandom::from_u64_seed(123546, RandomMode::True);
    let result = source.bottle_seed(0).expect("should generate valid bottle for this seed");
    assert_eq!(virus_count(&result), 4, "{:?}", result);
}

#[test]
fn seeds_bottle_with_99_viruses() {
    let mut source = GameRandom::from_u64_seed(123546, RandomMode::True);
    let result = source.bottle_seed(30).expect("should generate valid bottle for this seed");
    assert_eq!(virus_count(&result), 99, "{:?}", result);
    println!("{:?}", result);
    keeps_the_rules(&result);
}

#[test]
fn seeds_keep_the_rules_at_every_level() {
    let mut source = GameRandom::from_u64_seed(7, RandomMode::Bag);
    for level in 0..=24 {
        let result = source.bottle_seed(level).expect("a layout for the level");
        let target = (level * 4 + 4).min(MAX_VIRUSES);
        assert_eq!(result.count(), target);
        assert_eq!(virus_count(&result), target as usize);
        keeps_the_rules(&result);
        let top = match level {
            0..=14 => 6,
            15 | 16 => 5,
            17 | 18 => 4,
            _ => 3,
        };
        for y in 0..top {
            for x in 0..8 {
                assert_eq!(result.get(x, y), None);
            }
        }
        let bottle = Bottle::from_seed(result);
        assert_eq!(bottle.virus_count(), target);
        assert!(bottle.pill.is_none());
    }
}

#[test]
fn the_same_seed_gives_the_same_layout_and_capsules() {
    for mode in [RandomMode::Bag, RandomMode::True] {
        let mut one = GameRandom::from_u64_seed(99, mode);
        let mut other = GameRandom::from_u64_seed(99, mode);
        assert_eq!(one.bottle_seed(10).unwrap(), other.bottle_seed(10).unwrap());
        for _ in 0..40 {
            assert_eq!(one.peek(), other.peek());
            assert_eq!(one.next_pill(), other.next_pill());
        }
    }
    let mut one = GameRandom::from_seed([7; 32], RandomMode::Bag);
    let mut other = GameRandom::from_seed([7; 32], RandomMode::Bag);
    assert_eq!(one.next_pill(), other.next_pill());
}

#[test]
fn a_layout_follows_from_the_order_of_the_cells() {
    // cells are visited from the end of the list
    let order = vec![
        BottlePoint::new(0, 0),
        BottlePoint::new(3, 15),
        BottlePoint::new(2, 15),
        BottlePoint::new(1, 15),
        BottlePoint::new(0, 15),
    ];
    let seed = BottleSeed::from_order(0, order).unwrap();
    assert_eq!(seed.count(), 4);
    assert_eq!(seed.get(0, 15), Some(VirusColor::Yellow));
    assert_eq!(seed.get(1, 15), Some(VirusColor::Blue));
    assert_eq!(seed.get(2, 15), Some(VirusColor::Red));
    assert_eq!(seed.get(3, 15), Some(VirusColor::Yellow));
    assert_eq!(seed.get(0, 0), None);
    assert_eq!(seed.get(-1, 3), None);
    assert_eq!(seed.get(8, 3), None);
    assert_eq!(seed.into_blocks()[120], Block::Virus(VirusColor::Yellow));
    assert_eq!(seed.into_blocks()[0], Block::Empty);
}

#[test]
fn a_color_that_would_repeat_two_cells_away_is_passed_over() {
    let mut seed = BottleSeed::new();
    seed.set(0, 15, VirusColor::Red);
    assert_eq!(seed.count(), 1);
    let colors = seed.get_available_colors(2, 15);
    assert_eq!(colors, AvailableColors { yellow: true, blue: true, red: false });
    assert!(!colors.is_empty());

    // the fourth placement starts from yellow again, but yellow stands two cells to its left
    let order = vec![
        BottlePoint::new(2, 15),
        BottlePoint::new(6, 6),
        BottlePoint::new(5, 5),
        BottlePoint::new(0, 15),
    ];
    let seed = BottleSeed::from_order(0, order).unwrap();
    assert_eq!(seed.get(0, 15), Some(VirusColor::Yellow));
    assert_eq!(seed.get(5, 5), Some(VirusColor::Blue));
    assert_eq!(seed.get(6, 6), Some(VirusColor::Red));
    assert_eq!(seed.get(2, 15), Some(VirusColor::Blue));
}

#[test]
fn a_cell_that_can_take_no_color_is_passed_over() {
    // the fourth cell visited lies two cells from a yellow, a blue and a red virus
    let order = vec![
        BottlePoint::new(0, 0),
        BottlePoint::new(4, 10),
        BottlePoint::new(4, 12),
        BottlePoint::new(6, 10),
        BottlePoint::new(2, 10),
    ];
    let seed = BottleSeed::from_order(0, order).unwrap();
    assert_eq!(seed.count(), 4);
    assert_eq!(seed.get(2, 10), Some(VirusColor::Yellow));
    assert_eq!(seed.get(6, 10), Some(VirusColor::Blue));
    assert_eq!(seed.get(4, 12), Some(VirusColor::Red));
    assert_eq!(seed.get(4, 10), None);
    // the cell after it is the fourth placement all the same, and starts from yellow
    assert_eq!(seed.get(0, 0), Some(VirusColor::Yellow));

    // with no cell left after it, the cells have run out
    let order = vec![
        BottlePoint::new(4, 10),
        BottlePoint::new(4, 12),
        BottlePoint::new(6, 10),
        BottlePoint::new(2, 10),
    ];
    assert_eq!(BottleSeed::from_order(0, order), None);
}

#[test]
fn a_layout_fails_when_the_cells_run_out() {
    let order = vec![BottlePoint::new(1, 15), BottlePoint::new(0, 15)];
    assert_eq!(BottleSeed::from_order(0, order), None);
    assert_eq!(BottleSeed::from_order(0, vec![]), None);
}

#[test]
fn a_cell_between_two_of_a_color_cannot_take_it() {
    let mut seed = BottleSeed::new();
    seed.set(2, 10, VirusColor::Blue);
    seed.set(4, 10, VirusColor::Blue);
    seed.set(3, 9, VirusColor::Red);
    seed.set(3, 11, VirusColor::Red);
    seed.set(3, 12, VirusColor::Yellow);
    let colors = seed.get_available_colors(3, 10);
    assert!(!colors.contains(&VirusColor::Blue));
    assert!(!colors.contains(&VirusColor::Red));
    assert!(!colors.contains(&VirusColor::Yellow));
    assert!(colors.is_empty());
    assert_eq!(BottleSeed::index(3, 10), 83);
}

#[test]
fn bags_hold_every_shape_once() {
    let mut source = GameRandom::from_u64_seed(5, RandomMode::Bag);
    assert_eq!(source.queue.len(), 9);
    for _ in 0..7 {
        let mut bag: Vec<PillShape> = (0..9).map(|_| source.next_pill()).collect();
        for shape in PillShape::all() {
            assert_eq!(bag.iter().filter(|s| **s == shape).count(), 1);
        }
        bag.clear();
        assert!(source.queue.len() > PEEK_SIZE);
    }
}

#[test]
fn capsules_come_in_the_order_in_which_they_are_shown() {
    for mode in [RandomMode::Bag, RandomMode::True] {
        let mut source = GameRandom::from_u64_seed(11, mode);
        for _ in 0..30 {
            let shown = source.peek();
            let first = source.next_pill();
            assert_eq!(first, shown[0]);
            assert_eq!(source.peek()[0..4], shown[1..5]);
        }
    }
    assert_eq!(GameRandom::from_u64_seed(11, RandomMode::True).queue.len(), PEEK_SIZE);
}

#[test]
fn every_player_gets_the_same_supply() {
    let mut all = random(3, RandomMode::Bag);
    assert_eq!(all.len(), 3);
    let first: Vec<PillShape> = (0..20).map(|_| all[0].next_pill()).collect();
    for i in 1..3 {
        let other: Vec<PillShape> = (0..20).map(|_| all[i].next_pill()).collect();
        assert_eq!(first, other);
    }
    assert_eq!(RandomMode::default(), RandomMode::Bag);
    assert_eq!(RandomMode::names(), vec!["bag", "true"]);
    assert_eq!(MAX_BOTTLE_SEED_ATTEMPTS, 100_000);
}

#[test]
fn the_cells_are_visited_in_a_random_order() {
    let mut in_rows = Vec::new();
    for y in 6..16 {
        for x in 0..8 {
            in_rows.push(BottlePoint::new(x, y));
        }
    }
    let unshuffled = BottleSeed::from_order(5, in_rows).unwrap();
    let mut source = GameRandom::from_u64_seed(21, RandomMode::Bag);
    let shuffled = source.bottle_seed(5).unwrap();
    assert_eq!(unshuffled.count(), shuffled.count());
    assert_ne!(unshuffled, shuffled);
    let again = source.bottle_seed(5).unwrap();
    assert_ne!(again, shuffled);
}

#[test]
fn bags_come_in_a_random_order_and_drawn_capsules_vary() {
    let source = GameRandom::from_u64_seed(5, RandomMode::Bag);
    let bag: Vec<PillShape> = source.queue.iter().copied().collect();
    assert_ne!(bag, PillShape::all());

    let mut source = GameRandom::from_u64_seed(5, RandomMode::True);
    let drawn: Vec<PillShape> = (0..60).map(|_| source.next_pill()).collect();
    for color in [VirusColor::Yellow, VirusColor::Blue, VirusColor::Red] {
        assert!(drawn.iter().any(|shape| shape.left_color() == color));
        assert!(drawn.iter().any(|shape| shape.right_color() == color));
    }
}
