use dr_rustario::block::Block;
use dr_rustario::bottle::{index_at, Bottle};
use dr_rustario::event::{ColoredBlock, GameEvent};
use dr_rustario::game::{
    Combo, Game, GameSpeed, GameState, HoldState, GARBAGE_DROP_DURATION, LOCK_DURATION,
    MAX_LOCK_PLACEMENTS, MIN_SPAWN_DELAY, SOFT_DROP_LOCK_DURATION, SPEED_TABLE,
};
use dr_rustario::geometry::{BottlePoint, Rotation};
use dr_rustario::pill::{Garbage, PillShape, VirusColor, Vitamin, VitaminOrdinal};
use dr_rustario::random::{GameRandom, RandomMode};

const RB: PillShape = PillShape { left_color: VirusColor::Red, right_color: VirusColor::Blue };
const RR: PillShape = PillShape { left_color: VirusColor::Red, right_color: VirusColor::Red };
const BB: PillShape = PillShape { left_color: VirusColor::Blue, right_color: VirusColor::Blue };

const NEW_LOCK: GameState = GameState::Lock(0);
const LOCK_NOW: GameState = GameState::Lock(LOCK_DURATION);
const NEW_FALL: GameState = GameState::Fall(0);
const NEW_SPAWN: GameState = GameState::Spawn(0);

fn new_pattern() -> GameState {
    GameState::Pattern(Combo::empty())
}

fn nanos(n: u64) -> u64 {
    n
}

fn millis(n: u64) -> u64 {
    n * 1_000_000
}

/// A game on a bottle that `f` has prepared. With this seed the first capsule is blue and blue.
fn having_bottle<F>(mut f: F) -> Game
where
    F: FnMut(&mut Bottle),
{
    let mut bottle = Bottle::new();
    f(&mut bottle);
    Game::from_bottle(0, 10, GameSpeed::Low, GameRandom::from_u64_seed(12345, RandomMode::True), bottle)
}

/// A capsule that can move either way, turn, and fall.
fn with_free_pill(bottle: &mut Bottle) {
    bottle.try_spawn(RB);
}

/// A capsule in its spawn cells that rests on a virus.
fn with_resting_pill(bottle: &mut Bottle) {
    bottle.set_virus_at(3, 1, VirusColor::Yellow);
    bottle.try_spawn(RB);
}

/// A capsule that comes to rest after one more row.
fn with_pill_one_row_up(bottle: &mut Bottle) {
    bottle.set_virus_at(3, 2, VirusColor::Yellow);
    bottle.try_spawn(RB);
}

/// A capsule that has fallen one row and can turn where it is.
fn with_pill_in_the_grid(bottle: &mut Bottle) {
    bottle.try_spawn(RB);
    assert!(bottle.step_down_pill());
}

fn with_lock_placements(bottle: &mut Bottle, used: u32) {
    let mut pill = bottle.pill.unwrap();
    pill.lock_placements = used;
    bottle.pill = Some(pill);
}

fn should_have_no_events(game: &Game) {
    assert!(game.events.is_empty(), "{:?}", game.events);
}

fn should_have_events(game: &Game, events: &[GameEvent]) {
    assert_eq!(game.events, events.to_vec());
}

#[test]
fn left_success() {
    let mut game = having_bottle(with_free_pill);
    game.left();
    should_have_events(&game, &[GameEvent::Move]);
}

#[test]
fn left_fail() {
    let mut game = having_bottle(|_| {});
    game.left();
    should_have_no_events(&game);
}

#[test]
fn right_success() {
    let mut game = having_bottle(with_free_pill);
    game.right();
    should_have_events(&game, &[GameEvent::Move]);
}

#[test]
fn right_fail() {
    let mut game = having_bottle(|_| {});
    game.right();
    should_have_no_events(&game);
}

#[test]
fn rotate_success_when_falling() {
    let mut game = having_bottle(with_free_pill);
    game.state = NEW_FALL;
    game.rotate(true);
    should_have_events(&game, &[GameEvent::Rotate]);
}

#[test]
fn rotate_success_and_reset_lock_when_locking() {
    let mut game = having_bottle(|bottle| {
        with_pill_in_the_grid(bottle);
        with_lock_placements(bottle, 0);
    });
    game.state = GameState::Lock(millis(10));
    game.rotate(true);
    should_have_events(&game, &[GameEvent::Rotate]);
    assert_eq!(game.state, NEW_FALL);
}

#[test]
fn rotate_success_and_lock_with_last_lock_placement() {
    let mut game = having_bottle(|bottle| {
        with_pill_in_the_grid(bottle);
        with_lock_placements(bottle, MAX_LOCK_PLACEMENTS - 1);
    });
    game.state = GameState::Lock(millis(10));
    game.rotate(true);
    should_have_events(&game, &[GameEvent::Rotate]);
    assert_eq!(game.state, LOCK_NOW);
}

#[test]
fn rotate_fail() {
    let mut game = having_bottle(|_| {});
    game.rotate(true);
    should_have_no_events(&game);
}

#[test]
fn rotate_fail_when_locked() {
    let mut game = having_bottle(with_free_pill);
    game.state = LOCK_NOW;
    game.rotate(true);
    should_have_no_events(&game);
    assert_eq!(game.state, LOCK_NOW);
}

#[test]
fn rotate_fail_when_no_lock_placements_left() {
    let mut game = having_bottle(|bottle| {
        with_free_pill(bottle);
        with_lock_placements(bottle, MAX_LOCK_PLACEMENTS);
    });
    game.state = NEW_LOCK;
    game.rotate(true);
    should_have_no_events(&game);
    assert_eq!(game.state, LOCK_NOW);
}

#[test]
fn holds_for_first_time() {
    let mut game = having_bottle(with_free_pill);
    game.hold();
    should_have_events(&game, &[GameEvent::Hold]);
    assert_eq!(game.state, GameState::SpawnHold(None));
    assert_eq!(game.hold, Some(HoldState::locked(RB)))
}

#[test]
fn holds_for_second_time() {
    let mut game = having_bottle(with_free_pill);
    game.hold = Some(HoldState { shape: RR, locked: false });
    game.hold();
    should_have_events(&game, &[GameEvent::Hold]);
    assert_eq!(game.state, GameState::SpawnHold(Some(RR)));
    assert_eq!(game.hold, Some(HoldState::locked(RB)))
}

#[test]
fn cannot_hold_when_hold_locked() {
    let mut game = having_bottle(with_free_pill);
    game.state = NEW_FALL;
    game.hold = Some(HoldState::locked(RB));
    game.hold();
    should_have_no_events(&game);
    assert_eq!(game.state, NEW_FALL);
}

#[test]
fn cannot_hold_when_bottle_rejected() {
    let mut game = having_bottle(|_| {});
    game.state = NEW_FALL;
    game.hold();
    should_have_no_events(&game);
    assert_eq!(game.state, NEW_FALL);
}

#[test]
fn soft_drop_on() {
    let mut game = having_bottle(|_| {});
    game.set_soft_drop(true);
    should_have_events(&game, &[GameEvent::SoftDrop]);
}

#[test]
fn soft_drop_off() {
    let mut game = having_bottle(|_| {});
    game.set_soft_drop(false);
    should_have_no_events(&game);
}

#[test]
fn hard_drop_success() {
    let mut game = having_bottle(|bottle| {
        bottle.set_virus_at(3, 11, VirusColor::Yellow);
        bottle.try_spawn(RB);
    });
    game.hard_drop();
    should_have_events(&game, &[GameEvent::HardDrop {
        player: 0,
        vitamins: [
            Vitamin::left(VirusColor::Red, BottlePoint::new(3, 10), Rotation::North),
            Vitamin::right(VirusColor::Blue, BottlePoint::new(4, 10), Rotation::North),
        ],
        dropped_rows: 10
    }]);
    assert_eq!(game.state, LOCK_NOW);
    assert!(game.hard_dropped)
}

#[test]
fn hard_drop_fail() {
    let mut game = having_bottle(|_| {});
    game.state = NEW_FALL;
    game.hard_drop();
    should_have_no_events(&game);
    assert_eq!(game.state, NEW_FALL);
}

#[test]
fn mod_send_garbage() {
    let mut game = having_bottle(|_| {});
    game.send_garbage(vec![VirusColor::Red, VirusColor::Blue]);
    assert_eq!(game.garbage_buffer, vec![vec![VirusColor::Red, VirusColor::Blue]]);
}

#[test]
fn update_spawn_into_spawn() {
    let mut game = having_bottle(|_| {});
    game.state = GameState::Spawn(nanos(1));
    game.update(nanos(2));
    assert_eq!(game.state, GameState::Spawn(nanos(3)));
    should_have_no_events(&game);
}

#[test]
fn update_spawn_into_fall() {
    let mut game = having_bottle(|_| {});
    game.state = GameState::Spawn(GameSpeed::Low.duration_of_level(0));
    game.update(nanos(1));
    assert_eq!(game.state, NEW_FALL);
    should_have_events(&game, &[GameEvent::Spawn { player: 0, shape: BB, is_hold: false }]);
}

#[test]
fn update_hard_dropped_spawn_into_fall() {
    let mut game = having_bottle(|_| {});
    game.hard_dropped = true;
    game.state = NEW_SPAWN;
    game.update(nanos(1));
    assert_eq!(game.state, NEW_FALL);
    assert!(!game.hard_dropped);
    should_have_events(&game, &[GameEvent::Spawn { player: 0, shape: BB, is_hold: false }]);
}

#[test]
fn update_spawn_into_game_over() {
    let mut game = having_bottle(|bottle| {
        bottle.set_virus_at(3, 0, VirusColor::Yellow);
    });
    game.state = GameState::Spawn(GameSpeed::Low.duration_of_level(0));
    game.update(nanos(1));
    assert_eq!(game.state, GameState::GameOver);
    should_have_events(&game, &[GameEvent::GameOver { player: 0 }]);
}

#[test]
fn update_spawn_into_garbage() {
    let mut game = having_bottle(|bottle| {
        for x in [0, 2, 3, 4, 5, 6, 7] {
            bottle.set_virus_at(x, 0, VirusColor::Blue);
        }
    });
    game.garbage_buffer.push(vec![VirusColor::Red, VirusColor::Yellow]);
    game.state = NEW_SPAWN;
    game.update(nanos(1));
    assert_eq!(game.state, GameState::drop_garbage(Combo::empty()));
    should_have_events(&game, &[GameEvent::ReceivedGarbage {
        player: 0,
        garbage: vec![Garbage::new(VirusColor::Red, BottlePoint::new(1, 0))]
    }]);
}

#[test]
fn update_hold_spawn_into_fall() {
    let mut game = having_bottle(|_| {});
    game.state = GameState::SpawnHold(Some(RB));
    game.update(nanos(1));
    assert_eq!(game.state, NEW_FALL);
    should_have_events(&game, &[GameEvent::Spawn { player: 0, shape: RB, is_hold: true }]);
}

#[test]
fn update_fall_into_fall() {
    let mut game = having_bottle(with_free_pill);
    game.state = GameState::Fall(nanos(1));
    game.update(nanos(2));
    assert_eq!(game.state, GameState::Fall(nanos(3)));
    should_have_no_events(&game);
}

#[test]
fn update_fall_into_next_fall() {
    let mut game = having_bottle(with_free_pill);
    game.state = GameState::Fall(GameSpeed::Low.duration_of_level(0));
    game.update(nanos(1));
    assert_eq!(game.state, NEW_FALL);
    should_have_events(&game, &[GameEvent::Fall]);
}

#[test]
fn update_fall_into_lock_by_fail() {
    let mut game = having_bottle(with_resting_pill);
    game.state = GameState::Fall(GameSpeed::Low.duration_of_level(0));
    game.update(nanos(1));
    assert_eq!(game.state, NEW_LOCK);
    should_have_no_events(&game);
}

#[test]
fn update_fall_into_lock_by_collision() {
    let mut game = having_bottle(|bottle| {
        with_pill_one_row_up(bottle);
        with_lock_placements(bottle, 0);
    });
    game.state = GameState::Fall(GameSpeed::Low.duration_of_level(0));
    game.update(nanos(1));
    assert_eq!(game.state, NEW_LOCK);
    should_have_events(&game, &[GameEvent::Fall]);
}

#[test]
fn update_fall_into_lock_asap_by_collision() {
    let mut game = having_bottle(|bottle| {
        with_pill_one_row_up(bottle);
        with_lock_placements(bottle, MAX_LOCK_PLACEMENTS);
        // the row that the capsule falls into is not new to it, so its moves stay used up
        let mut pill = bottle.pill.unwrap();
        pill.lowest_row = 1;
        bottle.pill = Some(pill);
    });
    game.state = GameState::Fall(GameSpeed::Low.duration_of_level(0));
    game.update(nanos(1));
    assert_eq!(game.state, LOCK_NOW);
    should_have_events(&game, &[GameEvent::Fall]);
}

#[test]
fn a_fall_into_a_new_row_gives_the_moves_back() {
    let mut game = having_bottle(|bottle| {
        with_pill_one_row_up(bottle);
        with_lock_placements(bottle, MAX_LOCK_PLACEMENTS);
    });
    game.state = GameState::Fall(GameSpeed::Low.duration_of_level(0));
    game.update(nanos(1));
    assert_eq!(game.state, NEW_LOCK);
    assert_eq!(game.bottle.lock_placements(), 0);
    game.left();
    assert_eq!(game.bottle.lock_placements(), 1);
    assert_eq!(game.state, NEW_FALL);
    should_have_events(&game, &[GameEvent::Fall, GameEvent::Move]);
}

#[test]
fn update_lock_into_lock() {
    let mut game = having_bottle(with_resting_pill);
    game.state = GameState::Lock(nanos(1));
    game.update(nanos(2));
    assert_eq!(game.state, GameState::Lock(nanos(3)));
    should_have_no_events(&game);
}

#[test]
fn update_lock_into_pattern() {
    let mut game = having_bottle(with_resting_pill);
    game.state = LOCK_NOW;
    game.update(nanos(1));
    assert_eq!(game.state, new_pattern());
    should_have_events(&game, &[GameEvent::Lock {
        player: 0,
        vitamins: Vitamin::vitamins(RB),
        hard_or_soft_dropped: false
    }]);
}

#[test]
fn update_hard_drop_lock_into_pattern() {
    let mut game = having_bottle(with_resting_pill);
    game.hard_dropped = true;
    game.state = GameState::Lock(nanos(1));
    game.update(nanos(1));
    assert_eq!(game.state, new_pattern());
    should_have_events(&game, &[GameEvent::Lock {
        player: 0,
        vitamins: Vitamin::vitamins(RB),
        hard_or_soft_dropped: true
    }])
}

#[test]
fn update_lock_into_fall() {
    let mut game = having_bottle(with_free_pill);
    game.state = LOCK_NOW;
    game.update(nanos(1));
    assert_eq!(game.state, NEW_FALL);
    should_have_no_events(&game);
}

#[test]
fn update_pattern_into_destroy() {
    let mut game = having_bottle(|bottle| {
        bottle.set_virus_at(1, 2, VirusColor::Yellow);
        bottle.set_block_at(2, 2, Block::Garbage(VirusColor::Yellow));
        bottle.set_block_at(3, 2, Block::Garbage(VirusColor::Yellow));
        bottle.set_block_at(4, 2, Block::Garbage(VirusColor::Yellow));
    });
    game.state = GameState::Pattern(Combo::new(vec![VirusColor::Blue], 0));
    game.update(nanos(1));
    assert_eq!(game.state, GameState::Destroy(
        vec![
            ColoredBlock::virus(1, 2, VirusColor::Yellow),
            ColoredBlock::stack(2, 2, VirusColor::Yellow),
            ColoredBlock::stack(3, 2, VirusColor::Yellow),
            ColoredBlock::stack(4, 2, VirusColor::Yellow),
        ],
        Combo::new(vec![VirusColor::Blue, VirusColor::Yellow], 1)
    ));
    should_have_no_events(&game);
}

#[test]
fn update_pattern_into_spawn() {
    let mut game = having_bottle(|bottle| {
        bottle.set_virus_at(1, 2, VirusColor::Yellow);
    });
    game.state = new_pattern();
    game.update(nanos(1));
    assert_eq!(game.state, NEW_SPAWN);
    should_have_no_events(&game);
}

#[test]
fn update_pattern_into_spawn_with_garbage() {
    let mut game = having_bottle(|bottle| {
        bottle.set_virus_at(1, 2, VirusColor::Yellow);
    });
    game.state = GameState::Pattern(Combo::new(vec![VirusColor::Blue, VirusColor::Red], 2));
    game.update(nanos(1));
    assert_eq!(game.state, NEW_SPAWN);
    assert_eq!(game.score, 300);
    should_have_events(&game, &[GameEvent::SendGarbage { player: 0, garbage: vec![VirusColor::Blue, VirusColor::Red] }]);
}

#[test]
fn update_destroy_into_drop_garbage() {
    let mut game = having_bottle(|bottle| {
        bottle.set_virus_at(1, 2, VirusColor::Yellow);
        bottle.set_virus_at(6, 9, VirusColor::Red);
    });
    game.state = GameState::Destroy(
        vec![ColoredBlock::virus(1, 2, VirusColor::Yellow)],
        Combo::new(vec![VirusColor::Blue], 2)
    );
    game.update(nanos(1));
    assert_eq!(game.state, GameState::drop_garbage(Combo::new(vec![VirusColor::Blue], 2)));
    should_have_events(&game, &[GameEvent::Destroy {
        player: 0,
        blocks: vec![ColoredBlock::virus(1, 2, VirusColor::Yellow)],
        is_combo: false
    }]);
    assert_eq!(game.bottle.block(BottlePoint::new(1, 2)), Block::Empty);
}

#[test]
fn update_destroy_into_drop_garbage_with_combo() {
    let mut game = having_bottle(|bottle| {
        bottle.set_virus_at(1, 2, VirusColor::Yellow);
        bottle.set_virus_at(6, 9, VirusColor::Red);
    });
    let combo = Combo::new(vec![VirusColor::Red, VirusColor::Blue], 1);
    game.state = GameState::Destroy(vec![ColoredBlock::virus(1, 2, VirusColor::Yellow)], combo.clone());
    game.update(nanos(1));
    assert_eq!(game.state, GameState::drop_garbage(combo));
    should_have_events(&game, &[GameEvent::Destroy {
        player: 0,
        blocks: vec![ColoredBlock::virus(1, 2, VirusColor::Yellow)],
        is_combo: true
    }]);
}

#[test]
fn update_drop_garbage_into_drop_garbage() {
    let mut game = having_bottle(|_| {});
    let combo = Combo::new(vec![VirusColor::Blue], 2);
    game.state = GameState::DropGarbage(nanos(2), combo.clone());
    game.update(nanos(1));
    assert_eq!(game.state, GameState::DropGarbage(nanos(3), combo));
    should_have_no_events(&game);
}

#[test]
fn update_drop_garbage_into_next_drop_garbage() {
    let mut game = having_bottle(|bottle| {
        bottle.set_block_at(2, 5, Block::Garbage(VirusColor::Red));
    });
    let combo = Combo::new(vec![VirusColor::Blue], 2);
    game.state = GameState::DropGarbage(GARBAGE_DROP_DURATION, combo.clone());
    game.update(nanos(1));
    assert_eq!(game.state, GameState::DropGarbage(0, combo));
    should_have_events(&game, &[GameEvent::DropGarbage])
}

#[test]
fn update_drop_garbage_into_pattern() {
    let mut game = having_bottle(|_| {});
    let combo = Combo::new(vec![VirusColor::Blue], 2);
    game.state = GameState::DropGarbage(GARBAGE_DROP_DURATION, combo.clone());
    game.update(nanos(1));
    assert_eq!(game.state, GameState::Pattern(combo));
    should_have_no_events(&game);
}

#[test]
fn score_0_when_empty() {
    assert_eq!(Combo::empty().score(GameSpeed::Low), 0);
}

#[test]
fn score_low() {
    let score = Combo::new(vec![VirusColor::Blue], 1).score(GameSpeed::Low);
    assert_eq!(score, 100);
}

#[test]
fn score_combo_low() {
    let score = Combo::new(vec![VirusColor::Blue, VirusColor::Red], 2).score(GameSpeed::Low);
    assert_eq!(score, 100 + 200);
}

#[test]
fn score_medium() {
    let score = Combo::new(vec![VirusColor::Blue], 1).score(GameSpeed::Medium);
    assert_eq!(score, 200);
}

#[test]
fn score_combo_medium() {
    let score = Combo::new(vec![VirusColor::Blue, VirusColor::Red], 3).score(GameSpeed::Medium);
    assert_eq!(score, 200 + 400 + 800);
}

#[test]
fn score_high() {
    let score = Combo::new(vec![VirusColor::Blue], 1).score(GameSpeed::High);
    assert_eq!(score, 300);
}

#[test]
fn score_combo_high() {
    let score = Combo::new(vec![VirusColor::Blue, VirusColor::Red], 4).score(GameSpeed::High);
    assert_eq!(score, 300 + 600 + 1200 + 2400);
}

#[test]
fn one_run_with_two_viruses_at_medium_speed_scores_600() {
    assert_eq!(Combo::new(vec![VirusColor::Blue], 2).score(GameSpeed::Medium), 200 + 400);
    assert_eq!(Combo::new(vec![VirusColor::Blue], 1).score(GameSpeed::Low), 100);
    assert_eq!(Combo::new(vec![VirusColor::Blue], 6).score(GameSpeed::High), 300 * 63);
    assert_eq!(Combo::new(vec![VirusColor::Blue], 99).score(GameSpeed::High), u32::MAX);
    assert_eq!(GameSpeed::Low.base_score(), 100);
    assert_eq!(GameSpeed::Medium.base_score(), 200);
    assert_eq!(GameSpeed::High.base_score(), 300);
}

#[test]
fn combos_gather_runs_and_viruses() {
    let combo = Combo::new(vec![VirusColor::Blue], 1);
    assert!(!combo.is_combo());
    assert_eq!(combo.garbage(), vec![]);
    let combo = combo.into_updated(vec![VirusColor::Red, VirusColor::Red], 2);
    assert_eq!(combo, Combo::new(vec![VirusColor::Blue, VirusColor::Red, VirusColor::Red], 3));
    assert!(combo.is_combo());
    assert_eq!(combo.garbage(), vec![VirusColor::Blue, VirusColor::Red, VirusColor::Red]);
}

#[test]
fn the_fall_gets_faster_with_the_speed_level() {
    assert_eq!(SPEED_TABLE.len(), 81);
    assert_eq!(GameSpeed::Low.base_index(), 15);
    assert_eq!(GameSpeed::Medium.base_index(), 25);
    assert_eq!(GameSpeed::High.base_index(), 31);
    assert_eq!(GameSpeed::Low.duration_of_level(0), 666_666_667);
    assert_eq!(GameSpeed::Medium.duration_of_level(0), 333_333_333);
    assert_eq!(GameSpeed::High.duration_of_level(0), 233_333_333);
    assert_eq!(GameSpeed::Low.duration_of_level(5), 500_000_000);
    assert_eq!(GameSpeed::High.duration_of_level(49), 16_666_667);
    assert_eq!(GameSpeed::High.duration_of_level(500), 16_666_667);
    assert_eq!(GameSpeed::Low.min_drop_duration(), 66_666_667);
    assert_eq!(MIN_SPAWN_DELAY, 500_000_000);
    assert_eq!(SOFT_DROP_LOCK_DURATION, 150_000_000);
    assert!(!GameState::Fall(0).is_game_over());
    assert!(GameState::GameOver.is_game_over());
}

#[test]
fn a_tick_of_no_time_changes_nothing() {
    let mut game = having_bottle(with_resting_pill);
    for state in [NEW_SPAWN, NEW_FALL, LOCK_NOW, new_pattern(), GameState::GameOver] {
        game.state = state.clone();
        let blocks = game.bottle.blocks;
        game.update(0);
        assert_eq!(game.state, state);
        assert_eq!(game.bottle.blocks, blocks);
        should_have_no_events(&game);
    }
}

#[test]
fn soft_drop_shortens_the_delays() {
    let mut game = having_bottle(with_free_pill);
    game.set_soft_drop(true);
    game.state = GameState::Fall(0);
    // a twentieth of 666666667 is less than the least time per row, which then counts
    game.update(66_666_666);
    assert_eq!(game.state, GameState::Fall(66_666_666));
    game.update(1);
    assert_eq!(game.state, NEW_FALL);
    should_have_events(&game, &[GameEvent::SoftDrop, GameEvent::Fall]);

    let mut game = having_bottle(with_resting_pill);
    game.set_soft_drop(true);
    game.state = GameState::Lock(0);
    game.update(SOFT_DROP_LOCK_DURATION - 1);
    assert_eq!(game.state, GameState::Lock(SOFT_DROP_LOCK_DURATION - 1));
    game.update(1);
    assert_eq!(game.state, new_pattern());

    let mut game = having_bottle(|_| {});
    game.set_soft_drop(true);
    game.state = GameState::Spawn(0);
    game.update(MIN_SPAWN_DELAY - 1);
    assert_eq!(game.state, GameState::Spawn(MIN_SPAWN_DELAY - 1));
    game.update(1);
    assert_eq!(game.state, NEW_FALL);
}

#[test]
fn the_fifteenth_move_while_resting_locks_at_the_next_tick() {
    let mut game = having_bottle(|bottle| {
        for x in 0..8 {
            bottle.set_virus_at(x, 1, VirusColor::Yellow);
        }
        bottle.try_spawn(RB);
    });
    game.state = NEW_LOCK;
    for used in 1..=15 {
        assert_eq!(game.state, GameState::Lock(0));
        if used % 2 == 1 {
            game.left();
        } else {
            game.right();
        }
        assert_eq!(game.bottle.lock_placements(), used);
        assert_eq!(game.events.len(), used as usize);
        if used < 15 {
            assert_eq!(game.state, NEW_FALL);
            // the capsule cannot go down, so the next step finds it resting again
            game.update(GameSpeed::Low.duration_of_level(0));
        }
    }
    assert_eq!(game.state, LOCK_NOW);
    game.left();
    game.rotate(true);
    assert_eq!(game.events.len(), 15);
    game.update(1);
    assert_eq!(game.state, new_pattern());
    assert!(game.bottle.pill.is_none());
    assert!(matches!(game.events.last(), Some(GameEvent::Lock { .. })));
}

#[test]
fn a_hard_dropped_capsule_locks_on_the_floor() {
    let mut game = Game::from_bottle(
        3,
        0,
        GameSpeed::Medium,
        GameRandom::from_u64_seed(1, RandomMode::Bag),
        Bottle::new(),
    );
    game.state = GameState::SpawnHold(Some(RB));
    game.update(1);
    assert_eq!(game.state, NEW_FALL);
    game.hard_drop();
    assert_eq!(game.state, LOCK_NOW);
    game.update(1);
    assert_eq!(game.state, new_pattern());
    assert_eq!(
        game.bottle.block_at(3, 15),
        Block::Stack(VirusColor::Red, Rotation::North, VitaminOrdinal::Left)
    );
    assert_eq!(
        game.bottle.block_at(4, 15),
        Block::Stack(VirusColor::Blue, Rotation::North, VitaminOrdinal::Right)
    );
    assert_eq!(game.bottle.blocks.iter().filter(|b| !b.is_empty()).count(), 2);
    assert_eq!(game.hold, None);
    assert_eq!(game.metrics().hold(), None);
    assert_eq!(game.bottle.virus_count(), 0);
    assert_eq!(game.metrics().virus_count(), 0);
    assert_eq!(game.viruses(), vec![]);
    assert_eq!(
        game.events,
        vec![
            GameEvent::Spawn { player: 3, shape: RB, is_hold: true },
            GameEvent::HardDrop {
                player: 3,
                vitamins: [
                    Vitamin::left(VirusColor::Red, BottlePoint::new(3, 15), Rotation::North),
                    Vitamin::right(VirusColor::Blue, BottlePoint::new(4, 15), Rotation::North),
                ],
                dropped_rows: 15
            },
            GameEvent::Lock {
                player: 3,
                vitamins: [
                    Vitamin::left(VirusColor::Red, BottlePoint::new(3, 15), Rotation::North),
                    Vitamin::right(VirusColor::Blue, BottlePoint::new(4, 15), Rotation::North),
                ],
                hard_or_soft_dropped: true
            },
        ]
    );
    // nothing matches, so the next capsule is awaited, and it comes at once after a hard drop
    game.update(1);
    assert_eq!(game.state, NEW_SPAWN);
    game.update(1);
    assert_eq!(game.state, NEW_FALL);
    assert!(!game.hard_dropped);
}

#[test]
fn the_last_virus_completes_the_level_and_the_next_level_starts_afresh() {
    let mut game = having_bottle(|bottle| {
        bottle.set_virus_at(0, 15, VirusColor::Red);
        bottle.set_block_at(1, 15, Block::Garbage(VirusColor::Red));
        bottle.set_block_at(2, 15, Block::Garbage(VirusColor::Red));
        bottle.set_block_at(3, 15, Block::Garbage(VirusColor::Red));
    });
    game.state = new_pattern();
    game.update(1);
    assert!(matches!(game.state, GameState::Destroy(_, _)));
    game.update(1);
    assert_eq!(game.state, GameState::LevelComplete);
    assert_eq!(game.events.len(), 2);
    assert!(matches!(game.events[0], GameEvent::Destroy { player: 0, is_combo: false, .. }));
    assert_eq!(game.events[1], GameEvent::LevelComplete { player: 0 });
    game.update(1_000_000_000);
    assert_eq!(game.state, GameState::LevelComplete);
    game.left();
    game.hold();
    game.hard_drop();
    assert_eq!(game.events.len(), 2);

    game.score = 700;
    assert_eq!(game.next_level(), Ok(()));
    assert_eq!(game.virus_level(), 11);
    assert_eq!(game.completed_levels(), 1);
    assert_eq!(game.score, 700);
    assert_eq!(game.state, NEW_SPAWN);
    assert_eq!(*game.state(), NEW_SPAWN);
    assert_eq!(game.speed(), GameSpeed::Low);
    assert_eq!(game.bottle.virus_count(), 48);
    assert_eq!(game.viruses().len(), 48);
    should_have_no_events(&game);
}

#[test]
fn a_combo_of_two_runs_sends_its_colors() {
    // a red run on the floor with a loose blue column resting on it and blue cells beside
    let mut game = having_bottle(|bottle| {
        bottle.set_virus_at(7, 0, VirusColor::Yellow);
        bottle.set_virus_at(0, 15, VirusColor::Red);
        for x in 1..4 {
            bottle.set_block_at(x, 15, Block::Garbage(VirusColor::Red));
        }
        bottle.set_block_at(3, 14, Block::Garbage(VirusColor::Blue));
        bottle.set_virus_at(4, 15, VirusColor::Blue);
        bottle.set_block_at(5, 15, Block::Garbage(VirusColor::Blue));
        bottle.set_block_at(6, 15, Block::Garbage(VirusColor::Blue));
    });
    game.state = new_pattern();
    let mut sent = Vec::new();
    for _ in 0..20 {
        game.update(GARBAGE_DROP_DURATION);
        game.consume_events(&mut sent);
        if game.state == NEW_SPAWN {
            break;
        }
    }
    assert_eq!(game.state, NEW_SPAWN);
    assert_eq!(game.score, 100 + 200);
    assert_eq!(game.bottle.virus_count(), 1);
    assert_eq!(sent.len(), 4);
    assert!(matches!(sent[0], GameEvent::Destroy { is_combo: false, .. }));
    assert_eq!(sent[1], GameEvent::DropGarbage);
    assert!(matches!(sent[2], GameEvent::Destroy { is_combo: true, .. }));
    assert_eq!(
        sent[3],
        GameEvent::SendGarbage { player: 0, garbage: vec![VirusColor::Red, VirusColor::Blue] }
    );
    should_have_no_events(&game);
}

#[test]
fn a_game_that_is_over_takes_no_moves() {
    let mut game = having_bottle(|bottle| {
        bottle.set_virus_at(3, 0, VirusColor::Yellow);
    });
    game.state = GameState::SpawnHold(Some(RB));
    game.update(1);
    assert_eq!(game.state, GameState::GameOver);
    let blocks = game.bottle.blocks;
    game.left();
    game.right();
    game.rotate(true);
    game.hold();
    game.hard_drop();
    game.update(1_000_000_000);
    assert_eq!(game.state, GameState::GameOver);
    assert_eq!(game.bottle.blocks, blocks);
    should_have_events(&game, &[GameEvent::GameOver { player: 0 }]);
}

#[test]
fn every_tenth_capsule_steps_up_the_speed() {
    let mut game = having_bottle(|_| {});
    game.total_pills = 9;
    game.state = GameState::SpawnHold(Some(RB));
    game.update(1);
    assert_eq!(game.total_pills, 10);
    should_have_events(
        &game,
        &[GameEvent::Spawn { player: 0, shape: RB, is_hold: true }, GameEvent::SpeedLevelUp],
    );
    // one step faster from now on
    game.update(SPEED_TABLE[16] - 1);
    assert_eq!(game.state, GameState::Fall(SPEED_TABLE[16] - 1));
    game.update(1);
    assert_eq!(game.state, NEW_FALL);
}

#[test]
fn a_new_game_starts_with_the_viruses_of_its_level() {
    let game = Game::new(1, 3, GameSpeed::High, GameRandom::from_u64_seed(42, RandomMode::Bag)).unwrap();
    assert_eq!(game.state, NEW_SPAWN);
    assert_eq!(game.bottle.virus_count(), 16);
    let metrics = game.metrics();
    assert_eq!(metrics.player(), 1);
    assert_eq!(metrics.virus_level(), 3);
    assert_eq!(metrics.virus_count(), 16);
    assert_eq!(metrics.score(), 0);
    assert_eq!(metrics.queue(), game.random.peek());
    assert_eq!(game.row(0), [Block::Empty; 8]);
    assert_eq!(game.row(15), &game.bottle.blocks[index_at(0, 15)..]);
}

#[test]
fn held_capsules_come_back() {
    let mut game = having_bottle(|_| {});
    game.state = GameState::SpawnHold(Some(RB));
    game.update(1);
    game.hold();
    assert_eq!(game.state, GameState::SpawnHold(None));
    assert!(game.bottle.blocks.iter().all(|b| b.is_empty()));
    game.update(1);
    // nothing was held before, so the capsule that is first in line comes
    assert_eq!(game.bottle.pill.unwrap().shape(), BB);
    game.hold();
    assert_eq!(game.bottle.pill.unwrap().shape(), BB);
    assert_eq!(game.hold, Some(HoldState::locked(RB)));
    game.hard_drop();
    game.update(1);
    assert_eq!(game.hold, Some(HoldState { shape: RB, locked: false }));
    game.update(1);
    game.update(1);
    assert_eq!(game.state, NEW_FALL);
    game.hold();
    assert_eq!(game.state, GameState::SpawnHold(Some(RB)));
    game.update(1);
    assert_eq!(game.bottle.pill.unwrap().shape(), RB);
}
