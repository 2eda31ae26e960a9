use dr_rustario::event::GameEvent;
use dr_rustario::game::{GameSpeed, GameState};
use dr_rustario::pill::VirusColor;
use dr_rustario::player::{Match, MatchState, NewHighScore, Player};
use dr_rustario::random::{GameRandom, RandomMode};
use dr_rustario::rules::{GameConfig, MatchRules, MatchThemes};

fn config(players: u32, rules: MatchRules) -> GameConfig {
    GameConfig::new(players, 2, GameSpeed::Low, MatchThemes::All, rules, RandomMode::Bag)
}

#[test]
fn a_match_starts_every_player_alike() {
    let versus = Match::new(config(3, MatchRules::Marathon)).unwrap();
    assert_eq!(versus.players.len(), 3);
    assert_eq!(versus.state(), MatchState::Normal);
    for (i, player) in versus.players.iter().enumerate() {
        assert_eq!(player.player(), i as u32);
        assert_eq!(player.game().metrics().player(), i as u32);
        assert_eq!(player.game().virus_level(), 2);
        assert_eq!(player.game().metrics().virus_count(), 12);
        assert_eq!(player.game().viruses(), versus.players[0].game().viruses());
        assert_eq!(player.game().metrics().queue(), versus.players[0].game().metrics().queue());
        assert!(!player.winner);
    }
    assert_eq!(versus.check_for_winning_player(), None);
}

#[test]
fn match_states_tell_themselves_apart() {
    let over = MatchState::GameOver { high_score: Some(NewHighScore::new(1, 900)) };
    assert!(MatchState::Normal.is_normal());
    assert!(!MatchState::Normal.is_paused());
    assert!(MatchState::Paused.is_paused());
    assert!(over.is_game_over());
    assert!(!over.is_normal());
    assert_eq!(NewHighScore::new(1, 900), NewHighScore { player: 1, score: 900 });
}

#[test]
fn pausing_stops_the_players_from_acting() {
    let mut versus = Match::new(config(2, MatchRules::Marathon)).unwrap();
    assert!(versus.mut_game(0).is_some());
    assert_eq!(versus.toggle_paused(), Some(GameEvent::Paused));
    assert!(versus.state().is_paused());
    assert!(versus.mut_game(0).is_none());
    assert_eq!(versus.toggle_paused(), Some(GameEvent::UnPaused));
    assert!(versus.state().is_normal());
    assert!(versus.maybe_set_game_over(None));
    assert_eq!(versus.state(), MatchState::GameOver { high_score: None });
    assert!(!versus.maybe_set_game_over(Some(NewHighScore::new(0, 5))));
    assert_eq!(versus.state(), MatchState::GameOver { high_score: None });
    assert_eq!(versus.toggle_paused(), None);
    assert!(versus.mut_game(1).is_none());
}

#[test]
fn garbage_goes_to_another_player() {
    let mut alone = Match::new(config(1, MatchRules::Marathon)).unwrap();
    alone.send_garbage(0, vec![VirusColor::Red, VirusColor::Blue]);
    assert!(alone.players[0].game.garbage_buffer.is_empty());

    let mut versus = Match::new(config(2, MatchRules::Marathon)).unwrap();
    versus.send_garbage(1, vec![VirusColor::Red, VirusColor::Blue]);
    assert_eq!(versus.players[0].game.garbage_buffer, vec![vec![VirusColor::Red, VirusColor::Blue]]);
    assert!(versus.players[1].game.garbage_buffer.is_empty());

    let mut many = Match::new(config(4, MatchRules::Marathon)).unwrap();
    for _ in 0..20 {
        many.send_garbage(2, vec![VirusColor::Yellow]);
    }
    assert!(many.players[2].game.garbage_buffer.is_empty());
    let received: usize = many.players.iter().map(|p| p.game.garbage_buffer.len()).sum();
    assert_eq!(received, 20);
}

#[test]
fn the_best_player_wins_a_sprint_to_a_score() {
    let mut versus = Match::new(config(3, MatchRules::ScoreSprint { score: 1000 })).unwrap();
    versus.players[0].game.score = 900;
    versus.players[1].game.score = 400;
    assert_eq!(versus.check_for_winning_player(), None);
    assert_eq!(versus.highest_score().player(), 0);
    versus.players[1].game.score = 1200;
    assert_eq!(versus.check_for_winning_player(), Some(1));
    // of players with the same score the last one counts
    versus.players[2].game.score = 1200;
    assert_eq!(versus.highest_score().player(), 2);
    assert_eq!(versus.check_for_winning_player(), Some(2));
    // a player that was named the winner comes before all that
    versus.set_winner(0);
    assert_eq!(versus.check_for_winning_player(), Some(0));
    versus.maybe_set_game_over(None);
    assert_eq!(versus.check_for_winning_player(), None);
}

#[test]
fn the_player_furthest_on_wins_a_sprint_over_levels() {
    let mut versus = Match::new(config(2, MatchRules::LevelSprint { levels: 2 })).unwrap();
    assert!(!versus.next_level_ends_match(1));
    versus.players[1].game.state = GameState::LevelComplete;
    versus.player_mut(1).game_mut().next_level().unwrap();
    assert_eq!(versus.check_for_winning_player(), None);
    assert!(versus.next_level_ends_match(1));
    assert!(!versus.next_level_ends_match(0));
    versus.players[1].game.state = GameState::LevelComplete;
    versus.mut_game(1).unwrap().next_level().unwrap();
    assert_eq!(versus.highest_virus_level().player(), 1);
    assert_eq!(versus.highest_virus_level().virus_level(), 4);
    assert_eq!(versus.check_for_winning_player(), Some(1));
}

#[test]
fn a_sprint_through_the_themes_ends_with_the_last_theme() {
    let mut versus = Match::new(config(1, MatchRules::ThemeSprint)).unwrap();
    assert!(!versus.next_level_ends_match(0));
    versus.players[0].game.level_count = 1;
    assert!(!versus.next_level_ends_match(0));
    versus.players[0].game.level_count = 2;
    assert!(versus.next_level_ends_match(0));
    let marathon = Match::new(config(1, MatchRules::Marathon)).unwrap();
    assert!(!marathon.next_level_ends_match(0));
    assert_eq!(marathon.check_for_winning_player(), None);
}

#[test]
fn soft_drop_is_turned_off_for_everyone() {
    let mut versus = Match::new(config(2, MatchRules::Marathon)).unwrap();
    versus.players[0].game.set_soft_drop(true);
    versus.players[1].game.set_soft_drop(true);
    versus.unset_flags();
    assert!(!versus.players[0].game.soft_drop);
    assert!(!versus.players[1].game.soft_drop);
    assert_eq!(versus.players[0].game.events, vec![GameEvent::SoftDrop]);
}

#[test]
fn a_player_is_made_for_the_level_of_the_match() {
    let mut player = Player::new(
        4,
        GameRandom::from_u64_seed(3, RandomMode::True),
        config(1, MatchRules::Marathon),
    )
    .unwrap();
    assert_eq!(player.player(), 4);
    assert_eq!(player.game().speed(), GameSpeed::Low);
    assert_eq!(player.game().virus_level(), 2);
    player.set_winner();
    assert!(player.winner);
    player.game_mut().set_soft_drop(true);
    assert!(player.game().soft_drop);
}
