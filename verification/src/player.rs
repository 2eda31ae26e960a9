//! A match: the players' games side by side, who has won, and who gets
//! the loose cells that a player sends.

use crate::bottle::SendGarbage;
use crate::event::GameEvent;
use crate::game::Game;
use crate::metrics::GameMetrics;
use crate::random::{GameRandom, random, some_order_fails};
use crate::rng::{gen_below, random_seed, rng_from_seed};
use crate::rules::{GameConfig, MatchRules, MatchThemes};
use rand_chacha::ChaCha20Rng;
use vstd::prelude::*;

verus! {

/// A score that belongs on the table of high scores.
#[derive(Clone, Copy, Debug, PartialEq, Eq, Structural)]
pub struct NewHighScore {
    pub player: u32,
    pub score: u32,
}

impl NewHighScore {
    pub fn new(player: u32, score: u32) -> (entry: Self)
        ensures
            entry == (NewHighScore { player, score }),
    {
        Self { player, score }
    }
}

/// Whether a match runs, is paused or is over.
#[derive(Clone, Copy, Debug, PartialEq, Eq, Structural)]
pub enum MatchState {
    Normal,
    Paused,
    GameOver { high_score: Option<NewHighScore> },
}

impl MatchState {
    pub fn is_paused(&self) -> (paused: bool)
        ensures
            paused == (*self is Paused),
    {
        match self {
            MatchState::Paused => true,
            _ => false,
        }
    }

    pub fn is_game_over(&self) -> (over: bool)
        ensures
            over == (*self is GameOver),
    {
        match self {
            MatchState::GameOver { .. } => true,
            _ => false,
        }
    }

    pub fn is_normal(&self) -> (normal: bool)
        ensures
            normal == (*self is Normal),
    {
        match self {
            MatchState::Normal => true,
            _ => false,
        }
    }
}

/// One player of a match.
pub struct Player {
    pub player: u32,
    pub game: Game,
    pub winner: bool,
}

impl Player {
    /// A player at the start of a match, with a game that starts at the
    /// level and the speed of the match. There is none if no layout of
    /// viruses is found for the level.
    pub fn new(player: u32, random: GameRandom, game_config: GameConfig) -> (made: Result<
        Self,
        String,
    >)
        requires
            random.wf(),
        ensures
            match made {
                Ok(made) => {
                    &&& made.player == player
                    &&& !made.winner
                    &&& made.game.starts(player, game_config.virus_level, game_config.speed)
                    &&& made.game.random.mode == random.mode
                    &&& made.game.random.queue == random.queue
                },
                Err(message) => {
                    &&& message@ == "failed to generate valid bottle after 100000 attempts"@
                    &&& some_order_fails(game_config.virus_level)
                },
            },
    {
        match Game::new(player, game_config.virus_level(), game_config.speed(), random) {
            Ok(game) => Ok(Self { player, game, winner: false }),
            Err(message) => Err(message),
        }
    }

    pub fn player(&self) -> (player: u32)
        ensures
            player == self.player,
    {
        self.player
    }

    pub fn game(&self) -> (game: &Game)
        ensures
            *game == self.game,
    {
        &self.game
    }

    pub fn game_mut(&mut self) -> (game: &mut Game)
        ensures
            *game == old(self).game,
            *final(self) == (Player { game: *final(game), ..*old(self) }),
    {
        &mut self.game
    }

    pub fn set_winner(&mut self)
        ensures
            final(self).winner,
            final(self).player == old(self).player,
            final(self).game == old(self).game,
    {
        self.winner = true;
    }
}

/// The index of the last among the first `n` players whose number, as
/// `by_score` says their score or their virus level, is the highest.
pub open spec fn best_of(players: Seq<Player>, by_score: bool, n: int) -> int
    decreases n,
{
    if n <= 1 {
        0
    } else {
        let before = best_of(players, by_score, n - 1);
        if rank_of(players[n - 1], by_score) >= rank_of(players[before], by_score) {
            n - 1
        } else {
            before
        }
    }
}

/// A player's score, or virus level.
pub open spec fn rank_of(player: Player, by_score: bool) -> u32 {
    if by_score {
        player.game.score
    } else {
        player.game.virus_level
    }
}

/// The number of the first among the first `n` players that was named the
/// winner, if any of them was.
pub open spec fn first_winner(players: Seq<Player>, n: int) -> Option<u32>
    decreases n,
{
    if n <= 0 {
        None
    } else {
        match first_winner(players, n - 1) {
            Some(player) => Some(player),
            None => if players[n - 1].winner {
                Some(players[n - 1].player)
            } else {
                None
            },
        }
    }
}

/// A match of one or more players.
pub struct Match {
    pub players: Vec<Player>,
    pub state: MatchState,
    pub game_config: GameConfig,
    pub rng: ChaCha20Rng,
}

impl Match {
    /// There is a player, every player's game is in order, and no game is
    /// at a lower level than the match started from.
    pub open spec fn wf(&self) -> bool {
        &&& self.players@.len() > 0
        &&& self.players@.len() <= u32::MAX
        &&& forall|i: int|
            0 <= i < self.players@.len() ==> {
                &&& (#[trigger] self.players@[i]).game.wf()
                &&& self.players@[i].game.virus_level >= self.game_config.virus_level
            }
    }

    /// The player whose score is highest; of several, the one with the
    /// highest number.
    pub open spec fn best_by_score(&self) -> Player {
        self.players@[best_of(self.players@, true, self.players@.len() as int)]
    }

    /// The player whose virus level is highest; of several, the one with
    /// the highest number.
    pub open spec fn best_by_level(&self) -> Player {
        self.players@[best_of(self.players@, false, self.players@.len() as int)]
    }

    /// Who has won, if anyone: the first player that was named the winner;
    /// else, in a sprint to a score, the best player once that score is
    /// reached, and in a sprint over levels, the player furthest on once
    /// that many levels lie behind. A match that is over has no new winner.
    pub open spec fn winner_of(&self) -> Option<u32> {
        if self.state is GameOver {
            None
        } else if first_winner(self.players@, self.players@.len() as int) is Some {
            first_winner(self.players@, self.players@.len() as int)
        } else {
            match self.game_config.rules {
                MatchRules::ScoreSprint { score } => if self.best_by_score().game.score >= score {
                    Some(self.best_by_score().game.player)
                } else {
                    None
                },
                MatchRules::LevelSprint { levels } => if self.best_by_level().game.virus_level
                    - self.game_config.virus_level >= levels {
                    Some(self.best_by_level().game.player)
                } else {
                    None
                },
                _ => None,
            }
        }
    }

    /// Starts a match: every player gets a game from the same fresh seed,
    /// at the level and the speed of the match and with its supply of
    /// capsules. There is no match if no layout of viruses is found.
    pub fn new(game_config: GameConfig) -> (made: Result<Self, String>)
        requires
            game_config.players > 0,
        ensures
            match made {
                Ok(made) => {
                    &&& made.wf()
                    &&& made.players@.len() == game_config.players
                    &&& made.state == MatchState::Normal
                    &&& made.game_config == game_config
                    &&& forall|i: int|
                        0 <= i < made.players@.len() ==> {
                            &&& (#[trigger] made.players@[i]).player == i
                            &&& !made.players@[i].winner
                            &&& made.players@[i].game.starts(
                                i as u32,
                                game_config.virus_level,
                                game_config.speed,
                            )
                            &&& made.players@[i].game.random.mode == game_config.random
                        }
                },
                Err(message) => {
                    &&& message@ == "failed to generate valid bottle after 100000 attempts"@
                    &&& some_order_fails(game_config.virus_level)
                },
            },
    {
        let mut randoms = random(game_config.players() as usize, game_config.random());
        let mut players: Vec<Player> = Vec::new();
        let count = randoms.len();
        while randoms.len() > 0
            invariant
                count == game_config.players,
                players@.len() + randoms@.len() == count,
                forall|i: int|
                    0 <= i < randoms@.len() ==> (#[trigger] randoms@[i]).wf() && randoms@[i].mode
                        == game_config.random,
                forall|i: int|
                    0 <= i < players@.len() ==> {
                        &&& (#[trigger] players@[i]).player == i
                        &&& !players@[i].winner
                        &&& players@[i].game.starts(
                            i as u32,
                            game_config.virus_level,
                            game_config.speed,
                        )
                        &&& players@[i].game.random.mode == game_config.random
                    },
            decreases randoms@.len(),
        {
            let source = randoms.pop().unwrap();
            let pid = players.len() as u32;
            match Player::new(pid, source, game_config) {
                Ok(player) => {
                    players.push(player);
                },
                Err(message) => {
                    return Err(message);
                },
            }
        }
        Ok(Self { players, state: MatchState::Normal, game_config, rng: rng_from_seed(random_seed()) })
    }

    /// Turns soft drop off for every player, and changes nothing else.
    pub fn unset_flags(&mut self)
        requires
            old(self).wf(),
        ensures
            final(self).wf(),
            final(self).state == old(self).state,
            final(self).game_config == old(self).game_config,
            final(self).players@.len() == old(self).players@.len(),
            forall|i: int|
                0 <= i < final(self).players@.len() ==> (#[trigger] final(self).players@[i])
                    == (Player {
                    game: Game { soft_drop: false, ..old(self).players@[i].game },
                    ..old(self).players@[i]
                }),
    {
        let mut i: usize = 0;
        while i < self.players.len()
            invariant
                i <= self.players@.len(),
                self.wf(),
                self.state == old(self).state,
                self.game_config == old(self).game_config,
                self.players@.len() == old(self).players@.len(),
                forall|j: int|
                    0 <= j < i ==> (#[trigger] self.players@[j]) == (Player {
                        game: Game { soft_drop: false, ..old(self).players@[j].game },
                        ..old(self).players@[j]
                    }),
                forall|j: int|
                    i <= j < self.players@.len() ==> (#[trigger] self.players@[j]) == old(
                        self,
                    ).players@[j],
            decreases self.players@.len() - i,
        {
            self.players[i].game.set_soft_drop(false);
            i = i + 1;
        }
    }

    /// Pauses a match that runs and goes on with one that is paused; a
    /// match that is over stays over.
    pub fn toggle_paused(&mut self) -> (event: Option<GameEvent>)
        ensures
            final(self).players == old(self).players,
            final(self).game_config == old(self).game_config,
            match old(self).state {
                MatchState::Normal => final(self).state == MatchState::Paused && event == Some(
                    GameEvent::Paused,
                ),
                MatchState::Paused => final(self).state == MatchState::Normal && event == Some(
                    GameEvent::UnPaused,
                ),
                _ => final(self).state == old(self).state && event is None,
            },
    {
        match self.state {
            MatchState::Normal => {
                self.state = MatchState::Paused;
                Some(GameEvent::Paused)
            },
            MatchState::Paused => {
                self.state = MatchState::Normal;
                Some(GameEvent::UnPaused)
            },
            _ => None,
        }
    }

    pub fn state(&self) -> (state: MatchState)
        ensures
            state == self.state,
    {
        self.state
    }

    /// Whether the match is won when the player completes one more level.
    pub fn next_level_ends_match(&self, player: u32) -> (ends: bool)
        requires
            player < self.players@.len(),
        ensures
            ends == match self.game_config.rules {
                MatchRules::LevelSprint { levels } => self.players@[player as int].game.level_count
                    + 1 >= levels,
                MatchRules::ThemeSprint => self.players@[player as int].game.level_count + 1 >= 3,
                _ => false,
            },
    {
        let completed = self.player(player).game().completed_levels();
        match self.game_config.rules() {
            MatchRules::LevelSprint { levels } => completed == u32::MAX || completed + 1 >= levels,
            MatchRules::ThemeSprint => completed == u32::MAX || completed + 1
                >= MatchThemes::count() as u32,
            _ => false,
        }
    }

    /// Names a player the winner.
    pub fn set_winner(&mut self, player: u32)
        requires
            player < old(self).players@.len(),
        ensures
            final(self).state == old(self).state,
            final(self).game_config == old(self).game_config,
            final(self).players@ == old(self).players@.update(
                player as int,
                Player { winner: true, ..old(self).players@[player as int] },
            ),
    {
        self.players[player as usize].winner = true;
    }

    /// Who has won, if anyone has.
    pub fn check_for_winning_player(&self) -> (winner: Option<u32>)
        requires
            self.wf(),
        ensures
            winner == self.winner_of(),
    {
        if self.state.is_game_over() {
            return None;
        }
        let mut i: usize = 0;
        while i < self.players.len()
            invariant
                i <= self.players@.len(),
                !(self.state is GameOver),
                first_winner(self.players@, i as int) is None,
            decreases self.players@.len() - i,
        {
            if self.players[i].winner {
                proof {
                    assert(first_winner(self.players@, i as int + 1) == Some(
                        self.players@[i as int].player,
                    ));
                    lemma_first_winner(self.players@, i as int + 1, self.players@.len() as int);
                }
                return Some(self.players[i].player);
            }
            i = i + 1;
        }
        match self.game_config.rules() {
            MatchRules::ScoreSprint { score } => {
                let best_game = self.highest_score();
                if best_game.score() >= score {
                    Some(best_game.player())
                } else {
                    None
                }
            },
            MatchRules::LevelSprint { levels } => {
                let best_game = self.highest_virus_level();
                let completed_levels = best_game.virus_level() - self.game_config.virus_level();
                if completed_levels >= levels {
                    Some(best_game.player())
                } else {
                    None
                }
            },
            _ => None,
        }
    }

    /// Ends a match that is not over yet, with the high score that the
    /// best player has made, if it is one, and says whether it did.
    pub fn maybe_set_game_over(&mut self, high_score: Option<NewHighScore>) -> (ended: bool)
        ensures
            ended == !(old(self).state is GameOver),
            final(self).players == old(self).players,
            final(self).game_config == old(self).game_config,
            final(self).state == if ended {
                MatchState::GameOver { high_score }
            } else {
                old(self).state
            },
    {
        if self.state.is_game_over() {
            return false;
        }
        self.state = MatchState::GameOver { high_score };
        true
    }

    /// A player's game, to act on it, as long as the match runs.
    pub fn mut_game(&mut self, player: u32) -> (game: Option<&mut Game>)
        requires
            player < old(self).players@.len(),
        ensures
            game is Some <==> old(self).state is Normal,
            game is None ==> *final(self) == *old(self),
            game matches Some(game) ==> {
                &&& *game == old(self).players@[player as int].game
                &&& final(self).state == old(self).state
                &&& final(self).game_config == old(self).game_config
                &&& final(self).players@ == old(self).players@.update(
                    player as int,
                    Player { game: *final(game), ..old(self).players@[player as int] },
                )
            },
    {
        if self.state.is_normal() {
            Some(&mut self.players[player as usize].game)
        } else {
            None
        }
    }

    pub fn player(&self, player: u32) -> (found: &Player)
        requires
            player < self.players@.len(),
        ensures
            *found == self.players@[player as int],
    {
        &self.players[player as usize]
    }

    pub fn player_mut(&mut self, player: u32) -> (found: &mut Player)
        requires
            player < old(self).players@.len(),
        ensures
            *found == old(self).players@[player as int],
            final(self).state == old(self).state,
            final(self).game_config == old(self).game_config,
            final(self).players@ == old(self).players@.update(player as int, *final(found)),
    {
        &mut self.players[player as usize]
    }

    /// Hands loose cells that a player sends to another player: to the
    /// other one where there are two, to one of the others by chance where
    /// there are more, and to nobody where the player is alone. The batch
    /// joins the end of the receiver's queue; nothing else changes.
    pub fn send_garbage(&mut self, from_player: u32, garbage: SendGarbage)
        requires
            old(self).wf(),
        ensures
            final(self).wf(),
            final(self).state == old(self).state,
            final(self).game_config == old(self).game_config,
            final(self).players@.len() == old(self).players@.len(),
            old(self).players@.len() < 2 ==> final(self).players == old(self).players,
            old(self).players@.len() >= 2 ==> exists|to: int|
                {
                    &&& 0 <= to < old(self).players@.len()
                    &&& to != from_player
                    &&& (#[trigger] final(self).players@[to]).game.queued_from(
                        &old(self).players@[to].game,
                        garbage,
                    )
                    &&& final(self).players@[to] == (Player {
                        game: final(self).players@[to].game,
                        ..old(self).players@[to]
                    })
                    &&& forall|i: int|
                        0 <= i < old(self).players@.len() && i != to ==> final(self).players@[i]
                            == old(self).players@[i]
                },
    {
        if self.players.len() < 2 {
            return ;
        }
        let mut other_players: Vec<usize> = Vec::new();
        let mut p: usize = 0;
        while p < self.players.len()
            invariant
                p <= self.players@.len(),
                *self == *old(self),
                other_players@.len() <= p,
                other_players@.len() >= (if p > from_player {
                    p - 1
                } else {
                    p as int
                }),
                forall|k: int|
                    0 <= k < other_players@.len() ==> (#[trigger] other_players@[k])
                        < self.players@.len() && other_players@[k] != from_player,
            decreases self.players@.len() - p,
        {
            if p != from_player as usize {
                other_players.push(p);
            }
            p = p + 1;
        }
        let pid = if other_players.len() == 1 {
            other_players[0]
        } else {
            other_players[gen_below(&mut self.rng, other_players.len())]
        };
        self.players[pid].game.send_garbage(garbage);
    }

    /// A snapshot of the game with the highest score.
    pub fn highest_score(&self) -> (best: GameMetrics)
        requires
            self.wf(),
        ensures
            self.best_by_score().game.shown_in(best),
    {
        let mut at: usize = 0;
        let mut i: usize = 1;
        while i < self.players.len()
            invariant
                1 <= i <= self.players@.len(),
                at == best_of(self.players@, true, i as int),
                at < i,
            decreases self.players@.len() - i,
        {
            if self.players[i].game.score >= self.players[at].game.score {
                at = i;
            }
            i = i + 1;
        }
        self.players[at].game.metrics()
    }

    /// A snapshot of the game that is furthest on in virus levels.
    pub fn highest_virus_level(&self) -> (best: GameMetrics)
        requires
            self.wf(),
        ensures
            self.best_by_level().game.shown_in(best),
            best.virus_level >= self.game_config.virus_level,
    {
        let mut at: usize = 0;
        let mut i: usize = 1;
        while i < self.players.len()
            invariant
                1 <= i <= self.players@.len(),
                at == best_of(self.players@, false, i as int),
                at < i,
            decreases self.players@.len() - i,
        {
            if self.players[i].game.virus_level >= self.players[at].game.virus_level {
                at = i;
            }
            i = i + 1;
        }
        self.players[at].game.metrics()
    }
}

/// Once a winner is found among the first players, looking at more
/// players finds the same one.
pub proof fn lemma_first_winner(players: Seq<Player>, n: int, m: int)
    requires
        0 <= n <= m,
        first_winner(players, n) is Some,
    ensures
        first_winner(players, m) == first_winner(players, n),
    decreases m - n,
{
    if n < m {
        lemma_first_winner(players, n, m - 1);
    }
}

} // verus!
