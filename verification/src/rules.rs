//! What a match is played by: how many players, from which level, at what
//! speed, and what wins it.

use crate::game::GameSpeed;
use crate::random::RandomMode;
use crate::text::{decimal, decimal_string, grouped, grouped_string};
use vstd::prelude::*;
use vstd::string::StringExecFns;

verus! {

/// The highest virus level a match can start from.
pub const MAX_VIRUS_LEVEL: u32 = 30;

/// Which theme a match is shown in.
#[derive(Clone, Copy, Debug, PartialEq, Eq, Structural)]
pub enum MatchThemes {
    /// Every theme in turn, the next one with each level.
    All,
    Nes,
    Snes,
    N64,
}

impl MatchThemes {
    pub fn names() -> (names: Vec<&'static str>)
        ensures
            names@.len() == 4,
            names@[0]@ == "all"@,
            names@[1]@ == "nes"@,
            names@[2]@ == "snes"@,
            names@[3]@ == "n64"@,
    {
        vec!["all", "nes", "snes", "n64"]
    }

    /// How many themes there are to play through: all but `All`.
    pub fn count() -> (count: usize)
        ensures
            count == 3,
    {
        let all = [MatchThemes::All, MatchThemes::Nes, MatchThemes::Snes, MatchThemes::N64];
        let mut count: usize = 0;
        let mut i: usize = 0;
        while i < 4
            invariant
                i <= 4,
                all[0] == MatchThemes::All,
                all[1] == MatchThemes::Nes,
                all[2] == MatchThemes::Snes,
                all[3] == MatchThemes::N64,
                count == if i == 0 {
                    0int
                } else {
                    i - 1
                },
            decreases 4 - i,
        {
            match all[i] {
                MatchThemes::All => {},
                _ => {
                    count = count + 1;
                },
            }
            i = i + 1;
        }
        count
    }
}

/// What wins a match.
#[derive(Clone, Copy, Debug, PartialEq, Eq, Structural)]
pub enum MatchRules {
    /// The game goes on until it is lost; the highest score wins.
    Marathon,
    /// The first to complete a number of levels wins.
    LevelSprint { levels: u32 },
    /// The first to reach a score wins.
    ScoreSprint { score: u32 },
    /// The first through all the themes wins, one theme to a level.
    ThemeSprint,
}

impl MatchRules {
    /// The name of the rules as a menu shows it.
    pub open spec fn name_of(self) -> Seq<char> {
        match self {
            MatchRules::Marathon => "marathon"@,
            MatchRules::LevelSprint { levels } => decimal(levels as nat) + " level sprint"@,
            MatchRules::ScoreSprint { score } => grouped(score as nat) + " point sprint"@,
            MatchRules::ThemeSprint => "theme sprint"@,
        }
    }

    /// A sprint over one level.
    pub fn one_level_sprint() -> (rules: Self)
        ensures
            rules == (MatchRules::LevelSprint { levels: 1 }),
    {
        MatchRules::LevelSprint { levels: 1 }
    }

    /// A sprint to ten thousand points.
    pub fn default_score_sprint() -> (rules: Self)
        ensures
            rules == (MatchRules::ScoreSprint { score: 10_000 }),
    {
        MatchRules::ScoreSprint { score: 10_000 }
    }

    /// The rules that players can choose among when they play each other.
    pub fn vs_modes() -> (modes: Vec<MatchRules>)
        ensures
            modes@ == seq![
                MatchRules::LevelSprint { levels: 1 },
                MatchRules::ThemeSprint,
                MatchRules::ScoreSprint { score: 10_000 },
            ],
    {
        let modes = vec![
            MatchRules::one_level_sprint(),
            MatchRules::ThemeSprint,
            MatchRules::default_score_sprint(),
        ];
        assert(modes@ =~= seq![
            MatchRules::LevelSprint { levels: 1 },
            MatchRules::ThemeSprint,
            MatchRules::ScoreSprint { score: 10_000 },
        ]);
        modes
    }

    /// The rules that a single player can choose among.
    pub fn single_player_modes() -> (modes: Vec<MatchRules>)
        ensures
            modes@ == seq![
                MatchRules::Marathon,
                MatchRules::LevelSprint { levels: 1 },
                MatchRules::ThemeSprint,
                MatchRules::ScoreSprint { score: 10_000 },
            ],
    {
        let modes = vec![
            MatchRules::Marathon,
            MatchRules::one_level_sprint(),
            MatchRules::ThemeSprint,
            MatchRules::default_score_sprint(),
        ];
        assert(modes@ =~= seq![
            MatchRules::Marathon,
            MatchRules::LevelSprint { levels: 1 },
            MatchRules::ThemeSprint,
            MatchRules::ScoreSprint { score: 10_000 },
        ]);
        modes
    }

    pub fn name(&self) -> (name: String)
        ensures
            name@ == self.name_of(),
    {
        match self {
            MatchRules::Marathon => String::from_str("marathon"),
            MatchRules::LevelSprint { levels } => decimal_string(*levels).concat(" level sprint"),
            MatchRules::ScoreSprint { score } => grouped_string(*score).concat(" point sprint"),
            MatchRules::ThemeSprint => String::from_str("theme sprint"),
        }
    }

    /// In a sprint through the themes the theme changes with the level,
    /// and by nothing else.
    pub fn allow_manual_theme_change(&self) -> (allowed: bool)
        ensures
            allowed == (*self != MatchRules::ThemeSprint),
    {
        match self {
            MatchRules::ThemeSprint => false,
            _ => true,
        }
    }

    /// The rules that a match starts with: a marathon for one player, a
    /// sprint over one level for more.
    pub fn default_by_players(players: u32) -> (rules: Self)
        ensures
            rules == if players == 1 {
                MatchRules::Marathon
            } else {
                MatchRules::LevelSprint { levels: 1 }
            },
    {
        if players == 1 {
            MatchRules::Marathon
        } else {
            MatchRules::one_level_sprint()
        }
    }
}

/// What the players have chosen for a match.
#[derive(Clone, Copy, Debug, PartialEq, Eq, Structural)]
pub struct GameConfig {
    pub players: u32,
    pub virus_level: u32,
    pub speed: GameSpeed,
    pub themes: MatchThemes,
    pub rules: MatchRules,
    pub random: RandomMode,
}

impl GameConfig {
    pub fn new(
        players: u32,
        virus_level: u32,
        speed: GameSpeed,
        themes: MatchThemes,
        rules: MatchRules,
        random: RandomMode,
    ) -> (config: Self)
        ensures
            config == (GameConfig { players, virus_level, speed, themes, rules, random }),
    {
        Self { players, virus_level, speed, themes, rules, random }
    }

    pub fn players(&self) -> (players: u32)
        ensures
            players == self.players,
    {
        self.players
    }

    pub fn is_single_player(&self) -> (single: bool)
        ensures
            single == (self.players == 1),
    {
        self.players == 1
    }

    pub fn virus_level(&self) -> (level: u32)
        ensures
            level == self.virus_level,
    {
        self.virus_level
    }

    pub fn speed(&self) -> (speed: GameSpeed)
        ensures
            speed == self.speed,
    {
        self.speed
    }

    /// The themes of the match: all of them in a sprint through the
    /// themes, whatever was chosen.
    pub fn themes(&self) -> (themes: MatchThemes)
        ensures
            themes == if self.rules == MatchRules::ThemeSprint {
                MatchThemes::All
            } else {
                self.themes
            },
    {
        match self.rules {
            MatchRules::ThemeSprint => MatchThemes::All,
            _ => self.themes,
        }
    }

    pub fn rules(&self) -> (rules: MatchRules)
        ensures
            rules == self.rules,
    {
        self.rules
    }

    pub fn random(&self) -> (random: RandomMode)
        ensures
            random == self.random,
    {
        self.random
    }

    pub fn set_players(&mut self, players: u32)
        ensures
            *final(self) == (GameConfig { players, ..*old(self) }),
    {
        self.players = players;
    }

    /// Sets the level to start from, or the highest there is if that is less.
    pub fn set_virus_level(&mut self, virus_level: u32)
        ensures
            *final(self) == (GameConfig {
                virus_level: if virus_level <= MAX_VIRUS_LEVEL {
                    virus_level
                } else {
                    MAX_VIRUS_LEVEL
                },
                ..*old(self)
            }),
    {
        self.virus_level = if virus_level <= MAX_VIRUS_LEVEL {
            virus_level
        } else {
            MAX_VIRUS_LEVEL
        };
    }

    pub fn set_speed(&mut self, speed: GameSpeed)
        ensures
            *final(self) == (GameConfig { speed, ..*old(self) }),
    {
        self.speed = speed;
    }

    pub fn set_themes(&mut self, themes: MatchThemes)
        ensures
            *final(self) == (GameConfig { themes, ..*old(self) }),
    {
        self.themes = themes;
    }

    pub fn set_rules(&mut self, rules: MatchRules)
        ensures
            *final(self) == (GameConfig { rules, ..*old(self) }),
    {
        self.rules = rules;
    }

    pub fn set_random(&mut self, random: RandomMode)
        ensures
            *final(self) == (GameConfig { random, ..*old(self) }),
    {
        self.random = random;
    }
}

impl Default for GameConfig {
    fn default() -> (config: Self)
        ensures
            config == (GameConfig {
                players: 1,
                virus_level: 0,
                speed: GameSpeed::Medium,
                themes: MatchThemes::All,
                rules: MatchRules::Marathon,
                random: RandomMode::Bag,
            }),
    {
        Self::new(
            1,
            0,
            GameSpeed::Medium,
            MatchThemes::All,
            MatchRules::Marathon,
            RandomMode::Bag,
        )
    }
}

} // verus!
