//! Plain data spoken between the protocol parser, the board engine and the
//! surrounding driver.

use vstd::prelude::*;

verus! {

/// One cell of the board: empty, or owned by one of the two players.
#[derive(Clone, Copy, Debug, PartialEq, Eq, Structural)]
pub enum Square {
    Empty,
    Player1,
    Player2,
}

/// Match settings announced by the engine before the first round.
#[derive(Debug)]
pub struct Settings {
    pub time_bank: u64,
    pub time_per_move: u64,
    pub player_names: Vec<String>,
    pub your_bot: String,
    pub your_bot_id: u64,
    pub field_width: u64,
    pub field_height: u64,
    pub max_rounds: u64,
}

impl Default for Settings {
    /// All-zero settings, with empty names, to be filled in as `settings`
    /// lines arrive.
    fn default() -> (s: Settings)
        ensures
            s.time_bank == 0,
            s.time_per_move == 0,
            s.player_names@ == Seq::<String>::empty(),
            s.your_bot@ == Seq::<char>::empty(),
            s.your_bot_id == 0,
            s.field_width == 0,
            s.field_height == 0,
            s.max_rounds == 0,
    {
        Settings {
            time_bank: 0,
            time_per_move: 0,
            player_names: Vec::new(),
            your_bot: String::new(),
            your_bot_id: 0,
            field_width: 0,
            field_height: 0,
            max_rounds: 0,
        }
    }
}

/// One full line of the engine's protocol, by its leading keyword.
#[derive(Debug, PartialEq)]
pub enum Message {
    Empty,
    Setting(Setting),
    Update(Update),
    Action(Action),
    Move(Move),
}

/// A `settings` line: one configuration item.
#[derive(Debug, PartialEq)]
pub enum Setting {
    TimeBank(u64),
    TimePerMove(u64),
    PlayerNames(Vec<String>),
    YourBot(String),
    YourBotId(u64),
    FieldWidth(u64),
    FieldHeight(u64),
    MaxRounds(u64),
}

/// An `update` line: what the engine reports between rounds.
#[derive(Debug, PartialEq)]
pub enum Update {
    GameRound { round: u64 },
    GameField { field: Vec<Square> },
    LivingCells { player: String, cells: u64 },
    Move { player: String, mov: Move },
}

/// A move a player submitted, as reported by the engine.
#[derive(Debug, PartialEq)]
pub enum Move {
    Null,
    Kill { loc: Coordinate },
    Birth { birth: Coordinate, sacrifice: [Coordinate; 2] },
    Pass,
}

/// A board position named by the protocol, as (x, y).
#[derive(Clone, Copy, Debug, Default, PartialEq, Eq, Structural)]
pub struct Coordinate {
    pub x: u64,
    pub y: u64,
}

/// An `action` line: the engine asks the bot to act.
#[derive(Debug, PartialEq)]
pub enum Action {
    Move { time: u64 },
}

} // verus!
