use vstd::prelude::*;

verus! {

/// Parameters for creating the ledger.
#[derive(Debug, Clone, PartialEq)]
pub struct InstantiateMsg {
    pub denom: String,
    pub max_cap: u64,
}

/// Operations that change the game.
#[derive(Debug, Clone, PartialEq)]
pub enum ExecuteMsg {
    CreatePlayer { name: String },
    StartGame { game_words: Vec<String> },
    EndGame {},
    UpdateGame { game: u64, guess: u64, game_won: u64, correct_guess: u64, wrong_guess: u64 },
    RewardPlayer {},
}

/// Read-only requests.
#[derive(Debug, Clone, PartialEq)]
pub enum QueryMsg {
    QueryPlayer { addr: String },
    QueryPlayerExists { addr: String },
    QueryPlayerWord { addr: String, pos: u64 },
    QueryCorrectGuess { addr: String, guessed: String, pos: u64 },
}

} // verus!
