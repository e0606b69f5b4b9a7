use vstd::prelude::*;

verus! {

/// Rounds in one set.
pub const ROUNDS_PER_SET: u64 = 5;

/// Guesses granted for one set.
pub const GUESSES_PER_SET: u64 = 18;

/// The global ledger: one record for the whole game.
///
/// `creator` and `players` hold identities as plain strings.
#[derive(Debug, Clone, PartialEq)]
pub struct State {
    pub creator: String,
    pub denom: String,
    pub games_played: u64,
    pub minted_tokens: u64,
    pub max_cap: u64,
    pub curr_id: u64,
    pub players: Option<Vec<String>>,
}

/// One registered player and the progress of their current set.
///
/// `time_renewed` is the start of the current set in nanoseconds.
#[derive(Debug, Clone, PartialEq)]
pub struct Player {
    pub name: String,
    pub address: String,
    pub id: u64,
    pub balance: u64,
    pub prev_correct_guesses: u64,
    pub prev_wrong_guesses: u64,
    pub rem_games_set: u64,
    pub guesses_rem: u64,
    pub games_won_in_set: u64,
    pub time_renewed: Option<u64>,
    pub game_ongoing: bool,
    pub set_words: Option<Vec<String>>,
}

/// The secret words bound to a session, if any.
#[derive(Debug, Clone, PartialEq)]
pub struct Gamewords {
    pub words: Option<Vec<String>>,
}

/// A corpus of words.
#[derive(Debug, Clone, PartialEq)]
pub struct Allwords {
    pub allwords: Vec<String>,
}

impl State {
    /// The supply never exceeds the cap.
    pub open spec fn wf(&self) -> bool {
        self.minted_tokens <= self.max_cap
    }

    /// The registered identities, in order of registration.
    pub open spec fn registered(&self) -> Seq<String> {
        match self.players {
            Some(v) => v@,
            None => Seq::empty(),
        }
    }

    /// Whether an identity appears among the registered ones.
    pub open spec fn is_registered(&self, addr: Seq<char>) -> bool {
        exists|i: int| 0 <= i < self.registered().len() && (#[trigger] self.registered()[i])@ == addr
    }
}

impl Player {
    /// Counters stay in their ranges, and a session is running exactly when
    /// a start time and secret words are bound.
    pub open spec fn wf(&self) -> bool {
        &&& self.rem_games_set <= ROUNDS_PER_SET
        &&& self.guesses_rem <= GUESSES_PER_SET
        &&& self.games_won_in_set <= ROUNDS_PER_SET
        &&& (self.game_ongoing <==> self.time_renewed is Some)
        &&& (self.game_ongoing <==> self.set_words is Some)
    }

    /// The secret words of the running session, empty when none runs.
    pub open spec fn words(&self) -> Seq<String> {
        match self.set_words {
            Some(v) => v@,
            None => Seq::empty(),
        }
    }
}

/// The record of a freshly registered player: every counter zero, no session.
pub open spec fn new_player(name: String, address: String, id: u64) -> Player {
    Player {
        name,
        address,
        id,
        balance: 0,
        prev_correct_guesses: 0,
        prev_wrong_guesses: 0,
        rem_games_set: 0,
        guesses_rem: 0,
        games_won_in_set: 0,
        time_renewed: None,
        game_ongoing: false,
        set_words: None,
    }
}

/// The player with its session reset: nothing running, every set counter zero.
pub open spec fn abandoned(p: Player) -> Player {
    Player {
        game_ongoing: false,
        rem_games_set: 0,
        guesses_rem: 0,
        games_won_in_set: 0,
        time_renewed: None,
        set_words: None,
        ..p
    }
}

/// The player with a fresh set started at `now` on the given secret words.
pub open spec fn started(p: Player, words: Vec<String>, now: u64) -> Player {
    Player {
        game_ongoing: true,
        rem_games_set: ROUNDS_PER_SET,
        guesses_rem: GUESSES_PER_SET,
        games_won_in_set: 0,
        time_renewed: Some(now),
        set_words: Some(words),
        ..p
    }
}

/// The ledger as it is created: the given creator, denom and cap, every
/// counter zero and nobody registered.
pub open spec fn initial_state(creator: String, denom: String, max_cap: u64) -> State {
    State {
        creator,
        denom,
        games_played: 0,
        minted_tokens: 0,
        max_cap,
        curr_id: 0,
        players: None,
    }
}

} // verus!
