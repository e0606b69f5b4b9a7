use vstd::prelude::*;

use crate::error::ContractError;
use crate::msg::InstantiateMsg;
use crate::state::{
    abandoned, initial_state, new_player, started, Player, State, GUESSES_PER_SET, ROUNDS_PER_SET,
};

verus! {

/// Reward numerator: a set cleared with the fewest allowed guesses pays this.
pub const REWARD_BASE: u64 = 25;

/// Guesses that a cleared set must exceed before it earns anything.
pub const MIN_GUESSES: u64 = 4;

/// What happens when an identity registers a second time.
#[derive(Debug, Clone, Copy, PartialEq, Eq, Structural)]
pub enum RegistrationPolicy {
    /// The old record is replaced by a fresh one with a new id.
    Overwrite,
    /// The registration fails with `PlayerAlreadyExists`.
    Reject,
}

/// The reward for a cleared set in which `used` guesses were spent.
pub open spec fn reward_for(used: int) -> int {
    REWARD_BASE as int / (used - MIN_GUESSES as int)
}

/// Whether a progress update keeps every counter of the player in range.
pub open spec fn progress_fits(
    p: Player,
    game: u64,
    guess: u64,
    game_won: u64,
    correct_guess: u64,
    wrong_guess: u64,
) -> bool {
    &&& guess <= p.guesses_rem
    &&& game <= p.rem_games_set
    &&& p.games_won_in_set + game_won <= ROUNDS_PER_SET
    &&& p.prev_correct_guesses + correct_guess <= u64::MAX
    &&& p.prev_wrong_guesses + wrong_guess <= u64::MAX
}

/// The player after a progress update that fits.
pub open spec fn progressed(
    p: Player,
    game: u64,
    guess: u64,
    game_won: u64,
    correct_guess: u64,
    wrong_guess: u64,
) -> Player {
    Player {
        guesses_rem: (p.guesses_rem - guess) as u64,
        rem_games_set: (p.rem_games_set - game) as u64,
        games_won_in_set: (p.games_won_in_set + game_won) as u64,
        prev_correct_guesses: (p.prev_correct_guesses + correct_guess) as u64,
        prev_wrong_guesses: (p.prev_wrong_guesses + wrong_guess) as u64,
        ..p
    }
}

/// The outcome of a claim: the first eligibility gate that fails, in order
/// (rounds played, rounds won, guesses used, cap), or the reward.
pub open spec fn claim_outcome(p: Player, s: State) -> Result<u64, ContractError> {
    let played = ROUNDS_PER_SET - p.rem_games_set;
    let used = GUESSES_PER_SET - p.guesses_rem;
    if played != ROUNDS_PER_SET {
        Err(ContractError::AllGamesNotPlayed(played as u64))
    } else if p.games_won_in_set != ROUNDS_PER_SET {
        Err(ContractError::AllGamesNotWon(p.games_won_in_set))
    } else if used <= MIN_GUESSES {
        Err(ContractError::MinGuessNotCrossed(used as u64))
    } else if s.minted_tokens + reward_for(used) > s.max_cap {
        Err(ContractError::MaxCapReached)
    } else {
        Ok(reward_for(used) as u64)
    }
}

/// The player after a successful claim of `reward`: credited, session reset.
pub open spec fn rewarded(p: Player, reward: u64) -> Player {
    abandoned(Player { balance: (p.balance + reward) as u64, ..p })
}

/// The ledger after `reward` more tokens were minted.
pub open spec fn minted(s: State, reward: u64) -> State {
    State { minted_tokens: (s.minted_tokens + reward) as u64, ..s }
}

/// The ledger after one more session was started.
pub open spec fn game_counted(s: State) -> State {
    State { games_played: (s.games_played + 1) as u64, ..s }
}

/// The ledger after `addr` registered: the next id is taken and the identity
/// is appended; nothing else changes.
pub open spec fn after_registration(before: State, after: State, addr: String) -> bool {
    &&& after.creator == before.creator
    &&& after.denom == before.denom
    &&& after.games_played == before.games_played
    &&& after.minted_tokens == before.minted_tokens
    &&& after.max_cap == before.max_cap
    &&& after.curr_id == before.curr_id + 1
    &&& after.registered() == before.registered().push(addr)
}

/// Whether a word position names one of the bound secret words.
pub open spec fn position_ok(words: Seq<String>, pos: u64) -> bool {
    1 <= pos <= ROUNDS_PER_SET && pos <= words.len()
}

/// The outcome of asking for the secret word at a 1-based position.
pub open spec fn word_outcome(p: Player, pos: u64) -> Result<String, ContractError> {
    if p.set_words is None {
        Err(ContractError::NoActiveSession)
    } else if !position_ok(p.words(), pos) {
        Err(ContractError::IndexOutOfRange)
    } else {
        Ok(p.words()[pos - 1])
    }
}

/// For each position of the target, whether the guess has the same
/// character there.
pub open spec fn positional_matches(target: Seq<char>, guess: Seq<char>) -> Seq<bool> {
    Seq::new(target.len(), |i: int| guess[i] == target[i])
}

/// Creates the ledger for `creator` with the denom and cap of `msg`.
pub fn instantiate(creator: String, msg: InstantiateMsg) -> (r: State)
    ensures
        r == initial_state(creator, msg.denom, msg.max_cap),
        r.wf(),
{
    State {
        creator,
        denom: msg.denom,
        games_played: 0,
        minted_tokens: 0,
        max_cap: msg.max_cap,
        curr_id: 0,
        players: None,
    }
}

/// Whether `addr` is among the identities registered in the ledger.
pub fn query_player_exists(state: &State, addr: &String) -> (r: bool)
    ensures
        r == state.is_registered(addr@),
{
    match &state.players {
        None => false,
        Some(v) => {
            let mut i: usize = 0;
            while i < v.len()
                invariant
                    state.players == Some(*v),
                    0 <= i <= v@.len(),
                    forall|j: int| 0 <= j < i ==> (#[trigger] v@[j])@ != addr@,
                decreases v.len() - i,
            {
                if v[i] == *addr {
                    assert(state.registered()[i as int]@ == addr@);
                    return true;
                }
                i = i + 1;
            }
            false
        },
    }
}

/// Registers `sender` under `name`: the player takes the ledger's next id,
/// starts with every counter zero, and the identity is appended to the
/// ledger. Under `Reject`, an identity already registered is refused.
pub fn create_player(
    state: &mut State,
    sender: String,
    name: String,
    policy: RegistrationPolicy,
) -> (r: Result<Player, ContractError>)
    requires
        old(state).curr_id < u64::MAX,
    ensures
        r is Err <==> (policy == RegistrationPolicy::Reject && old(state).is_registered(sender@)),
        r is Err ==> r == Err::<Player, ContractError>(ContractError::PlayerAlreadyExists)
            && *final(state) == *old(state),
        r is Ok ==> r->Ok_0 == new_player(name, sender, old(state).curr_id)
            && after_registration(*old(state), *final(state), sender),
{
    if policy == RegistrationPolicy::Reject && query_player_exists(state, &sender) {
        return Err(ContractError::PlayerAlreadyExists);
    }
    let player = Player {
        name,
        address: sender.clone(),
        id: state.curr_id,
        balance: 0,
        prev_correct_guesses: 0,
        prev_wrong_guesses: 0,
        rem_games_set: 0,
        guesses_rem: 0,
        games_won_in_set: 0,
        time_renewed: None,
        game_ongoing: false,
        set_words: None,
    };
    state.curr_id = state.curr_id + 1;
    let ghost before = state.registered();
    let mut players: Vec<String> = match state.players.take() {
        None => Vec::new(),
        Some(v) => v,
    };
    assert(players@ == before);
    players.push(sender);
    state.players = Some(players);
    Ok(player)
}

/// Starts a fresh set for the player on `game_words` at time `now`, and
/// counts one more session in the ledger.
pub fn start_game(player: &mut Player, state: &mut State, game_words: Vec<String>, now: u64)
    requires
        old(state).games_played < u64::MAX,
    ensures
        *final(player) == started(*old(player), game_words, now),
        *final(state) == game_counted(*old(state)),
{
    player.game_ongoing = true;
    player.rem_games_set = ROUNDS_PER_SET;
    player.guesses_rem = GUESSES_PER_SET;
    player.games_won_in_set = 0;
    player.time_renewed = Some(now);
    player.set_words = Some(game_words);
    state.games_played = state.games_played + 1;
}

/// Applies the reported progress of the current set: rounds and guesses are
/// spent, wins and lifetime guess counts are added. Fails with
/// `BudgetExceeded`, changing nothing, when a counter would leave its range.
pub fn update_game(
    player: &mut Player,
    game: u64,
    guess: u64,
    game_won: u64,
    correct_guess: u64,
    wrong_guess: u64,
) -> (r: Result<(), ContractError>)
    ensures
        r is Ok <==> progress_fits(*old(player), game, guess, game_won, correct_guess, wrong_guess),
        r is Ok ==> r == Ok::<(), ContractError>(()),
        r is Ok ==> *final(player) == progressed(
            *old(player),
            game,
            guess,
            game_won,
            correct_guess,
            wrong_guess,
        ),
        r is Err ==> r == Err::<(), ContractError>(ContractError::BudgetExceeded)
            && *final(player) == *old(player),
{
    if guess > player.guesses_rem || game > player.rem_games_set
        || game_won > ROUNDS_PER_SET || player.games_won_in_set > ROUNDS_PER_SET - game_won
        || correct_guess > u64::MAX - player.prev_correct_guesses
        || wrong_guess > u64::MAX - player.prev_wrong_guesses {
        return Err(ContractError::BudgetExceeded);
    }
    player.guesses_rem = player.guesses_rem - guess;
    player.rem_games_set = player.rem_games_set - game;
    player.games_won_in_set = player.games_won_in_set + game_won;
    player.prev_correct_guesses = player.prev_correct_guesses + correct_guess;
    player.prev_wrong_guesses = player.prev_wrong_guesses + wrong_guess;
    Ok(())
}

/// Abandons the current set, if any: no reward, every set counter back to
/// zero. Always succeeds.
pub fn end_game(player: &mut Player)
    ensures
        *final(player) == abandoned(*old(player)),
{
    player.game_ongoing = false;
    player.rem_games_set = 0;
    player.guesses_rem = 0;
    player.games_won_in_set = 0;
    player.time_renewed = None;
    player.set_words = None;
}

/// Claims the reward for a cleared set: all five rounds played and won with
/// more than four guesses used. The reward, `25 / (used - 4)`, is minted in
/// the ledger within its cap and credited to the player, whose session then
/// ends. On failure nothing changes.
pub fn reward_player(player: &mut Player, state: &mut State) -> (r: Result<u64, ContractError>)
    requires
        old(player).wf(),
        old(state).wf(),
        old(player).balance <= old(state).minted_tokens,
    ensures
        r == claim_outcome(*old(player), *old(state)),
        r is Ok ==> *final(player) == rewarded(*old(player), r->Ok_0)
            && *final(state) == minted(*old(state), r->Ok_0),
        r is Err ==> *final(player) == *old(player) && *final(state) == *old(state),
        final(state).wf(),
        final(player).balance <= final(state).minted_tokens,
{
    let games_played = ROUNDS_PER_SET - player.rem_games_set;
    if games_played != ROUNDS_PER_SET {
        return Err(ContractError::AllGamesNotPlayed(games_played));
    }
    let won_games_in_set = player.games_won_in_set;
    if won_games_in_set != ROUNDS_PER_SET {
        return Err(ContractError::AllGamesNotWon(won_games_in_set));
    }
    let used_guesses = GUESSES_PER_SET - player.guesses_rem;
    if used_guesses <= MIN_GUESSES {
        return Err(ContractError::MinGuessNotCrossed(used_guesses));
    }
    let reward = REWARD_BASE / (used_guesses - MIN_GUESSES);
    if reward > state.max_cap - state.minted_tokens {
        return Err(ContractError::MaxCapReached);
    }
    state.minted_tokens = state.minted_tokens + reward;
    player.balance = player.balance + reward;
    end_game(player);
    Ok(reward)
}

/// The secret word at 1-based position `pos` of the player's session.
pub fn query_player_word(player: &Player, pos: u64) -> (r: Result<String, ContractError>)
    ensures
        r == word_outcome(*player, pos),
{
    match &player.set_words {
        None => Err(ContractError::NoActiveSession),
        Some(words) => {
            if pos < 1 || pos > ROUNDS_PER_SET || pos > words.len() as u64 {
                return Err(ContractError::IndexOutOfRange);
            }
            Ok(words[(pos - 1) as usize].clone())
        },
    }
}

/// Compares `guessed` with `target` position by position. A right character
/// at another position earns nothing. Fails with `IndexOutOfRange` when the
/// guess is shorter than the target.
pub fn check_guess(target: &str, guessed: &str) -> (r: Result<Vec<bool>, ContractError>)
    ensures
        r is Err <==> guessed@.len() < target@.len(),
        r is Err ==> r == Err::<Vec<bool>, ContractError>(ContractError::IndexOutOfRange),
        r is Ok ==> r->Ok_0@ == positional_matches(target@, guessed@),
{
    let n = target.unicode_len();
    if guessed.unicode_len() < n {
        return Err(ContractError::IndexOutOfRange);
    }
    let mut matches: Vec<bool> = Vec::new();
    let mut i: usize = 0;
    while i < n
        invariant
            n == target@.len(),
            n <= guessed@.len(),
            i <= n,
            matches@ == positional_matches(target@, guessed@).subrange(0, i as int),
        decreases n - i,
    {
        let same = target.get_char(i) == guessed.get_char(i);
        matches.push(same);
        i = i + 1;
    }
    assert(matches@ == positional_matches(target@, guessed@));
    Ok(matches)
}

/// Compares `guessed` with the secret word at 1-based position `pos` of the
/// player's session, position by position.
pub fn query_correct_guess(player: &Player, guessed: &String, pos: u64) -> (r: Result<
    Vec<bool>,
    ContractError,
>)
    ensures
        word_outcome(*player, pos) is Err ==> r == Err::<Vec<bool>, ContractError>(
            word_outcome(*player, pos)->Err_0,
        ),
        word_outcome(*player, pos) is Ok ==> {
            let target = word_outcome(*player, pos)->Ok_0@;
            if guessed@.len() < target.len() {
                r == Err::<Vec<bool>, ContractError>(ContractError::IndexOutOfRange)
            } else {
                r is Ok && r->Ok_0@ == positional_matches(target, guessed@)
            }
        },
{
    let word = query_player_word(player, pos)?;
    check_guess(word.as_str(), guessed.as_str())
}

} // verus!
