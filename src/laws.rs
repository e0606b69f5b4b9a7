use vstd::prelude::*;

use crate::contract::{claim_outcome, reward_for, MIN_GUESSES};
use crate::error::ContractError;
use crate::registry::{abandon_outcome, claim_result, register_outcome, start_outcome, Registry};
use crate::state::{abandoned, started, Player, State, GUESSES_PER_SET, ROUNDS_PER_SET};

verus! {

/// A claim on a game whose supply is within its cap leaves the supply
/// within its cap, whether it succeeds or fails.
pub proof fn lemma_claim_within_cap(
    before: Registry,
    after: Registry,
    addr: Seq<char>,
    r: Result<u64, ContractError>,
)
    requires
        before.wf(),
        claim_result(before, after, addr, r),
    ensures
        after.ledger().minted_tokens <= after.ledger().max_cap,
{
}

/// A successful registration hands out the ledger's next id and advances
/// it by exactly one.
pub proof fn lemma_registration_advances_id(
    before: Registry,
    after: Registry,
    sender: String,
    name: String,
    r: Result<u64, ContractError>,
)
    requires
        register_outcome(before, after, sender, name, r),
        r is Ok,
    ensures
        r->Ok_0 == before.ledger().curr_id,
        after.ledger().curr_id == before.ledger().curr_id + 1,
{
}

/// In a well-formed game, the records of two distinct identities carry
/// distinct ids, both below the next id to be handed out.
pub proof fn lemma_ids_distinct(g: Registry, a: Seq<char>, b: Seq<char>)
    requires
        g.wf(),
        g.lookup_spec(a) is Some,
        g.lookup_spec(b) is Some,
        a != b,
    ensures
        g.lookup_spec(a)->Some_0.id != g.lookup_spec(b)->Some_0.id,
        g.lookup_spec(a)->Some_0.id < g.ledger().curr_id,
        g.lookup_spec(b)->Some_0.id < g.ledger().curr_id,
{
    let ps = g.records();
    let i = choose|i: int| 0 <= i < ps.len() && (#[trigger] ps[i]).address@ == a;
    let j = choose|j: int| 0 <= j < ps.len() && (#[trigger] ps[j]).address@ == b;
    assert(i != j);
}

/// A fresh set starts with eighteen guesses, five rounds and no wins.
pub proof fn lemma_start_resets_counters(p: Player, words: Vec<String>, now: u64)
    ensures
        started(p, words, now).guesses_rem == GUESSES_PER_SET,
        started(p, words, now).rem_games_set == ROUNDS_PER_SET,
        started(p, words, now).games_won_in_set == 0,
        started(p, words, now).game_ongoing,
{
}

/// Abandoning a set and then starting one gives the same record as
/// starting it directly.
pub proof fn lemma_abandon_then_start(p: Player, words: Vec<String>, now: u64)
    ensures
        started(abandoned(p), words, now) == started(p, words, now),
{
}

/// On a game, `abandon` followed by `start` leaves the same ledger and the
/// same records as a single `start` from the first state.
pub proof fn lemma_abandon_then_start_game(
    g0: Registry,
    g1: Registry,
    g2: Registry,
    g3: Registry,
    addr: Seq<char>,
    words: Vec<String>,
    now: u64,
    r1: Result<(), ContractError>,
    r2: Result<(), ContractError>,
    r3: Result<(), ContractError>,
)
    requires
        abandon_outcome(g0, g1, addr, r1),
        start_outcome(g1, g2, addr, words, now, r2),
        start_outcome(g0, g3, addr, words, now, r3),
    ensures
        r2 == r3,
        g2.ledger() == g3.ledger(),
        forall|a: Seq<char>| g2.lookup_spec(a) == g3.lookup_spec(a),
{
    if let Some(p) = g0.lookup_spec(addr) {
        lemma_abandon_then_start(p, words, now);
    }
}

/// Registering and then looking up the identity finds a record with the
/// given name, identity and the id handed out, and every counter zero.
pub proof fn lemma_register_then_lookup(
    before: Registry,
    after: Registry,
    sender: String,
    name: String,
    r: Result<u64, ContractError>,
)
    requires
        register_outcome(before, after, sender, name, r),
        r is Ok,
    ensures
        after.lookup_spec(sender@) is Some,
        ({
            let p = after.lookup_spec(sender@)->Some_0;
            &&& p.id == r->Ok_0
            &&& p.name == name
            &&& p.address == sender
            &&& p.balance == 0
            &&& p.prev_correct_guesses == 0
            &&& p.prev_wrong_guesses == 0
            &&& p.rem_games_set == 0
            &&& p.guesses_rem == 0
            &&& p.games_won_in_set == 0
            &&& !p.game_ongoing
            &&& p.time_renewed is None
            &&& p.set_words is None
        }),
{
}

/// A claim succeeds only when every round of the set was played and won
/// with more than four guesses used, and then pays `25 / (used - 4)`.
pub proof fn lemma_claim_gates(p: Player, s: State)
    requires
        p.wf(),
    ensures
        claim_outcome(p, s) is Ok ==> {
            &&& p.rem_games_set == 0
            &&& p.games_won_in_set == ROUNDS_PER_SET
            &&& GUESSES_PER_SET - p.guesses_rem > MIN_GUESSES
            &&& claim_outcome(p, s)->Ok_0 == reward_for(GUESSES_PER_SET - p.guesses_rem)
        },
        p.rem_games_set == 0 && p.games_won_in_set == ROUNDS_PER_SET && p.guesses_rem
            == GUESSES_PER_SET - MIN_GUESSES ==> claim_outcome(p, s) == Err::<
            u64,
            ContractError,
        >(ContractError::MinGuessNotCrossed(MIN_GUESSES)),
{
}

} // verus!
