use vstd::prelude::*;

use crate::contract::{
    after_registration, claim_outcome, create_player, end_game, game_counted, minted,
    positional_matches, progress_fits, progressed, query_correct_guess, query_player_exists,
    query_player_word, reward_player, rewarded, start_game, update_game, word_outcome,
    RegistrationPolicy,
};
use crate::error::ContractError;
use crate::msg::{ExecuteMsg, InstantiateMsg, QueryMsg};
use crate::state::{abandoned, initial_state, new_player, started, Player, State};

verus! {

/// Whether some record in `ps` belongs to the identity `addr`.
pub open spec fn holds_record(ps: Seq<Player>, addr: Seq<char>) -> bool {
    exists|i: int| 0 <= i < ps.len() && (#[trigger] ps[i]).address@ == addr
}

/// The record of the identity `addr` in `ps`, if there is one.
pub open spec fn record_of(ps: Seq<Player>, addr: Seq<char>) -> Option<Player> {
    if holds_record(ps, addr) {
        Some(ps[choose|i: int| 0 <= i < ps.len() && (#[trigger] ps[i]).address@ == addr])
    } else {
        None
    }
}

/// No two records share an identity.
pub open spec fn identities_unique(ps: Seq<Player>) -> bool {
    forall|i: int, j: int|
        0 <= i < ps.len() && 0 <= j < ps.len() && i != j ==> (#[trigger] ps[i]).address@ != (
        #[trigger] ps[j]).address@
}

/// No two records share an id.
pub open spec fn ids_unique(ps: Seq<Player>) -> bool {
    forall|i: int, j: int|
        0 <= i < ps.len() && 0 <= j < ps.len() && i != j ==> (#[trigger] ps[i]).id != (
        #[trigger] ps[j]).id
}

/// The invariant of a ledger and its player records: the supply is within
/// its cap; every record is well formed, was registered in the ledger, has
/// an id below the next one to be given out and a balance within the
/// supply; identities and ids are unique.
pub open spec fn records_wf(s: State, ps: Seq<Player>) -> bool {
    &&& s.wf()
    &&& forall|i: int| 0 <= i < ps.len() ==> (#[trigger] ps[i]).wf()
    &&& forall|i: int| 0 <= i < ps.len() ==> (#[trigger] ps[i]).id < s.curr_id
    &&& forall|i: int| 0 <= i < ps.len() ==> (#[trigger] ps[i]).balance <= s.minted_tokens
    &&& forall|i: int| 0 <= i < ps.len() ==> s.is_registered((#[trigger] ps[i]).address@)
    &&& identities_unique(ps)
    &&& ids_unique(ps)
}

/// The record at index `i` is what a lookup of its identity finds.
proof fn lemma_record_at(ps: Seq<Player>, i: int)
    requires
        identities_unique(ps),
        0 <= i < ps.len(),
    ensures
        record_of(ps, ps[i].address@) == Some(ps[i]),
{
    let a = ps[i].address@;
    assert(holds_record(ps, a));
    let j = choose|j: int| 0 <= j < ps.len() && (#[trigger] ps[j]).address@ == a;
    assert(j == i);
}

/// Replacing a record by one of the same identity changes the lookup of
/// that identity only.
proof fn lemma_replace(ps: Seq<Player>, i: int, p: Player)
    requires
        identities_unique(ps),
        0 <= i < ps.len(),
        p.address@ == ps[i].address@,
    ensures
        identities_unique(ps.update(i, p)),
        record_of(ps.update(i, p), p.address@) == Some(p),
        forall|a: Seq<char>| a != p.address@ ==> record_of(ps.update(i, p), a) == record_of(ps, a),
{
    let qs = ps.update(i, p);
    assert forall|k: int, l: int|
        0 <= k < qs.len() && 0 <= l < qs.len() && k != l implies (#[trigger] qs[k]).address@ != (
        #[trigger] qs[l]).address@ by {
        assert(qs[k].address@ == ps[k].address@);
        assert(qs[l].address@ == ps[l].address@);
    }
    lemma_record_at(qs, i);
    assert forall|a: Seq<char>| a != p.address@ implies record_of(qs, a) == record_of(ps, a) by {
        if holds_record(ps, a) {
            let k = choose|k: int| 0 <= k < ps.len() && (#[trigger] ps[k]).address@ == a;
            assert(k != i);
            assert(qs[k] == ps[k]);
            lemma_record_at(ps, k);
            lemma_record_at(qs, k);
        } else {
            assert forall|k: int| 0 <= k < qs.len() implies (#[trigger] qs[k]).address@ != a by {
                if k != i {
                    assert(qs[k] == ps[k]);
                }
            }
        }
    }
}

/// Appending the record of a new identity changes the lookup of that
/// identity only.
proof fn lemma_push(ps: Seq<Player>, p: Player)
    requires
        identities_unique(ps),
        !holds_record(ps, p.address@),
    ensures
        identities_unique(ps.push(p)),
        record_of(ps.push(p), p.address@) == Some(p),
        forall|a: Seq<char>| a != p.address@ ==> record_of(ps.push(p), a) == record_of(ps, a),
{
    let qs = ps.push(p);
    let n = ps.len() as int;
    assert forall|k: int, l: int|
        0 <= k < qs.len() && 0 <= l < qs.len() && k != l implies (#[trigger] qs[k]).address@ != (
        #[trigger] qs[l]).address@ by {
        if k < n && l < n {
            assert(qs[k] == ps[k] && qs[l] == ps[l]);
        } else if k < n {
            assert(qs[k] == ps[k]);
        } else {
            assert(qs[l] == ps[l]);
        }
    }
    assert(qs[n] == p);
    lemma_record_at(qs, n);
    assert forall|a: Seq<char>| a != p.address@ implies record_of(qs, a) == record_of(ps, a) by {
        if holds_record(ps, a) {
            let k = choose|k: int| 0 <= k < ps.len() && (#[trigger] ps[k]).address@ == a;
            assert(qs[k] == ps[k]);
            lemma_record_at(ps, k);
            lemma_record_at(qs, k);
        } else {
            assert forall|k: int| 0 <= k < qs.len() implies (#[trigger] qs[k]).address@ != a by {
                if k < n {
                    assert(qs[k] == ps[k]);
                }
            }
        }
    }
}

/// An identity registered before a registration is still registered after
/// it, and the newcomer is registered too.
proof fn lemma_registered_grows(before: State, after: State, addr: String)
    requires
        after.registered() == before.registered().push(addr),
    ensures
        after.is_registered(addr@),
        forall|a: Seq<char>| before.is_registered(a) ==> after.is_registered(a),
{
    let n = before.registered().len() as int;
    assert(after.registered()[n] == addr);
    assert forall|a: Seq<char>| before.is_registered(a) implies after.is_registered(a) by {
        let k = choose|k: int|
            0 <= k < before.registered().len() && (#[trigger] before.registered()[k])@ == a;
        assert(after.registered()[k] == before.registered()[k]);
    }
}

/// Replacing one record by a well-formed one of the same identity and id,
/// while the ledger keeps its registrations and ids and does not shrink its
/// supply, keeps the invariant.
proof fn lemma_update_keeps_wf(s0: State, s1: State, ps: Seq<Player>, i: int, q: Player)
    requires
        records_wf(s0, ps),
        0 <= i < ps.len(),
        s1.wf(),
        s1.curr_id == s0.curr_id,
        s1.registered() == s0.registered(),
        s0.minted_tokens <= s1.minted_tokens,
        q.address@ == ps[i].address@,
        q.id == ps[i].id,
        q.wf(),
        q.balance <= s1.minted_tokens,
    ensures
        records_wf(s1, ps.update(i, q)),
{
    let qs = ps.update(i, q);
    lemma_replace(ps, i, q);
    assert forall|k: int| 0 <= k < qs.len() implies (#[trigger] qs[k]).wf() && qs[k].id
        < s1.curr_id && qs[k].balance <= s1.minted_tokens && s1.is_registered(qs[k].address@) by {
        if k != i {
            assert(qs[k] == ps[k]);
        }
        assert(s0.is_registered(ps[k].address@));
    }
    assert forall|k: int, l: int|
        0 <= k < qs.len() && 0 <= l < qs.len() && k != l implies (#[trigger] qs[k]).id != (
        #[trigger] qs[l]).id by {
        assert(qs[k].id == ps[k].id);
        assert(qs[l].id == ps[l].id);
    }
}

/// What `register` does: the identity gets the next id and a fresh record,
/// and is appended to the ledger; under `Reject` an identity already
/// registered is refused and nothing changes.
pub open spec fn register_outcome(
    before: Registry,
    after: Registry,
    sender: String,
    name: String,
    r: Result<u64, ContractError>,
) -> bool {
    &&& after.same_except(&before, sender@)
    &&& (r is Err <==> (before.policy_spec() == RegistrationPolicy::Reject
        && before.ledger().is_registered(sender@)))
    &&& match r {
        Ok(id) => id == before.ledger().curr_id && after.lookup_spec(sender@) == Some(
            new_player(name, sender, id),
        ) && after_registration(before.ledger(), after.ledger(), sender),
        Err(e) => e == ContractError::PlayerAlreadyExists && after.ledger() == before.ledger()
            && after.records() == before.records(),
    }
}

/// What `start` does: a registered player gets a fresh set and the ledger
/// counts one more session; an unknown identity is refused.
pub open spec fn start_outcome(
    before: Registry,
    after: Registry,
    addr: Seq<char>,
    words: Vec<String>,
    now: u64,
    r: Result<(), ContractError>,
) -> bool {
    &&& after.same_except(&before, addr)
    &&& match before.lookup_spec(addr) {
        None => r == Err::<(), ContractError>(ContractError::PlayerNotFound) && after.ledger()
            == before.ledger() && after.records() == before.records(),
        Some(p) => r == Ok::<(), ContractError>(()) && after.lookup_spec(addr) == Some(started(p, words, now))
            && after.ledger() == game_counted(before.ledger()),
    }
}

/// What `apply_progress` does: the reported progress is applied when every
/// counter stays in range, else `BudgetExceeded`; an unknown identity is
/// refused. The ledger does not change.
pub open spec fn progress_outcome(
    before: Registry,
    after: Registry,
    addr: Seq<char>,
    game: u64,
    guess: u64,
    game_won: u64,
    correct_guess: u64,
    wrong_guess: u64,
    r: Result<(), ContractError>,
) -> bool {
    &&& after.same_except(&before, addr)
    &&& after.ledger() == before.ledger()
    &&& match before.lookup_spec(addr) {
        None => r == Err::<(), ContractError>(ContractError::PlayerNotFound) && after.records()
            == before.records(),
        Some(p) => if progress_fits(p, game, guess, game_won, correct_guess, wrong_guess) {
            r == Ok::<(), ContractError>(()) && after.lookup_spec(addr) == Some(
                progressed(p, game, guess, game_won, correct_guess, wrong_guess),
            )
        } else {
            r == Err::<(), ContractError>(ContractError::BudgetExceeded) && after.records()
                == before.records()
        },
    }
}

/// What `abandon` does: the player's session is reset, with no reward; an
/// unknown identity is refused. The ledger does not change.
pub open spec fn abandon_outcome(
    before: Registry,
    after: Registry,
    addr: Seq<char>,
    r: Result<(), ContractError>,
) -> bool {
    &&& after.same_except(&before, addr)
    &&& after.ledger() == before.ledger()
    &&& match before.lookup_spec(addr) {
        None => r == Err::<(), ContractError>(ContractError::PlayerNotFound) && after.records()
            == before.records(),
        Some(p) => r == Ok::<(), ContractError>(()) && after.lookup_spec(addr) == Some(abandoned(p)),
    }
}

/// What `claim` does: the outcome of the eligibility gates and the cap;
/// on success the reward is minted, credited, and the session ends; on
/// failure nothing changes.
pub open spec fn claim_result(
    before: Registry,
    after: Registry,
    addr: Seq<char>,
    r: Result<u64, ContractError>,
) -> bool {
    &&& after.same_except(&before, addr)
    &&& match before.lookup_spec(addr) {
        None => r == Err::<u64, ContractError>(ContractError::PlayerNotFound),
        Some(p) => r == claim_outcome(p, before.ledger()),
    }
    &&& match r {
        Ok(reward) => after.lookup_spec(addr) == Some(rewarded(before.lookup_spec(addr)->Some_0, reward))
            && after.ledger() == minted(before.ledger(), reward),
        Err(_) => after.ledger() == before.ledger() && after.records() == before.records(),
    }
}

/// The answer to a query.
pub enum QueryAnswer<'a> {
    /// The record of the identity asked about, if it registered.
    Player(Option<&'a Player>),
    /// Whether the identity is registered in the ledger.
    Exists(bool),
    /// A secret word of the player's session.
    Word(String),
    /// For each position of a secret word, whether the guess matches there.
    Matches(Vec<bool>),
}

/// The game: the ledger together with the record of every registered
/// player, each operation applied as a whole or not at all.
pub struct Registry {
    state: State,
    players: Vec<Player>,
    policy: RegistrationPolicy,
}

impl Registry {
    /// The ledger.
    pub closed spec fn ledger(&self) -> State {
        self.state
    }

    /// The player records.
    pub closed spec fn records(&self) -> Seq<Player> {
        self.players@
    }

    /// How a second registration of an identity is handled.
    pub closed spec fn policy_spec(&self) -> RegistrationPolicy {
        self.policy
    }

    /// The invariant of the ledger and its records.
    pub open spec fn wf(&self) -> bool {
        records_wf(self.ledger(), self.records())
    }

    /// The record of an identity, if it registered.
    pub open spec fn lookup_spec(&self, addr: Seq<char>) -> Option<Player> {
        record_of(self.records(), addr)
    }

    /// Whether the two games differ at most in the record of `addr`.
    pub open spec fn same_except(&self, other: &Registry, addr: Seq<char>) -> bool {
        &&& self.policy_spec() == other.policy_spec()
        &&& forall|a: Seq<char>| a != addr ==> self.lookup_spec(a) == other.lookup_spec(a)
    }

    /// A new game created by `creator` with the denom and cap of `msg`,
    /// handling re-registration by `policy`.
    pub fn new(creator: String, msg: InstantiateMsg, policy: RegistrationPolicy) -> (r: Registry)
        ensures
            r.wf(),
            r.ledger() == initial_state(creator, msg.denom, msg.max_cap),
            r.records() == Seq::<Player>::empty(),
            r.policy_spec() == policy,
    {
        let state = crate::contract::instantiate(creator, msg);
        Registry { state, players: Vec::new(), policy }
    }

    /// The ledger.
    pub fn state(&self) -> (r: &State)
        ensures
            *r == self.ledger(),
    {
        &self.state
    }

    /// How a second registration of an identity is handled.
    pub fn policy(&self) -> (r: RegistrationPolicy)
        ensures
            r == self.policy_spec(),
    {
        self.policy
    }

    /// The index of the record of `addr`.
    fn find(&self, addr: &String) -> (r: Option<usize>)
        ensures
            match r {
                Some(i) => i < self.records().len() && self.records()[i as int].address@ == addr@,
                None => !holds_record(self.records(), addr@),
            },
    {
        let mut i: usize = 0;
        while i < self.players.len()
            invariant
                i <= self.players@.len(),
                forall|k: int| 0 <= k < i ==> (#[trigger] self.players@[k]).address@ != addr@,
            decreases self.players.len() - i,
        {
            if self.players[i].address == *addr {
                return Some(i);
            }
            i = i + 1;
        }
        None
    }

    /// The record of `addr`, if it registered.
    pub fn lookup(&self, addr: &String) -> (r: Option<&Player>)
        requires
            self.wf(),
        ensures
            match r {
                Some(p) => self.lookup_spec(addr@) == Some(*p),
                None => self.lookup_spec(addr@) is None,
            },
    {
        match self.find(addr) {
            Some(i) => {
                proof {
                    lemma_record_at(self.records(), i as int);
                }
                Some(&self.players[i])
            },
            None => None,
        }
    }

    /// Whether `addr` appears among the identities registered in the ledger.
    pub fn is_registered(&self, addr: &String) -> (r: bool)
        ensures
            r == self.ledger().is_registered(addr@),
    {
        query_player_exists(&self.state, addr)
    }

    /// Registers `sender` under `name` and returns the id it was given.
    /// Under `Reject` an identity already registered is refused; under
    /// `Overwrite` its record is replaced by a fresh one.
    pub fn register(&mut self, sender: String, name: String) -> (r: Result<u64, ContractError>)
        requires
            old(self).wf(),
            old(self).ledger().curr_id < u64::MAX,
        ensures
            final(self).wf(),
            register_outcome(*old(self), *final(self), sender, name, r),
    {
        let addr = sender.clone();
        let ghost s0 = self.state;
        let ghost ps = self.players@;
        let found = self.find(&addr);
        match create_player(&mut self.state, sender, name, self.policy) {
            Err(e) => Err(e),
            Ok(player) => {
                let id = player.id;
                let ghost p = player;
                proof {
                    lemma_registered_grows(s0, self.state, addr);
                }
                match found {
                    Some(i) => {
                        self.players.set(i, player);
                        proof {
                            lemma_replace(ps, i as int, p);
                        }
                    },
                    None => {
                        self.players.push(player);
                        proof {
                            lemma_push(ps, p);
                        }
                    },
                }
                let ghost qs = self.players@;
                assert forall|k: int| 0 <= k < qs.len() implies (#[trigger] qs[k]).id
                    < self.state.curr_id && qs[k].wf() && qs[k].balance <= self.state.minted_tokens
                    && self.state.is_registered(qs[k].address@) by {
                    if qs[k] != p {
                        assert(exists|j: int| 0 <= j < ps.len() && ps[j] == qs[k]);
                    }
                }
                assert forall|k: int, l: int|
                    0 <= k < qs.len() && 0 <= l < qs.len() && k != l implies (#[trigger] qs[k]).id
                    != (#[trigger] qs[l]).id by {
                    if qs[k] != p {
                        assert(exists|j: int| 0 <= j < ps.len() && ps[j] == qs[k]);
                    }
                    if qs[l] != p {
                        assert(exists|j: int| 0 <= j < ps.len() && ps[j] == qs[l]);
                    }
                    if qs[k] == p && qs[l] == p {
                        assert(qs[k].address@ == qs[l].address@);
                    }
                }
                Ok(id)
            },
        }
    }

    /// Starts a fresh set of five rounds and eighteen guesses for `sender`
    /// on `game_words`, at time `now`.
    pub fn start(&mut self, sender: &String, game_words: Vec<String>, now: u64) -> (r: Result<
        (),
        ContractError,
    >)
        requires
            old(self).wf(),
            old(self).ledger().games_played < u64::MAX,
        ensures
            final(self).wf(),
            start_outcome(*old(self), *final(self), sender@, game_words, now, r),
    {
        let ghost ps = self.players@;
        let ghost s0 = self.state;
        match self.find(sender) {
            None => Err(ContractError::PlayerNotFound),
            Some(i) => {
                proof {
                    lemma_record_at(ps, i as int);
                }
                start_game(&mut self.players[i], &mut self.state, game_words, now);
                proof {
                    lemma_replace(ps, i as int, self.players@[i as int]);
                    lemma_update_keeps_wf(s0, self.state, ps, i as int, self.players@[i as int]);
                }
                Ok(())
            },
        }
    }

    /// Applies the progress that `sender` reports for the current set.
    pub fn apply_progress(
        &mut self,
        sender: &String,
        game: u64,
        guess: u64,
        game_won: u64,
        correct_guess: u64,
        wrong_guess: u64,
    ) -> (r: Result<(), ContractError>)
        requires
            old(self).wf(),
        ensures
            final(self).wf(),
            progress_outcome(
                *old(self),
                *final(self),
                sender@,
                game,
                guess,
                game_won,
                correct_guess,
                wrong_guess,
                r,
            ),
    {
        let ghost ps = self.players@;
        let ghost s0 = self.state;
        match self.find(sender) {
            None => Err(ContractError::PlayerNotFound),
            Some(i) => {
                proof {
                    lemma_record_at(ps, i as int);
                }
                let r = update_game(
                    &mut self.players[i],
                    game,
                    guess,
                    game_won,
                    correct_guess,
                    wrong_guess,
                );
                proof {
                    if r is Ok {
                        lemma_replace(ps, i as int, self.players@[i as int]);
                        lemma_update_keeps_wf(s0, self.state, ps, i as int, self.players@[i as int]);
                    } else {
                        assert(self.players@ == ps);
                    }
                }
                r
            },
        }
    }

    /// Abandons the current set of `sender`, if any, without a reward.
    pub fn abandon(&mut self, sender: &String) -> (r: Result<(), ContractError>)
        requires
            old(self).wf(),
        ensures
            final(self).wf(),
            abandon_outcome(*old(self), *final(self), sender@, r),
    {
        let ghost ps = self.players@;
        let ghost s0 = self.state;
        match self.find(sender) {
            None => Err(ContractError::PlayerNotFound),
            Some(i) => {
                proof {
                    lemma_record_at(ps, i as int);
                }
                end_game(&mut self.players[i]);
                proof {
                    lemma_replace(ps, i as int, self.players@[i as int]);
                    lemma_update_keeps_wf(s0, self.state, ps, i as int, self.players@[i as int]);
                }
                Ok(())
            },
        }
    }

    /// Claims the reward of the set that `sender` cleared, and returns it.
    pub fn claim(&mut self, sender: &String) -> (r: Result<u64, ContractError>)
        requires
            old(self).wf(),
        ensures
            final(self).wf(),
            claim_result(*old(self), *final(self), sender@, r),
    {
        let ghost ps = self.players@;
        let ghost s0 = self.state;
        match self.find(sender) {
            None => Err(ContractError::PlayerNotFound),
            Some(i) => {
                proof {
                    lemma_record_at(ps, i as int);
                }
                let r = reward_player(&mut self.players[i], &mut self.state);
                proof {
                    if r is Ok {
                        lemma_replace(ps, i as int, self.players@[i as int]);
                        lemma_update_keeps_wf(s0, self.state, ps, i as int, self.players@[i as int]);
                    } else {
                        assert(self.players@ == ps);
                    }
                }
                r
            },
        }
    }

    /// Performs one operation for `sender` at time `now`.
    pub fn execute(&mut self, sender: String, now: u64, msg: ExecuteMsg) -> (r: Result<
        (),
        ContractError,
    >)
        requires
            old(self).wf(),
            old(self).ledger().curr_id < u64::MAX,
            old(self).ledger().games_played < u64::MAX,
        ensures
            final(self).wf(),
            match msg {
                ExecuteMsg::CreatePlayer { name } => register_outcome(
                    *old(self),
                    *final(self),
                    sender,
                    name,
                    match r {
                        Ok(_) => Ok(old(self).ledger().curr_id),
                        Err(e) => Err(e),
                    },
                ),
                ExecuteMsg::StartGame { game_words } => start_outcome(
                    *old(self),
                    *final(self),
                    sender@,
                    game_words,
                    now,
                    r,
                ),
                ExecuteMsg::EndGame {  } => abandon_outcome(*old(self), *final(self), sender@, r),
                ExecuteMsg::UpdateGame { game, guess, game_won, correct_guess, wrong_guess } =>
                progress_outcome(
                    *old(self),
                    *final(self),
                    sender@,
                    game,
                    guess,
                    game_won,
                    correct_guess,
                    wrong_guess,
                    r,
                ),
                ExecuteMsg::RewardPlayer {  } => exists|res: Result<u64, ContractError>|
                    claim_result(*old(self), *final(self), sender@, res) && match res {
                        Ok(_) => r is Ok,
                        Err(e) => r == Err::<(), ContractError>(e),
                    },
            },
    {
        match msg {
            ExecuteMsg::CreatePlayer { name } => match self.register(sender, name) {
                Ok(_) => Ok(()),
                Err(e) => Err(e),
            },
            ExecuteMsg::StartGame { game_words } => self.start(&sender, game_words, now),
            ExecuteMsg::EndGame {  } => self.abandon(&sender),
            ExecuteMsg::UpdateGame { game, guess, game_won, correct_guess, wrong_guess } =>
            self.apply_progress(&sender, game, guess, game_won, correct_guess, wrong_guess),
            ExecuteMsg::RewardPlayer {  } => match self.claim(&sender) {
                Ok(_) => Ok(()),
                Err(e) => Err(e),
            },
        }
    }

    /// Answers one read-only request.
    pub fn query(&self, msg: QueryMsg) -> (r: Result<QueryAnswer<'_>, ContractError>)
        requires
            self.wf(),
        ensures
            match msg {
                QueryMsg::QueryPlayer { addr } => match r {
                    Ok(QueryAnswer::Player(Some(p))) => self.lookup_spec(addr@) == Some(*p),
                    Ok(QueryAnswer::Player(None)) => self.lookup_spec(addr@) is None,
                    _ => false,
                },
                QueryMsg::QueryPlayerExists { addr } => match r {
                    Ok(QueryAnswer::Exists(b)) => b == self.ledger().is_registered(addr@),
                    _ => false,
                },
                QueryMsg::QueryPlayerWord { addr, pos } => match self.lookup_spec(addr@) {
                    None => r matches Err(ContractError::PlayerNotFound),
                    Some(p) => match word_outcome(p, pos) {
                        Ok(w) => match r {
                            Ok(QueryAnswer::Word(x)) => x == w,
                            _ => false,
                        },
                        Err(e) => r matches Err(x) && x == e,
                    },
                },
                QueryMsg::QueryCorrectGuess { addr, guessed, pos } => match self.lookup_spec(
                    addr@,
                ) {
                    None => r matches Err(ContractError::PlayerNotFound),
                    Some(p) => match word_outcome(p, pos) {
                        Err(e) => r matches Err(x) && x == e,
                        Ok(w) => if guessed@.len() < w@.len() {
                            r matches Err(ContractError::IndexOutOfRange)
                        } else {
                            match r {
                                Ok(QueryAnswer::Matches(v)) => v@ == positional_matches(
                                    w@,
                                    guessed@,
                                ),
                                _ => false,
                            }
                        },
                    },
                },
            },
    {
        match msg {
            QueryMsg::QueryPlayer { addr } => Ok(QueryAnswer::Player(self.lookup(&addr))),
            QueryMsg::QueryPlayerExists { addr } => Ok(QueryAnswer::Exists(self.is_registered(&addr))),
            QueryMsg::QueryPlayerWord { addr, pos } => match self.lookup(&addr) {
                None => Err(ContractError::PlayerNotFound),
                Some(p) => match query_player_word(p, pos) {
                    Ok(w) => Ok(QueryAnswer::Word(w)),
                    Err(e) => Err(e),
                },
            },
            QueryMsg::QueryCorrectGuess { addr, guessed, pos } => match self.lookup(&addr) {
                None => Err(ContractError::PlayerNotFound),
                Some(p) => match query_correct_guess(p, &guessed, pos) {
                    Ok(v) => Ok(QueryAnswer::Matches(v)),
                    Err(e) => Err(e),
                },
            },
        }
    }
}

} // verus!
