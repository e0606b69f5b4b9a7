use wordex::contract::{
    check_guess, create_player, end_game, instantiate, query_correct_guess, query_player_exists,
    query_player_word, reward_player, start_game, update_game, RegistrationPolicy,
};
use wordex::msg::{ExecuteMsg, InstantiateMsg, QueryMsg};
use wordex::registry::{QueryAnswer, Registry};
use wordex::state::{Player, State};
use wordex::ContractError;

const TEST_CREATOR: &str = "creator";
const TOKEN: &str = "wdx";

fn init_msg() -> InstantiateMsg {
    InstantiateMsg { denom: String::from(TOKEN), max_cap: 1000 }
}

fn words() -> Vec<String> {
    ["apple", "crane", "slate", "ghost", "pride"].iter().map(|w| w.to_string()).collect()
}

fn fresh(max_cap: u64) -> (State, Player) {
    let mut state = instantiate(
        String::from(TEST_CREATOR),
        InstantiateMsg { denom: String::from(TOKEN), max_cap },
    );
    let player = create_player(
        &mut state,
        String::from("alice"),
        String::from("Alice"),
        RegistrationPolicy::Reject,
    )
    .unwrap();
    (state, player)
}

/// A player who played and won all five rounds with `used` guesses.
fn cleared(max_cap: u64, used: u64) -> (State, Player) {
    let (mut state, mut player) = fresh(max_cap);
    start_game(&mut player, &mut state, words(), 7);
    update_game(&mut player, 5, used, 5, 5, used - 5).unwrap();
    (state, player)
}

#[test]
fn proper_initialization() {
    let msg = init_msg();
    let state = instantiate(String::from(TEST_CREATOR), msg);
    assert_eq!(
        state,
        State {
            creator: String::from(TEST_CREATOR),
            denom: String::from("wdx"),
            minted_tokens: 0,
            games_played: 0,
            max_cap: 1000,
            curr_id: 0,
            players: None,
        }
    );
}

#[test]
fn register_then_lookup_gives_fresh_record() {
    let mut game = Registry::new(String::from(TEST_CREATOR), init_msg(), RegistrationPolicy::Reject);
    let id = game.register(String::from("alice"), String::from("Alice")).unwrap();
    assert_eq!(id, 0);
    let p = game.lookup(&String::from("alice")).unwrap();
    assert_eq!(p.id, 0);
    assert_eq!(p.name, "Alice");
    assert_eq!(p.address, "alice");
    assert_eq!(p.balance, 0);
    assert_eq!(p.prev_correct_guesses, 0);
    assert_eq!(p.prev_wrong_guesses, 0);
    assert_eq!(p.rem_games_set, 0);
    assert_eq!(p.guesses_rem, 0);
    assert_eq!(p.games_won_in_set, 0);
    assert_eq!(p.time_renewed, None);
    assert!(!p.game_ongoing);
    assert_eq!(p.set_words, None);
    assert!(game.lookup(&String::from("bob")).is_none());
}

#[test]
fn ids_increase_by_one_per_registration() {
    let mut game = Registry::new(String::from(TEST_CREATOR), init_msg(), RegistrationPolicy::Reject);
    assert_eq!(game.register(String::from("a"), String::from("A")), Ok(0));
    assert_eq!(game.state().curr_id, 1);
    assert_eq!(game.register(String::from("b"), String::from("B")), Ok(1));
    assert_eq!(game.register(String::from("c"), String::from("C")), Ok(2));
    assert_eq!(game.state().curr_id, 3);
    let ids: Vec<u64> = ["a", "b", "c"]
        .iter()
        .map(|a| game.lookup(&a.to_string()).unwrap().id)
        .collect();
    assert_eq!(ids, vec![0, 1, 2]);
    assert_eq!(
        game.state().players,
        Some(vec![String::from("a"), String::from("b"), String::from("c")])
    );
}

#[test]
fn reject_policy_refuses_second_registration() {
    let mut game = Registry::new(String::from(TEST_CREATOR), init_msg(), RegistrationPolicy::Reject);
    game.register(String::from("a"), String::from("A")).unwrap();
    assert_eq!(
        game.register(String::from("a"), String::from("Again")),
        Err(ContractError::PlayerAlreadyExists)
    );
    assert_eq!(game.state().curr_id, 1);
    assert_eq!(game.lookup(&String::from("a")).unwrap().name, "A");
}

#[test]
fn overwrite_policy_replaces_record_with_new_id() {
    let mut game =
        Registry::new(String::from(TEST_CREATOR), init_msg(), RegistrationPolicy::Overwrite);
    game.register(String::from("a"), String::from("A")).unwrap();
    assert_eq!(game.register(String::from("a"), String::from("Again")), Ok(1));
    let p = game.lookup(&String::from("a")).unwrap();
    assert_eq!(p.id, 1);
    assert_eq!(p.name, "Again");
    assert_eq!(game.state().curr_id, 2);
    assert_eq!(game.state().players.as_ref().unwrap().len(), 2);
}

#[test]
fn exists_reads_the_ledger() {
    let (state, _) = fresh(1000);
    assert!(query_player_exists(&state, &String::from("alice")));
    assert!(!query_player_exists(&state, &String::from("bob")));
    let empty = instantiate(String::from(TEST_CREATOR), init_msg());
    assert!(!query_player_exists(&empty, &String::from("alice")));
}

#[test]
fn start_sets_fresh_counters() {
    let (mut state, mut player) = fresh(1000);
    start_game(&mut player, &mut state, words(), 42);
    assert_eq!(player.guesses_rem, 18);
    assert_eq!(player.rem_games_set, 5);
    assert_eq!(player.games_won_in_set, 0);
    assert!(player.game_ongoing);
    assert_eq!(player.time_renewed, Some(42));
    assert_eq!(player.set_words, Some(words()));
    assert_eq!(state.games_played, 1);
}

#[test]
fn update_applies_deltas() {
    let (mut state, mut player) = fresh(1000);
    start_game(&mut player, &mut state, words(), 1);
    assert_eq!(update_game(&mut player, 2, 7, 1, 3, 4), Ok(()));
    assert_eq!(player.rem_games_set, 3);
    assert_eq!(player.guesses_rem, 11);
    assert_eq!(player.games_won_in_set, 1);
    assert_eq!(player.prev_correct_guesses, 3);
    assert_eq!(player.prev_wrong_guesses, 4);
}

#[test]
fn update_past_budget_fails_unchanged() {
    let (mut state, mut player) = fresh(1000);
    start_game(&mut player, &mut state, words(), 1);
    let before = player.clone();
    assert_eq!(update_game(&mut player, 0, 19, 0, 0, 0), Err(ContractError::BudgetExceeded));
    assert_eq!(update_game(&mut player, 6, 0, 0, 0, 0), Err(ContractError::BudgetExceeded));
    assert_eq!(update_game(&mut player, 0, 0, 6, 0, 0), Err(ContractError::BudgetExceeded));
    assert_eq!(player, before);
    assert_eq!(update_game(&mut player, 5, 18, 5, 0, 0), Ok(()));
    assert_eq!(player.guesses_rem, 0);
    assert_eq!(player.rem_games_set, 0);
}

#[test]
fn abandon_resets_session() {
    let (mut state, mut player) = fresh(1000);
    start_game(&mut player, &mut state, words(), 1);
    update_game(&mut player, 1, 2, 1, 1, 1).unwrap();
    end_game(&mut player);
    assert!(!player.game_ongoing);
    assert_eq!(player.rem_games_set, 0);
    assert_eq!(player.guesses_rem, 0);
    assert_eq!(player.games_won_in_set, 0);
    assert_eq!(player.time_renewed, None);
    assert_eq!(player.set_words, None);
    assert_eq!(player.prev_correct_guesses, 1);
    end_game(&mut player);
    assert!(!player.game_ongoing);
}

#[test]
fn abandon_then_start_equals_start() {
    let (mut state, mut player) = fresh(1000);
    start_game(&mut player, &mut state, words(), 1);
    update_game(&mut player, 2, 3, 1, 2, 1).unwrap();
    let mut direct = player.clone();
    let mut direct_state = state.clone();
    start_game(&mut direct, &mut direct_state, words(), 9);
    end_game(&mut player);
    start_game(&mut player, &mut state, words(), 9);
    assert_eq!(player, direct);
    assert_eq!(state, direct_state);
}

#[test]
fn reward_for_five_guesses_is_25() {
    let (mut state, mut player) = cleared(1000, 5);
    assert_eq!(reward_player(&mut player, &mut state), Ok(25));
    assert_eq!(player.balance, 25);
    assert_eq!(state.minted_tokens, 25);
    assert!(!player.game_ongoing);
    assert_eq!(player.set_words, None);
}

#[test]
fn reward_for_nine_guesses_is_5() {
    let (mut state, mut player) = cleared(1000, 9);
    assert_eq!(reward_player(&mut player, &mut state), Ok(5));
}

#[test]
fn reward_for_eighteen_guesses_is_1() {
    let (mut state, mut player) = cleared(1000, 18);
    assert_eq!(reward_player(&mut player, &mut state), Ok(1));
}

#[test]
fn claim_with_four_guesses_fails_min_guess() {
    let (mut state, mut player) = fresh(1000);
    start_game(&mut player, &mut state, words(), 7);
    update_game(&mut player, 5, 4, 5, 5, 0).unwrap();
    let before = player.clone();
    assert_eq!(
        reward_player(&mut player, &mut state),
        Err(ContractError::MinGuessNotCrossed(4))
    );
    assert_eq!(player, before);
    assert_eq!(state.minted_tokens, 0);
}

#[test]
fn claim_before_all_rounds_fails() {
    let (mut state, mut player) = fresh(1000);
    start_game(&mut player, &mut state, words(), 7);
    update_game(&mut player, 3, 6, 3, 3, 3).unwrap();
    assert_eq!(
        reward_player(&mut player, &mut state),
        Err(ContractError::AllGamesNotPlayed(3))
    );
}

#[test]
fn claim_without_all_wins_fails() {
    let (mut state, mut player) = fresh(1000);
    start_game(&mut player, &mut state, words(), 7);
    update_game(&mut player, 5, 9, 4, 4, 5).unwrap();
    assert_eq!(reward_player(&mut player, &mut state), Err(ContractError::AllGamesNotWon(4)));
}

#[test]
fn claim_past_cap_fails_and_cap_holds() {
    let (mut state, mut player) = cleared(30, 5);
    assert_eq!(reward_player(&mut player, &mut state), Ok(25));
    start_game(&mut player, &mut state, words(), 8);
    update_game(&mut player, 5, 5, 5, 5, 0).unwrap();
    let before = player.clone();
    assert_eq!(reward_player(&mut player, &mut state), Err(ContractError::MaxCapReached));
    assert_eq!(player, before);
    assert_eq!(state.minted_tokens, 25);
    assert!(state.minted_tokens <= state.max_cap);
    update_game(&mut player, 0, 4, 0, 0, 0).unwrap();
    assert_eq!(reward_player(&mut player, &mut state), Ok(5));
    assert_eq!(state.minted_tokens, 30);
    assert_eq!(player.balance, 30);
}

#[test]
fn claim_twice_fails() {
    let (mut state, mut player) = cleared(1000, 6);
    assert_eq!(reward_player(&mut player, &mut state), Ok(12));
    assert_eq!(reward_player(&mut player, &mut state), Err(ContractError::AllGamesNotWon(0)));
    assert_eq!(state.minted_tokens, 12);
}

#[test]
fn check_guess_is_positional() {
    // "apple" and "angle" agree at positions 1, 4 and 5.
    let r = check_guess("apple", "angle").unwrap();
    assert_eq!(r, vec![true, false, false, true, true]);
    assert_eq!(check_guess("apple", "amble").unwrap(), vec![true, false, false, true, true]);
    assert_eq!(check_guess("apple", "abide").unwrap(), vec![true, false, false, false, true]);
    assert_eq!(check_guess("apple", "papel").unwrap(), vec![false, false, true, false, false]);
    assert_eq!(check_guess("apple", "apples").unwrap(), vec![true; 5]);
    assert_eq!(check_guess("apple", "app"), Err(ContractError::IndexOutOfRange));
}

#[test]
fn word_queries() {
    let (mut state, mut player) = fresh(1000);
    assert_eq!(query_player_word(&player, 1), Err(ContractError::NoActiveSession));
    start_game(&mut player, &mut state, words(), 1);
    assert_eq!(query_player_word(&player, 1), Ok(String::from("apple")));
    assert_eq!(query_player_word(&player, 5), Ok(String::from("pride")));
    assert_eq!(query_player_word(&player, 0), Err(ContractError::IndexOutOfRange));
    assert_eq!(query_player_word(&player, 6), Err(ContractError::IndexOutOfRange));
    assert_eq!(
        query_correct_guess(&player, &String::from("angle"), 1),
        Ok(vec![true, false, false, true, true])
    );
    assert_eq!(
        query_correct_guess(&player, &String::from("ang"), 1),
        Err(ContractError::IndexOutOfRange)
    );
    assert_eq!(
        query_correct_guess(&player, &String::from("angle"), 9),
        Err(ContractError::IndexOutOfRange)
    );
}

#[test]
fn unknown_player_is_refused() {
    let mut game = Registry::new(String::from(TEST_CREATOR), init_msg(), RegistrationPolicy::Reject);
    let who = String::from("nobody");
    assert_eq!(game.start(&who, words(), 1), Err(ContractError::PlayerNotFound));
    assert_eq!(game.apply_progress(&who, 0, 0, 0, 0, 0), Err(ContractError::PlayerNotFound));
    assert_eq!(game.abandon(&who), Err(ContractError::PlayerNotFound));
    assert_eq!(game.claim(&who), Err(ContractError::PlayerNotFound));
    assert_eq!(game.state().games_played, 0);
}

#[test]
fn execute_and_query_play_a_set() {
    let mut game = Registry::new(String::from(TEST_CREATOR), init_msg(), RegistrationPolicy::Reject);
    let me = String::from("alice");
    let create = ExecuteMsg::CreatePlayer { name: String::from("Alice") };
    assert_eq!(game.execute(me.clone(), 1, create), Ok(()));
    assert_eq!(game.execute(me.clone(), 2, ExecuteMsg::StartGame { game_words: words() }), Ok(()));
    let update = ExecuteMsg::UpdateGame {
        game: 5,
        guess: 7,
        game_won: 5,
        correct_guess: 5,
        wrong_guess: 2,
    };
    assert_eq!(game.execute(me.clone(), 3, update), Ok(()));
    match game.query(QueryMsg::QueryPlayerWord { addr: me.clone(), pos: 2 }) {
        Ok(QueryAnswer::Word(w)) => assert_eq!(w, "crane"),
        _ => panic!("expected a word"),
    }
    match game.query(QueryMsg::QueryCorrectGuess {
        addr: me.clone(),
        guessed: String::from("trace"),
        pos: 2,
    }) {
        Ok(QueryAnswer::Matches(v)) => assert_eq!(v, vec![false, true, true, false, true]),
        _ => panic!("expected matches"),
    }
    assert_eq!(game.execute(me.clone(), 4, ExecuteMsg::RewardPlayer {}), Ok(()));
    assert_eq!(game.state().minted_tokens, 8);
    match game.query(QueryMsg::QueryPlayer { addr: me.clone() }) {
        Ok(QueryAnswer::Player(Some(p))) => {
            assert_eq!(p.balance, 8);
            assert!(!p.game_ongoing);
        }
        _ => panic!("expected the player"),
    }
    match game.query(QueryMsg::QueryPlayerExists { addr: String::from("bob") }) {
        Ok(QueryAnswer::Exists(b)) => assert!(!b),
        _ => panic!("expected a flag"),
    }
    assert_eq!(game.execute(me.clone(), 5, ExecuteMsg::EndGame {}), Ok(()));
    assert!(matches!(
        game.query(QueryMsg::QueryPlayerWord { addr: me, pos: 1 }),
        Err(ContractError::NoActiveSession)
    ));
}
