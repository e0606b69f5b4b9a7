use vstd::prelude::*;

verus! {

/// Every way an operation of the game can fail. A failed operation leaves
/// the ledger and the player records as they were.
#[derive(Debug, Clone, Copy, PartialEq, Eq, Structural)]
pub enum ContractError {
    /// The caller is not allowed to perform the operation.
    Unauthorized,
    /// No player record is stored under the identity.
    PlayerNotFound,
    /// A record already exists under the identity and the registry rejects
    /// re-registration.
    PlayerAlreadyExists,
    /// A progress update would take a counter out of its range.
    BudgetExceeded,
    /// Minting the reward would take the supply past its cap.
    MaxCapReached,
    /// Fewer than five guesses were used in the set; carries the number used.
    MinGuessNotCrossed(u64),
    /// Not every round of the set was played; carries the number played.
    AllGamesNotPlayed(u64),
    /// Not every round of the set was won; carries the number won.
    AllGamesNotWon(u64),
    /// A word position outside `1..=5`, or a guess shorter than its word.
    IndexOutOfRange,
    /// The player has no session running, so no secret words are bound.
    NoActiveSession,
}

} // verus!
