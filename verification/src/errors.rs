//! What an action or a decision can be refused for.

use crate::game::PlayerReference;
use crate::game_cards::GameCard;
use vstd::prelude::*;

verus! {

/// A breach of the game's rules by a player or by the agent that decides for
/// them. None of these ends the game.
#[derive(Debug, PartialEq, Eq, Clone, Copy, Structural)]
pub enum SelfishError {
    /// The action names its own actor as the target.
    CantAttackYourself,
    /// A card was to be taken from an empty hand.
    PlayerHasNoCardsLeft,
    /// The target holds fewer cards than the action steals.
    PlayerDoesNotHaveEnoughCards(PlayerReference, usize),
    /// The player does not hold the card that was to leave their hand.
    PlayerDoesNotHaveThisCard(GameCard),
    /// The reference points outside the roster.
    PlayerDoesNotExist(PlayerReference),
    /// An agent answered a forced discard with the wrong number of cards.
    InvalidDiscardCount { expected: usize, actual: usize },
}

} // verus!
