//! Blackjack rules: cards and their points, the deck, the dealer's turn and
//! the settlement of a round.

pub mod card;
pub mod deck;
pub mod game;
