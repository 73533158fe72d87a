//! Decks built from collected cards.  Deck persistence is not
//! implemented yet; the operations below are the reserved surface.
use vstd::prelude::*;

use crate::cards::{Card, CardClass};
use crate::config::Config;

verus! {

/// A named deck of one class.
#[derive(Debug, Clone)]
pub struct Deck {
    pub id: String,
    pub name: String,
    pub class: CardClass,
    pub deck_cards: Vec<DeckCard>,
}

/// One card of a deck, with the number of copies played.
#[derive(Debug, Clone)]
pub struct DeckCard {
    pub id: String,
    pub card: Card,
    pub quantity: u8,
}

/// Reserved: create a deck in the store.  Does nothing yet.
pub fn create_deck(config: &Config) {
}

/// Reserved: add a card to a deck.  Does nothing yet.
pub fn add_card(deck: &Deck, deck_card: &DeckCard, config: &Config) {
}

/// Reserved: remove a card from a deck.  Does nothing yet.
pub fn remove_card_from_deck(deck: &Deck, deck_card: &DeckCard, config: &Config) {
}

/// Reserved: change the number of copies of a deck card.  Does
/// nothing yet.
pub fn update_card(deck: &Deck, deck_card: &DeckCard) {
}

} // verus!
