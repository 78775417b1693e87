//! The initial ease factor of each deck, looked up once per operation.

use std::collections::HashMap;
use vstd::prelude::*;

use crate::card::DeckId;
use crate::collection::deck_config_with_id;
use crate::collection::deck_with_id;
use crate::collection::Collection;
use crate::decks::Deck;
use crate::decks::DeckConfig;
use crate::error::AnkiError;
use crate::error::Failure;
use crate::text::decimal_string;
use crate::text::int_decimal;

verus! {

/// The initial ease factor that the deck `deck_id` gives its cards, in
/// thousandths. A deck that is not there is not found, and neither is a
/// configuration that is not there; a filtered deck has no configuration
/// to give one, which is invalid input.
pub open spec fn initial_ease_of(decks: Seq<Deck>, configs: Seq<DeckConfig>, deck_id: DeckId) -> Result<
    u16,
    Failure,
> {
    match deck_with_id(decks, deck_id) {
        None => Err(Failure::NotFound("deck"@, int_decimal(deck_id.0 as int))),
        Some(deck) => match deck.config_id() {
            None => Err(Failure::InvalidInput("home deck is filtered"@)),
            Some(config_id) => match deck_config_with_id(configs, config_id) {
                None => Err(Failure::NotFound("deck config"@, int_decimal(config_id.0 as int))),
                Some(config) => Ok(config.initial_ease),
            },
        },
    }
}

/// Whether `result` is what `expected` describes.
pub open spec fn ease_result_is(result: Result<u16, AnkiError>, expected: Result<u16, Failure>) -> bool {
    match expected {
        Ok(ease) => result == Ok::<u16, AnkiError>(ease),
        Err(failure) => result is Err && result->Err_0.is_failure(failure),
    }
}

/// A mapping from deck to initial ease factor that lives for one
/// operation and is filled as decks are first asked for.
pub struct DeckEaseCache {
    eases: HashMap<i64, u16>,
}

impl DeckEaseCache {
    /// Whether every remembered ease factor is the one that a fresh lookup
    /// among `decks` and `configs` gives.
    pub closed spec fn agrees_with(&self, decks: Seq<Deck>, configs: Seq<DeckConfig>) -> bool {
        forall|deck: i64| #[trigger]
            self.eases@.contains_key(deck) ==> initial_ease_of(decks, configs, DeckId(deck)) == Ok::<
                u16,
                Failure,
            >(self.eases@[deck])
    }

    /// A cache that remembers nothing yet.
    pub fn new() -> (cache: DeckEaseCache)
        ensures
            forall|decks: Seq<Deck>, configs: Seq<DeckConfig>| #[trigger]
                cache.agrees_with(decks, configs),
    {
        DeckEaseCache { eases: HashMap::new() }
    }

    /// The initial ease factor of `deck_id`: remembered from an earlier
    /// call, or else looked up in `col` and remembered from now on.
    pub fn initial_ease(&mut self, col: &Collection, deck_id: DeckId) -> (result: Result<
        u16,
        AnkiError,
    >)
        requires
            old(self).agrees_with(col@.decks, col@.deck_configs),
        ensures
            final(self).agrees_with(col@.decks, col@.deck_configs),
            ease_result_is(result, initial_ease_of(col@.decks, col@.deck_configs, deck_id)),
    {
        broadcast use vstd::std_specs::hash::group_hash_axioms;

        match self.eases.get(&deck_id.0) {
            Some(ease) => {
                return Ok(*ease);
            },
            None => {},
        }
        let deck = match col.get_deck(deck_id) {
            Some(deck) => deck,
            None => {
                return Err(AnkiError::not_found("deck", decimal_string(deck_id.0)));
            },
        };
        let config_id = match deck.config_id() {
            Some(config_id) => config_id,
            None => {
                return Err(AnkiError::invalid_input("home deck is filtered"));
            },
        };
        let ease = match col.get_deck_config(config_id) {
            Some(config) => config.initial_ease,
            None => {
                return Err(AnkiError::not_found("deck config", decimal_string(config_id.0)));
            },
        };
        self.eases.insert(deck_id.0, ease);
        Ok(ease)
    }
}

} // verus!
