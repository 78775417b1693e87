//! The scheduling core of a spaced-repetition engine: due-date specifiers,
//! per-card rescheduling, and the undo-logged, all-or-nothing operations
//! that apply them to a collection of cards.

pub mod card;
pub mod collection;
pub mod config;
pub mod decks;
pub mod error;
pub mod ops;
mod random;
pub mod rest;
pub mod revlog;
pub mod scheduler;
pub mod text;
pub mod timing;
pub mod undo;
