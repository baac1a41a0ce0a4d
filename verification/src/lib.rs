//! A verified turn-based, card-driven combat engine.
//!
//! The engine advances one discrete step per `tick` call: it draws cards
//! (reshuffling the discard pile into the draw pile when needed), plays
//! cards whose effects are merged into a single delta and applied to a
//! target entity, and removes entities whose hull drops to zero or below.
//! A separate interaction workflow sequences the user-facing choices
//! (card, then target, then confirmation) so that only well-formed play
//! actions ever reach the engine.

pub mod engine;
pub mod gui;
