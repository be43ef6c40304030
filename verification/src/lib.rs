//! The core of a small game server for two-player, turn-based games.
//!
//! Clients create or join named rooms over some line-based transport. A room
//! pairs two connections; once the second has joined, the two play a game of
//! marks on a three-by-three grid until one of them fills a line or the grid
//! is full.
//!
//! The crate holds the rules and leaves input and output to its caller:
//!
//! - [`board`] is the game: cells, turns, legal moves, and the outcome.
//! - [`room`] is a pairing slot: two seats and the game they share.
//! - [`registry`] is the directory of rooms by name.
//! - [`protocol`] reads what clients send, and [`message`] words what the
//!   server tells them.
//! - [`session`] is the state machine that serves one connection. The caller
//!   feeds it events and performs the actions it returns.
//!
//! Each type has a model, its view, and every function says in its contract
//! what it does to the model.

pub mod board;
pub mod message;
pub mod protocol;
pub mod registry;
pub mod room;
pub mod session;
