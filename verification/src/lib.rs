//! A verified selection-state controller for a circularly navigable list.
//!
//! The library owns two raw integer counters, a highlight cursor and a
//! committed selection, and normalizes them into the valid index range
//! `[0, item_count]` with a Euclidean wrap. Key events (`ArrowDown`,
//! `ArrowUp`, `Enter`) move the cursor or commit the selection; every
//! other key leaves the state unchanged.

pub mod controller;
pub mod keys;
pub mod wrap;
