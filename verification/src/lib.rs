//! A cellular-automaton ecosystem: a grid of small program-driven bots that
//! share three resource pools, compete, reproduce and die.
//!
//! The crate holds the simulation engine only: the coordinate spaces, the two
//! grid containers, the bot model and the per-tick processor. Every function
//! carries a contract. Verus proves them all but those of the few calls into
//! `rand` and into std that `random`, `hash_map_grid` and `tick` wrap; each
//! of these says in its documentation what it takes on trust.

pub mod space;
pub mod grid;
pub mod vec_grid;
pub mod hash_map_grid;
pub mod random;
pub mod resources;
pub mod creature;
pub mod ledger;
pub mod neighborhood;
pub mod world;
pub mod actions;
pub mod turn;
pub mod tick;
