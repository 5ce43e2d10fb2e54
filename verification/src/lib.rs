//! Conformance analysis of an observed word against a nondeterministic
//! finite automaton.
//!
//! The word is replayed letter by letter against the automaton's reachable
//! configurations. When a letter cannot be consumed from the current
//! configuration, a configurable policy decides how to recover (stop, reset
//! the active states, skip the letter), and the analysis tallies how much
//! recovery was needed. The decision engine, the transition function and the
//! verdict aggregation are pure functions with exact contracts; a driver that
//! explores candidate derivations can be layered on top of them.

pub mod analysis;
pub mod context;
pub mod drawer;
pub mod filter;
pub mod handler;
pub mod nfa;
pub mod node;
pub mod param;
pub mod render;
pub mod step;
pub mod verdict;
