//! A table-driven shift-reduce parsing engine.
//!
//! The engine consumes a finished action table and a registry of semantic
//! actions, runs the LR automaton over a stream of tokens and returns the
//! parse tree whose nodes carry the synthesized values.
//!
//! - `tree`: parse tree nodes and stack frames.
//! - `token`: what the parser reads.
//! - `table`: derivations, actions, states and the action table.
//! - `handler`: semantic actions and their registry.
//! - `error`: the errors of the parser.
//! - `automaton`: the automaton as a mathematical function.
//! - `parser`: the parser, proved to compute that function.
//! - `theorems`: what holds of every run.

pub mod tree;
pub mod token;
pub mod table;
pub mod handler;
pub mod error;
pub mod automaton;
pub mod parser;
pub mod theorems;
