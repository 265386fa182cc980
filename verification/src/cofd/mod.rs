//! Chronicles of Darkness dice pools: pool definitions, rolling rules and
//! the pool expression grammar.
pub mod dice;
pub mod parser;
