//! A dice-rolling library for tabletop role-playing games: dice expression
//! parsing, dice pools, percentile rolls and bot command parsing.
pub mod basic;
pub mod bot;
pub mod cofd;
pub mod commands;
pub mod config;
pub mod context;
pub mod cthulhu;
pub mod db;
pub mod dice;
pub mod error;
pub mod help;
pub mod models;
pub mod parser;
pub mod rng;
pub mod state;
pub mod text;
pub mod variables;
