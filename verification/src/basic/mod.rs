//! Basic dice rolls: expressions of dice such as `2d8 + 4d6 - 3`.
pub mod dice;
pub mod parser;
