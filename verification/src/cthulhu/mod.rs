//! Call of Cthulhu percentile rolls: regular skill checks with bonus and
//! penalty dice, and skill advancement rolls.
pub mod dice;
pub mod parser;
