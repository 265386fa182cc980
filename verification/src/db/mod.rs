//! The data store's key layout, its encoding of numbers, and its schema
//! migrations.
pub mod keys;
pub mod migrations;
pub mod variables;
