//! Core of a multi-state turmite simulator: a compiler from several textual
//! rule grammars into one canonical transition table, and a synchronous
//! execution engine stepping a population of agents over a sparse, wrapping
//! two-dimensional grid.

pub mod direction;
pub mod symbol;
pub mod table;
pub mod chars;
pub mod rule_model;
pub mod rules;
pub mod coordmap;
pub mod color;
pub mod heads;
pub mod grid;
pub mod rng;
pub mod machine;
pub mod rulegen;
pub mod config;
pub mod validation;
pub mod ui;
