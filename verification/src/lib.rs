//! A verified multi-track Turing machine simulator.
//!
//! The crate models tape symbols that span several parallel tracks, builds
//! and validates transition tables from raw loader input (free text or CSV
//! rows), and executes the machine step by step until no transition matches,
//! at which point the halting state decides acceptance.

pub mod csv_table;
pub mod demos;
pub mod engine;
pub mod symbol;
pub mod table;
pub mod text;
