//! Core logic of a terminal clock: layout arithmetic, configuration
//! defaults and paths, key handling, interval stepping and the set of
//! configuration changes that are written back on exit.

pub mod position;
pub mod color;
pub mod error;
pub mod clock;
pub mod config;
pub mod keys;
pub mod state;
pub mod text;
pub mod toml_doc;
pub mod saved;
