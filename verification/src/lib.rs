//! A block-structured macro expander for a per-line command language. It reads
//! a script whose lines are either plain commands or directives behind a fixed
//! `#!` marker, and emits an equivalent plain script in which compound
//! conditionals, procedures, build-time branches and shared prefixes have been
//! expanded into per-line primitives of the target language.

pub mod emit;
pub mod errors;
pub mod laws;
pub mod lines;
pub mod parser;
pub mod render;
pub mod macros;
pub mod status;
pub mod table;
pub mod text;
