//! Strips comments and redundant whitespace from source text, one file at a
//! time, so that each file fits on a single line.

pub mod cli;
pub mod collapse;
pub mod filter;
pub mod language;
pub mod laws;
pub mod minify;
pub mod profile;
pub mod scanner;
pub mod text;
pub mod trace;
