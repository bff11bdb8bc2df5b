//! Backend command logic for a small desktop host: resolving the user's home
//! directory reply and turning a spawned command's captured output into text.
//!
//! The operating-system edges (environment lookup, process spawning) live
//! outside this crate and hand in plain values; everything here is verified.

pub mod commands;
pub mod text;
