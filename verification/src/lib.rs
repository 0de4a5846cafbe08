//! A small verified library for a command-line hex transcoder.
//!
//! The library holds the logic of the tool: the hex codec itself
//! (`hex`), the pure part of resolving where input comes from
//! (`resolve`), and the trailing-newline policy for output (`output`).
//! Reading files or standard input and parsing arguments stay outside,
//! in the binary that wraps this crate.

pub mod hex;
pub mod output;
pub mod resolve;
