//! Screen-state engine of a small terminal emulator.
//!
//! The library keeps an in-memory character grid with a cursor and current
//! text colors, and applies decoded terminal actions (printed characters,
//! control bytes, CSI commands) to it. A byte-level tokenizer turns the raw
//! output stream of a shell into those actions. Everything here is pure
//! state manipulation; the pseudo-terminal transport, rendering and key
//! capture live outside the library and hand it plain values.

pub mod action;
pub mod cell;
pub mod input;
pub mod laws;
pub mod model;
pub mod parser;
pub mod sgr;
pub mod terminal;
