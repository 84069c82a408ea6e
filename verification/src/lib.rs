//! A small "system fetch" library: it gathers a handful of host facts
//! (local time, user name, distribution, CPU architecture, memory usage,
//! battery percentage) and renders them as human-readable lines or as a
//! pretty-printed JSON document, optionally followed by a decorative
//! terminal color strip.
//!
//! All formatting and decision logic is verified; the operating-system
//! queries themselves (clock, user database, memory counters) sit behind
//! small trusted wrappers, and file and terminal I/O is left to the
//! binary that uses the library.

pub mod args;
pub mod battery;
pub mod clock;
pub mod json;
pub mod memory;
pub mod numfmt;
pub mod render;
pub mod report;
pub mod snapshot;
pub mod strip;
mod text;
