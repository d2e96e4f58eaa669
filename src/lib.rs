//! An input-binding resolution engine: abstract actions are bound to chords of
//! buttons and keys, and once per tick a snapshot of the pressed buttons is
//! resolved into the value of every action.
//!
//! Durations are in nanoseconds, timings in configurations in milliseconds.
pub mod prefix;
pub mod input;
pub mod binary;
pub mod direction;
pub mod settings;
pub mod bindings;
pub mod pulse;
pub mod axis;
pub mod continuous;
pub mod meta;
pub mod action;
pub mod config;
pub mod builder;
pub mod report;
pub mod processor;
pub mod validate;
pub mod ineffable;
