//! Chord sheet model, music-theory helpers and account helpers for Chord Shifter.
pub mod song;
pub mod text;
pub mod auth;
pub mod server;
pub mod store;
pub mod staff;
pub mod sheet;
