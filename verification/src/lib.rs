//! A small two-player "element capture" board game.
//!
//! The crate owns the game's logic: a rectangular grid of tiles, each
//! carrying an element and an owner, and a turn engine that consumes tap
//! events and resolves selections, deselections and captures. Rendering
//! and input collection are left to a host program, which feeds the engine
//! plain coordinates and reads tile snapshots back.

pub mod board;
pub mod engine;
