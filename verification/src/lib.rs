//! Trigger-recognition and dispatch engine for timed key combos.
//!
//! The crate keeps a rolling, bounded history of observed input, matches it
//! against configured triggers (single key, timed key sequence, modifier+key),
//! decides per event whether to suppress or forward it, and plans the timed
//! replay of a combo's synthetic key sequence.

pub mod keys;
pub mod history;
pub mod combo;
pub mod engine;
pub mod plan;
