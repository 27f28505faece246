//! Verified core of the jcode desktop client and its harness bridge.
pub mod text;
pub mod scene;
pub mod activity;
pub mod edits;
mod clock;
pub mod caret;
pub mod hints;
pub mod transcript;
pub mod transcript_laws;
pub mod json;
pub mod events;
pub mod harness;
pub mod bridge;
pub mod bridge_laws;
pub mod ink;
pub mod table;
