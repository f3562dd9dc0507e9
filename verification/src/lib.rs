//! Control core for an audiobook player: metadata extraction from a media
//! probe's report, chapter navigation arithmetic, and the command/event
//! state machines that sit between a presentation layer and a native
//! playback engine.
pub mod channel;
pub mod duration;
pub mod errors;
pub mod json;
pub mod metadata;
pub mod nav;
pub mod player;
pub mod report;
pub mod timestamp;
