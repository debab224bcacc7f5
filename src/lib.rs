//! Coordination of lighting and media nodes, and the timing engine that
//! tracks playback positions of time-based sources.
mod clock;
pub mod command_bus;
pub mod error;
mod ident;
pub mod keyed;
pub mod ndi;
pub mod node;
pub mod node_manager;
pub mod text;
pub mod time_state;
pub mod time_manager;
pub mod timecode;
