//! Block interaction hooks, a cancellable block event, and the block-position
//! command argument, with their contracts.

pub mod pos;
pub mod text;
pub mod block;
pub mod world;
pub mod jukebox;
pub mod behavior;
pub mod number;
pub mod args;
pub mod events;
