//! Client-side synchronization core of a multiplayer snake game.

pub mod client;
pub mod components;
pub mod directory;
pub mod error;
pub mod input;
pub mod packets;
pub mod positions;
pub mod session;
pub mod tails;
pub mod world;
