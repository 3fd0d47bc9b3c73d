//! Verified core of the GTaurus machine-control bridge.

pub mod camera;
pub mod channel;
pub mod checkpoint;
pub mod commands;
pub mod config;
pub mod events;
pub mod job;
pub mod paths;
pub mod stream;
pub mod text;
pub mod tool;
pub mod worker;
