//! A codec for GameCube disc images, and the options of the patcher built on it.

pub mod endian;
pub mod gc_disc;
pub mod patch_config;
pub mod reader;
pub mod sink;
