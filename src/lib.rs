//! Splits a PE executable into rebuildable units, reconciles the image that an
//! outside toolchain links from them with the original, and restores the header
//! fields that the linker does not reproduce.
pub mod commands;
pub mod config;
pub mod layout;
pub mod link;
pub mod patch;
pub mod project;
pub mod round_trip;
pub mod split;
pub mod text;
