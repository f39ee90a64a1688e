//! Verified core of an RGBA8 image processor and its two plugins.
pub mod rgba;
pub mod mirror_plugin;
pub mod blur_plugin;
pub mod error;
pub mod plugin_loader;
pub mod cli;
