//! Plugins that report what a memory image holds.

pub mod addresses;
pub mod config;
pub mod context;
pub mod digest;
pub mod error;
pub mod laws;
pub mod lists;
pub mod patterns;
pub mod plugins;
pub mod renderers;
pub mod symbols;
pub mod text;
pub mod time;
