//! What is known of the structures of each operating system.

pub mod mac;
pub mod registry;
pub mod security;
pub mod windows;
