//! A Go version manager's verified core.
pub mod text;
pub mod platform;
pub mod release;
pub mod mirror;
pub mod checksum;
pub mod archive;
pub mod commands;
pub mod laws;
pub mod preset;
