//! Settings discovery, path resolution and file selection for the Air R formatter.
pub mod order;
pub mod path;
pub mod resolve;
pub mod gitignore;
pub mod file_patterns;
pub mod settings;
pub mod discovery;
pub mod commands;
pub mod workspaces;
pub mod config;
pub mod xtask;
pub mod sorted;
