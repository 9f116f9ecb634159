//! Verified core of a key-rotation proxy for search-provider CLIs.
pub mod text;
pub mod provider;
pub mod keys;
pub mod tokens;
pub mod usage;
pub mod auth;
pub mod proxy;
pub mod config;
pub mod wrap;
pub mod webui;
pub mod api;
pub mod cli;
pub mod paths;
pub mod listing;
pub mod config_doc;
