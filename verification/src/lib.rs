//! Verified core of a scripted mock HTTP server: route matching, request
//! decoding, configuration validation, byte-range decisions, upstream call
//! policy and the mapping of script outcomes onto HTTP answers.

pub mod text;
pub mod config;
pub mod matcher;
pub mod files;
pub mod json;
pub mod upstream;
pub mod script;
pub mod server;
pub mod bridge;
