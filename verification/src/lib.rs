//! Verified core of a desktop video-downloader backend: decoding of
//! obfuscated stream sources, command-line construction for the downloader,
//! parsing of its progress output, JSON extraction of catalogue data,
//! stream selection, and a few small protocol handlers.

pub mod text;
pub mod extractors;
pub mod json;
pub mod pluck;
pub mod search_commands;
pub mod commands;
pub mod pairing;
pub mod deep_link;
