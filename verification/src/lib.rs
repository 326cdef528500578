//! Builds `obsidian://` capture URLs from a configuration record.
//!
//! The configuration selects an action, an optional vault, an optional
//! override for the name of the query parameter that carries the captured
//! text, extra query parameters, and an optional plugin section. The URL
//! builder percent-encodes every parameter value and assembles the query
//! string deterministically.

pub mod config;
pub mod encoding;
pub mod laws;
