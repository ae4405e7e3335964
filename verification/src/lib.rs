//! Organizational metadata: contributor and team records loaded from TOML
//! text, kept in keyed collections, and turned into a membership graph.

pub mod collection;
pub mod document;
pub mod error;
pub mod graph;
pub mod json_text;
pub mod key;
pub mod loader;
pub mod model;
pub mod path;
pub mod schema;
pub mod toml_text;
