//! Generation pipeline for flattened configuration lines.
//!
//! A single input line encodes a hierarchy of configuration entries
//! (file, section, key, value) with reserved separator characters.
//! This crate parses such a line into an ordered hierarchical model,
//! normalizes free-text keys into identifier-safe names, derives type
//! names from qualified paths, and renders the model as textual
//! artifacts (a CSV inventory, a JSON schema description).

pub mod chars;
pub mod normalize;
pub mod laws;
pub mod model;
pub mod parse;
pub mod render;
pub mod split;
pub mod text;
