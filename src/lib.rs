//! Compiles a YAML schema description into a JSON Schema document and a UI
//! document: decoding with per-kind bounds, normalization, lowering, generation.
pub mod bounds;
pub mod compiler;
pub mod error;
pub mod generator;
pub mod json;
pub mod schema;
pub mod yaml;
