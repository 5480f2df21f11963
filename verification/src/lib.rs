//! Wrappers for a foreign library, made from a dump of its declarations: the
//! declaration model and the extractor that fills it, the generator of the
//! wrappers' source text, and the runtime that the wrappers rest on.

pub mod aeron_custom;
pub mod common;
pub mod generator;
pub mod model;
pub mod parser;
pub mod polling;
pub mod rb;
pub mod syntax;
pub mod text;
