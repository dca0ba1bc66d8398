//! Core of an EPUB optimizer: archive extraction, package-metadata rewriting,
//! asset-optimization bookkeeping and repackaging plans, without any I/O.

pub mod archive;
pub mod error;
pub mod laws;
pub mod metadata;
pub mod optimizer;
pub mod pipeline;
pub mod reader;
pub mod text;
pub mod writer;
pub mod xml;
pub mod zip_source;
