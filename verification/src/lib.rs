//! A word-processing document adapter with a format-agnostic document model.
//!
//! The crate converts between a tree of document elements and the package
//! that word processors read. How lists are flattened and rebuilt, how
//! paragraphs are classified and how pictures are fitted to the page is
//! stated in specification functions and proved of the executable code.
//!
//! A package is held in memory by `docx_rs`. The crate builds one through
//! a small set of calls whose contracts are taken on trust, and reads what
//! one holds through another. Reading the bytes of a package is left to
//! the caller, who hands the outcome to [`transformer::Transformer::parse`]:
//! the reader of `docx_rs` stops the process on some malformed packages.

pub mod error;
pub mod model;
pub mod numbering;
pub mod package;
pub mod raw;
pub mod reader;
pub mod reconstruct;
pub mod render;
pub mod roundtrip;
pub mod scale;
pub mod transformer;
pub mod writer;
