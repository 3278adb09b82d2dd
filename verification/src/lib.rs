//! Builds a report about public mdBooks: which `book.toml` settings the
//! books use, which preprocessors, which languages, and which books could
//! not be read.

pub mod text;
pub mod repo;
pub mod toml_table;
pub mod model;
pub mod markdown;
pub mod pages;
pub mod order;
pub mod report;
