//! The pages of the report, each with its line in the table of contents.

pub mod book_fields;
pub mod languages;
pub mod book_section;
pub mod toml_fields;
pub mod overview;
