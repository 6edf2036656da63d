//! Writing the documentation of the options in one of the output formats.

pub mod csv;
pub mod document;
pub mod html;
pub mod json;
pub mod markdown;

pub use csv::generate_csv;
pub use document::generate_doc;
pub use html::generate_html;
pub use json::generate_json;
pub use markdown::generate_markdown;
