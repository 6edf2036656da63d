//! Documentation for the options that NixOS modules declare.
//!
//! The library walks over the syntax tree of each source file of a
//! directory, finds the calls of `mkEnableOption` and `mkOption`, and makes
//! of each a record with the name of the option, its type, its description,
//! its default, an example, and the file and line of the declaration. The
//! records can be filtered, sorted and written as Markdown, HTML, JSON or
//! comma-separated values.
//!
//! Every function states what it returns over `Seq<char>` models of the
//! texts and over ghost views of the records and trees. What the parser,
//! the regular expressions and the other crates that are called return is
//! given a name, and the functions that build on a result say exactly what
//! they make of it.

pub mod cli;
pub mod collect;
pub mod error;
pub mod filter;
pub mod generate;
pub mod parser;
pub mod pattern;
pub mod record;
pub mod replacements;
pub mod sort;
pub mod strings;
pub mod syntax;
pub mod types;
pub mod utils;

pub use cli::{Cli, FilterOptions, GitOptions, IoOptions, OutputFormat, UtilityOptions};
pub use collect::collect_options;
pub use filter::filter_options;
pub use generate::generate_doc;
pub use record::OptionDoc;
