//! The settings of a run, as plain values.

use vstd::prelude::*;

verus! {

/// The format in which the documentation is written.
#[derive(Clone, Copy, Debug, PartialEq, Eq, Structural)]
pub enum OutputFormat {
    Markdown,
    Json,
    Html,
    Csv,
}

/// Where the sources are read from and how the documentation is written.
#[derive(Debug)]
pub struct IoOptions {
    /// The local path or the address of the repository that holds the sources.
    pub path: String,
    /// The path of the file to write, or `stdout`.
    pub out: String,
    /// The format of the documentation.
    pub format: OutputFormat,
    /// Whether the options are sorted by name.
    pub sort: bool,
    /// A path or an address that is put before the path of each source file.
    pub out_prefix: Option<String>,
}

/// How a repository is fetched.
#[derive(Debug)]
pub struct GitOptions {
    /// The branch or tag to fetch.
    pub branch: Option<String>,
    /// The number of commits to fetch.
    pub depth: u32,
}

/// Which options are shown, and under which names.
#[derive(Debug)]
pub struct FilterOptions {
    /// Only options whose name begins with this text are shown.
    pub filter_by_prefix: Option<String>,
    /// Only options whose type holds this text, whatever the case, are shown.
    pub filter_by_type: Option<String>,
    /// Only options whose name or description matches this pattern are shown.
    pub search: Option<String>,
    /// Only options with a default value are shown.
    pub has_default: bool,
    /// Only options with a description are shown.
    pub has_description: bool,
    /// The values for the placeholders, as pairs of name and value.
    pub replace: Vec<(String, String)>,
    /// A prefix that is taken out of the name of each option.
    pub strip_prefix: Option<String>,
}

/// How the sources are walked through.
#[derive(Debug)]
pub struct UtilityOptions {
    /// The directories that are left out.
    pub exclude_dir: Vec<String>,
    /// Whether symbolic links are followed.
    pub follow_symlinks: bool,
    /// Whether the progress is shown.
    pub progress: bool,
}

/// All settings of a run.
#[derive(Debug)]
pub struct Cli {
    pub io: IoOptions,
    pub git: GitOptions,
    pub filter: FilterOptions,
    pub util: UtilityOptions,
}

} // verus!
