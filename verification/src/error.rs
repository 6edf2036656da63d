//! The errors that a run can end with.

use vstd::prelude::*;
use vstd::string::StringExecFns;

verus! {

/// An error that ends a run. Each variant carries the text that describes
/// what went wrong.
#[derive(Debug)]
pub enum NixDocError {
    /// Reading or writing failed.
    Io(String),
    /// An operation on a repository failed.
    GitOperation(String),
    /// A path does not lie under the directory that it was expected under.
    Path(String),
    /// A file could not be parsed: the file, then what the parser said.
    Parse(String, String),
    /// A repository has no work directory.
    NoWorkDir,
    /// A path is neither a local directory nor a repository.
    InvalidPath(String),
    /// A repository could not be cloned: the repository, then the reason.
    GitClone(String, String),
    /// Walking through a directory failed.
    WalkDir(String),
    /// Any other error.
    StdError(String),
    /// Writing comma-separated values failed.
    Csv(String),
    /// Serialising the records failed.
    Serialization(String),
    /// Bytes were no valid UTF-8.
    Utf8(String),
}

/// What a `NixDocError` stands for.
pub ghost enum ErrorView {
    Io(Seq<char>),
    GitOperation(Seq<char>),
    Path(Seq<char>),
    Parse(Seq<char>, Seq<char>),
    NoWorkDir,
    InvalidPath(Seq<char>),
    GitClone(Seq<char>, Seq<char>),
    WalkDir(Seq<char>),
    StdError(Seq<char>),
    Csv(Seq<char>),
    Serialization(Seq<char>),
    Utf8(Seq<char>),
}

impl View for NixDocError {
    type V = ErrorView;

    open spec fn view(&self) -> ErrorView {
        match self {
            NixDocError::Io(text) => ErrorView::Io(text@),
            NixDocError::GitOperation(text) => ErrorView::GitOperation(text@),
            NixDocError::Path(text) => ErrorView::Path(text@),
            NixDocError::Parse(file, text) => ErrorView::Parse(file@, text@),
            NixDocError::NoWorkDir => ErrorView::NoWorkDir,
            NixDocError::InvalidPath(text) => ErrorView::InvalidPath(text@),
            NixDocError::GitClone(repository, text) => ErrorView::GitClone(repository@, text@),
            NixDocError::WalkDir(text) => ErrorView::WalkDir(text@),
            NixDocError::StdError(text) => ErrorView::StdError(text@),
            NixDocError::Csv(text) => ErrorView::Csv(text@),
            NixDocError::Serialization(text) => ErrorView::Serialization(text@),
            NixDocError::Utf8(text) => ErrorView::Utf8(text@),
        }
    }
}

/// The message that an error is shown as.
pub open spec fn message_of(error: ErrorView) -> Seq<char> {
    match error {
        ErrorView::Io(text) => "IO error: "@ + text,
        ErrorView::GitOperation(text) => "Git operation failed: "@ + text,
        ErrorView::Path(text) => "Path error: "@ + text,
        ErrorView::Parse(file, text) => "Parsing error in file "@ + file + ": "@ + text,
        ErrorView::NoWorkDir => "No repository work directory found"@,
        ErrorView::InvalidPath(text) => "Not a valid local path or git repository: "@ + text,
        ErrorView::GitClone(repository, text) => "Failed to clone repository: "@ + repository
            + ", "@ + text,
        ErrorView::WalkDir(text) => "Walkdir error: "@ + text,
        ErrorView::StdError(text) => "Standard error: "@ + text,
        ErrorView::Csv(text) => "CSV error: "@ + text,
        ErrorView::Serialization(text) => "Serialization error: "@ + text,
        ErrorView::Utf8(text) => "UTF-8 conversion error: "@ + text,
    }
}

/// `head`, then `tail`.
fn prefixed(head: &str, tail: &str) -> (out: String)
    ensures
        out@ == head@ + tail@,
{
    let mut out = String::from_str(head);
    out.append(tail);
    out
}

impl NixDocError {
    /// The error that `error_type` makes of what `err` is shown as.
    pub fn with_message<E: std::fmt::Display, F: FnOnce(String) -> Self>(
        err: E,
        error_type: F,
    ) -> (error: Self)
        requires
            forall|text: String| call_requires(error_type, (text,)),
        ensures
            exists|text: String|
                vstd::string::to_string_from_display_ensures::<E>(&err, text) && call_ensures(
                    error_type,
                    (text,),
                    error,
                ),
    {
        error_type(err.to_string())
    }

    /// The CSV error whose text is what `err` is shown as.
    pub fn csv_error<E: std::fmt::Display>(err: E) -> (error: Self)
        ensures
            error matches NixDocError::Csv(text) && vstd::string::to_string_from_display_ensures::<E>(
                &err,
                text,
            ),
    {
        NixDocError::Csv(err.to_string())
    }

    /// The error of a repository operation whose text is what `err` is shown
    /// as.
    pub fn git_error<E: std::fmt::Display>(err: E) -> (error: Self)
        ensures
            error matches NixDocError::GitOperation(text)
                && vstd::string::to_string_from_display_ensures::<E>(&err, text),
    {
        NixDocError::GitOperation(err.to_string())
    }

    /// The serialisation error whose text is what `err` is shown as.
    pub fn serialization_error<E: std::fmt::Display>(err: E) -> (error: Self)
        ensures
            error matches NixDocError::Serialization(text)
                && vstd::string::to_string_from_display_ensures::<E>(&err, text),
    {
        NixDocError::Serialization(err.to_string())
    }

    /// The message that this error is shown as.
    pub fn to_string(&self) -> (message: String)
        ensures
            message@ == message_of(self@),
    {
        match self {
            NixDocError::Io(text) => prefixed("IO error: ", text.as_str()),
            NixDocError::GitOperation(text) => prefixed("Git operation failed: ", text.as_str()),
            NixDocError::Path(text) => prefixed("Path error: ", text.as_str()),
            NixDocError::Parse(file, text) => {
                let mut out = prefixed("Parsing error in file ", file.as_str());
                out.append(": ");
                out.append(text.as_str());
                out
            },
            NixDocError::NoWorkDir => String::from_str("No repository work directory found"),
            NixDocError::InvalidPath(text) => prefixed(
                "Not a valid local path or git repository: ",
                text.as_str(),
            ),
            NixDocError::GitClone(repository, text) => {
                let mut out = prefixed("Failed to clone repository: ", repository.as_str());
                out.append(", ");
                out.append(text.as_str());
                out
            },
            NixDocError::WalkDir(text) => prefixed("Walkdir error: ", text.as_str()),
            NixDocError::StdError(text) => prefixed("Standard error: ", text.as_str()),
            NixDocError::Csv(text) => prefixed("CSV error: ", text.as_str()),
            NixDocError::Serialization(text) => prefixed("Serialization error: ", text.as_str()),
            NixDocError::Utf8(text) => prefixed("UTF-8 conversion error: ", text.as_str()),
        }
    }
}

} // verus!
