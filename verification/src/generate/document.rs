//! Writing the documentation in the format that was asked for, with the
//! options put in order where that was asked for.

use vstd::prelude::*;
use crate::cli::OutputFormat;
use crate::error::{ErrorView, NixDocError};
use crate::generate::csv::{csv_of, generate_csv};
use crate::generate::html::{generate_html, page_of};
use crate::generate::json::{generate_json, json_of};
use crate::generate::markdown::{generate_markdown, markdown_of};
use crate::record::{copy_docs, records_of, OptionDoc, OptionRecord};
use crate::sort::{sort_options, sorted_by_name, with_name};

verus! {

/// Whether `after` is `before` in the order that was asked for: sorted by
/// name, the records of one name in the order they had, where `sorted` is
/// set, and as it was else.
pub open spec fn is_arranged(
    before: Seq<OptionRecord>,
    after: Seq<OptionRecord>,
    sorted: bool,
) -> bool {
    if sorted {
        &&& after.to_multiset() == before.to_multiset()
        &&& sorted_by_name(after)
        &&& forall|name: Seq<char>| #[trigger] with_name(after, name) == with_name(before, name)
    } else {
        after == before
    }
}

/// The document of `records` in the given format, or the error of writing
/// it.
pub open spec fn document_of(records: Seq<OptionRecord>, format: OutputFormat) -> Result<
    Seq<char>,
    ErrorView,
> {
    match format {
        OutputFormat::Markdown => Ok(markdown_of(records)),
        OutputFormat::Json => json_of(records),
        OutputFormat::Html => Ok(page_of(records)),
        OutputFormat::Csv => csv_of(records),
    }
}

/// What the result of writing a document stands for.
pub open spec fn written_view(written: Result<String, NixDocError>) -> Result<
    Seq<char>,
    ErrorView,
> {
    match written {
        Ok(text) => Ok(text@),
        Err(error) => Err(error@),
    }
}

/// Writes the documentation of `options` in the given format, with the
/// options sorted by name where `sorted` is set.
pub fn generate_doc(options: &[OptionDoc], format: OutputFormat, sorted: bool) -> (written: Result<
    String,
    NixDocError,
>)
    ensures
        exists|arranged: Seq<OptionRecord>| #[trigger]
            is_arranged(records_of(options@), arranged, sorted) && written_view(written)
                == document_of(arranged, format),
{
    let arranged = if sorted {
        sort_options(options)
    } else {
        copy_docs(options)
    };
    assert(is_arranged(records_of(options@), records_of(arranged@), sorted));
    match format {
        OutputFormat::Markdown => Ok(generate_markdown(arranged.as_slice())),
        OutputFormat::Json => generate_json(arranged.as_slice()),
        OutputFormat::Html => generate_html(arranged.as_slice()),
        OutputFormat::Csv => generate_csv(arranged.as_slice()),
    }
}

} // verus!
