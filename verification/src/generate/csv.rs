//! The documentation as comma-separated values: a header, then a line for
//! each option.

use vstd::prelude::*;
use vstd::string::StringExecFns;
use crate::error::{ErrorView, NixDocError};
use crate::record::{records_of, OptionDoc, OptionRecord};
use crate::strings::{
    chars_of, decimal, decimal_of, push_text, replace_char, replaced_char, string_of, texts_of,
};
use crate::types::display;

verus! {

/// Why a record could not be written.
#[derive(Debug)]
pub enum CsvFailure {
    /// The writer refused the record.
    Write(String),
    /// The writer could not hand out what it had written.
    Finish(String),
    /// What was written is no valid UTF-8.
    Encoding(String),
}

/// What a `CsvFailure` stands for.
pub ghost enum CsvFailureView {
    Write(Seq<char>),
    Finish(Seq<char>),
    Encoding(Seq<char>),
}

impl View for CsvFailure {
    type V = CsvFailureView;

    open spec fn view(&self) -> CsvFailureView {
        match self {
            CsvFailure::Write(text) => CsvFailureView::Write(text@),
            CsvFailure::Finish(text) => CsvFailureView::Finish(text@),
            CsvFailure::Encoding(text) => CsvFailureView::Encoding(text@),
        }
    }
}

/// The line that a record of the given fields is written as, with its line
/// end: what a `csv::Writer` with the default settings writes for it.
pub uninterp spec fn csv_line_of(fields: Seq<Seq<char>>) -> Result<Seq<char>, CsvFailureView>;

/// What the result of writing a record stands for.
pub open spec fn line_view(line: Result<String, CsvFailure>) -> Result<Seq<char>, CsvFailureView> {
    match line {
        Ok(text) => Ok(text@),
        Err(failure) => Err(failure@),
    }
}

/// `csv::WriterBuilder::from_writer`, `Writer::write_record` and
/// `Writer::into_inner`: writes one record to a writer of its own and
/// returns what was written.
#[verifier::external_body]
pub(crate) fn csv_line(fields: &Vec<String>) -> (line: Result<String, CsvFailure>)
    ensures
        line_view(line) == csv_line_of(texts_of(fields@)),
{
    let mut writer = csv::WriterBuilder::new().has_headers(true).from_writer(vec![]);
    writer.write_record(fields).map_err(|e| CsvFailure::Write(e.to_string()))?;
    let data = writer.into_inner().map_err(|e| CsvFailure::Finish(e.to_string()))?;
    String::from_utf8(data).map_err(|e| CsvFailure::Encoding(e.to_string()))
}

/// The fields of the header.
pub open spec fn header_fields() -> Seq<Seq<char>> {
    seq![
        "Option"@,
        "Type"@,
        "Default"@,
        "Example"@,
        "Description"@,
        "FilePath"@,
        "LineNumber"@,
    ]
}

/// The text of an optional field, and `-` where there is none.
pub open spec fn or_dash(text: Option<Seq<char>>) -> Seq<char> {
    match text {
        Some(found) => found,
        None => "-"@,
    }
}

/// A description on one line: each line feed is a blank, and carriage
/// returns are dropped.
pub open spec fn flattened(description: Seq<char>) -> Seq<char> {
    replaced_char(replaced_char(description, '\n', " "@), '\r', Seq::empty())
}

/// The fields of the line of one option.
pub open spec fn record_fields(record: OptionRecord) -> Seq<Seq<char>> {
    seq![
        record.name,
        display(record.nix_type),
        or_dash(record.default_value),
        or_dash(record.example),
        match record.description {
            Some(description) => flattened(description),
            None => "-"@,
        },
        record.file_path,
        decimal(record.line_number),
    ]
}

/// The error that a failure to write a record ends the run with.
pub open spec fn failure_error(failure: CsvFailureView) -> ErrorView {
    match failure {
        CsvFailureView::Write(text) => ErrorView::Csv(text),
        CsvFailureView::Finish(text) => ErrorView::Csv(text),
        CsvFailureView::Encoding(text) => ErrorView::Utf8(text),
    }
}

/// The lines of `records` one after another, or the error of the first
/// record that could not be written.
pub open spec fn record_lines(records: Seq<OptionRecord>) -> Result<Seq<char>, ErrorView>
    decreases records.len(),
{
    if records.len() == 0 {
        Ok(Seq::empty())
    } else {
        match record_lines(records.drop_last()) {
            Ok(lines) => match csv_line_of(record_fields(records.last())) {
                Ok(line) => Ok(lines + line),
                Err(failure) => Err(failure_error(failure)),
            },
            Err(error) => Err(error),
        }
    }
}

/// The whole document: the header line, then the lines of the records; or
/// the error of the first line that could not be written.
pub open spec fn csv_of(records: Seq<OptionRecord>) -> Result<Seq<char>, ErrorView> {
    match csv_line_of(header_fields()) {
        Ok(header) => match record_lines(records) {
            Ok(lines) => Ok(header + lines),
            Err(error) => Err(error),
        },
        Err(failure) => Err(failure_error(failure)),
    }
}

/// The error that a failure to write a record ends the run with.
pub fn error_of(failure: CsvFailure) -> (error: NixDocError)
    ensures
        error@ == failure_error(failure@),
{
    match failure {
        CsvFailure::Write(text) => NixDocError::Csv(text),
        CsvFailure::Finish(text) => NixDocError::Csv(text),
        CsvFailure::Encoding(text) => NixDocError::Utf8(text),
    }
}

/// The text of an optional field, and `-` where there is none.
fn text_or_dash(text: &Option<String>) -> (out: String)
    ensures
        out@ == or_dash(crate::record::text_of(*text)),
{
    match text {
        Some(found) => found.clone(),
        None => String::from_str("-"),
    }
}

/// The fields of the line of one option.
pub fn fields_of_record(option: &OptionDoc) -> (fields: Vec<String>)
    ensures
        texts_of(fields@) == record_fields(option@),
{
    let mut fields: Vec<String> = Vec::new();
    push_text(&mut fields, option.name.clone());
    push_text(&mut fields, option.nix_type.to_string());
    push_text(&mut fields, text_or_dash(&option.default_value));
    push_text(&mut fields, text_or_dash(&option.example));
    let description = match &option.description {
        Some(description) => {
            proof {
                reveal_strlit("");
                assert(""@ =~= Seq::<char>::empty());
            }
            let spaced = replace_char(&chars_of(description.as_str()), '\n', &chars_of(" "));
            string_of(&replace_char(&spaced, '\r', &chars_of("")))
        },
        None => String::from_str("-"),
    };
    push_text(&mut fields, description);
    push_text(&mut fields, option.file_path.clone());
    push_text(&mut fields, decimal_of(option.line_number));
    fields
}

/// Writes the documentation of `options` as comma-separated values.
pub fn generate_csv(options: &[OptionDoc]) -> (out: Result<String, NixDocError>)
    ensures
        match out {
            Ok(text) => csv_of(records_of(options@)) == Ok::<Seq<char>, ErrorView>(text@),
            Err(error) => csv_of(records_of(options@)) == Err::<Seq<char>, ErrorView>(error@),
        },
{
    let ghost all = records_of(options@);
    let mut header: Vec<String> = Vec::new();
    push_text(&mut header, String::from_str("Option"));
    push_text(&mut header, String::from_str("Type"));
    push_text(&mut header, String::from_str("Default"));
    push_text(&mut header, String::from_str("Example"));
    push_text(&mut header, String::from_str("Description"));
    push_text(&mut header, String::from_str("FilePath"));
    push_text(&mut header, String::from_str("LineNumber"));
    assert(texts_of(header@) =~= header_fields());
    let mut out = match csv_line(&header) {
        Ok(line) => line,
        Err(failure) => {
            return Err(error_of(failure));
        },
    };
    let ghost first = out@;
    let mut i: usize = 0;
    while i < options.len()
        invariant
            i <= options.len(),
            all == records_of(options@),
            csv_line_of(header_fields()) == Ok::<Seq<char>, CsvFailureView>(first),
            record_lines(all.take(i as int)) is Ok,
            out@ == first + record_lines(all.take(i as int))->Ok_0,
        decreases options.len() - i,
    {
        proof {
            assert(all.take(i + 1).drop_last() =~= all.take(i as int));
        }
        let fields = fields_of_record(&options[i]);
        match csv_line(&fields) {
            Ok(line) => {
                out.append(line.as_str());
            },
            Err(failure) => {
                proof {
                    lemma_failure_stays(all, i + 1);
                }
                return Err(error_of(failure));
            },
        }
        i += 1;
    }
    assert(all.take(options.len() as int) =~= all);
    Ok(out)
}

/// Once a record could not be written, no later record changes the error.
proof fn lemma_failure_stays(records: Seq<OptionRecord>, count: int)
    requires
        0 <= count <= records.len(),
        record_lines(records.take(count)) is Err,
    ensures
        record_lines(records) == record_lines(records.take(count)),
    decreases records.len() - count,
{
    if count == records.len() {
        assert(records.take(count) =~= records);
    } else {
        assert(records.drop_last().take(count) =~= records.take(count));
        lemma_failure_stays(records.drop_last(), count);
    }
}

} // verus!
