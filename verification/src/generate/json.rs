//! The documentation as JSON: an array with an object for each option.

use vstd::prelude::*;
use vstd::string::StringExecFns;
use crate::error::{ErrorView, NixDocError};
use crate::record::{records_of, OptionDoc, OptionRecord};
use crate::types::display;

verus! {

/// A value of a member of an object.
#[derive(Debug)]
pub enum JsonValue {
    /// No value.
    Null,
    /// A text.
    Text(String),
    /// A number.
    Number(usize),
}

/// What a `JsonValue` stands for.
pub ghost enum JsonData {
    Null,
    Text(Seq<char>),
    Number(nat),
}

impl View for JsonValue {
    type V = JsonData;

    open spec fn view(&self) -> JsonData {
        match self {
            JsonValue::Null => JsonData::Null,
            JsonValue::Text(text) => JsonData::Text(text@),
            JsonValue::Number(number) => JsonData::Number(*number as nat),
        }
    }
}

/// What the members of an object hold: for each its key and its value.
pub open spec fn members_of(members: Seq<(String, JsonValue)>) -> Seq<(Seq<char>, JsonData)> {
    members.map_values(|member: (String, JsonValue)| (member.0@, member.1@))
}

/// What a sequence of objects holds.
pub open spec fn objects_of(objects: Seq<Vec<(String, JsonValue)>>) -> Seq<
    Seq<(Seq<char>, JsonData)>,
> {
    objects.map_values(|members: Vec<(String, JsonValue)>| members_of(members@))
}

/// The text of an array of the given objects, each with its members in the
/// given order, set with line breaks and indentation: what
/// `serde_json::to_string_pretty` returns for it. An error is the text that
/// describes it.
pub uninterp spec fn pretty_json_of(objects: Seq<Seq<(Seq<char>, JsonData)>>) -> Result<
    Seq<char>,
    Seq<char>,
>;

/// What the result of writing JSON stands for.
pub open spec fn json_view(written: Result<String, String>) -> Result<Seq<char>, Seq<char>> {
    match written {
        Ok(text) => Ok(text@),
        Err(message) => Err(message@),
    }
}

/// `serde_json::to_string_pretty` on a `serde_json::Value`: writes an array
/// of objects, each with its members in the order given.
#[verifier::external_body]
pub(crate) fn pretty_json(objects: &Vec<Vec<(String, JsonValue)>>) -> (written: Result<
    String,
    String,
>)
    ensures
        json_view(written) == pretty_json_of(objects_of(objects@)),
{
    let values: Vec<serde_json::Value> = objects.iter().map(
        |members| serde_json::Value::Object(
            members.iter().map(
                |(key, value)| (key.clone(), match value {
                    JsonValue::Null => serde_json::Value::Null,
                    JsonValue::Text(text) => serde_json::Value::String(text.clone()),
                    JsonValue::Number(number) => serde_json::Value::from(*number),
                }),
            ).collect(),
        ),
    ).collect();
    serde_json::to_string_pretty(&values).map_err(|e| e.to_string())
}

/// The value of an optional text: the text, and null where there is none.
pub open spec fn text_or_null(text: Option<Seq<char>>) -> JsonData {
    match text {
        Some(found) => JsonData::Text(found),
        None => JsonData::Null,
    }
}

/// The members of the object of one option, in order.
pub open spec fn record_members(record: OptionRecord) -> Seq<(Seq<char>, JsonData)> {
    seq![
        ("name"@, JsonData::Text(record.name)),
        ("description"@, text_or_null(record.description)),
        ("nix_type"@, JsonData::Text(display(record.nix_type))),
        ("default_value"@, text_or_null(record.default_value)),
        ("example"@, text_or_null(record.example)),
        ("file_path"@, JsonData::Text(record.file_path)),
        ("line_number"@, JsonData::Number(record.line_number)),
    ]
}

/// The objects of `records`, one for one.
pub open spec fn record_objects(records: Seq<OptionRecord>) -> Seq<Seq<(Seq<char>, JsonData)>> {
    records.map_values(|record: OptionRecord| record_members(record))
}

/// The whole document, or the error of writing it.
pub open spec fn json_of(records: Seq<OptionRecord>) -> Result<Seq<char>, ErrorView> {
    match pretty_json_of(record_objects(records)) {
        Ok(text) => Ok(text),
        Err(message) => Err(ErrorView::Serialization(message)),
    }
}

/// The value of an optional text.
fn value_of(text: &Option<String>) -> (value: JsonValue)
    ensures
        value@ == text_or_null(crate::record::text_of(*text)),
{
    match text {
        Some(found) => JsonValue::Text(found.clone()),
        None => JsonValue::Null,
    }
}

/// The members of the object of one option.
pub fn members_of_record(option: &OptionDoc) -> (members: Vec<(String, JsonValue)>)
    ensures
        members_of(members@) == record_members(option@),
{
    let mut members: Vec<(String, JsonValue)> = Vec::new();
    members.push((String::from_str("name"), JsonValue::Text(option.name.clone())));
    members.push((String::from_str("description"), value_of(&option.description)));
    members.push((String::from_str("nix_type"), JsonValue::Text(option.nix_type.to_string())));
    members.push((String::from_str("default_value"), value_of(&option.default_value)));
    members.push((String::from_str("example"), value_of(&option.example)));
    members.push((String::from_str("file_path"), JsonValue::Text(option.file_path.clone())));
    members.push((String::from_str("line_number"), JsonValue::Number(option.line_number)));
    assert(members_of(members@) =~= record_members(option@));
    members
}

/// Writes the documentation of `options` as JSON.
pub fn generate_json(options: &[OptionDoc]) -> (out: Result<String, NixDocError>)
    ensures
        match out {
            Ok(text) => json_of(records_of(options@)) == Ok::<Seq<char>, ErrorView>(text@),
            Err(error) => json_of(records_of(options@)) == Err::<Seq<char>, ErrorView>(error@),
        },
{
    let mut objects: Vec<Vec<(String, JsonValue)>> = Vec::new();
    let mut i: usize = 0;
    while i < options.len()
        invariant
            i <= options.len(),
            objects@.len() == i,
            forall|j: int|
                0 <= j < i ==> members_of((#[trigger] objects@[j])@) == record_members(
                    options@[j]@,
                ),
        decreases options.len() - i,
    {
        objects.push(members_of_record(&options[i]));
        i += 1;
    }
    assert(objects_of(objects@) =~= record_objects(records_of(options@)));
    match pretty_json(&objects) {
        Ok(text) => Ok(text),
        Err(message) => Err(NixDocError::Serialization(message)),
    }
}

} // verus!
