//! The documentation as Markdown: a heading, then a section for each option.

use vstd::prelude::*;
use vstd::string::StringExecFns;
use crate::record::{records_of, text_of, OptionDoc, OptionRecord};
use crate::strings::{chars_of, decimal, decimal_of, replace_char, replaced_char, string_of};
use crate::types::display;

verus! {

/// The name under which the documentation names its source.
pub const PACKAGE_NAME: &'static str = "nix-options-doc";

/// Whether a text is set as a block of code and not within the line:
/// whether it holds a line break or is longer than 72 bytes.
pub open spec fn is_block(text: Seq<char>) -> bool {
    text.contains('\n') || vstd::utf8::encode_utf8(text).len() > 72
}

/// A value with its label: as a block of code where it is long, and within
/// the line else. `closing` is what stands between the value and the end of
/// the block.
pub open spec fn labelled(label: Seq<char>, value: Seq<char>, closing: Seq<char>) -> Seq<char> {
    if is_block(value) {
        "\n**"@ + label + ":**\n\n```nix\n"@ + value + closing + "```\n"@
    } else {
        "\n**"@ + label + ":** `"@ + value + "`\n"@
    }
}

/// The type of an option with its label. Within the line, each backtick of
/// the type has a backslash before it.
pub open spec fn labelled_type(shown: Seq<char>) -> Seq<char> {
    if is_block(shown) {
        "\n**Type:**\n\n```nix\n"@ + shown + "```\n"@
    } else {
        "\n**Type:** `"@ + replaced_char(shown, '`', "\\`"@) + "`\n"@
    }
}

/// The heading of the section of one option: its name, linked to the line
/// of its declaration.
pub open spec fn section_heading(record: OptionRecord) -> Seq<char> {
    "\n## [`"@ + record.name + "`]("@ + record.file_path + "#L"@ + decimal(record.line_number)
        + ")\n"@
}

/// The description of an option within its section.
pub open spec fn description_part(description: Option<Seq<char>>) -> Seq<char> {
    match description {
        Some(text) => "\n"@ + text + "\n"@,
        None => Seq::empty(),
    }
}

/// A value with its label where there is a value, and nothing else.
pub open spec fn optional_labelled(
    label: Seq<char>,
    value: Option<Seq<char>>,
    closing: Seq<char>,
) -> Seq<char> {
    match value {
        Some(found) => labelled(label, found, closing),
        None => Seq::empty(),
    }
}

/// The section of one option: its heading, then its description, its type,
/// its default and its example, as far as it has them.
pub open spec fn section(record: OptionRecord) -> Seq<char> {
    section_heading(record) + description_part(record.description) + labelled_type(
        display(record.nix_type),
    ) + optional_labelled("Default"@, record.default_value, Seq::empty()) + optional_labelled(
        "Example"@,
        record.example,
        "\n"@,
    )
}

/// The sections of `records`, one after another.
pub open spec fn sections(records: Seq<OptionRecord>) -> Seq<char>
    decreases records.len(),
{
    if records.len() == 0 {
        Seq::empty()
    } else {
        sections(records.drop_last()) + section(records.last())
    }
}

/// The whole document: the heading, the sections, and the closing line.
pub open spec fn markdown_of(records: Seq<OptionRecord>) -> Seq<char> {
    "# NixOS Module Options\n\n"@ + sections(records) + "\n---\n*Generated with ["@ + PACKAGE_NAME@
        + "]("@ + PACKAGE_NAME@ + ")*\n"@
}

/// Whether a text is set as a block of code.
pub fn needs_block(text: &str) -> (block: bool)
    ensures
        block == is_block(text@),
{
    if text.as_bytes().len() > 72 {
        return true;
    }
    let chars = chars_of(text);
    let mut i: usize = 0;
    while i < chars.len()
        invariant
            i <= chars.len(),
            chars@ == text@,
            vstd::utf8::encode_utf8(text@).len() <= 72,
            forall|j: int| 0 <= j < i ==> chars@[j] != '\n',
        decreases chars.len() - i,
    {
        if chars[i] == '\n' {
            return true;
        }
        i += 1;
    }
    false
}

/// Appends a value with its label to `out`.
fn push_labelled(out: &mut String, label: &str, value: &str, closing: &str)
    ensures
        final(out)@ == old(out)@ + labelled(label@, value@, closing@),
{
    let ghost before = out@;
    if needs_block(value) {
        out.append("\n**");
        out.append(label);
        out.append(":**\n\n```nix\n");
        out.append(value);
        out.append(closing);
        out.append("```\n");
        assert(out@ =~= before + labelled(label@, value@, closing@));
    } else {
        out.append("\n**");
        out.append(label);
        out.append(":** `");
        out.append(value);
        out.append("`\n");
    }
}

/// Appends the type of an option with its label to `out`.
fn push_type(out: &mut String, shown: &str)
    ensures
        final(out)@ == old(out)@ + labelled_type(shown@),
{
    let ghost before = out@;
    if needs_block(shown) {
        out.append("\n**Type:**\n\n```nix\n");
        out.append(shown);
        out.append("```\n");
    } else {
        out.append("\n**Type:** `");
        let escaped = replace_char(&chars_of(shown), '`', &chars_of("\\`"));
        out.append(string_of(&escaped).as_str());
        out.append("`\n");
        assert(out@ =~= before + labelled_type(shown@));
    }
}

/// Appends the heading of the section of one option to `out`.
fn push_heading(out: &mut String, option: &OptionDoc)
    ensures
        final(out)@ == old(out)@ + section_heading(option@),
{
    let mut heading = String::from_str("\n## [`");
    heading.append(option.name.as_str());
    heading.append("`](");
    heading.append(option.file_path.as_str());
    heading.append("#L");
    heading.append(decimal_of(option.line_number).as_str());
    heading.append(")\n");
    out.append(heading.as_str());
}

/// Appends the description of an option to `out`.
fn push_description(out: &mut String, description: &Option<String>)
    ensures
        final(out)@ == old(out)@ + description_part(text_of(*description)),
{
    match description {
        Some(text) => {
            let mut part = String::from_str("\n");
            part.append(text.as_str());
            part.append("\n");
            out.append(part.as_str());
        },
        None => {
            assert(out@ + Seq::<char>::empty() =~= out@);
        },
    }
}

/// Appends a value with its label to `out` where there is a value.
fn push_optional(out: &mut String, label: &str, value: &Option<String>, closing: &str)
    ensures
        final(out)@ == old(out)@ + optional_labelled(label@, text_of(*value), closing@),
{
    match value {
        Some(found) => {
            push_labelled(out, label, found.as_str(), closing);
        },
        None => {
            assert(out@ + Seq::<char>::empty() =~= out@);
        },
    }
}

/// Appends the section of one option to `out`.
fn push_section(out: &mut String, option: &OptionDoc)
    ensures
        final(out)@ == old(out)@ + section(option@),
{
    let mut part = String::new();
    push_heading(&mut part, option);
    push_description(&mut part, &option.description);
    push_type(&mut part, option.nix_type.to_string().as_str());
    proof {
        reveal_strlit("");
        assert(""@ =~= Seq::<char>::empty());
    }
    push_optional(&mut part, "Default", &option.default_value, "");
    push_optional(&mut part, "Example", &option.example, "\n");
    out.append(part.as_str());
}

/// Writes the documentation of `options` as Markdown.
pub fn generate_markdown(options: &[OptionDoc]) -> (out: String)
    ensures
        out@ == markdown_of(records_of(options@)),
{
    let ghost all = records_of(options@);
    let mut out = String::from_str("# NixOS Module Options\n\n");
    let mut i: usize = 0;
    while i < options.len()
        invariant
            i <= options.len(),
            all == records_of(options@),
            out@ == "# NixOS Module Options\n\n"@ + sections(all.take(i as int)),
        decreases options.len() - i,
    {
        proof {
            assert(all.take(i + 1).drop_last() =~= all.take(i as int));
        }
        push_section(&mut out, &options[i]);
        i += 1;
    }
    assert(all.take(options.len() as int) =~= all);
    out.append("\n---\n*Generated with [");
    out.append(PACKAGE_NAME);
    out.append("](");
    out.append(PACKAGE_NAME);
    out.append(")*\n");
    out
}

} // verus!
