//! The documentation as a page of HTML: a heading, then a block for each
//! option. The descriptions are Markdown and are rendered to HTML.

use vstd::prelude::*;
use vstd::string::StringExecFns;
use crate::generate::markdown::{is_block, needs_block, PACKAGE_NAME};
use crate::error::NixDocError;
use crate::record::{records_of, text_of, OptionDoc, OptionRecord};
use crate::strings::{chars_of, decimal, decimal_of, string_of};
use crate::types::display;

verus! {

/// The beginning of the page, up to the heading.
pub const HTML_TEMPLATE_HEADER: &'static str = "<!DOCTYPE html>
<html lang=\"en\">
<head>
    <meta charset=\"UTF-8\">
    <meta name=\"viewport\" content=\"width=device-width, initial-scale=1.0\">
    <title>NixOS Module Options</title>
    <style>
        body { 
            font-family: system-ui, -apple-system, sans-serif; 
            margin: 40px auto; 
            max-width: 800px; 
            line-height: 1.6; 
            color: #333; 
            padding: 0 10px; 
        }
        h1 { margin-bottom: 1.5em; }
        .option { 
            margin-bottom: 2.5em; 
            padding-bottom: 1.5em; 
            border-bottom: 1px solid #eee; 
        }
        h2 { margin-top: 0; }
        .option-name { font-family: monospace; }
        a { color: #0366d6; text-decoration: none; }
        a:hover { text-decoration: underline; }
        pre { 
            background-color: #f6f8fa; 
            padding: 16px; 
            border-radius: 6px; 
            overflow: auto; 
        }
        code {
            font-family: ui-monospace, monospace;
            background-color: rgba(175, 184, 193, 0.2);
            padding: 0.2em 0.4em;
            border-radius: 3px;
        }
        pre code {
            background-color: transparent;
            padding: 0;
            border-radius: 0;
            font-family: inherit;
        }
        .metadata { margin-top: 1em; }
        .footer { 
            margin-top: 3em; 
            text-align: center; 
            color: #666; 
            font-size: 0.9em; 
        }
        .code-container {
            margin-top: 0.5em;
            margin-bottom: 0.5em;
        }
        .code-multiline {
            background-color: #f6f8fa;
            border-radius: 6px;
            padding: 1em;
            margin: 0;
            overflow: auto;
            font-family: ui-monospace, monospace;
        }
        .markdown-alert {
            padding: 0.5rem 1rem;
            margin-bottom: 16px;
            border-radius: 6px;
            border-left: 0.25rem solid #d0d7de;
            background-color: #f6f8fa;
        }
        .markdown-alert p {
            margin: 0.5rem 0;
        }
        .markdown-alert-title {
            font-weight: bold;
            margin-bottom: 0.5rem !important;
            text-transform: uppercase;
        }
        .markdown-alert-note {
            border-left-color: #1F6FEB;
            background-color: rgba(31, 111, 235, 0.1);
        }
        .markdown-alert-tip {
            border-left-color: #2DA44E;
            background-color: rgba(45, 164, 78, 0.1);
        }
        .markdown-alert-important {
            border-left-color: #8250DF;
            background-color: rgba(130, 80, 223, 0.1);
        }
        .markdown-alert-warning {
            border-left-color: #9A6700;
            background-color: rgba(154, 103, 0, 0.1);
        }
        .markdown-alert-caution {
            border-left-color: #CF222E;
            background-color: rgba(207, 34, 46, 0.1);
        }
    </style>
</head>
<body>
    <h1>NixOS Module Options</h1>
";

/// What one character is written as in the text of a page: `&`, `<` and `>`
/// as their entities, any other character as itself.
pub open spec fn escaped_char(c: char) -> Seq<char> {
    if c == '&' {
        "&amp;"@
    } else if c == '<' {
        "&lt;"@
    } else if c == '>' {
        "&gt;"@
    } else {
        seq![c]
    }
}

/// `text` as it is written in the text of a page.
pub open spec fn escaped(text: Seq<char>) -> Seq<char>
    decreases text.len(),
{
    if text.len() == 0 {
        Seq::empty()
    } else {
        escaped(text.drop_last()) + escaped_char(text.last())
    }
}

/// `html_escape::encode_text`: replaces `&` by `&amp;`, `<` by `&lt;` and
/// `>` by `&gt;`, and keeps every other character.
#[verifier::external_body]
pub(crate) fn encode_text(text: &str) -> (out: String)
    ensures
        out@ == escaped(text@),
{
    html_escape::encode_text(text).into_owned()
}

/// The HTML that the Markdown `text` is rendered as: what
/// `comrak::markdown_to_html` returns for it, with strikethrough, tables,
/// autolinks, task lists and alerts switched on and raw HTML let through.
pub uninterp spec fn rendered_markdown(text: Seq<char>) -> Seq<char>;

/// `comrak::markdown_to_html`: renders Markdown to HTML, with the
/// extensions for strikethrough, tables, autolinks, task lists and alerts,
/// and with raw HTML let through.
#[verifier::external_body]
pub(crate) fn markdown_to_html(text: &str) -> (html: String)
    ensures
        html@ == rendered_markdown(text@),
{
    let mut options = comrak::Options::default();
    options.extension.strikethrough = true;
    options.extension.table = true;
    options.extension.autolink = true;
    options.extension.tasklist = true;
    options.extension.alerts = true;
    options.render = comrak::options::Render::builder().maybe_unsafe(Some(true)).build();
    comrak::markdown_to_html(text, &options)
}

/// The name of an option as the anchor of its block: each dot and each
/// colon is a hyphen.
pub open spec fn slug(name: Seq<char>) -> Seq<char> {
    name.map_values(|c: char| if c == '.' || c == ':' { '-' } else { c })
}

/// A value with its label: as a block of its own where it is long, and
/// within the line else.
pub open spec fn metadata(label: Seq<char>, value: Seq<char>) -> Seq<char> {
    if is_block(value) {
        "        <div class=\"metadata\">\n            <strong>"@ + label
            + ":</strong>\n            <div class=\"code-container\">\n                <pre class=\"code-multiline\"><code>"@
            + escaped(value) + "</code></pre>\n            </div>\n        </div>\n"@
    } else {
        "        <div class=\"metadata\">\n            <strong>"@ + label + ":</strong> <code>"@
            + escaped(value) + "</code>\n        </div>\n"@
    }
}

/// The beginning of the block of one option: its name as a heading that
/// links to the line of its declaration.
pub open spec fn block_heading(record: OptionRecord) -> Seq<char> {
    "    <div class=\"option\" id=\""@ + escaped(slug(record.name))
        + "\">\n        <h2><a href=\""@ + escaped(record.file_path) + "#L"@ + decimal(
        record.line_number,
    ) + "\" class=\"option-name\">"@ + escaped(record.name) + "</a></h2>\n"@
}

/// The description of an option within its block, rendered to HTML.
pub open spec fn description_block(description: Option<Seq<char>>) -> Seq<char> {
    match description {
        Some(text) => "        <div class=\"metadata\">\n            "@ + rendered_markdown(text)
            + "\n        </div>\n"@,
        None => Seq::empty(),
    }
}

/// A value with its label where there is a value, and nothing else.
pub open spec fn optional_metadata(label: Seq<char>, value: Option<Seq<char>>) -> Seq<char> {
    match value {
        Some(found) => metadata(label, found),
        None => Seq::empty(),
    }
}

/// The block of one option: its heading, its description, its type, its
/// default and its example, as far as it has them.
pub open spec fn option_block(record: OptionRecord) -> Seq<char> {
    block_heading(record) + description_block(record.description) + metadata(
        "Type"@,
        display(record.nix_type),
    ) + optional_metadata("Default"@, record.default_value) + optional_metadata(
        "Example"@,
        record.example,
    ) + "    </div>\n\n"@
}

/// The blocks of `records`, one after another.
pub open spec fn option_blocks(records: Seq<OptionRecord>) -> Seq<char>
    decreases records.len(),
{
    if records.len() == 0 {
        Seq::empty()
    } else {
        option_blocks(records.drop_last()) + option_block(records.last())
    }
}

/// The end of the page.
pub open spec fn page_footer() -> Seq<char> {
    "    <div class=\"footer\">\n        <p>Generated with <a href=\""@ + PACKAGE_NAME@ + "\">"@
        + PACKAGE_NAME@ + "</a></p>\n    </div>\n</body>\n</html>"@
}

/// The whole page: its beginning, the blocks of the options, and its end.
pub open spec fn page_of(records: Seq<OptionRecord>) -> Seq<char> {
    HTML_TEMPLATE_HEADER@ + option_blocks(records) + page_footer()
}

/// The name of an option as the anchor of its block.
fn slug_of(name: &str) -> (out: String)
    ensures
        out@ == slug(name@),
{
    let chars = chars_of(name);
    let mut out: Vec<char> = Vec::new();
    let mut i: usize = 0;
    while i < chars.len()
        invariant
            i <= chars.len(),
            chars@ == name@,
            out@ == slug(name@).take(i as int),
        decreases chars.len() - i,
    {
        let c = chars[i];
        if c == '.' || c == ':' {
            out.push('-');
        } else {
            out.push(c);
        }
        i += 1;
    }
    string_of(&out)
}

/// Formats a value with its label as a block of its own.
pub fn format_multiline_block(label: &str, content: &str) -> (out: String)
    ensures
        out@ == "        <div class=\"metadata\">\n            <strong>"@ + label@
            + ":</strong>\n            <div class=\"code-container\">\n                <pre class=\"code-multiline\"><code>"@
            + escaped(content@) + "</code></pre>\n            </div>\n        </div>\n"@,
{
    let mut out = String::from_str("        <div class=\"metadata\">\n            <strong>");
    out.append(label);
    out.append(
        ":</strong>\n            <div class=\"code-container\">\n                <pre class=\"code-multiline\"><code>",
    );
    out.append(encode_text(content).as_str());
    out.append("</code></pre>\n            </div>\n        </div>\n");
    out
}

/// Formats a value with its label within the line.
pub fn format_inline_code(label: &str, content: &str) -> (out: String)
    ensures
        out@ == "        <div class=\"metadata\">\n            <strong>"@ + label@
            + ":</strong> <code>"@ + escaped(content@) + "</code>\n        </div>\n"@,
{
    let mut out = String::from_str("        <div class=\"metadata\">\n            <strong>");
    out.append(label);
    out.append(":</strong> <code>");
    out.append(encode_text(content).as_str());
    out.append("</code>\n        </div>\n");
    out
}

/// Appends a value with its label to `out`.
fn push_metadata(out: &mut String, label: &str, value: &str)
    ensures
        final(out)@ == old(out)@ + metadata(label@, value@),
{
    if needs_block(value) {
        out.append(format_multiline_block(label, value).as_str());
    } else {
        out.append(format_inline_code(label, value).as_str());
    }
}

/// Appends the heading of the block of one option to `out`.
fn push_heading(out: &mut String, option: &OptionDoc)
    ensures
        final(out)@ == old(out)@ + block_heading(option@),
{
    let mut heading = String::from_str("    <div class=\"option\" id=\"");
    heading.append(encode_text(slug_of(option.name.as_str()).as_str()).as_str());
    heading.append("\">\n        <h2><a href=\"");
    heading.append(encode_text(option.file_path.as_str()).as_str());
    heading.append("#L");
    heading.append(decimal_of(option.line_number).as_str());
    heading.append("\" class=\"option-name\">");
    heading.append(encode_text(option.name.as_str()).as_str());
    heading.append("</a></h2>\n");
    out.append(heading.as_str());
}

/// Appends the description of an option, rendered to HTML, to `out`.
fn push_description(out: &mut String, description: &Option<String>)
    ensures
        final(out)@ == old(out)@ + description_block(text_of(*description)),
{
    match description {
        Some(text) => {
            let mut block = String::from_str("        <div class=\"metadata\">\n            ");
            block.append(markdown_to_html(text.as_str()).as_str());
            block.append("\n        </div>\n");
            out.append(block.as_str());
        },
        None => {},
    }
}

/// Appends a value with its label to `out` where there is a value.
fn push_optional(out: &mut String, label: &str, value: &Option<String>)
    ensures
        final(out)@ == old(out)@ + optional_metadata(label@, text_of(*value)),
{
    match value {
        Some(found) => {
            push_metadata(out, label, found.as_str());
        },
        None => {},
    }
}

/// Appends the block of one option to `out`.
fn push_block(out: &mut String, option: &OptionDoc)
    ensures
        final(out)@ == old(out)@ + option_block(option@),
{
    let mut block = String::new();
    push_heading(&mut block, option);
    push_description(&mut block, &option.description);
    push_metadata(&mut block, "Type", option.nix_type.to_string().as_str());
    push_optional(&mut block, "Default", &option.default_value);
    push_optional(&mut block, "Example", &option.example);
    block.append("    </div>\n\n");
    out.append(block.as_str());
}

/// Writes the documentation of `options` as a page of HTML.
pub fn generate_html(options: &[OptionDoc]) -> (out: Result<String, NixDocError>)
    ensures
        out matches Ok(text) && text@ == page_of(records_of(options@)),
{
    let ghost all = records_of(options@);
    let mut out = String::from_str(HTML_TEMPLATE_HEADER);
    assert(all.take(0) =~= Seq::<OptionRecord>::empty());
    assert(out@ =~= HTML_TEMPLATE_HEADER@ + option_blocks(all.take(0)));
    let mut i: usize = 0;
    while i < options.len()
        invariant
            i <= options.len(),
            all == records_of(options@),
            out@ == HTML_TEMPLATE_HEADER@ + option_blocks(all.take(i as int)),
        decreases options.len() - i,
    {
        proof {
            assert(all.take(i + 1).drop_last() =~= all.take(i as int));
        }
        push_block(&mut out, &options[i]);
        i += 1;
    }
    assert(all.take(options.len() as int) =~= all);
    out.append("    <div class=\"footer\">\n        <p>Generated with <a href=\"");
    out.append(PACKAGE_NAME);
    out.append("\">");
    out.append(PACKAGE_NAME);
    out.append("</a></p>\n    </div>\n</body>\n</html>");
    Ok(out)
}

} // verus!
