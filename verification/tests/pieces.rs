use nix_options_doc::error::NixDocError;
use nix_options_doc::generate::csv::{error_of, fields_of_record, CsvFailure};
use nix_options_doc::generate::html::{format_inline_code, format_multiline_block};
use nix_options_doc::generate::markdown::needs_block;
use nix_options_doc::pattern::interleave;
use nix_options_doc::record::{holds_name, insert_record, keep_first};
use nix_options_doc::replacements::Replacements;
use nix_options_doc::strings::decimal_of;
use nix_options_doc::types::NixType;
use nix_options_doc::utils::{
    fill_admonitions, fill_code_spans, fill_placeholders, label_of, make_callout,
};
use nix_options_doc::OptionDoc;

fn texts(items: &[&str]) -> Vec<String> {
    items.iter().map(|s| s.to_string()).collect()
}

fn groups(items: &[Option<&str>]) -> Vec<Option<String>> {
    items.iter().map(|s| s.map(|t| t.to_string())).collect()
}

fn option(name: &str, description: &str) -> OptionDoc {
    OptionDoc {
        name: name.to_string(),
        description: Some(description.to_string()),
        nix_type: NixType::Bool,
        default_value: None,
        example: None,
        file_path: "f.nix".to_string(),
        line_number: 1,
    }
}

#[test]
fn interleave_takes_gaps_and_fills_in_turn() {
    assert_eq!(interleave(&texts(&["a", "b", "c"]), &texts(&["1", "2"])), "a1b2c");
    assert_eq!(interleave(&texts(&["a"]), &texts(&[])), "a");
    assert_eq!(interleave(&texts(&[]), &texts(&[])), "");
    assert_eq!(interleave(&texts(&["a"]), &texts(&["1", "2", "3"])), "a123");
    assert_eq!(interleave(&texts(&["a", "b", "c"]), &texts(&["1"])), "a1bc");
}

#[test]
fn placeholders_are_filled_from_the_table() {
    let mut table = Replacements::new();
    table.insert("x".to_string(), "VALUE".to_string());
    let matches = vec![
        groups(&[Some("${x}"), Some("x")]),
        groups(&[Some("${y}"), Some("y")]),
        groups(&[Some("${x}"), None]),
        groups(&[None, Some("x")]),
        groups(&[]),
    ];
    let gaps = texts(&["<", "|", "|", "|", "|", ">"]);
    assert_eq!(fill_placeholders(&gaps, &matches, &table), "<VALUE|${y}|${x}|VALUE|>");
}

#[test]
fn code_spans_take_the_place_of_roles() {
    let matches = vec![groups(&[Some("{var}`x`"), Some("`x`")]), groups(&[Some("{a}`b`")])];
    assert_eq!(fill_code_spans(&texts(&["see ", " and ", "."]), &matches), "see `x` and .");
}

#[test]
fn admonitions_become_callouts() {
    let matches = vec![
        groups(&[Some(":::{.warning}\n hot \n:::"), Some("warning"), Some("\n hot \n")]),
        groups(&[Some("whole"), Some("other")]),
    ];
    assert_eq!(
        fill_admonitions(&texts(&["a\n", "\nb\n", "\nc"]), &matches),
        "a\n> [!WARNING]  \n> hot\nb\n> [!NOTE]  \n> \nc"
    );
}

#[test]
fn callout_labels() {
    assert_eq!(label_of("note"), "NOTE");
    assert_eq!(label_of("tip"), "TIP");
    assert_eq!(label_of("important"), "IMPORTANT");
    assert_eq!(label_of("warning"), "WARNING");
    assert_eq!(label_of("caution"), "CAUTION");
    assert_eq!(label_of("WaRnInG"), "WARNING");
    assert_eq!(label_of("danger"), "NOTE");
    assert_eq!(label_of("tips"), "NOTE");
    assert_eq!(label_of(""), "NOTE");
}

#[test]
fn callout_quotes_each_line_of_the_trimmed_text() {
    assert_eq!(
        make_callout("tip", "\n  first\n\n```nix\n  x\n```\n "),
        "> [!TIP]  \n> first\n> \n> ```nix\n>   x\n> ```"
    );
    assert_eq!(make_callout("note", ""), "> [!NOTE]  \n> ");
}

#[test]
fn numbers_in_decimal() {
    assert_eq!(decimal_of(0), "0");
    assert_eq!(decimal_of(7), "7");
    assert_eq!(decimal_of(10), "10");
    assert_eq!(decimal_of(1234567890), "1234567890");
    assert_eq!(decimal_of(usize::MAX), usize::MAX.to_string());
}

#[test]
fn blocks_are_for_long_texts_and_texts_of_several_lines() {
    assert!(!needs_block(""));
    assert!(!needs_block(&"x".repeat(72)));
    assert!(needs_block(&"x".repeat(73)));
    assert!(needs_block("a\nb"));
    assert!(needs_block(&"\u{e9}".repeat(37)));
    assert!(!needs_block(&"\u{e9}".repeat(36)));
}

#[test]
fn html_parts() {
    assert_eq!(
        format_inline_code("Type", "a<b"),
        "        <div class=\"metadata\">\n            <strong>Type:</strong> <code>a&lt;b</code>\n        </div>\n"
    );
    assert_eq!(
        format_multiline_block("Default", "1 & 2\n> 3"),
        "        <div class=\"metadata\">\n            <strong>Default:</strong>\n            <div class=\"code-container\">\n                <pre class=\"code-multiline\"><code>1 &amp; 2\n&gt; 3</code></pre>\n            </div>\n        </div>\n"
    );
}

#[test]
fn csv_failures_become_errors() {
    assert!(matches!(error_of(CsvFailure::Write("w".to_string())), NixDocError::Csv(t) if t == "w"));
    assert!(matches!(error_of(CsvFailure::Finish("f".to_string())), NixDocError::Csv(t) if t == "f"));
    assert!(matches!(error_of(CsvFailure::Encoding("e".to_string())), NixDocError::Utf8(t) if t == "e"));
}

#[test]
fn csv_fields_of_a_record() {
    let mut doc = option("a.b", "one\r\ntwo");
    doc.line_number = 42;
    assert_eq!(
        fields_of_record(&doc),
        texts(&["a.b", "boolean", "-", "-", "one two", "f.nix", "42"])
    );
    doc.description = None;
    doc.default_value = Some("d".to_string());
    doc.example = Some("e".to_string());
    assert_eq!(fields_of_record(&doc), texts(&["a.b", "boolean", "d", "e", "-", "f.nix", "42"]));
}

#[test]
fn inserting_replaces_the_record_of_the_same_name() {
    let mut docs = vec![option("a", "1"), option("b", "2"), option("a", "3")];
    insert_record(&mut docs, option("a", "4"));
    let shown: Vec<(String, Option<String>)> =
        docs.iter().map(|d| (d.name.clone(), d.description.clone())).collect();
    assert_eq!(
        shown,
        vec![("b".to_string(), Some("2".to_string())), ("a".to_string(), Some("4".to_string()))]
    );
    insert_record(&mut docs, option("c", "5"));
    assert_eq!(docs.len(), 3);
    assert!(holds_name(&docs, "c"));
    assert!(!holds_name(&docs, "d"));
}

#[test]
fn keeping_the_first_of_each_name() {
    let docs = vec![option("a", "1"), option("b", "2"), option("a", "3"), option("b", "4")];
    let kept = keep_first(docs);
    let shown: Vec<(String, Option<String>)> =
        kept.iter().map(|d| (d.name.clone(), d.description.clone())).collect();
    assert_eq!(
        shown,
        vec![("a".to_string(), Some("1".to_string())), ("b".to_string(), Some("2".to_string()))]
    );
    assert!(keep_first(Vec::new()).is_empty());
}
