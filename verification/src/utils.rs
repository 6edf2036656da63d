//! Text transformations that turn the source text of a declaration into the
//! text that is shown for it.

use vstd::prelude::*;
use vstd::string::StringExecFns;
use crate::pattern::{
    all_groups_of, capture_text, groups_of, interleave, interleaved, match_groups, split_parts,
    split_text,
};
use crate::replacements::Replacements;
use crate::strings::{
    chars_of, copy_range, find_first, find_in, find_last, has_prefix, lemma_find_back_from,
    lemma_find_from, matches_at, matches_ignoring_case, prefix_lines, rfind_in,
    same_ignoring_case, string_of, texts_of, trim, trim_chars, with_line_prefix,
};

verus! {

/// The pattern of a placeholder: `${`, a name of one or more characters
/// other than `}`, and `}`. Group 1 is the name.
pub const PLACEHOLDER_PATTERN: &'static str = r"\$\{([^}]+)\}";

/// What stands in for one placeholder: the value that `table` holds for its
/// name, and the placeholder itself where the table holds none.
pub open spec fn placeholder_fill(
    groups: Seq<Option<Seq<char>>>,
    table: Map<Seq<char>, Seq<char>>,
) -> Seq<char> {
    if groups.len() > 1 && groups[1] is Some && table.contains_key(groups[1]->0) {
        table[groups[1]->0]
    } else if groups.len() > 0 && groups[0] is Some {
        groups[0]->0
    } else {
        Seq::empty()
    }
}

/// `text` with each placeholder replaced by what `table` holds for its name.
/// With an empty table the text stays as it is.
pub open spec fn substituted(text: Seq<char>, table: Map<Seq<char>, Seq<char>>) -> Seq<char> {
    if table.dom() =~= Set::empty() {
        text
    } else {
        match (split_parts(PLACEHOLDER_PATTERN@, text), match_groups(PLACEHOLDER_PATTERN@, text)) {
            (Some(gaps), Some(matches)) => interleaved(
                gaps,
                matches.map_values(
                    |groups: Seq<Option<Seq<char>>>| placeholder_fill(groups, table),
                ),
            ),
            _ => text,
        }
    }
}

/// Puts a text together from the parts between its placeholders and from
/// the capture groups of each placeholder, looking each name up in `table`.
pub fn fill_placeholders(
    gaps: &Vec<String>,
    matches: &Vec<Vec<Option<String>>>,
    table: &Replacements,
) -> (out: String)
    ensures
        out@ == interleaved(
            texts_of(gaps@),
            all_groups_of(matches@).map_values(
                |groups: Seq<Option<Seq<char>>>| placeholder_fill(groups, table@),
            ),
        ),
{
    let mut fills: Vec<String> = Vec::new();
    let mut i: usize = 0;
    while i < matches.len()
        invariant
            i <= matches.len(),
            fills@.len() == i,
            forall|j: int|
                0 <= j < i ==> (#[trigger] fills@[j])@ == placeholder_fill(
                    groups_of(matches@[j]@),
                    table@,
                ),
        decreases matches.len() - i,
    {
        let groups = &matches[i];
        let mut fill = String::new();
        let mut looked_up = false;
        if groups.len() > 1 {
            if let Some(name) = &groups[1] {
                if let Some(value) = table.get(name.as_str()) {
                    fill = value.clone();
                    looked_up = true;
                }
            }
        }
        if !looked_up && groups.len() > 0 {
            if let Some(whole) = &groups[0] {
                fill = whole.clone();
            }
        }
        fills.push(fill);
        i += 1;
    }
    assert(texts_of(fills@) =~= all_groups_of(matches@).map_values(
        |groups: Seq<Option<Seq<char>>>| placeholder_fill(groups, table@),
    ));
    interleave(gaps, &fills)
}

/// Replaces each `${name}` in `text` by what `replacements` holds for `name`.
/// A placeholder whose name the table does not hold stays as it is.
pub fn apply_replacements(text: &str, replacements: &Replacements) -> (out: String)
    ensures
        out@ == substituted(text@, replacements@),
{
    if replacements.is_empty() {
        return String::from_str(text);
    }
    match (split_text(PLACEHOLDER_PATTERN, text), capture_text(PLACEHOLDER_PATTERN, text)) {
        (Some(gaps), Some(matches)) => fill_placeholders(&gaps, &matches, replacements),
        _ => String::from_str(text),
    }
}

/// The text of `text` without the indentation that its lines share: what
/// `textwrap::dedent` returns.
pub uninterp spec fn dedented(text: Seq<char>) -> Seq<char>;

/// `textwrap::dedent`: removes the leading white space that the lines of
/// `text` have in common.
#[verifier::external_body]
pub(crate) fn dedent_text(text: &str) -> (out: String)
    ensures
        out@ == dedented(text@),
{
    textwrap::dedent(text)
}

/// `text` with its first line as it is, and the rest, from the first line
/// break on, without the indentation that its lines share.
pub open spec fn dedented_after_first_line(text: Seq<char>) -> Seq<char> {
    match find_first(text, "\n"@) {
        Some(at) => text.subrange(0, at) + dedented(text.subrange(at, text.len() as int)),
        None => text,
    }
}

/// Removes the indentation that the lines after the first have in common.
/// The first line stays as it is.
pub fn custom_dedent(text: &str) -> (out: String)
    ensures
        out@ == dedented_after_first_line(text@),
{
    let chars = chars_of(text);
    let line_break = chars_of("\n");
    proof {
        lemma_find_from(chars@, line_break@, 0);
    }
    match find_in(&chars, &line_break, 0) {
        Some(at) => {
            let first = copy_range(&chars, 0, at);
            let rest = copy_range(&chars, at, chars.len());
            let mut out = string_of(&first);
            let tail = dedent_text(string_of(&rest).as_str());
            out.append(tail.as_str());
            out
        },
        None => String::from_str(text),
    }
}

/// The pattern of an admonition block: `:::`, white space, `{.`, a kind made
/// of letters, `}`, and the shortest text up to the next `:::`. Group 1 is
/// the kind, group 2 the text.
pub const ADMONITION_PATTERN: &'static str = r":::\s*\{\.([a-zA-Z]+)\}([\s\S]*?):::";

/// The pattern of a role before a code span: `{`, small letters, `}`, and a
/// code span between backticks. Group 1 is the code span.
pub const DIRECTIVE_PATTERN: &'static str = r"\{[a-z]+\}(`[^`]+`)";

/// The text of group `at` of one match, and nothing where the group is not
/// there or took no part.
pub open spec fn group_text(groups: Seq<Option<Seq<char>>>, at: int) -> Seq<char> {
    if 0 <= at < groups.len() && groups[at] is Some {
        groups[at]->0
    } else {
        Seq::empty()
    }
}

/// The label of the callout for an admonition of the given kind: the kind
/// in capital letters where it is one of the five known kinds, whatever the
/// case of its letters, and `NOTE` for any other.
pub open spec fn callout_label(kind: Seq<char>) -> Seq<char> {
    if same_ignoring_case(kind, "tip"@, "TIP"@) {
        "TIP"@
    } else if same_ignoring_case(kind, "important"@, "IMPORTANT"@) {
        "IMPORTANT"@
    } else if same_ignoring_case(kind, "warning"@, "WARNING"@) {
        "WARNING"@
    } else if same_ignoring_case(kind, "caution"@, "CAUTION"@) {
        "CAUTION"@
    } else {
        "NOTE"@
    }
}

/// The callout that stands in for an admonition block: a first line with
/// the label, then the text of the block without the white space around
/// it, each of its lines after `> `.
pub open spec fn callout(kind: Seq<char>, content: Seq<char>) -> Seq<char> {
    "> [!"@ + callout_label(kind) + "]  \n> "@ + with_line_prefix(trim(content), "> "@)
}

/// What stands in for one admonition block.
pub open spec fn admonition_fill(groups: Seq<Option<Seq<char>>>) -> Seq<char> {
    callout(group_text(groups, 1), group_text(groups, 2))
}

/// `text` with each admonition block replaced by its callout.
pub open spec fn with_callouts(text: Seq<char>) -> Seq<char> {
    match (split_parts(ADMONITION_PATTERN@, text), match_groups(ADMONITION_PATTERN@, text)) {
        (Some(gaps), Some(matches)) => interleaved(
            gaps,
            matches.map_values(|groups: Seq<Option<Seq<char>>>| admonition_fill(groups)),
        ),
        _ => text,
    }
}

/// The label of the callout for an admonition of the given kind.
pub fn label_of(kind: &str) -> (label: String)
    ensures
        label@ == callout_label(kind@),
{
    let text = chars_of(kind);
    if matches_ignoring_case(&text, &chars_of("tip"), &chars_of("TIP")) {
        String::from_str("TIP")
    } else if matches_ignoring_case(&text, &chars_of("important"), &chars_of("IMPORTANT")) {
        String::from_str("IMPORTANT")
    } else if matches_ignoring_case(&text, &chars_of("warning"), &chars_of("WARNING")) {
        String::from_str("WARNING")
    } else if matches_ignoring_case(&text, &chars_of("caution"), &chars_of("CAUTION")) {
        String::from_str("CAUTION")
    } else {
        String::from_str("NOTE")
    }
}

/// The callout for an admonition of the given kind and text.
pub fn make_callout(kind: &str, content: &str) -> (out: String)
    ensures
        out@ == callout(kind@, content@),
{
    let mut out = String::from_str("> [!");
    let label = label_of(kind);
    out.append(label.as_str());
    out.append("]  \n> ");
    let body = trim_chars(&chars_of(content));
    let quoted = prefix_lines(&body, &chars_of("> "));
    out.append(string_of(&quoted).as_str());
    out
}

/// The text of group `at` of one match.
fn group_at(groups: &Vec<Option<String>>, at: usize) -> (text: String)
    ensures
        text@ == group_text(groups_of(groups@), at as int),
{
    if at < groups.len() {
        match &groups[at] {
            Some(found) => found.clone(),
            None => String::new(),
        }
    } else {
        String::new()
    }
}

/// Puts a text together from the parts between its admonition blocks and
/// from the capture groups of each block.
pub fn fill_admonitions(gaps: &Vec<String>, matches: &Vec<Vec<Option<String>>>) -> (out: String)
    ensures
        out@ == interleaved(
            texts_of(gaps@),
            all_groups_of(matches@).map_values(
                |groups: Seq<Option<Seq<char>>>| admonition_fill(groups),
            ),
        ),
{
    let mut fills: Vec<String> = Vec::new();
    let mut i: usize = 0;
    while i < matches.len()
        invariant
            i <= matches.len(),
            fills@.len() == i,
            forall|j: int|
                0 <= j < i ==> (#[trigger] fills@[j])@ == admonition_fill(groups_of(matches@[j]@)),
        decreases matches.len() - i,
    {
        let kind = group_at(&matches[i], 1);
        let content = group_at(&matches[i], 2);
        fills.push(make_callout(kind.as_str(), content.as_str()));
        i += 1;
    }
    assert(texts_of(fills@) =~= all_groups_of(matches@).map_values(
        |groups: Seq<Option<Seq<char>>>| admonition_fill(groups),
    ));
    interleave(gaps, &fills)
}

/// Replaces each admonition block `:::{.kind} ... :::` by a callout.
pub fn convert_admonitions(text: &str) -> (out: String)
    ensures
        out@ == with_callouts(text@),
{
    match (split_text(ADMONITION_PATTERN, text), capture_text(ADMONITION_PATTERN, text)) {
        (Some(gaps), Some(matches)) => fill_admonitions(&gaps, &matches),
        _ => String::from_str(text),
    }
}

/// `text` with each role before a code span dropped.
pub open spec fn without_roles(text: Seq<char>) -> Seq<char> {
    match (split_parts(DIRECTIVE_PATTERN@, text), match_groups(DIRECTIVE_PATTERN@, text)) {
        (Some(gaps), Some(matches)) => interleaved(
            gaps,
            matches.map_values(|groups: Seq<Option<Seq<char>>>| group_text(groups, 1)),
        ),
        _ => text,
    }
}

/// Puts a text together from the parts between its roles and from the
/// capture groups of each role with its code span.
pub fn fill_code_spans(gaps: &Vec<String>, matches: &Vec<Vec<Option<String>>>) -> (out: String)
    ensures
        out@ == interleaved(
            texts_of(gaps@),
            all_groups_of(matches@).map_values(
                |groups: Seq<Option<Seq<char>>>| group_text(groups, 1),
            ),
        ),
{
    let mut fills: Vec<String> = Vec::new();
    let mut i: usize = 0;
    while i < matches.len()
        invariant
            i <= matches.len(),
            fills@.len() == i,
            forall|j: int|
                0 <= j < i ==> (#[trigger] fills@[j])@ == group_text(groups_of(matches@[j]@), 1),
        decreases matches.len() - i,
    {
        fills.push(group_at(&matches[i], 1));
        i += 1;
    }
    assert(texts_of(fills@) =~= all_groups_of(matches@).map_values(
        |groups: Seq<Option<Seq<char>>>| group_text(groups, 1),
    ));
    interleave(gaps, &fills)
}

/// The text of a description as it is shown: roles before code spans
/// dropped, then admonition blocks replaced by callouts.
pub open spec fn cleaned_description(text: Seq<char>) -> Seq<char> {
    with_callouts(without_roles(text))
}

/// Drops the role before each code span, and replaces each admonition block
/// by a callout.
pub fn clean_description(text: &str) -> (out: String)
    ensures
        out@ == cleaned_description(text@),
{
    let cleaned = match (
        split_text(DIRECTIVE_PATTERN, text),
        capture_text(DIRECTIVE_PATTERN, text),
    ) {
        (Some(gaps), Some(matches)) => fill_code_spans(&gaps, &matches),
        _ => String::from_str(text),
    };
    convert_admonitions(cleaned.as_str())
}

/// The text between the first `delimiter` in `value` and the last one,
/// without the white space around it, where the two are different
/// occurrences with something between them.
pub open spec fn delimited_payload(value: Seq<char>, delimiter: Seq<char>) -> Option<Seq<char>> {
    match (find_first(value, delimiter), find_last(value, delimiter)) {
        (Some(open), Some(close)) => if close > open + delimiter.len() {
            Some(trim(value.subrange(open + delimiter.len(), close)))
        } else {
            None
        },
        _ => None,
    }
}

/// Whether `value` begins with a call of the literal-expression marker,
/// with or without the name of the library before it.
pub open spec fn is_literal_call(value: Seq<char>) -> bool {
    has_prefix(value, "lib.literalExpression"@) || has_prefix(value, "literalExpression"@)
}

/// The text that a default or an example stands for.
///
/// White space around the text is dropped. Where the text is a call of the
/// literal-expression marker, the payload of its string is taken: of the
/// multi-line string if there is a `''` in the text, else of the quoted
/// string. Where no payload can be taken, the text stays as it is.
pub open spec fn unwrapped_literal(raw: Seq<char>) -> Seq<char> {
    let value = trim(raw);
    if !is_literal_call(value) {
        value
    } else if find_first(value, "''"@) is Some {
        match delimited_payload(value, "''"@) {
            Some(payload) => payload,
            None => value,
        }
    } else {
        match delimited_payload(value, "\""@) {
            Some(payload) => payload,
            None => value,
        }
    }
}

/// The payload between the first and the last `delimiter` of `value`.
fn payload_between(value: &[char], delimiter: &[char]) -> (payload: Option<Vec<char>>)
    ensures
        match payload {
            Some(found) => delimited_payload(value@, delimiter@) == Some(found@),
            None => delimited_payload(value@, delimiter@) is None,
        },
{
    proof {
        lemma_find_from(value@, delimiter@, 0);
        lemma_find_back_from(value@, delimiter@, value@.len() - delimiter@.len());
    }
    match find_in(value, delimiter, 0) {
        Some(open) => {
            assert(value@.len() == value.len());
            let start: usize = open + delimiter.len();
            match rfind_in(value, delimiter) {
                Some(close) => {
                    if close > start {
                        let inner = copy_range(value, start, close);
                        Some(trim_chars(&inner))
                    } else {
                        None
                    }
                },
                None => None,
            }
        },
        None => None,
    }
}

/// Takes the payload out of a literal-expression wrapper.
pub fn clean_literal_expr(value: &str) -> (out: String)
    ensures
        out@ == unwrapped_literal(value@),
{
    let raw = chars_of(value);
    let text = trim_chars(&raw);
    let qualified = chars_of("lib.literalExpression");
    let bare = chars_of("literalExpression");
    if !(matches_at(&text, &qualified, 0) || matches_at(&text, &bare, 0)) {
        return string_of(&text);
    }
    let multi = chars_of("''");
    let quote = chars_of("\"");
    let payload = if find_in(&text, &multi, 0).is_some() {
        payload_between(&text, &multi)
    } else {
        payload_between(&text, &quote)
    };
    match payload {
        Some(found) => string_of(&found),
        None => string_of(&text),
    }
}

/// The key and the value that a `key=value` argument holds: the text before
/// its first `=` and the text after it. There is none where the argument
/// holds no `=` or begins with it.
pub open spec fn key_value_of(arg: Seq<char>) -> Option<(Seq<char>, Seq<char>)> {
    match find_first(arg, "="@) {
        Some(at) => if at > 0 {
            Some((arg.subrange(0, at), arg.subrange(at + 1, arg.len() as int)))
        } else {
            None
        },
        None => None,
    }
}

/// The message for an argument that is no `key=value` pair.
pub open spec fn key_value_error(arg: Seq<char>) -> Seq<char> {
    "Invalid key=value format: "@ + arg
}

/// Splits a `key=value` argument at its first `=`.
pub fn parse_key_value(s: &str) -> (parsed: Result<(String, String), String>)
    ensures
        match parsed {
            Ok((key, value)) => key_value_of(s@) == Some((key@, value@)),
            Err(message) => key_value_of(s@) is None && message@ == key_value_error(s@),
        },
{
    let text = chars_of(s);
    let sign = chars_of("=");
    proof {
        reveal_strlit("=");
        lemma_find_from(text@, sign@, 0);
    }
    match find_in(&text, &sign, 0) {
        Some(at) => {
            if at > 0 {
                let key = copy_range(&text, 0, at);
                let value = copy_range(&text, at + 1, text.len());
                return Ok((string_of(&key), string_of(&value)));
            }
        },
        None => {},
    }
    let mut message = String::from_str("Invalid key=value format: ");
    message.append(s);
    Err(message)
}

} // verus!
