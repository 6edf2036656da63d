//! Choosing the options that are shown, and the names they are shown under.

use vstd::prelude::*;
use vstd::string::StringExecFns;
use crate::cli::Cli;
use crate::pattern::{has_match, search_text};
use crate::record::{records_of, OptionDoc, OptionRecord};
use crate::strings::{
    chars_of, contains_in, contains_text, copy_range, has_prefix, matches_at, remove_all,
    string_of, without_text,
};
use crate::types::display;

verus! {

/// `text` in small letters: what `str::to_lowercase` returns.
pub uninterp spec fn lowercase_of(text: Seq<char>) -> Seq<char>;

/// `str::to_lowercase`: the text with each character in its lower case.
#[verifier::external_body]
pub(crate) fn to_lowercase(text: &str) -> (out: String)
    ensures
        out@ == lowercase_of(text@),
{
    text.to_lowercase()
}

/// Whether `pattern` matches the name of `record` or its description. A
/// pattern that does not compile matches every record.
pub open spec fn matches_search(record: OptionRecord, pattern: Seq<char>) -> bool {
    match has_match(pattern, record.name) {
        None => true,
        Some(in_name) => in_name || (record.description is Some && has_match(
            pattern,
            record.description->0,
        ) == Some(true)),
    }
}

/// Whether `record` is shown under the filters of `cli`: whether it passes
/// each filter that is set.
pub open spec fn is_shown(record: OptionRecord, cli: Cli) -> bool {
    &&& cli.filter.filter_by_prefix matches Some(prefix) ==> has_prefix(record.name, prefix@)
    &&& cli.filter.filter_by_type matches Some(wanted) ==> contains_text(
        lowercase_of(display(record.nix_type)),
        lowercase_of(wanted@),
    )
    &&& cli.filter.search matches Some(pattern) ==> matches_search(record, pattern@)
    &&& cli.filter.has_default ==> record.default_value is Some
    &&& cli.filter.has_description ==> record.description is Some
}

/// The prefix that is taken out of the names: `options.` where none is
/// named, and else the named one, below `options.` and with a dot at its
/// end.
pub open spec fn stripped_prefix(given: Seq<char>) -> Seq<char> {
    if given.len() == 0 {
        "options."@
    } else if has_prefix(given, "options."@) {
        if given.last() == '.' {
            given
        } else {
            given + "."@
        }
    } else {
        "options."@ + given + "."@
    }
}

/// The text that is put before the paths: the given one without a `/` at
/// its end.
pub open spec fn path_prefix(given: Seq<char>) -> Seq<char> {
    if given.len() > 0 && given.last() == '/' {
        given.drop_last()
    } else {
        given
    }
}

/// `record` as it is shown: its name without the stripped prefix, and its
/// path behind the path prefix.
pub open spec fn shown_as(record: OptionRecord, cli: Cli) -> OptionRecord {
    OptionRecord {
        name: match cli.filter.strip_prefix {
            Some(given) => without_text(record.name, stripped_prefix(given@)),
            None => record.name,
        },
        file_path: match cli.io.out_prefix {
            Some(given) => path_prefix(given@) + "/"@ + record.file_path,
            None => record.file_path,
        },
        ..record
    }
}

/// The records of `records` that are shown, each as it is shown, in order.
pub open spec fn filtered(records: Seq<OptionRecord>, cli: Cli) -> Seq<OptionRecord>
    decreases records.len(),
{
    if records.len() == 0 {
        Seq::empty()
    } else if is_shown(records.last(), cli) {
        filtered(records.drop_last(), cli).push(shown_as(records.last(), cli))
    } else {
        filtered(records.drop_last(), cli)
    }
}

/// Whether `pattern` matches the name of `option` or its description.
fn search_matches(option: &OptionDoc, pattern: &str) -> (found: bool)
    ensures
        found == matches_search(option@, pattern@),
{
    match search_text(pattern, option.name.as_str()) {
        None => true,
        Some(in_name) => {
            if in_name {
                true
            } else {
                match &option.description {
                    Some(description) => {
                        match search_text(pattern, description.as_str()) {
                            Some(in_description) => in_description,
                            None => false,
                        }
                    },
                    None => false,
                }
            }
        },
    }
}

/// Whether `option` is shown under the filters of `cli`.
pub fn passes_filters(option: &OptionDoc, cli: &Cli) -> (shown: bool)
    ensures
        shown == is_shown(option@, *cli),
{
    if let Some(prefix) = &cli.filter.filter_by_prefix {
        let name = chars_of(option.name.as_str());
        if !matches_at(&name, &chars_of(prefix.as_str()), 0) {
            return false;
        }
    }
    if let Some(wanted) = &cli.filter.filter_by_type {
        let shown = option.nix_type.to_string();
        let have = chars_of(to_lowercase(shown.as_str()).as_str());
        let want = chars_of(to_lowercase(wanted.as_str()).as_str());
        if !contains_in(&have, &want) {
            return false;
        }
    }
    if let Some(pattern) = &cli.filter.search {
        if !search_matches(option, pattern.as_str()) {
            return false;
        }
    }
    if cli.filter.has_default && option.default_value.is_none() {
        return false;
    }
    if cli.filter.has_description && option.description.is_none() {
        return false;
    }
    true
}

/// The prefix that is taken out of the names.
fn prefix_to_strip(given: &str) -> (prefix: String)
    ensures
        prefix@ == stripped_prefix(given@),
{
    let chars = chars_of(given);
    if chars.len() == 0 {
        String::from_str("options.")
    } else if matches_at(&chars, &chars_of("options."), 0) {
        let mut prefix = String::from_str(given);
        if chars[chars.len() - 1] != '.' {
            prefix.append(".");
        }
        prefix
    } else {
        let mut prefix = String::from_str("options.");
        prefix.append(given);
        prefix.append(".");
        prefix
    }
}

/// The text that is put before the paths.
fn prefix_for_paths(given: &str) -> (prefix: String)
    ensures
        prefix@ == path_prefix(given@),
{
    let chars = chars_of(given);
    if chars.len() > 0 && chars[chars.len() - 1] == '/' {
        let kept = copy_range(&chars, 0, chars.len() - 1);
        string_of(&kept)
    } else {
        String::from_str(given)
    }
}

/// `option` as it is shown.
pub fn show_as(option: &OptionDoc, cli: &Cli) -> (shown: OptionDoc)
    ensures
        shown@ == shown_as(option@, *cli),
{
    let mut shown = option.clone();
    if let Some(given) = &cli.filter.strip_prefix {
        let prefix = prefix_to_strip(given.as_str());
        let name = remove_all(&chars_of(option.name.as_str()), &chars_of(prefix.as_str()));
        shown.name = string_of(&name);
    }
    if let Some(given) = &cli.io.out_prefix {
        let mut path = prefix_for_paths(given.as_str());
        path.append("/");
        path.append(option.file_path.as_str());
        shown.file_path = path;
    }
    shown
}

/// Keeps the options that pass every filter that `cli` sets, takes the
/// stripped prefix out of their names, and puts the path prefix before their
/// paths.
pub fn filter_options(options: &[OptionDoc], cli: &Cli) -> (shown: Vec<OptionDoc>)
    ensures
        records_of(shown@) == filtered(records_of(options@), *cli),
{
    let ghost all = records_of(options@);
    let mut shown: Vec<OptionDoc> = Vec::new();
    let mut i: usize = 0;
    while i < options.len()
        invariant
            i <= options.len(),
            all == records_of(options@),
            records_of(shown@) == filtered(all.take(i as int), *cli),
        decreases options.len() - i,
    {
        proof {
            assert(all.take(i + 1).drop_last() =~= all.take(i as int));
        }
        if passes_filters(&options[i], cli) {
            let one = show_as(&options[i], cli);
            shown.push(one);
        }
        i += 1;
    }
    assert(all.take(options.len() as int) =~= all);
    shown
}

} // verus!
