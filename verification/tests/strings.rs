use nix_options_doc::strings::{
    chars_of, comes_before, contains_in, copy_range, find_in, is_whitespace, join_strings,
    matches_at, matches_ignoring_case, prefix_lines, remove_all, replace_char, rfind_in,
    same_chars, same_text, string_of, strip_chars, trim_chars, CharClass,
};

fn chars(text: &str) -> Vec<char> {
    text.chars().collect()
}

#[test]
fn text_goes_to_characters_and_back() {
    for text in ["", "abc", "\u{e9}t\u{e9} \u{1f600}\n"] {
        assert_eq!(chars_of(text), chars(text));
        assert_eq!(string_of(&chars(text)), text);
    }
}

#[test]
fn finding_from_the_left_and_from_the_right() {
    let hay = chars("a''b''c");
    let needle = chars("''");
    assert_eq!(find_in(&hay, &needle, 0), Some(1));
    assert_eq!(find_in(&hay, &needle, 2), Some(4));
    assert_eq!(find_in(&hay, &needle, 5), None);
    assert_eq!(find_in(&hay, &needle, 50), None);
    assert_eq!(rfind_in(&hay, &needle), Some(4));
    assert_eq!(rfind_in(&hay, &chars("x")), None);
    assert_eq!(find_in(&hay, &chars(""), 0), Some(0));
    assert_eq!(rfind_in(&hay, &chars("")), Some(7));
    assert_eq!(find_in(&chars(""), &needle, 0), None);
    assert_eq!(rfind_in(&chars("'''"), &needle), Some(1));
}

#[test]
fn containing_and_matching() {
    assert!(contains_in(&chars("lib.types.enum [ ]"), &chars("types.enum")));
    assert!(!contains_in(&chars("types.enu"), &chars("types.enum")));
    assert!(contains_in(&chars("x"), &chars("")));
    assert!(matches_at(&chars("abc"), &chars("bc"), 1));
    assert!(!matches_at(&chars("abc"), &chars("bc"), 2));
    assert!(!matches_at(&chars("abc"), &chars("bc"), 7));
    assert!(matches_at(&chars("abc"), &chars(""), 3));
    assert!(same_chars(&chars("abc"), &chars("abc")));
    assert!(!same_chars(&chars("abc"), &chars("abd")));
    assert!(!same_chars(&chars("abc"), &chars("ab")));
}

#[test]
fn same_text_and_order_go_by_bytes() {
    assert!(same_text("", ""));
    assert!(same_text("\u{e9}", "\u{e9}"));
    assert!(!same_text("e", "\u{e9}"));
    assert!(!same_text("a", "ab"));
    assert!(comes_before("", "a"));
    assert!(!comes_before("a", ""));
    assert!(!comes_before("a", "a"));
    assert!(comes_before("a", "ab"));
    assert!(comes_before("Z", "a"));
    assert!(comes_before("z", "\u{e9}"));
    assert!(!comes_before("\u{e9}", "z"));
}

#[test]
fn white_space_is_what_the_language_counts_as_such() {
    for code in 0..0x3100u32 {
        if let Some(c) = char::from_u32(code) {
            assert_eq!(is_whitespace(c), c.is_whitespace(), "U+{:04X}", code);
        }
    }
    assert!(!is_whitespace('\u{feff}'));
    assert!(!is_whitespace('\u{200b}'));
}

#[test]
fn stripping_both_ends() {
    assert_eq!(string_of(&trim_chars(&chars(" \t a b \n"))), "a b");
    assert_eq!(string_of(&trim_chars(&chars(" \u{a0}\u{3000} "))), "");
    assert_eq!(string_of(&trim_chars(&chars(""))), "");
    assert_eq!(string_of(&strip_chars(&chars("\"'x\"y'\""), CharClass::Quote)), "x\"y");
    assert_eq!(string_of(&strip_chars(&chars("''\n  text\n''"), CharClass::Quote)), "\n  text\n");
    assert_eq!(string_of(&strip_chars(&chars(" \"x\" "), CharClass::Quote)), " \"x\" ");
}

#[test]
fn copying_replacing_and_removing() {
    assert_eq!(string_of(&copy_range(&chars("abcdef"), 2, 4)), "cd");
    assert_eq!(string_of(&copy_range(&chars("abcdef"), 3, 3)), "");
    assert_eq!(string_of(&replace_char(&chars("a`b`"), '`', &chars("\\`"))), "a\\`b\\`");
    assert_eq!(string_of(&replace_char(&chars("a\r\nb"), '\r', &chars(""))), "a\nb");
    assert_eq!(string_of(&prefix_lines(&chars("a\nb\n"), &chars("> "))), "a\n> b\n> ");
    assert_eq!(string_of(&remove_all(&chars("options.a.options.b"), &chars("options."))), "a.b");
    assert_eq!(string_of(&remove_all(&chars("aaa"), &chars("aa"))), "a");
    assert_eq!(string_of(&remove_all(&chars("abc"), &chars(""))), "abc");
    assert_eq!(string_of(&remove_all(&chars("abab"), &chars("abab"))), "");
}

#[test]
fn joining() {
    let parts = |items: &[&str]| items.iter().map(|s| s.to_string()).collect::<Vec<String>>();
    assert_eq!(join_strings(&parts(&[]), "."), "");
    assert_eq!(join_strings(&parts(&["a"]), "."), "a");
    assert_eq!(join_strings(&parts(&["a", "", "b"]), "."), "a..b");
    assert_eq!(join_strings(&parts(&["a", "b"]), ", "), "a, b");
}

#[test]
fn matching_whatever_the_case() {
    assert!(matches_ignoring_case(&chars("NoTe"), &chars("note"), &chars("NOTE")));
    assert!(!matches_ignoring_case(&chars("note"), &chars("tip"), &chars("TIP")));
    assert!(!matches_ignoring_case(&chars("not"), &chars("note"), &chars("NOTE")));
    assert!(!matches_ignoring_case(&chars("n\u{f6}te"), &chars("note"), &chars("NOTE")));
}
