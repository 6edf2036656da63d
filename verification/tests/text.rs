use nix_options_doc::replacements::Replacements;
use nix_options_doc::utils::{
    apply_replacements, clean_description, convert_admonitions, custom_dedent,
};

#[test]
fn test_admonition_conversion() {
    let input = r#"
Here is some text.

::: {.important}
This is an important notice.
With multiple lines.
:::

More text here.

::: {.warning}
This is a warning.
:::

::: {.note}
This is a note with code:
```rust
fn main() {
    println!("Hello");
}
```
:::
"#;

    let expected = r#"
Here is some text.

> [!IMPORTANT]  
> This is an important notice.
> With multiple lines.

More text here.

> [!WARNING]  
> This is a warning.

> [!NOTE]  
> This is a note with code:
> ```rust
> fn main() {
>     println!("Hello");
> }
> ```
"#;

    assert_eq!(convert_admonitions(input), expected);
}

#[test]
fn test_clean_description_with_admonitions() {
    let input = r#"
This is a description with {code}`example` and an admonition:

::: {.important}
Critical security information.
:::
"#;

    let expected = r#"
This is a description with `example` and an admonition:

> [!IMPORTANT]  
> Critical security information.
"#;

    assert_eq!(clean_description(input), expected);
}

#[test]
fn admonition_without_space_after_fence() {
    assert_eq!(
        convert_admonitions(":::{.warning}\nThis is a warning.\n:::"),
        "> [!WARNING]  \n> This is a warning."
    );
}

#[test]
fn admonition_kind_ignores_case_and_unknown_falls_back() {
    assert_eq!(convert_admonitions(":::{.Tip}\nx\n:::"), "> [!TIP]  \n> x");
    assert_eq!(convert_admonitions(":::{.CAUTION}\nx\n:::"), "> [!CAUTION]  \n> x");
    assert_eq!(convert_admonitions(":::{.caution}\nx\n:::"), "> [!CAUTION]  \n> x");
    assert_eq!(convert_admonitions(":::{.example}\nx\n:::"), "> [!NOTE]  \n> x");
}

#[test]
fn unterminated_admonition_stays() {
    assert_eq!(convert_admonitions(":::{.note}\nno end"), ":::{.note}\nno end");
}

#[test]
fn dedent_keeps_first_line() {
    assert_eq!(custom_dedent("A\n  B\n  C"), "A\nB\nC");
    assert_eq!(custom_dedent("  A\n    B\n  C"), "  A\n  B\nC");
    assert_eq!(custom_dedent("single"), "single");
}

#[test]
fn dedent_keeps_relative_indentation() {
    assert_eq!(custom_dedent("x\n    a\n      b\n    c\n"), "x\na\n  b\nc\n");
}

#[test]
fn replacements_substitute_known_names_only() {
    let mut table = Replacements::new();
    table.insert("namespace".to_string(), "snowflake".to_string());
    assert_eq!(apply_replacements("${namespace}", &table), "snowflake");
    assert_eq!(
        apply_replacements("Enable ${namespace} for ${other}.", &table),
        "Enable snowflake for ${other}."
    );
    assert_eq!(apply_replacements("${}", &table), "${}");
}

#[test]
fn replacements_with_empty_table_change_nothing() {
    let table = Replacements::new();
    assert!(table.is_empty());
    assert_eq!(apply_replacements("a ${b} c", &table), "a ${b} c");
}

#[test]
fn later_replacement_wins() {
    let mut table = Replacements::new();
    table.insert("a".to_string(), "1".to_string());
    table.insert("a".to_string(), "2".to_string());
    assert_eq!(table.get("a"), Some(&"2".to_string()));
    assert_eq!(table.get("b"), None);
    assert_eq!(apply_replacements("${a}${a}", &table), "22");
}

#[test]
fn roles_before_code_spans_are_dropped() {
    assert_eq!(clean_description("see {option}`foo.bar` and {x}"), "see `foo.bar` and {x}");
}

#[test]
fn roles_are_dropped_one_layer_at_a_pass() {
    let once = clean_description("{a}{b}`x`");
    assert_eq!(once, "{a}`x`");
    assert_eq!(clean_description(&once), "`x`");
}

#[test]
fn replaced_values_are_not_replaced_again() {
    let mut table = Replacements::new();
    table.insert("a".to_string(), "${b}".to_string());
    table.insert("b".to_string(), "c".to_string());
    let once = apply_replacements("${a}", &table);
    assert_eq!(once, "${b}");
    assert_eq!(apply_replacements(&once, &table), "c");
}
