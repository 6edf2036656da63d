use nix_options_doc::types::NixType;
use nix_options_doc::utils::{clean_literal_expr, parse_key_value};

#[test]
fn literal_expression_with_multiline_string() {
    assert_eq!(clean_literal_expr("lib.literalExpression ''\n  { a = 1; }\n''"), "{ a = 1; }");
}

#[test]
fn literal_expression_with_quoted_string() {
    assert_eq!(clean_literal_expr("  literalExpression \"pkgs.hello\"  "), "pkgs.hello");
}

#[test]
fn plain_value_is_only_trimmed() {
    assert_eq!(clean_literal_expr("  [1, 2]\n"), "[1, 2]");
}

#[test]
fn literal_expression_without_payload_is_kept() {
    assert_eq!(clean_literal_expr("literalExpression ''''"), "literalExpression ''''");
    assert_eq!(clean_literal_expr("literalExpression foo"), "literalExpression foo");
}

#[test]
fn key_value_splits_at_first_equals() {
    assert_eq!(parse_key_value("a=b=c"), Ok(("a".to_string(), "b=c".to_string())));
    assert_eq!(parse_key_value("key="), Ok(("key".to_string(), String::new())));
}

#[test]
fn key_value_rejects_missing_key_or_sign() {
    assert_eq!(parse_key_value("=v"), Err("Invalid key=value format: =v".to_string()));
    assert_eq!(parse_key_value("novalue"), Err("Invalid key=value format: novalue".to_string()));
}

#[test]
fn type_classification_and_display() {
    assert_eq!(NixType::from_nix_str("types.bool").to_string(), "boolean");
    assert_eq!(NixType::from_nix_str("types.integer").to_string(), "integer");
    assert_eq!(NixType::from_nix_str("lib.types.str").to_string(), "lib.types.str");
    assert_eq!(NixType::from_nix_str("types.enum [ \"a\" ]").to_string(), "enum: [...]");
    assert_eq!(NixType::from_nix_str("lib.types.option x").to_string(), "optional ");
    assert_eq!(NixType::from_nix_str("types.either a b").to_string(), "either");
}
