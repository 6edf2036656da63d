use nix_options_doc::parser::{get_line_number, parse_attrpath, process_description, visit_node};
use nix_options_doc::replacements::Replacements;
use nix_options_doc::syntax::{Node, NodeKind};
use nix_options_doc::types::NixType;

fn node(kind: NodeKind, text: &str, start: usize, children: Vec<Node>) -> Node {
    Node { kind, text: text.to_string(), start, children }
}

fn ident(text: &str) -> Node {
    node(NodeKind::Ident, text, 0, Vec::new())
}

fn path(segments: &[&str]) -> Node {
    node(NodeKind::AttrPath, &segments.join("."), 0, segments.iter().map(|s| ident(s)).collect())
}

fn assign(segments: &[&str], value: Node) -> Node {
    node(NodeKind::AttrPathValue, "", 0, vec![path(segments), value])
}

fn set(children: Vec<Node>) -> Node {
    node(NodeKind::AttrSet, "", 0, children)
}

fn select(base: &str, members: &[&str]) -> Node {
    node(NodeKind::Select, "", 0, vec![ident(base), path(members)])
}

fn enable_call(description: &str, start: usize) -> Node {
    node(
        NodeKind::Apply,
        "",
        start,
        vec![
            select("lib", &["mkEnableOption"]),
            node(NodeKind::Str, &format!("\"{}\"", description), 0, Vec::new()),
        ],
    )
}

fn other(text: &str) -> Node {
    node(NodeKind::Other, text, 0, Vec::new())
}

fn option_call(callee: Node, attrs: Vec<Node>, start: usize) -> Node {
    node(NodeKind::Apply, "", start, vec![callee, set(attrs)])
}

#[test]
fn name_is_all_enclosing_segments_joined_by_dots() {
    let tree = set(vec![assign(
        &["options"],
        set(vec![assign(
            &["test"],
            set(vec![assign(&["simple"], set(vec![assign(&["enable"], enable_call("x", 0))]))]),
        )]),
    )]);
    let options = visit_node(&tree, "f.nix", "", &Replacements::new(), "");
    assert_eq!(options.len(), 1);
    assert_eq!(options[0].name, "options.test.simple.enable");
}

#[test]
fn prefix_is_put_before_the_path() {
    let tree = assign(&["a", "b"], enable_call("x", 0));
    let options = visit_node(&tree, "f.nix", "outer", &Replacements::new(), "");
    assert_eq!(options[0].name, "outer.a.b");
    let options = visit_node(&tree, "f.nix", "", &Replacements::new(), "");
    assert_eq!(options[0].name, "a.b");
}

#[test]
fn enable_flag_is_boolean_and_off_whatever_the_description() {
    for description in ["", "Whether to enable it", "${x} :::{.note}\nodd\n:::"] {
        let tree = assign(&["enable"], enable_call(description, 0));
        let options = visit_node(&tree, "f.nix", "", &Replacements::new(), "");
        assert_eq!(options.len(), 1);
        assert!(matches!(options[0].nix_type, NixType::Bool));
        assert_eq!(options[0].default_value, Some("false".to_string()));
        assert_eq!(options[0].example, Some("true".to_string()));
    }
}

#[test]
fn enable_flag_without_description_has_none() {
    let call = node(NodeKind::Apply, "", 0, vec![ident("mkEnableOption")]);
    let options = visit_node(&assign(&["e"], call), "f.nix", "", &Replacements::new(), "");
    assert_eq!(options[0].description, None);
}

#[test]
fn callee_is_the_last_name_of_a_selection() {
    let call = node(
        NodeKind::Apply,
        "",
        0,
        vec![select("pkgs", &["lib", "mkEnableOption"]), other("\"d\"")],
    );
    let options = visit_node(&assign(&["e"], call), "f.nix", "", &Replacements::new(), "");
    assert_eq!(options.len(), 1);
}

#[test]
fn callee_must_match_exactly() {
    for name in ["mkEnableOptions", "MkOption", "mkoption", "mkOptionType", ""] {
        let call = node(NodeKind::Apply, "", 0, vec![ident(name), set(Vec::new())]);
        let options = visit_node(&assign(&["e"], call), "f.nix", "", &Replacements::new(), "");
        assert_eq!(options.len(), 0, "{} is no declaration", name);
    }
}

#[test]
fn selection_wins_over_identifier() {
    let call = node(
        NodeKind::Apply,
        "",
        0,
        vec![ident("mkOption"), select("lib", &["other"]), set(Vec::new())],
    );
    let options = visit_node(&assign(&["e"], call), "f.nix", "", &Replacements::new(), "");
    assert_eq!(options.len(), 0);
}

#[test]
fn option_without_fields_has_type_any() {
    let call = node(NodeKind::Apply, "", 0, vec![ident("mkOption")]);
    let options = visit_node(&assign(&["o"], call), "f.nix", "", &Replacements::new(), "");
    assert_eq!(options.len(), 1);
    assert_eq!(options[0].nix_type.to_string(), "any");
    assert!(matches!(&options[0].nix_type, NixType::Unknown(raw) if raw == "any"));
    assert_eq!(options[0].description, None);
    assert_eq!(options[0].default_value, None);
    assert_eq!(options[0].example, None);
}

#[test]
fn option_fields_are_read_from_direct_assignments_only() {
    let attrs = vec![
        assign(&["type"], other("types.bool")),
        assign(&["description"], other("\"A {option}`flag`\"")),
        assign(&["default"], other("lib.literalExpression ''\n    pkgs.hello\n  ''")),
        assign(&["example"], other("  \"x\"  ")),
        assign(&["visible"], other("false")),
        set(vec![assign(&["default"], other("nested"))]),
        assign(&["type", "inner"], other("types.int")),
    ];
    let call = option_call(select("lib", &["mkOption"]), attrs, 0);
    let options = visit_node(&assign(&["o"], call), "f.nix", "", &Replacements::new(), "");
    assert_eq!(options.len(), 1);
    let option = &options[0];
    assert!(matches!(option.nix_type, NixType::Int));
    assert_eq!(option.description, Some("A `flag`".to_string()));
    assert_eq!(option.default_value, Some("pkgs.hello".to_string()));
    assert_eq!(option.example, Some("\"x\"".to_string()));
}

#[test]
fn later_field_wins() {
    let attrs = vec![
        assign(&["default"], other("1")),
        assign(&["default"], other("2")),
    ];
    let call = option_call(ident("mkOption"), attrs, 0);
    let options = visit_node(&assign(&["o"], call), "f.nix", "", &Replacements::new(), "");
    assert_eq!(options[0].default_value, Some("2".to_string()));
}

#[test]
fn scoped_expression_gives_what_its_body_gives() {
    let body = set(vec![assign(&["inner"], enable_call("x", 0))]);
    let with = node(NodeKind::With, "", 0, vec![assign(&["ignored"], enable_call("y", 0)), body]);
    let options = visit_node(&assign(&["outer"], with), "f.nix", "", &Replacements::new(), "");
    assert_eq!(options.len(), 1);
    assert_eq!(options[0].name, "outer.inner");
}

#[test]
fn other_values_give_nothing() {
    let hidden = node(NodeKind::Other, "", 0, vec![assign(&["lost"], enable_call("x", 0))]);
    let options = visit_node(&assign(&["outer"], hidden), "f.nix", "", &Replacements::new(), "");
    assert!(options.is_empty());
}

#[test]
fn other_nodes_hand_their_children_on() {
    let tree = node(
        NodeKind::Other,
        "",
        0,
        vec![node(NodeKind::Other, "", 0, vec![assign(&["found"], enable_call("x", 0))])],
    );
    let options = visit_node(&tree, "f.nix", "pre", &Replacements::new(), "");
    assert_eq!(options.len(), 1);
    assert_eq!(options[0].name, "pre.found");
}

#[test]
fn assignment_without_value_or_path_gives_nothing() {
    let no_value = node(NodeKind::AttrPathValue, "", 0, vec![path(&["a"])]);
    assert!(visit_node(&no_value, "f.nix", "", &Replacements::new(), "").is_empty());
    let no_path = node(NodeKind::AttrPathValue, "", 0, vec![ident("a"), enable_call("x", 0)]);
    assert!(visit_node(&no_path, "f.nix", "", &Replacements::new(), "").is_empty());
}

#[test]
fn last_declaration_of_a_name_wins_and_stands_last() {
    let tree = set(vec![
        assign(&["a"], enable_call("first a", 0)),
        assign(&["b"], enable_call("b", 0)),
        assign(&["a"], enable_call("second a", 0)),
        assign(&["c"], enable_call("c", 0)),
    ]);
    let options = visit_node(&tree, "f.nix", "", &Replacements::new(), "");
    let names: Vec<&str> = options.iter().map(|o| o.name.as_str()).collect();
    assert_eq!(names, vec!["b", "a", "c"]);
    assert_eq!(options[1].description, Some("second a".to_string()));
}

#[test]
fn placeholders_in_path_segments_are_replaced() {
    let mut table = Replacements::new();
    table.insert("namespace".to_string(), "snowflake".to_string());
    let dynamic = node(NodeKind::Other, "${namespace}", 0, Vec::new());
    let unknown = node(NodeKind::Other, "${missing}", 0, Vec::new());
    let attrpath = node(NodeKind::AttrPath, "", 0, vec![ident("options"), dynamic, unknown]);
    assert_eq!(parse_attrpath(&attrpath, &table), "options.snowflake.${missing}");
    let tree = node(
        NodeKind::AttrPathValue,
        "",
        0,
        vec![attrpath, enable_call("Enable ${namespace} bluetooth", 0)],
    );
    let options = visit_node(&tree, "f.nix", "", &table, "");
    assert_eq!(options[0].name, "options.snowflake.${missing}");
    assert_eq!(options[0].description, Some("Enable snowflake bluetooth".to_string()));
}

#[test]
fn line_number_counts_line_breaks_before_the_start() {
    let source = "a\nbc\n\nd";
    let at = |start: usize| get_line_number(&node(NodeKind::Apply, "", start, Vec::new()), source);
    assert_eq!(at(0), 1);
    assert_eq!(at(1), 1);
    assert_eq!(at(2), 2);
    assert_eq!(at(4), 2);
    assert_eq!(at(5), 3);
    assert_eq!(at(6), 4);
    assert_eq!(at(7), 4);
    assert_eq!(at(700), 4);
}

#[test]
fn line_number_counts_bytes_not_characters() {
    let source = "\u{e9}\u{e9}\nx";
    let at = |start: usize| get_line_number(&node(NodeKind::Apply, "", start, Vec::new()), source);
    assert_eq!(at(4), 1);
    assert_eq!(at(5), 2);
}

#[test]
fn record_carries_file_and_line() {
    let source = "{\n  a =\n    mkEnableOption \"x\";\n}";
    let tree = assign(&["a"], enable_call("x", source.find("mkEnable").unwrap()));
    let options = visit_node(&tree, "dir/f.nix", "", &Replacements::new(), source);
    assert_eq!(options[0].file_path, "dir/f.nix");
    assert_eq!(options[0].line_number, 3);
}

#[test]
fn description_goes_through_all_steps() {
    let mut table = Replacements::new();
    table.insert("name".to_string(), "nginx".to_string());
    let raw = "Runs ${name}.\n    See {option}`services.${name}`.\n\n    :::{.tip}\n    Try it.\n    :::\n";
    assert_eq!(
        process_description(raw, &table),
        "Runs nginx.\nSee `services.nginx`.\n\n> [!TIP]  \n> Try it.\n"
    );
}

#[test]
fn describing_twice_changes_nothing_more() {
    let table = Replacements::new();
    for raw in [
        "Plain text",
        "First\n    second\n      third\n",
        "A {command}`nix build` call",
        ":::{.warning}\nThis is a warning.\n:::",
        "",
    ] {
        let once = process_description(raw, &table);
        let twice = process_description(&once, &table);
        assert_eq!(twice, once);
    }
}
