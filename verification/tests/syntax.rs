use nix_options_doc::syntax::{build_tree, kind_of_name, parse_source, Node, NodeKind, SyntaxEvent};

fn enter(kind: &str, text: &str, start: usize) -> SyntaxEvent {
    SyntaxEvent::Enter { kind: kind.to_string(), text: text.to_string(), start }
}

fn shape(node: &Node) -> String {
    let inner: Vec<String> = node.children.iter().map(shape).collect();
    format!("{:?}({})", node.kind, inner.join(","))
}

#[test]
fn tree_follows_the_nesting_of_the_walk() {
    let events = vec![
        enter("NODE_ROOT", "a.b = 1;", 0),
        enter("NODE_ATTRPATH_VALUE", "a.b = 1", 0),
        enter("NODE_ATTRPATH", "a.b", 0),
        enter("NODE_IDENT", "a", 0),
        SyntaxEvent::Leave,
        enter("NODE_IDENT", "b", 2),
        SyntaxEvent::Leave,
        SyntaxEvent::Leave,
        enter("NODE_LITERAL", "1", 6),
        SyntaxEvent::Leave,
        SyntaxEvent::Leave,
        SyntaxEvent::Leave,
    ];
    let root = build_tree(events).unwrap();
    assert_eq!(shape(&root), "Other(AttrPathValue(AttrPath(Ident(),Ident()),Other()))");
    assert_eq!(root.text, "a.b = 1;");
    let second = &root.children[0].children[0].children[1];
    assert_eq!(second.text, "b");
    assert_eq!(second.start, 2);
}

#[test]
fn walk_without_nodes_has_no_tree() {
    assert!(build_tree(Vec::new()).is_none());
    assert!(build_tree(vec![SyntaxEvent::Leave, SyntaxEvent::Leave]).is_none());
}

#[test]
fn open_nodes_are_closed_at_the_end() {
    let events = vec![enter("NODE_ATTR_SET", "", 0), enter("NODE_APPLY", "", 1), enter("NODE_IDENT", "", 2)];
    let root = build_tree(events).unwrap();
    assert_eq!(shape(&root), "AttrSet(Apply(Ident()))");
}

#[test]
fn what_follows_the_first_node_goes_below_it() {
    let events = vec![
        enter("NODE_ATTR_SET", "", 0),
        SyntaxEvent::Leave,
        SyntaxEvent::Leave,
        enter("NODE_WITH", "", 4),
        SyntaxEvent::Leave,
    ];
    let root = build_tree(events).unwrap();
    assert_eq!(shape(&root), "AttrSet(With())");
}

#[test]
fn kinds_go_by_the_name_of_the_parser() {
    assert_eq!(kind_of_name("NODE_ATTRPATH_VALUE"), NodeKind::AttrPathValue);
    assert_eq!(kind_of_name("NODE_ATTRPATH"), NodeKind::AttrPath);
    assert_eq!(kind_of_name("NODE_ATTR_SET"), NodeKind::AttrSet);
    assert_eq!(kind_of_name("NODE_APPLY"), NodeKind::Apply);
    assert_eq!(kind_of_name("NODE_SELECT"), NodeKind::Select);
    assert_eq!(kind_of_name("NODE_IDENT"), NodeKind::Ident);
    assert_eq!(kind_of_name("NODE_STRING"), NodeKind::Str);
    assert_eq!(kind_of_name("NODE_WITH"), NodeKind::With);
    assert_eq!(kind_of_name("NODE_LAMBDA"), NodeKind::Other);
    assert_eq!(kind_of_name("node_apply"), NodeKind::Other);
}

#[test]
fn source_is_parsed_into_nodes_with_text_and_offsets() {
    let source = "{\n  a.b = lib.mkOption { };\n}";
    let root = parse_source(source).unwrap();
    assert_eq!(root.text, source);
    assert_eq!(root.start, 0);
    assert_eq!(
        shape(&root),
        "Other(AttrSet(AttrPathValue(AttrPath(Ident(),Ident()),Apply(Select(Ident(),AttrPath(Ident())),AttrSet()))))"
    );
    let assignment = &root.children[0].children[0];
    assert_eq!(assignment.children[0].text, "a.b");
    let call = &assignment.children[1];
    assert_eq!(call.text, "lib.mkOption { }");
    assert_eq!(call.start, source.find("lib").unwrap());
}

#[test]
fn scoped_expression_has_its_body_second() {
    let root = parse_source("with lib; { a = 1; }").unwrap();
    let with = &root.children[0];
    assert_eq!(with.kind, NodeKind::With);
    assert_eq!(with.children.len(), 2);
    assert_eq!(with.children[1].kind, NodeKind::AttrSet);
}

#[test]
fn broken_source_still_has_a_tree() {
    assert!(parse_source("{ a = ").is_some());
    assert!(parse_source("").is_some());
}
