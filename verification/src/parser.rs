//! The walk over a syntax tree that finds the declared options.
//!
//! An assignment `path = value;` adds its path to the name under which its
//! value is read. A value is read where it is an attribute set, a scoped
//! expression or a call. A call of `mkEnableOption` or of `mkOption`
//! declares an option, whose name is the one that the enclosing assignments
//! have put together.

use vstd::prelude::*;
use vstd::string::{StrSliceExecFns, StringExecFns};
use crate::pattern::{interleaved, match_groups, split_parts, woven};
use crate::record::{
    distinct_names, insert_record, last_wins, lemma_last_wins, lemma_merged_concat,
    lemma_merged_one, merged, records_of, text_of, OptionDoc, OptionRecord,
};
use crate::replacements::Replacements;
use crate::strings::{
    chars_of, has_prefix, join, join_strings, position, same_text, string_of, strip_chars,
    texts_of, unquoted, CharClass,
};
use crate::syntax::{lemma_trees_of, trees_of, Node, NodeKind, Tree};
use crate::types::{classified, NixType, TypeKind};
use crate::utils::{
    apply_replacements, clean_description, clean_literal_expr, cleaned_description, custom_dedent,
    dedented_after_first_line, substituted, unwrapped_literal, with_callouts, without_roles,
    ADMONITION_PATTERN, DIRECTIVE_PATTERN, PLACEHOLDER_PATTERN,
};

verus! {

/// What a walk needs to know beside the tree: the path of the file, the
/// table of replacements, and the text of the file.
pub ghost struct Scope {
    pub file_path: Seq<char>,
    pub table: Map<Seq<char>, Seq<char>>,
    pub source: Seq<char>,
}

/// The position of the first of `nodes`, at or after `from`, that is of the
/// given kind.
pub open spec fn index_of_kind(nodes: Seq<Tree>, kind: NodeKind, from: int) -> Option<int>
    decreases nodes.len() - from,
{
    if from < 0 || from >= nodes.len() {
        None
    } else if nodes[from].kind == kind {
        Some(from)
    } else {
        index_of_kind(nodes, kind, from + 1)
    }
}

/// The first of `nodes` that is of the given kind.
pub open spec fn first_of_kind(nodes: Seq<Tree>, kind: NodeKind) -> Option<Tree> {
    match index_of_kind(nodes, kind, 0) {
        Some(at) => Some(nodes[at]),
        None => None,
    }
}

/// The text of each segment of a path, with its placeholders replaced.
pub open spec fn segment_texts(segments: Seq<Tree>, table: Map<Seq<char>, Seq<char>>) -> Seq<
    Seq<char>,
> {
    segments.map_values(|segment: Tree| substituted(segment.text, table))
}

/// The dotted name that an attribute path stands for: its segments, each
/// with its placeholders replaced, joined by dots.
pub open spec fn resolved_path(path: Tree, table: Map<Seq<char>, Seq<char>>) -> Seq<char> {
    join(segment_texts(path.children, table), "."@)
}

/// The name under `prefix` that `key` leads to.
pub open spec fn extended(prefix: Seq<char>, key: Seq<char>) -> Seq<char> {
    if prefix.len() == 0 {
        key
    } else {
        prefix + "."@ + key
    }
}

/// The number of line breaks among the first `end` of `bytes`.
pub open spec fn newlines_before(bytes: Seq<u8>, end: int) -> nat
    decreases end,
{
    if end <= 0 {
        0
    } else if end <= bytes.len() && bytes[end - 1] == 0x0a {
        newlines_before(bytes, end - 1) + 1
    } else {
        newlines_before(bytes, end - 1)
    }
}

/// The line, counted from 1, on which the byte offset `start` of `source`
/// lies: one more than the number of line breaks before it. The count stops
/// at the greatest `usize`.
pub open spec fn line_of(source: Seq<char>, start: nat) -> nat {
    let breaks = newlines_before(vstd::utf8::encode_utf8(source), start as int);
    if breaks < usize::MAX {
        breaks + 1
    } else {
        usize::MAX as nat
    }
}

/// A description as it is shown: placeholders replaced, indentation
/// removed, roles dropped and admonitions turned into callouts.
pub open spec fn described(text: Seq<char>, table: Map<Seq<char>, Seq<char>>) -> Seq<char> {
    cleaned_description(dedented_after_first_line(substituted(text, table)))
}

/// Whether `pattern` matches nowhere in `text`: the text is the one part
/// that lies between the matches, and there is no match.
pub open spec fn matches_nowhere(pattern: Seq<char>, text: Seq<char>) -> bool {
    split_parts(pattern, text) == Some(seq![text]) && match_groups(pattern, text) == Some(
        Seq::<Seq<Option<Seq<char>>>>::empty(),
    )
}

/// Whether nothing is left in `text` for `described` to change: no
/// placeholder, no indentation to remove, no role and no admonition.
pub open spec fn is_settled(text: Seq<char>, table: Map<Seq<char>, Seq<char>>) -> bool {
    &&& table.dom() =~= Set::empty() || matches_nowhere(PLACEHOLDER_PATTERN@, text)
    &&& dedented_after_first_line(text) == text
    &&& matches_nowhere(DIRECTIVE_PATTERN@, text)
    &&& matches_nowhere(ADMONITION_PATTERN@, text)
}

/// A description in which nothing is left to change stays as it is. So
/// turning a description into the text that is shown a second time gives
/// the same text, wherever the first time leaves nothing to change.
pub proof fn lemma_settled_description_stays(text: Seq<char>, table: Map<Seq<char>, Seq<char>>)
    ensures
        is_settled(text, table) ==> described(text, table) == text,
        is_settled(described(text, table), table) ==> described(described(text, table), table)
            == described(text, table),
{
    lemma_settled_once(text, table);
    lemma_settled_once(described(text, table), table);
}

/// A description in which nothing is left to change stays as it is.
proof fn lemma_settled_once(text: Seq<char>, table: Map<Seq<char>, Seq<char>>)
    ensures
        is_settled(text, table) ==> described(text, table) == text,
{
    if is_settled(text, table) {
        let none = Seq::<Seq<Option<Seq<char>>>>::empty();
        assert forall|fill: spec_fn(Seq<Option<Seq<char>>>) -> Seq<char>| #[trigger]
            interleaved(seq![text], none.map_values(fill)) == text by {
            let fills = none.map_values(fill);
            assert(fills.len() == 0);
            assert(woven(seq![text], fills, 0) =~= Seq::<char>::empty());
            assert(woven(seq![text], fills, 1) =~= text);
        }
        assert(substituted(text, table) == text);
        assert(without_roles(text) == text);
        assert(with_callouts(text) == text);
    }
}

/// The last name of what is selected: the text of the last segment where
/// `member` is an attribute path, and the text of `member` itself else.
pub open spec fn trailing_name(member: Tree) -> Seq<char> {
    if member.kind == NodeKind::AttrPath && member.children.len() > 0 {
        member.children.last().text
    } else {
        member.text
    }
}

/// The name of the function that a call applies: the last name of its first
/// member selection, or else the text of its first identifier.
pub open spec fn callee_name(call: Tree) -> Option<Seq<char>> {
    match first_of_kind(call.children, NodeKind::Select) {
        Some(select) => if select.children.len() > 0 {
            Some(trailing_name(select.children.last()))
        } else {
            match first_of_kind(call.children, NodeKind::Ident) {
                Some(ident) => Some(ident.text),
                None => None,
            }
        },
        None => match first_of_kind(call.children, NodeKind::Ident) {
            Some(ident) => Some(ident.text),
            None => None,
        },
    }
}

/// What the argument set of `mkOption` says of the option.
pub ghost struct Fields {
    pub type_text: Seq<char>,
    pub description: Option<Seq<char>>,
    pub default_value: Option<Seq<char>>,
    pub example: Option<Seq<char>>,
}

/// What is known of an option before any key is read.
pub open spec fn no_fields() -> Fields {
    Fields { type_text: "any"@, description: None, default_value: None, example: None }
}

/// The key of an assignment: the text of the first segment of its path.
pub open spec fn attr_key(attr: Tree) -> Option<Seq<char>> {
    match first_of_kind(attr.children, NodeKind::AttrPath) {
        Some(path) => if path.children.len() > 0 {
            Some(path.children[0].text)
        } else {
            None
        },
        None => None,
    }
}

/// `fields` after one more child of the argument set is read. An assignment
/// to `type`, `description`, `default` or `example` sets that field; any
/// other child changes nothing.
pub open spec fn with_attr(fields: Fields, attr: Tree, table: Map<Seq<char>, Seq<char>>) -> Fields {
    if attr.kind == NodeKind::AttrPathValue && attr.children.len() > 1 && attr_key(attr) is Some {
        let key = attr_key(attr)->0;
        let value = attr.children[1].text;
        if key == "type"@ {
            Fields { type_text: dedented_after_first_line(value), ..fields }
        } else if key == "description"@ {
            Fields { description: Some(described(unquoted(value), table)), ..fields }
        } else if key == "default"@ {
            Fields {
                default_value: Some(dedented_after_first_line(unwrapped_literal(value))),
                ..fields
            }
        } else if key == "example"@ {
            Fields { example: Some(dedented_after_first_line(unwrapped_literal(value))), ..fields }
        } else {
            fields
        }
    } else {
        fields
    }
}

/// What the children of an argument set say of the option, a later
/// assignment to a key winning over an earlier one.
pub open spec fn fields_of(attrs: Seq<Tree>, table: Map<Seq<char>, Seq<char>>) -> Fields
    decreases attrs.len(),
{
    if attrs.len() == 0 {
        no_fields()
    } else {
        with_attr(fields_of(attrs.drop_last(), table), attrs.last(), table)
    }
}

/// The record that a call of `mkEnableOption` declares under `name`.
pub open spec fn enable_record(call: Tree, scope: Scope, name: Seq<char>) -> OptionRecord {
    OptionRecord {
        name,
        description: match first_of_kind(call.children, NodeKind::Str) {
            Some(literal) => Some(described(unquoted(literal.text), scope.table)),
            None => None,
        },
        nix_type: TypeKind::Bool,
        default_value: Some("false"@),
        example: Some("true"@),
        file_path: scope.file_path,
        line_number: line_of(scope.source, call.start),
    }
}

/// The record that a call of `mkOption` declares under `name`.
pub open spec fn option_record(call: Tree, scope: Scope, name: Seq<char>) -> OptionRecord {
    let fields = match first_of_kind(call.children, NodeKind::AttrSet) {
        Some(arguments) => fields_of(arguments.children, scope.table),
        None => no_fields(),
    };
    OptionRecord {
        name,
        description: fields.description,
        nix_type: classified(fields.type_text),
        default_value: fields.default_value,
        example: fields.example,
        file_path: scope.file_path,
        line_number: line_of(scope.source, call.start),
    }
}

/// The records that a call declares under `name`: one where the call
/// applies `mkEnableOption` or `mkOption`, by exactly that name, and none
/// for any other call.
pub open spec fn declared(call: Tree, scope: Scope, name: Seq<char>) -> Seq<OptionRecord> {
    match callee_name(call) {
        Some(callee) => if callee == "mkEnableOption"@ {
            seq![enable_record(call, scope, name)]
        } else if callee == "mkOption"@ {
            seq![option_record(call, scope, name)]
        } else {
            Seq::empty()
        },
        None => Seq::empty(),
    }
}

/// The records that the walk over `node` comes to, in order, where `prefix`
/// is the name that the enclosing assignments have put together.
///
/// An assignment hands its value on under the name extended by its path.
/// Any other node hands each of its children on under the same name.
pub open spec fn emitted(node: Tree, scope: Scope, prefix: Seq<char>) -> Seq<OptionRecord>
    decreases node,
{
    if node.kind == NodeKind::AttrPathValue {
        match first_of_kind(node.children, NodeKind::AttrPath) {
            Some(path) => if node.children.len() > 1 {
                emitted_by_value(
                    node.children[1],
                    scope,
                    extended(prefix, resolved_path(path, scope.table)),
                )
            } else {
                Seq::empty()
            },
            None => Seq::empty(),
        }
    } else {
        emitted_by_all(node.children, scope, prefix)
    }
}

/// The records that the walks over `nodes` come to, one node after another.
pub open spec fn emitted_by_all(nodes: Seq<Tree>, scope: Scope, prefix: Seq<char>) -> Seq<
    OptionRecord,
>
    decreases nodes,
{
    if nodes.len() == 0 {
        Seq::empty()
    } else {
        emitted_by_all(nodes.drop_last(), scope, prefix) + emitted(nodes.last(), scope, prefix)
    }
}

/// The records that the value of an assignment gives under `name`.
///
/// An attribute set gives what its children give. A call gives what it
/// declares. A scoped expression gives what its body gives. Any other value
/// gives nothing.
pub open spec fn emitted_by_value(value: Tree, scope: Scope, name: Seq<char>) -> Seq<OptionRecord>
    decreases value,
{
    match value.kind {
        NodeKind::AttrSet => emitted_by_all(value.children, scope, name),
        NodeKind::Apply => declared(value, scope, name),
        NodeKind::With => if value.children.len() > 1 {
            emitted(value.children[1], scope, name)
        } else {
            Seq::empty()
        },
        _ => Seq::empty(),
    }
}


/// Whatever its description says, an enable flag is a boolean option that is
/// off by default.
///
/// A call that applies `mkEnableOption` declares exactly one record. Its
/// kind is `Bool`, its default is `false` and its example is `true`, for
/// every call, scope and name.
pub proof fn lemma_enable_flag(call: Tree, scope: Scope, name: Seq<char>)
    requires
        callee_name(call) == Some("mkEnableOption"@),
    ensures
        declared(call, scope, name).len() == 1,
        declared(call, scope, name)[0].name == name,
        declared(call, scope, name)[0].nix_type == TypeKind::Bool,
        declared(call, scope, name)[0].default_value == Some("false"@),
        declared(call, scope, name)[0].example == Some("true"@),
{
}

/// A name put together one path after another is the name of all their
/// segments joined by dots.
///
/// `outer` are the segments of the enclosing paths and `inner` those of one
/// more path. The enclosing name is empty only where there is no enclosing
/// segment, and the inner path has a segment.
pub proof fn lemma_extended_joins(outer: Seq<Seq<char>>, inner: Seq<Seq<char>>)
    requires
        outer.len() == 0 || join(outer, "."@).len() > 0,
        inner.len() > 0,
    ensures
        extended(join(outer, "."@), join(inner, "."@)) == join(outer + inner, "."@),
    decreases inner.len(),
{
    if outer.len() == 0 {
        assert(outer + inner =~= inner);
    } else if inner.len() == 1 {
        assert((outer + inner).drop_last() =~= outer);
        assert((outer + inner).last() == inner[0]);
    } else {
        lemma_extended_joins(outer, inner.drop_last());
        assert((outer + inner).drop_last() =~= outer + inner.drop_last());
        assert((outer + inner).last() == inner.last());
        assert(join(inner, "."@) == join(inner.drop_last(), "."@) + "."@ + inner.last());
        assert(join(outer + inner, "."@) =~= join(outer, "."@) + "."@ + join(inner, "."@));
    }
}

/// A name that a path with a name leads to is not empty.
pub proof fn lemma_extended_is_named(prefix: Seq<char>, key: Seq<char>)
    requires
        key.len() > 0,
    ensures
        extended(prefix, key).len() > 0,
{
}

/// Every record that a call declares names the file of the scope and a
/// line that is counted from 1.
pub proof fn lemma_declared_location(call: Tree, scope: Scope, name: Seq<char>)
    ensures
        forall|i: int|
            0 <= i < declared(call, scope, name).len() ==> {
                &&& (#[trigger] declared(call, scope, name)[i]).name == name
                &&& declared(call, scope, name)[i].file_path == scope.file_path
                &&& declared(call, scope, name)[i].line_number == line_of(scope.source, call.start)
                &&& declared(call, scope, name)[i].line_number >= 1
            },
{
}

/// An assignment whose value is a call declares the option under the name
/// that its path leads to from the enclosing name.
pub proof fn lemma_assignment_names_call(node: Tree, scope: Scope, prefix: Seq<char>)
    requires
        node.kind == NodeKind::AttrPathValue,
        first_of_kind(node.children, NodeKind::AttrPath) is Some,
        node.children.len() > 1,
        node.children[1].kind == NodeKind::Apply,
    ensures
        emitted(node, scope, prefix) == declared(
            node.children[1],
            scope,
            extended(
                prefix,
                resolved_path(first_of_kind(node.children, NodeKind::AttrPath)->0, scope.table),
            ),
        ),
{
}

/// An assignment whose value is an attribute set hands the name that its
/// path leads to on to each child of the set.
pub proof fn lemma_assignment_names_set(node: Tree, scope: Scope, prefix: Seq<char>)
    requires
        node.kind == NodeKind::AttrPathValue,
        first_of_kind(node.children, NodeKind::AttrPath) is Some,
        node.children.len() > 1,
        node.children[1].kind == NodeKind::AttrSet,
    ensures
        emitted(node, scope, prefix) == emitted_by_all(
            node.children[1].children,
            scope,
            extended(
                prefix,
                resolved_path(first_of_kind(node.children, NodeKind::AttrPath)->0, scope.table),
            ),
        ),
{
}

/// Whether `node` is a chain of assignments, one inside the set of the
/// other, that have the paths `paths` from the outermost to the innermost,
/// and the innermost of which has the call `call` as its value.
pub open spec fn is_nested_declaration(node: Tree, paths: Seq<Tree>, call: Tree) -> bool
    decreases paths.len(),
{
    &&& paths.len() > 0
    &&& node.kind == NodeKind::AttrPathValue
    &&& node.children.len() == 2
    &&& node.children[0] == paths[0]
    &&& paths[0].kind == NodeKind::AttrPath
    &&& if paths.len() == 1 {
        node.children[1] == call && call.kind == NodeKind::Apply
    } else {
        &&& node.children[1].kind == NodeKind::AttrSet
        &&& node.children[1].children.len() == 1
        &&& is_nested_declaration(node.children[1].children[0], paths.skip(1), call)
    }
}

/// The name that `paths` lead to from `prefix`, one after another.
pub open spec fn nested_name(
    prefix: Seq<char>,
    paths: Seq<Tree>,
    table: Map<Seq<char>, Seq<char>>,
) -> Seq<char>
    decreases paths.len(),
{
    if paths.len() == 0 {
        prefix
    } else {
        nested_name(extended(prefix, resolved_path(paths[0], table)), paths.skip(1), table)
    }
}

/// The segments of all of `paths`, each with its placeholders replaced.
pub open spec fn all_segments(paths: Seq<Tree>, table: Map<Seq<char>, Seq<char>>) -> Seq<
    Seq<char>,
>
    decreases paths.len(),
{
    if paths.len() == 0 {
        Seq::empty()
    } else {
        segment_texts(paths[0].children, table) + all_segments(paths.skip(1), table)
    }
}

/// A declaration inside any number of nested assignments gets the name that
/// their paths lead to, from the outermost to the innermost.
pub proof fn lemma_nested_declaration(
    node: Tree,
    paths: Seq<Tree>,
    call: Tree,
    scope: Scope,
    prefix: Seq<char>,
)
    requires
        is_nested_declaration(node, paths, call),
    ensures
        emitted(node, scope, prefix) == declared(
            call,
            scope,
            nested_name(prefix, paths, scope.table),
        ),
    decreases paths.len(),
{
    let name = extended(prefix, resolved_path(paths[0], scope.table));
    assert(index_of_kind(node.children, NodeKind::AttrPath, 0) == Some(0int));
    assert(first_of_kind(node.children, NodeKind::AttrPath) == Some(paths[0]));
    assert(emitted(node, scope, prefix) == emitted_by_value(node.children[1], scope, name));
    if paths.len() == 1 {
        assert(paths.skip(1).len() == 0);
        assert(nested_name(name, paths.skip(1), scope.table) == name);
    } else {
        let inner = node.children[1].children;
        lemma_nested_declaration(inner[0], paths.skip(1), call, scope, name);
        assert(inner.drop_last() =~= Seq::<Tree>::empty());
        assert(emitted_by_all(inner.drop_last(), scope, name) =~= Seq::<OptionRecord>::empty());
        assert(emitted_by_all(inner, scope, name) =~= emitted(inner[0], scope, name));
    }
}

/// The name that nested paths lead to is the name of all their segments
/// joined by dots.
///
/// `outer` are the segments of the name to begin with. Each path has a
/// segment and leads to a name that is not empty, and the name to begin
/// with is empty only where `outer` has no segment.
pub proof fn lemma_nested_name_joins(
    outer: Seq<Seq<char>>,
    paths: Seq<Tree>,
    table: Map<Seq<char>, Seq<char>>,
)
    requires
        outer.len() == 0 || join(outer, "."@).len() > 0,
        forall|k: int|
            0 <= k < paths.len() ==> (#[trigger] paths[k]).children.len() > 0 && resolved_path(
                paths[k],
                table,
            ).len() > 0,
    ensures
        nested_name(join(outer, "."@), paths, table) == join(
            outer + all_segments(paths, table),
            "."@,
        ),
    decreases paths.len(),
{
    if paths.len() == 0 {
        assert(outer + all_segments(paths, table) =~= outer);
    } else {
        let segments = segment_texts(paths[0].children, table);
        lemma_extended_joins(outer, segments);
        let rest = paths.skip(1);
        assert forall|k: int| 0 <= k < rest.len() implies (#[trigger] rest[k]).children.len() > 0
            && resolved_path(rest[k], table).len() > 0 by {
            assert(rest[k] == paths[k + 1]);
        }
        lemma_nested_name_joins(outer + segments, rest, table);
        assert((outer + segments) + all_segments(rest, table) =~= outer + all_segments(
            paths,
            table,
        ));
    }
}

/// Every record that a walk comes to has a name that begins with the name
/// that the enclosing assignments have put together.
pub proof fn lemma_names_begin_with_prefix(node: Tree, scope: Scope, prefix: Seq<char>)
    ensures
        forall|i: int|
            0 <= i < emitted(node, scope, prefix).len() ==> has_prefix(
                (#[trigger] emitted(node, scope, prefix)[i]).name,
                prefix,
            ),
    decreases node, 1nat,
{
    if node.kind == NodeKind::AttrPathValue {
        match first_of_kind(node.children, NodeKind::AttrPath) {
            Some(path) => {
                if node.children.len() > 1 {
                    let name = extended(prefix, resolved_path(path, scope.table));
                    lemma_value_names_begin_with_prefix(node.children[1], scope, name);
                    assert forall|i: int| 0 <= i < emitted(node, scope, prefix).len() implies has_prefix(
                        (#[trigger] emitted(node, scope, prefix)[i]).name,
                        prefix,
                    ) by {
                        let record = emitted_by_value(node.children[1], scope, name)[i];
                        assert(has_prefix(record.name, name));
                        lemma_prefix_of_prefix(record.name, name, prefix);
                    }
                }
            },
            None => {},
        }
    } else {
        lemma_all_names_begin_with_prefix(node.children, scope, prefix);
    }
}

/// Every record that the walks over `nodes` come to has a name that begins
/// with `prefix`.
pub proof fn lemma_all_names_begin_with_prefix(nodes: Seq<Tree>, scope: Scope, prefix: Seq<char>)
    ensures
        forall|i: int|
            0 <= i < emitted_by_all(nodes, scope, prefix).len() ==> has_prefix(
                (#[trigger] emitted_by_all(nodes, scope, prefix)[i]).name,
                prefix,
            ),
    decreases nodes, 0nat,
{
    if nodes.len() > 0 {
        lemma_all_names_begin_with_prefix(nodes.drop_last(), scope, prefix);
        lemma_names_begin_with_prefix(nodes.last(), scope, prefix);
    }
}

/// Every record that a value gives under `name` has a name that begins
/// with `name`.
pub proof fn lemma_value_names_begin_with_prefix(value: Tree, scope: Scope, name: Seq<char>)
    ensures
        forall|i: int|
            0 <= i < emitted_by_value(value, scope, name).len() ==> has_prefix(
                (#[trigger] emitted_by_value(value, scope, name)[i]).name,
                name,
            ),
    decreases value, 1nat,
{
    match value.kind {
        NodeKind::AttrSet => {
            lemma_all_names_begin_with_prefix(value.children, scope, name);
        },
        NodeKind::Apply => {
            assert(name.subrange(0, name.len() as int) =~= name);
        },
        NodeKind::With => {
            if value.children.len() > 1 {
                lemma_names_begin_with_prefix(value.children[1], scope, name);
            }
        },
        _ => {},
    }
}

/// Whether `record` names the file of `scope` and a line counted from 1.
pub open spec fn is_located(record: OptionRecord, scope: Scope) -> bool {
    record.file_path == scope.file_path && record.line_number >= 1
}

/// Every record that a walk comes to names the file of the scope and a
/// line that is counted from 1.
pub proof fn lemma_records_are_located(node: Tree, scope: Scope, prefix: Seq<char>)
    ensures
        forall|i: int|
            0 <= i < emitted(node, scope, prefix).len() ==> is_located(
                #[trigger] emitted(node, scope, prefix)[i],
                scope,
            ),
    decreases node, 1nat,
{
    if node.kind == NodeKind::AttrPathValue {
        match first_of_kind(node.children, NodeKind::AttrPath) {
            Some(path) => {
                if node.children.len() > 1 {
                    let name = extended(prefix, resolved_path(path, scope.table));
                    lemma_value_records_are_located(node.children[1], scope, name);
                    assert(emitted(node, scope, prefix) == emitted_by_value(
                        node.children[1],
                        scope,
                        name,
                    ));
                }
            },
            None => {},
        }
    } else {
        lemma_all_records_are_located(node.children, scope, prefix);
        assert(emitted(node, scope, prefix) == emitted_by_all(node.children, scope, prefix));
    }
}

/// Every record that the walks over `nodes` come to names the file of the
/// scope and a line that is counted from 1.
pub proof fn lemma_all_records_are_located(nodes: Seq<Tree>, scope: Scope, prefix: Seq<char>)
    ensures
        forall|i: int|
            0 <= i < emitted_by_all(nodes, scope, prefix).len() ==> is_located(
                #[trigger] emitted_by_all(nodes, scope, prefix)[i],
                scope,
            ),
    decreases nodes, 0nat,
{
    if nodes.len() > 0 {
        lemma_all_records_are_located(nodes.drop_last(), scope, prefix);
        lemma_records_are_located(nodes.last(), scope, prefix);
        let before = emitted_by_all(nodes.drop_last(), scope, prefix);
        let added = emitted(nodes.last(), scope, prefix);
        assert forall|i: int| 0 <= i < (before + added).len() implies is_located(
            #[trigger] (before + added)[i],
            scope,
        ) by {
            if i < before.len() {
                assert((before + added)[i] == before[i]);
            } else {
                assert((before + added)[i] == added[i - before.len()]);
            }
        }
    }
}

/// Every record that a value gives names the file of the scope and a line
/// that is counted from 1.
pub proof fn lemma_value_records_are_located(value: Tree, scope: Scope, name: Seq<char>)
    ensures
        forall|i: int|
            0 <= i < emitted_by_value(value, scope, name).len() ==> is_located(
                #[trigger] emitted_by_value(value, scope, name)[i],
                scope,
            ),
    decreases value, 1nat,
{
    match value.kind {
        NodeKind::AttrSet => {
            lemma_all_records_are_located(value.children, scope, name);
            assert(emitted_by_value(value, scope, name) == emitted_by_all(
                value.children,
                scope,
                name,
            ));
        },
        NodeKind::Apply => {
            lemma_declared_location(value, scope, name);
            assert(emitted_by_value(value, scope, name) == declared(value, scope, name));
        },
        NodeKind::With => {
            if value.children.len() > 1 {
                lemma_records_are_located(value.children[1], scope, name);
                assert(emitted_by_value(value, scope, name) == emitted(
                    value.children[1],
                    scope,
                    name,
                ));
            }
        },
        _ => {},
    }
}

/// A name that begins with an extension of `prefix` begins with `prefix`.
proof fn lemma_prefix_of_prefix(name: Seq<char>, middle: Seq<char>, prefix: Seq<char>)
    requires
        has_prefix(name, middle),
        has_prefix(middle, prefix),
    ensures
        has_prefix(name, prefix),
{
    assert(name.subrange(0, prefix.len() as int) =~= middle.subrange(0, prefix.len() as int));
}

/// The position of the first of `nodes`, at or after `from`, that is of the
/// given kind.
fn find_kind(nodes: &Vec<Node>, kind: NodeKind, from: usize) -> (at: Option<usize>)
    ensures
        position(at) == index_of_kind(trees_of(nodes@), kind, from as int),
        at matches Some(i) ==> i < nodes.len() && nodes@[i as int].kind == kind,
{
    proof {
        lemma_trees_of(nodes@);
    }
    let mut i: usize = from;
    while i < nodes.len()
        invariant
            from <= i,
            forall|j: int| 0 <= j < nodes@.len() ==> #[trigger] trees_of(nodes@)[j] == nodes@[j]@,
            trees_of(nodes@).len() == nodes@.len(),
            index_of_kind(trees_of(nodes@), kind, from as int) == index_of_kind(
                trees_of(nodes@),
                kind,
                i as int,
            ),
        decreases nodes.len() - i,
    {
        if nodes[i].kind == kind {
            return Some(i);
        }
        i += 1;
    }
    None
}

/// Puts the segments of an attribute path together to a dotted name,
/// replacing the placeholders in each.
pub fn parse_attrpath(node: &Node, replacements: &Replacements) -> (name: String)
    ensures
        name@ == resolved_path(node@, replacements@),
{
    proof {
        lemma_trees_of(node.children@);
    }
    let mut segments: Vec<String> = Vec::new();
    let mut i: usize = 0;
    while i < node.children.len()
        invariant
            i <= node.children.len(),
            segments@.len() == i,
            trees_of(node.children@).len() == node.children@.len(),
            forall|j: int|
                0 <= j < node.children@.len() ==> #[trigger] trees_of(node.children@)[j]
                    == node.children@[j]@,
            forall|j: int|
                0 <= j < i ==> (#[trigger] segments@[j])@ == substituted(
                    node.children@[j].text@,
                    replacements@,
                ),
        decreases node.children.len() - i,
    {
        segments.push(apply_replacements(node.children[i].text.as_str(), replacements));
        i += 1;
    }
    assert(texts_of(segments@) =~= segment_texts(node@.children, replacements@));
    join_strings(&segments, ".")
}

/// Beyond the end of `bytes` nothing more is counted.
proof fn lemma_newlines_beyond(bytes: Seq<u8>, end: int)
    requires
        end >= bytes.len(),
    ensures
        newlines_before(bytes, end) == newlines_before(bytes, bytes.len() as int),
    decreases end,
{
    if end > bytes.len() {
        lemma_newlines_beyond(bytes, end - 1);
    }
}

/// The line, counted from 1, on which `node` starts in `source_text`.
pub fn get_line_number(node: &Node, source_text: &str) -> (line: usize)
    ensures
        line == line_of(source_text@, node@.start),
        line >= 1,
{
    let bytes = source_text.as_bytes();
    let end: usize = if node.start < bytes.len() {
        node.start
    } else {
        bytes.len()
    };
    let mut count: usize = 0;
    let mut i: usize = 0;
    while i < end
        invariant
            i <= end <= bytes.len(),
            count <= i,
            count == newlines_before(bytes@, i as int),
        decreases end - i,
    {
        if bytes[i] == 0x0a {
            count += 1;
        }
        i += 1;
    }
    proof {
        if node.start >= bytes.len() {
            lemma_newlines_beyond(bytes@, node.start as int);
        }
    }
    if count < usize::MAX {
        count + 1
    } else {
        usize::MAX
    }
}

/// Turns the source text of a description into the text that is shown:
/// placeholders replaced, indentation removed, roles dropped and
/// admonitions turned into callouts.
pub fn process_description(description: &str, replacements: &Replacements) -> (out: String)
    ensures
        out@ == described(description@, replacements@),
{
    let replaced = apply_replacements(description, replacements);
    let dedented = custom_dedent(replaced.as_str());
    clean_description(dedented.as_str())
}

/// `text` without the quotation marks at its two ends.
fn unquote(text: &str) -> (out: String)
    ensures
        out@ == unquoted(text@),
{
    string_of(&strip_chars(&chars_of(text), CharClass::Quote))
}

/// The name of the function that `call` applies.
fn callee_of(call: &Node) -> (name: Option<String>)
    ensures
        text_of(name) == callee_name(call@),
{
    proof {
        lemma_trees_of(call.children@);
    }
    match find_kind(&call.children, NodeKind::Select, 0) {
        Some(at) => {
            let select = &call.children[at];
            proof {
                lemma_trees_of(select.children@);
            }
            if select.children.len() > 0 {
                let member = &select.children[select.children.len() - 1];
                proof {
                    lemma_trees_of(member.children@);
                }
                match member.kind {
                    NodeKind::AttrPath => {
                        if member.children.len() > 0 {
                            return Some(
                                member.children[member.children.len() - 1].text.clone(),
                            );
                        }
                    },
                    _ => {},
                }
                return Some(member.text.clone());
            }
        },
        None => {},
    }
    match find_kind(&call.children, NodeKind::Ident, 0) {
        Some(at) => Some(call.children[at].text.clone()),
        None => None,
    }
}


/// The scope of a walk over the tree of the file `file_path` with the text
/// `source_text`.
pub open spec fn scope_of(
    file_path: &str,
    replacements: &Replacements,
    source_text: &str,
) -> Scope {
    Scope { file_path: file_path@, table: replacements@, source: source_text@ }
}

/// The key of an assignment.
fn key_of(attr: &Node) -> (key: Option<String>)
    ensures
        text_of(key) == attr_key(attr@),
{
    proof {
        lemma_trees_of(attr.children@);
    }
    match find_kind(&attr.children, NodeKind::AttrPath, 0) {
        Some(at) => {
            let path = &attr.children[at];
            proof {
                lemma_trees_of(path.children@);
            }
            if path.children.len() > 0 {
                Some(path.children[0].text.clone())
            } else {
                None
            }
        },
        None => None,
    }
}

/// What the argument set of `mkOption` says of the option, as it is read.
struct OptionFields {
    type_text: String,
    description: Option<String>,
    default_value: Option<String>,
    example: Option<String>,
}

impl View for OptionFields {
    type V = Fields;

    closed spec fn view(&self) -> Fields {
        Fields {
            type_text: self.type_text@,
            description: text_of(self.description),
            default_value: text_of(self.default_value),
            example: text_of(self.example),
        }
    }
}

/// Reads one more child of the argument set.
fn read_attr(fields: &mut OptionFields, attr: &Node, replacements: &Replacements)
    ensures
        final(fields)@ == with_attr(old(fields)@, attr@, replacements@),
{
    proof {
        lemma_trees_of(attr.children@);
    }
    match attr.kind {
        NodeKind::AttrPathValue => {},
        _ => {
            return ;
        },
    }
    if attr.children.len() < 2 {
        return ;
    }
    let value = &attr.children[1];
    match key_of(attr) {
        Some(key) => {
            if same_text(key.as_str(), "type") {
                fields.type_text = custom_dedent(value.text.as_str());
            } else if same_text(key.as_str(), "description") {
                let text = unquote(value.text.as_str());
                fields.description = Some(process_description(text.as_str(), replacements));
            } else if same_text(key.as_str(), "default") {
                let cleaned = clean_literal_expr(value.text.as_str());
                fields.default_value = Some(custom_dedent(cleaned.as_str()));
            } else if same_text(key.as_str(), "example") {
                let cleaned = clean_literal_expr(value.text.as_str());
                fields.example = Some(custom_dedent(cleaned.as_str()));
            }
        },
        None => {},
    }
}

/// Reads the children of the argument set of `mkOption`.
fn read_fields(attrs: &Vec<Node>, replacements: &Replacements) -> (fields: OptionFields)
    ensures
        fields@ == fields_of(trees_of(attrs@), replacements@),
{
    proof {
        lemma_trees_of(attrs@);
    }
    let ghost all = trees_of(attrs@);
    let mut fields = OptionFields {
        type_text: String::from_str("any"),
        description: None,
        default_value: None,
        example: None,
    };
    let mut i: usize = 0;
    while i < attrs.len()
        invariant
            i <= attrs.len(),
            all == trees_of(attrs@),
            all.len() == attrs@.len(),
            forall|j: int| 0 <= j < attrs@.len() ==> #[trigger] all[j] == attrs@[j]@,
            fields@ == fields_of(all.take(i as int), replacements@),
        decreases attrs.len() - i,
    {
        proof {
            assert(all.take(i + 1).drop_last() =~= all.take(i as int));
        }
        read_attr(&mut fields, &attrs[i], replacements);
        i += 1;
    }
    assert(all.take(attrs.len() as int) =~= all);
    fields
}

/// The record that a call of `mkEnableOption` declares under `name`.
fn enable_option(
    call: &Node,
    file_path: &str,
    name: &str,
    replacements: &Replacements,
    source_text: &str,
) -> (doc: OptionDoc)
    ensures
        doc@ == enable_record(call@, scope_of(file_path, replacements, source_text), name@),
{
    proof {
        lemma_trees_of(call.children@);
    }
    let description = match find_kind(&call.children, NodeKind::Str, 0) {
        Some(at) => {
            let text = unquote(call.children[at].text.as_str());
            Some(process_description(text.as_str(), replacements))
        },
        None => None,
    };
    OptionDoc {
        name: String::from_str(name),
        description,
        nix_type: NixType::Bool,
        default_value: Some(String::from_str("false")),
        example: Some(String::from_str("true")),
        file_path: String::from_str(file_path),
        line_number: get_line_number(call, source_text),
    }
}

/// The record that a call of `mkOption` declares under `name`.
fn full_option(
    call: &Node,
    file_path: &str,
    name: &str,
    replacements: &Replacements,
    source_text: &str,
) -> (doc: OptionDoc)
    ensures
        doc@ == option_record(call@, scope_of(file_path, replacements, source_text), name@),
{
    proof {
        lemma_trees_of(call.children@);
    }
    let fields = match find_kind(&call.children, NodeKind::AttrSet, 0) {
        Some(at) => read_fields(&call.children[at].children, replacements),
        None => OptionFields {
            type_text: String::from_str("any"),
            description: None,
            default_value: None,
            example: None,
        },
    };
    OptionDoc {
        name: String::from_str(name),
        description: fields.description,
        nix_type: NixType::from_nix_str(fields.type_text.as_str()),
        default_value: fields.default_value,
        example: fields.example,
        file_path: String::from_str(file_path),
        line_number: get_line_number(call, source_text),
    }
}

/// Puts what `call` declares under `name` into `options`.
fn declare_into(
    call: &Node,
    file_path: &str,
    name: &str,
    replacements: &Replacements,
    source_text: &str,
    options: &mut Vec<OptionDoc>,
)
    ensures
        records_of(final(options)@) == merged(
            records_of(old(options)@),
            declared(call@, scope_of(file_path, replacements, source_text), name@),
        ),
{
    let ghost scope = scope_of(file_path, replacements, source_text);
    match callee_of(call) {
        Some(callee) => {
            if same_text(callee.as_str(), "mkEnableOption") {
                let doc = enable_option(call, file_path, name, replacements, source_text);
                proof {
                    lemma_merged_one(records_of(options@), doc@);
                }
                insert_record(options, doc);
            } else if same_text(callee.as_str(), "mkOption") {
                let doc = full_option(call, file_path, name, replacements, source_text);
                proof {
                    lemma_merged_one(records_of(options@), doc@);
                }
                insert_record(options, doc);
            }
        },
        None => {},
    }
}

/// The name under `prefix` that `key` leads to.
fn extend_name(prefix: &str, key: &str) -> (name: String)
    ensures
        name@ == extended(prefix@, key@),
{
    if prefix.unicode_len() == 0 {
        String::from_str(key)
    } else {
        let mut name = String::from_str(prefix);
        name.append(".");
        name.append(key);
        name
    }
}


/// The records of a sequence of nodes are those of its first nodes, then
/// those of the next one.
proof fn lemma_emitted_by_all_step(nodes: Seq<Tree>, scope: Scope, prefix: Seq<char>, count: int)
    requires
        0 <= count < nodes.len(),
    ensures
        emitted_by_all(nodes.take(count + 1), scope, prefix) == emitted_by_all(
            nodes.take(count),
            scope,
            prefix,
        ) + emitted(nodes[count], scope, prefix),
{
    assert(nodes.take(count + 1).drop_last() =~= nodes.take(count));
    assert(nodes.take(count + 1).last() == nodes[count]);
}

/// Walks over each of `nodes` in turn, and puts what it comes to into
/// `options`.
fn visit_all_into(
    parent: &Node,
    file_path: &str,
    prefix: &str,
    replacements: &Replacements,
    source_text: &str,
    options: &mut Vec<OptionDoc>,
)
    ensures
        records_of(final(options)@) == merged(
            records_of(old(options)@),
            emitted_by_all(
                parent@.children,
                scope_of(file_path, replacements, source_text),
                prefix@,
            ),
        ),
    decreases parent, 0nat,
{
    let ghost scope = scope_of(file_path, replacements, source_text);
    let ghost before = records_of(options@);
    let ghost all = parent@.children;
    proof {
        lemma_trees_of(parent.children@);
    }
    let mut i: usize = 0;
    while i < parent.children.len()
        invariant
            i <= parent.children.len(),
            all == trees_of(parent.children@),
            all.len() == parent.children@.len(),
            forall|j: int|
                0 <= j < parent.children@.len() ==> #[trigger] all[j] == parent.children@[j]@,
            scope == scope_of(file_path, replacements, source_text),
            records_of(options@) == merged(
                before,
                emitted_by_all(all.take(i as int), scope, prefix@),
            ),
        decreases parent.children.len() - i,
    {
        proof {
            lemma_emitted_by_all_step(all, scope, prefix@, i as int);
            lemma_merged_concat(
                before,
                emitted_by_all(all.take(i as int), scope, prefix@),
                emitted(all[i as int], scope, prefix@),
            );
        }
        visit_into(&parent.children[i], file_path, prefix, replacements, source_text, options);
        i += 1;
    }
    assert(all.take(parent.children.len() as int) =~= all);
}

/// Walks over `node`, and puts what it comes to into `options`.
fn visit_into(
    node: &Node,
    file_path: &str,
    prefix: &str,
    replacements: &Replacements,
    source_text: &str,
    options: &mut Vec<OptionDoc>,
)
    ensures
        records_of(final(options)@) == merged(
            records_of(old(options)@),
            emitted(node@, scope_of(file_path, replacements, source_text), prefix@),
        ),
    decreases node, 1nat,
{
    proof {
        lemma_trees_of(node.children@);
    }
    match node.kind {
        NodeKind::AttrPathValue => {
            match find_kind(&node.children, NodeKind::AttrPath, 0) {
                Some(at) => {
                    if node.children.len() > 1 {
                        let key = parse_attrpath(&node.children[at], replacements);
                        let name = extend_name(prefix, key.as_str());
                        parse_attrset(
                            &node.children[1],
                            file_path,
                            name.as_str(),
                            replacements,
                            source_text,
                            options,
                        );
                    }
                },
                None => {},
            }
        },
        _ => {
            visit_all_into(node, file_path, prefix, replacements, source_text, options);
        },
    }
}

/// Reads the value of an assignment under the name `current_prefix`, and
/// puts what it gives into `options`.
fn parse_attrset(
    node: &Node,
    file_path: &str,
    current_prefix: &str,
    replacements: &Replacements,
    source_text: &str,
    options: &mut Vec<OptionDoc>,
)
    ensures
        records_of(final(options)@) == merged(
            records_of(old(options)@),
            emitted_by_value(
                node@,
                scope_of(file_path, replacements, source_text),
                current_prefix@,
            ),
        ),
    decreases node, 1nat,
{
    proof {
        lemma_trees_of(node.children@);
    }
    match node.kind {
        NodeKind::AttrSet => {
            visit_all_into(node, file_path, current_prefix, replacements, source_text, options);
        },
        NodeKind::Apply => {
            declare_into(node, file_path, current_prefix, replacements, source_text, options);
        },
        NodeKind::With => {
            if node.children.len() > 1 {
                visit_into(
                    &node.children[1],
                    file_path,
                    current_prefix,
                    replacements,
                    source_text,
                    options,
                );
            }
        },
        _ => {},
    }
}

/// Walks over the tree below `node` and returns the options that it
/// declares, `prefix` being the name that the enclosing assignments have put
/// together. Of the declarations of one name only the last is kept.
pub fn visit_node(
    node: &Node,
    file_path: &str,
    prefix: &str,
    replacements: &Replacements,
    source_text: &str,
) -> (options: Vec<OptionDoc>)
    ensures
        records_of(options@) == last_wins(
            emitted(node@, scope_of(file_path, replacements, source_text), prefix@),
        ),
        distinct_names(records_of(options@)),
{
    let mut options: Vec<OptionDoc> = Vec::new();
    assert(records_of(options@) =~= Seq::<OptionRecord>::empty());
    visit_into(node, file_path, prefix, replacements, source_text, &mut options);
    proof {
        lemma_last_wins(
            emitted(node@, scope_of(file_path, replacements, source_text), prefix@),
        );
    }
    options
}

} // verus!
