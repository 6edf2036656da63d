//! The syntax tree of a source file, as far as the extraction reads it.
//!
//! A tree holds for each node its kind, its source text, the byte offset at
//! which it starts, and its child nodes. Tokens are not part of it. The tree
//! of a source text is put together from the preorder walk that the `rnix`
//! parser gives of it.

use vstd::prelude::*;
use vstd::string::StringSliceAdditionalSpecFns;
use crate::strings::same_text;

verus! {

/// The kinds of node that the extraction tells apart.
#[derive(Clone, Copy, Debug, PartialEq, Eq, Structural)]
pub enum NodeKind {
    /// An assignment `path = value;`.
    AttrPathValue,
    /// An attribute path: segments with dots between them.
    AttrPath,
    /// An attribute set `{ ... }`.
    AttrSet,
    /// A function call `callee argument`.
    Apply,
    /// A member selection `base.member`.
    Select,
    /// An identifier.
    Ident,
    /// A string literal.
    Str,
    /// A scoped expression `with bound; body`.
    With,
    /// Any other node.
    Other,
}

/// A node of a syntax tree.
pub struct Node {
    /// The kind of the node.
    pub kind: NodeKind,
    /// The source text that the node covers.
    pub text: String,
    /// The byte offset in the source at which the node starts.
    pub start: usize,
    /// The child nodes, in source order.
    pub children: Vec<Node>,
}

/// What a `Node` stands for.
pub ghost struct Tree {
    pub kind: NodeKind,
    pub text: Seq<char>,
    pub start: nat,
    pub children: Seq<Tree>,
}

/// The trees that a sequence of nodes stands for, one for one.
pub open spec fn trees_of(nodes: Seq<Node>) -> Seq<Tree>
    decreases nodes,
{
    if nodes.len() == 0 {
        Seq::empty()
    } else {
        trees_of(nodes.drop_last()).push(nodes.last().view())
    }
}

impl View for Node {
    type V = Tree;

    open spec fn view(&self) -> Tree
        decreases self,
    {
        Tree {
            kind: self.kind,
            text: self.text@,
            start: self.start as nat,
            children: trees_of(self.children@),
        }
    }
}

/// `trees_of` keeps the length and maps position by position.
pub proof fn lemma_trees_of(nodes: Seq<Node>)
    ensures
        trees_of(nodes).len() == nodes.len(),
        forall|i: int| 0 <= i < nodes.len() ==> #[trigger] trees_of(nodes)[i] == nodes[i].view(),
    decreases nodes.len(),
{
    if nodes.len() > 0 {
        lemma_trees_of(nodes.drop_last());
        assert(trees_of(nodes) == trees_of(nodes.drop_last()).push(nodes.last().view()));
    } else {
        assert(trees_of(nodes) == Seq::<Tree>::empty());
    }
}

/// One step of a preorder walk over the nodes of a tree.
pub enum SyntaxEvent {
    /// The walk comes to a node, before its children: the name of its kind
    /// as the parser calls it, its text, and the offset at which it starts.
    Enter { kind: String, text: String, start: usize },
    /// The walk leaves the node that it came to last and has not left yet.
    Leave,
}

/// What a `SyntaxEvent` stands for.
pub ghost enum Step {
    Enter { kind: Seq<char>, text: Seq<char>, start: nat },
    Leave,
}

/// The kind that the parser calls by the given name.
pub open spec fn kind_named(name: Seq<char>) -> NodeKind {
    if name == "NODE_ATTRPATH_VALUE"@ {
        NodeKind::AttrPathValue
    } else if name == "NODE_ATTRPATH"@ {
        NodeKind::AttrPath
    } else if name == "NODE_ATTR_SET"@ {
        NodeKind::AttrSet
    } else if name == "NODE_APPLY"@ {
        NodeKind::Apply
    } else if name == "NODE_SELECT"@ {
        NodeKind::Select
    } else if name == "NODE_IDENT"@ {
        NodeKind::Ident
    } else if name == "NODE_STRING"@ {
        NodeKind::Str
    } else if name == "NODE_WITH"@ {
        NodeKind::With
    } else {
        NodeKind::Other
    }
}

/// The kind that the parser calls by the given name.
pub fn kind_of_name(name: &str) -> (kind: NodeKind)
    ensures
        kind == kind_named(name@),
{
    if same_text(name, "NODE_ATTRPATH_VALUE") {
        NodeKind::AttrPathValue
    } else if same_text(name, "NODE_ATTRPATH") {
        NodeKind::AttrPath
    } else if same_text(name, "NODE_ATTR_SET") {
        NodeKind::AttrSet
    } else if same_text(name, "NODE_APPLY") {
        NodeKind::Apply
    } else if same_text(name, "NODE_SELECT") {
        NodeKind::Select
    } else if same_text(name, "NODE_IDENT") {
        NodeKind::Ident
    } else if same_text(name, "NODE_STRING") {
        NodeKind::Str
    } else if same_text(name, "NODE_WITH") {
        NodeKind::With
    } else {
        NodeKind::Other
    }
}

impl View for SyntaxEvent {
    type V = Step;

    open spec fn view(&self) -> Step {
        match self {
            SyntaxEvent::Enter { kind, text, start } => Step::Enter {
                kind: kind@,
                text: text@,
                start: *start as nat,
            },
            SyntaxEvent::Leave => Step::Leave,
        }
    }
}

/// The steps that a sequence of events stands for, one for one.
pub open spec fn steps_of(events: Seq<SyntaxEvent>) -> Seq<Step> {
    events.map_values(|event: SyntaxEvent| event@)
}

/// The stack of open nodes after the innermost one is closed: it becomes
/// the last child of the node below it. A single node stays open.
pub open spec fn closed_top(stack: Seq<Tree>) -> Seq<Tree> {
    if stack.len() >= 2 {
        let child = stack[stack.len() - 1];
        let parent = stack[stack.len() - 2];
        stack.take(stack.len() - 2).push(
            Tree {
                kind: parent.kind,
                text: parent.text,
                start: parent.start,
                children: parent.children.push(child),
            },
        )
    } else {
        stack
    }
}

/// The stack of open nodes after one more step of the walk.
pub open spec fn stepped(stack: Seq<Tree>, step: Step) -> Seq<Tree> {
    match step {
        Step::Enter { kind, text, start } => stack.push(
            Tree { kind: kind_named(kind), text, start, children: Seq::empty() },
        ),
        Step::Leave => closed_top(stack),
    }
}

/// The stack of open nodes after all of `steps`, from the outermost node to
/// the innermost.
pub open spec fn stack_after(steps: Seq<Step>) -> Seq<Tree>
    decreases steps.len(),
{
    if steps.len() == 0 {
        Seq::empty()
    } else {
        stepped(stack_after(steps.drop_last()), steps.last())
    }
}

/// The outermost node of `stack` once every node above it is closed.
pub open spec fn collapsed(stack: Seq<Tree>) -> Option<Tree>
    decreases stack.len(),
{
    if stack.len() == 0 {
        None
    } else if stack.len() == 1 {
        Some(stack[0])
    } else {
        collapsed(closed_top(stack))
    }
}

/// The tree that a preorder walk describes: the first node that the walk
/// comes to, with everything that follows below it. There is none where the
/// walk comes to no node.
pub open spec fn tree_of_steps(steps: Seq<Step>) -> Option<Tree> {
    collapsed(stack_after(steps))
}

/// Closes the innermost open node of `stack`.
fn close_top(stack: &mut Vec<Node>)
    ensures
        trees_of(final(stack)@) == closed_top(trees_of(old(stack)@)),
        final(stack)@.len() == if old(stack)@.len() >= 2 {
            old(stack)@.len() - 1
        } else {
            old(stack)@.len() as int
        },
{
    proof {
        lemma_trees_of(stack@);
    }
    if stack.len() >= 2 {
        let ghost before = stack@;
        let child = stack.pop().unwrap();
        let mut parent = stack.pop().unwrap();
        let ghost rest = stack@;
        let ghost siblings = parent.children@;
        parent.children.push(child);
        stack.push(parent);
        proof {
            lemma_trees_of(rest);
            lemma_trees_of(stack@);
            lemma_trees_of(siblings);
            let joined = stack@.last();
            assert(joined.children@.drop_last() =~= siblings);
            assert(trees_of(joined.children@) == trees_of(siblings).push(
                joined.children@.last().view(),
            ));
        }
    }
}

/// Puts the tree together that a preorder walk describes.
pub fn build_tree(events: Vec<SyntaxEvent>) -> (root: Option<Node>)
    ensures
        match root {
            Some(node) => tree_of_steps(steps_of(events@)) == Some(node@),
            None => tree_of_steps(steps_of(events@)) is None,
        },
{
    let ghost steps = steps_of(events@);
    let mut stack: Vec<Node> = Vec::new();
    let mut events = events;
    let mut rest: Vec<SyntaxEvent> = Vec::new();
    // The events are taken from the end, so they are turned round first.
    while events.len() > 0
        invariant
            rest@.len() + events@.len() == steps.len(),
            forall|j: int|
                0 <= j < rest@.len() ==> (#[trigger] rest@[j])@ == steps[steps.len() - 1 - j],
            forall|j: int| 0 <= j < events@.len() ==> (#[trigger] events@[j])@ == steps[j],
        decreases events.len(),
    {
        let event = events.pop().unwrap();
        rest.push(event);
    }
    let ghost mut done: int = 0;
    while rest.len() > 0
        invariant
            0 <= done <= steps.len(),
            rest@.len() == steps.len() - done,
            forall|j: int|
                0 <= j < rest@.len() ==> (#[trigger] rest@[j])@ == steps[steps.len() - 1 - j],
            trees_of(stack@) == stack_after(steps.take(done)),
        decreases rest.len(),
    {
        let event = rest.pop().unwrap();
        proof {
            assert(steps.take(done + 1).drop_last() =~= steps.take(done));
        }
        match event {
            SyntaxEvent::Enter { kind, text, start } => {
                let ghost before = stack@;
                let kind = kind_of_name(kind.as_str());
                stack.push(Node { kind, text, start, children: Vec::new() });
                proof {
                    assert(stack@.drop_last() =~= before);
                    assert(trees_of(stack@) == trees_of(before).push(stack@.last().view()));
                }
            },
            SyntaxEvent::Leave => {
                close_top(&mut stack);
            },
        }
        proof {
            done = done + 1;
        }
    }
    assert(steps.take(steps.len() as int) =~= steps);
    while stack.len() > 1
        invariant
            collapsed(trees_of(stack@)) == tree_of_steps(steps),
        decreases stack.len(),
    {
        proof {
            lemma_trees_of(stack@);
        }
        close_top(&mut stack);
    }
    proof {
        lemma_trees_of(stack@);
    }
    stack.pop()
}


/// The preorder walk over the nodes of the tree that the `rnix` parser makes
/// of `source`: what `Root::parse`, `Parse::syntax` and `SyntaxNode::preorder`
/// give, with for each node that the walk comes to the name of its kind,
/// its text and the offset at which it starts.
pub uninterp spec fn walk_of_source(source: Seq<char>) -> Seq<Step>;

/// `rnix::Root::parse`, `Parse::syntax` and `SyntaxNode::preorder`: parses
/// `source` and walks over the nodes of its tree. The parser counts offsets
/// in 32 bits, so the source must be no longer than that.
#[verifier::external_body]
pub(crate) fn walk_source(source: &str) -> (events: Vec<SyntaxEvent>)
    requires
        source.spec_bytes().len() <= u32::MAX,
    ensures
        steps_of(events@) == walk_of_source(source@),
{
    rnix::Root::parse(source).syntax().preorder().map(
        |event| match event {
            rnix::WalkEvent::Enter(node) => SyntaxEvent::Enter {
                kind: format!("{:?}", node.kind()),
                text: node.text().to_string(),
                start: node.text_range().start().into(),
            },
            rnix::WalkEvent::Leave(_) => SyntaxEvent::Leave,
        },
    ).collect()
}

/// The syntax tree of `source`. There is none for a source of more than
/// `u32::MAX` bytes.
pub open spec fn tree_of_source(source: Seq<char>) -> Option<Tree> {
    if vstd::utf8::encode_utf8(source).len() <= u32::MAX {
        tree_of_steps(walk_of_source(source))
    } else {
        None
    }
}

/// Parses `source` into its syntax tree.
pub fn parse_source(source: &str) -> (root: Option<Node>)
    ensures
        match root {
            Some(node) => tree_of_source(source@) == Some(node@),
            None => tree_of_source(source@) is None,
        },
{
    if source.as_bytes().len() > 0xffff_ffff {
        return None;
    }
    build_tree(walk_source(source))
}

} // verus!
