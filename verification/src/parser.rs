//! Parsing Python source into a syntax tree. The parsing itself is the work
//! of tree-sitter and its Python grammar; this module states what is taken on
//! trust about them and turns their tree into a [`SyntaxNode`].

use crate::syntax::{Span, SyntaxNode, SyntaxTree};
use tree_sitter::{Node, Parser, Tree};
use vstd::prelude::*;

verus! {

/// Why no syntax tree could be had for a source text.
#[derive(Debug, Clone, Copy, PartialEq, Eq, Structural)]
pub enum ParseError {
    /// The parser refused the Python grammar.
    GrammarRejected,
    /// The parser gave back no tree.
    NoTree,
}

impl ParseError {
    /// A sentence that says what went wrong.
    pub fn message(&self) -> (text: &'static str)
        ensures
            text@ == match self {
                ParseError::GrammarRejected => "Failed to load Python grammar"@,
                ParseError::NoTree => "Failed to parse code"@,
            },
    {
        match self {
            ParseError::GrammarRejected => "Failed to load Python grammar",
            ParseError::NoTree => "Failed to parse code",
        }
    }
}

/// `tree_sitter::Tree`, a parsed text. Nothing inside it is seen here.
#[verifier::external_type_specification]
#[verifier::external_body]
pub struct ExTree(Tree);

/// `tree_sitter::Node`, one node of a `Tree`. Nothing inside it is seen here.
#[verifier::external_type_specification]
#[verifier::external_body]
pub struct ExNode<'tree>(Node<'tree>);

/// What parsing `code` as Python gives: the syntax tree, or the reason why
/// there is none.
pub uninterp spec fn python_syntax(code: Seq<char>) -> Result<SyntaxTree, ParseError>;

/// The syntax tree that a tree-sitter tree holds, from its root down.
pub uninterp spec fn tree_syntax(tree: Tree) -> SyntaxTree;

/// The syntax tree that a tree-sitter node stands for: the node's kind and
/// byte range, the byte range of the child in its `name` field, and the same
/// of each of its children.
pub uninterp spec fn node_syntax(node: Node<'_>) -> SyntaxTree;

/// Parses `code` with a new `tree_sitter::Parser` that was given the grammar
/// `tree_sitter_python::language()` by `Parser::set_language` and is then run
/// by `Parser::parse`, without an earlier tree.
///
/// Taken on trust: the outcome depends on the text alone. `set_language` fails
/// only on a grammar of a version that the parser does not take, and `parse`
/// gives no tree only without a grammar, after a timeout or on cancellation.
#[verifier::external_body]
fn parse_tree(code: &str) -> (parsed: Result<Tree, ParseError>)
    ensures
        python_syntax(code@) == match parsed {
            Ok(tree) => Ok::<SyntaxTree, ParseError>(tree_syntax(tree)),
            Err(error) => Err(error),
        },
{
    let mut parser = Parser::new();
    if parser.set_language(tree_sitter_python::language()).is_err() {
        return Err(ParseError::GrammarRejected);
    }
    match parser.parse(code, None) {
        Some(tree) => Ok(tree),
        None => Err(ParseError::NoTree),
    }
}

/// `Tree::root_node`: the node at the root of the tree. Taken on trust: it
/// stands for all that the tree holds.
#[verifier::external_body]
fn root_node<'tree>(tree: &'tree Tree) -> (root: Node<'tree>)
    ensures
        node_syntax(root) == tree_syntax(*tree),
{
    tree.root_node()
}

/// `Node::kind`: the label that the grammar gives to the node.
#[verifier::external_body]
fn node_kind(node: &Node<'_>) -> (kind: &'static str)
    ensures
        kind@ == node_syntax(*node).kind,
{
    node.kind()
}

/// `Node::byte_range`: the bytes of the source text that the node covers.
#[verifier::external_body]
fn node_span(node: &Node<'_>) -> (span: Span)
    ensures
        span == node_syntax(*node).span,
{
    let range = node.byte_range();
    Span { start: range.start, end: range.end }
}

/// `Node::child_by_field_name` for the field `name`: the first child in that
/// field, if there is one. Taken on trust: the byte range of that child is
/// what the node's syntax tree holds as the range of its name.
#[verifier::external_body]
fn name_child<'tree>(node: &Node<'tree>) -> (child: Option<Node<'tree>>)
    ensures
        node_syntax(*node).name == match child {
            Some(child) => Some(node_syntax(child).span),
            None => None::<Span>,
        },
{
    node.child_by_field_name("name")
}

/// `Node::children`, over a cursor from `Node::walk`: the children of the
/// node, first to last. Taken on trust: they stand for the children of the
/// node's syntax tree, one for one and in the same order, so that every tree
/// is finite.
#[verifier::external_body]
fn node_children<'tree>(node: &Node<'tree>) -> (children: Vec<Node<'tree>>)
    ensures
        children@.len() == node_syntax(*node).children.len(),
        forall|i: int|
            0 <= i < children@.len() ==> node_syntax(#[trigger] children@[i]) == node_syntax(
                *node,
            ).children[i],
{
    let mut cursor = node.walk();
    node.children(&mut cursor).collect()
}

/// Copies what a tree-sitter node stands for into a [`SyntaxNode`].
fn lower(node: &Node<'_>) -> (lowered: SyntaxNode)
    ensures
        lowered@ == node_syntax(*node),
    decreases node_syntax(*node),
{
    let kind = node_kind(node).to_owned();
    let span = node_span(node);
    let name = match name_child(node) {
        Some(child) => Some(node_span(&child)),
        None => None,
    };
    let below = node_children(node);
    let mut children: Vec<SyntaxNode> = Vec::new();
    let mut i: usize = 0;
    while i < below.len()
        invariant
            i <= below.len(),
            children.len() == i,
            below@.len() == node_syntax(*node).children.len(),
            forall|j: int|
                0 <= j < below@.len() ==> node_syntax(#[trigger] below@[j]) == node_syntax(
                    *node,
                ).children[j],
            forall|j: int| 0 <= j < i ==> (#[trigger] children@[j])@ == node_syntax(*node).children[j],
        decreases below.len() - i,
    {
        let child = lower(&below[i]);
        children.push(child);
        i += 1;
    }
    let lowered = SyntaxNode { kind, span, name, children };
    assert(lowered@.children =~= node_syntax(*node).children);
    lowered
}

/// Parses `code` as Python and gives its syntax tree, or the reason why the
/// parser gave none.
pub fn parse_python(code: &str) -> (parsed: Result<SyntaxNode, ParseError>)
    ensures
        python_syntax(code@) == match parsed {
            Ok(root) => Ok::<SyntaxTree, ParseError>(root@),
            Err(error) => Err(error),
        },
{
    match parse_tree(code) {
        Ok(tree) => {
            let root = root_node(&tree);
            Ok(lower(&root))
        },
        Err(error) => Err(error),
    }
}

} // verus!
