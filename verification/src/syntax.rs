//! Syntax trees as plain values: what the classifying visitor reads of a
//! parsed source file.

use vstd::prelude::*;

verus! {

/// A run of bytes of a source text, from `start` up to but without `end`.
#[derive(Debug, Clone, Copy, PartialEq, Eq, Structural)]
pub struct Span {
    pub start: usize,
    pub end: usize,
}

/// A node of a syntax tree, together with everything below it.
#[derive(Debug)]
pub struct SyntaxNode {
    /// The label that the grammar gives to this construct.
    pub kind: String,
    /// The bytes of the source text that this node covers.
    pub span: Span,
    /// The bytes covered by the child in this node's `name` field, if it has
    /// such a child.
    pub name: Option<Span>,
    /// The children, first to last.
    pub children: Vec<SyntaxNode>,
}

/// The mathematical model of a [`SyntaxNode`].
pub struct SyntaxTree {
    pub kind: Seq<char>,
    pub span: Span,
    pub name: Option<Span>,
    pub children: Seq<SyntaxTree>,
}

/// The model of a node: its own fields, and the models of its children.
pub open spec fn tree_of(node: SyntaxNode) -> SyntaxTree
    decreases node,
{
    SyntaxTree {
        kind: node.kind@,
        span: node.span,
        name: node.name,
        children: Seq::new(
            node.children@.len(),
            |i: int|
                if 0 <= i < node.children@.len() {
                    tree_of(node.children@[i])
                } else {
                    arbitrary()
                },
        ),
    }
}

impl View for SyntaxNode {
    type V = SyntaxTree;

    open spec fn view(&self) -> SyntaxTree {
        tree_of(*self)
    }
}

} // verus!
