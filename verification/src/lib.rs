//! An entity-relationship graph of the structural constructs found in Python
//! syntax trees: type definitions, callable definitions, route decorations and
//! types that look storage-backed.

pub mod graph;
pub mod parser;
pub mod rules;
pub mod scan;
pub mod syntax;
pub mod text;
pub mod visitor;

pub use graph::{Entity, Graph, GraphView, NodeType};
pub use parser::{parse_python, ParseError};
pub use scan::{parse_python_file, parse_python_repo};
pub use syntax::{Span, SyntaxNode, SyntaxTree};
pub use visitor::traverse_tree;
