use code_graph::graph::{Graph, NodeType};
use code_graph::parser::{parse_python, ParseError};
use code_graph::rules::has_python_extension;
use code_graph::scan::{parse_python_file, parse_python_repo, record_parsed};

fn class(name: &str) -> NodeType {
    NodeType::Class(name.to_string())
}

fn function(name: &str) -> NodeType {
    NodeType::Function(name.to_string())
}

fn endpoint(route: &str) -> NodeType {
    NodeType::Endpoint(route.to_string())
}

fn table(name: &str) -> NodeType {
    NodeType::Table(name.to_string())
}

fn scan_one(code: &str) -> Graph {
    let mut graph = Graph::new();
    assert_eq!(parse_python_file(code, &mut graph), Ok(()));
    graph
}

#[test]
fn parsed_class_named_foo() {
    let graph = scan_one("class Foo:\n    pass\n");
    assert_eq!(graph.nodes, vec![class("Foo"), function("Foo")]);
    assert_eq!(graph.edges, vec![(0, 1)]);
}

#[test]
fn parsed_class_named_person_record() {
    let graph = scan_one("class PersonRecord:\n    pass\n");
    assert_eq!(
        graph.nodes,
        vec![class("PersonRecord"), function("PersonRecord"), table("PersonRecord")]
    );
    assert_eq!(graph.edges, vec![(0, 1)]);
}

#[test]
fn parsed_standalone_function_named_bar() {
    let graph = scan_one("def bar():\n    pass\n");
    assert_eq!(graph.nodes, vec![function("bar")]);
    assert!(graph.edges.is_empty());
}

#[test]
fn parsed_route_decoration() {
    let graph = scan_one("@app.route(\"/users\")\ndef list_users(): pass\n");
    assert_eq!(graph.nodes, vec![endpoint("/users"), function("list_users")]);
    assert!(graph.edges.is_empty());
}

#[test]
fn parsed_route_with_nested_parentheses() {
    let graph = scan_one("@app.get(\"/a/(b)\")\ndef show(): pass\n");
    assert_eq!(graph.nodes, vec![endpoint("/a/"), function("show")]);
    assert!(graph.edges.is_empty());
}

#[test]
fn parsed_plain_decoration() {
    let graph = scan_one("@staticmethod\ndef helper(): pass\n");
    assert_eq!(graph.nodes, vec![function("helper")]);
}

#[test]
fn parsed_stacked_decorations_count_the_first_only() {
    let first = scan_one("@app.get(\"/x\")\n@cached\ndef x(): pass\n");
    assert_eq!(first.nodes, vec![endpoint("/x"), function("x")]);
    let second = scan_one("@cached\n@app.get(\"/x\")\ndef x(): pass\n");
    assert_eq!(second.nodes, vec![function("x")]);
}

#[test]
fn parsed_decorated_class() {
    let graph = scan_one("@app.register(\"people\")\nclass Person:\n    pass\n");
    assert_eq!(
        graph.nodes,
        vec![endpoint("people"), class("Person"), function("Person"), table("Person")]
    );
    assert_eq!(graph.edges, vec![(1, 2)]);
}

#[test]
fn parsed_nested_definitions_come_in_walk_order() {
    let code = "\
import os

class Shop:
    def open(self):
        def inner():
            pass
        return inner

    class SalesPerson:
        @app.route('/sell')
        def sell(self):
            pass

async def main():
    pass
";
    let graph = scan_one(code);
    assert_eq!(
        graph.nodes,
        vec![
            class("Shop"),
            function("Shop"),
            function("open"),
            function("inner"),
            class("SalesPerson"),
            function("SalesPerson"),
            table("SalesPerson"),
            endpoint("'/sell'"),
            function("sell"),
            function("main"),
        ]
    );
    assert_eq!(graph.edges, vec![(0, 1), (4, 5)]);
}

#[test]
fn parsed_text_without_definitions_gives_nothing() {
    let graph = scan_one("x = 1\nprint(x)\n# def nothing(): pass\n");
    assert!(graph.nodes.is_empty());
    assert!(graph.edges.is_empty());
    let empty = scan_one("");
    assert!(empty.nodes.is_empty());
}

#[test]
fn parsed_names_may_hold_any_characters() {
    let graph = scan_one("class PersonÄ:\n    def größe(self): pass\n");
    assert_eq!(
        graph.nodes,
        vec![class("PersonÄ"), function("PersonÄ"), table("PersonÄ"), function("größe")]
    );
}

#[test]
fn files_share_one_graph() {
    let mut graph = Graph::new();
    assert_eq!(parse_python_file("class A: pass\n", &mut graph), Ok(()));
    assert_eq!(parse_python_file("def f(): pass\n", &mut graph), Ok(()));
    assert_eq!(parse_python_file("class B: pass\n", &mut graph), Ok(()));
    assert_eq!(
        graph.nodes,
        vec![class("A"), function("A"), function("f"), class("B"), function("B")]
    );
    assert_eq!(graph.edges, vec![(0, 1), (3, 4)]);
}

#[test]
fn record_parsed_walks_a_tree() {
    let code = "class Foo: pass\n";
    let parsed = parse_python(code);
    let mut graph = Graph::new();
    graph.add_node(endpoint("/"));
    assert_eq!(record_parsed(&parsed, code, &mut graph), Ok(()));
    assert_eq!(graph.nodes, vec![endpoint("/"), class("Foo"), function("Foo")]);
    assert_eq!(graph.edges, vec![(1, 2)]);
}

#[test]
fn record_parsed_hands_on_the_error_and_keeps_the_graph() {
    for error in [ParseError::GrammarRejected, ParseError::NoTree] {
        let mut graph = Graph::new();
        graph.add_node(class("A"));
        graph.add_node(function("A"));
        graph.add_edge(0, 1);
        assert_eq!(record_parsed(&Err(error), "class B: pass", &mut graph), Err(error));
        assert_eq!(graph.nodes, vec![class("A"), function("A")]);
        assert_eq!(graph.edges, vec![(0, 1)]);
    }
}

#[test]
fn repo_without_files_gives_an_empty_graph() {
    let graph = parse_python_repo(&Vec::new()).unwrap();
    assert!(graph.nodes.is_empty());
    assert!(graph.edges.is_empty());
}

#[test]
fn repo_directory_without_python_files_gives_an_empty_graph() {
    let entries = vec![("README.md", "class Foo: pass"), ("notes.txt", "def f(): pass"), (".py", "")];
    let sources: Vec<String> = entries
        .iter()
        .filter(|(name, _)| has_python_extension(name))
        .map(|(_, code)| code.to_string())
        .collect();
    assert!(sources.is_empty());
    let graph = parse_python_repo(&sources).unwrap();
    assert!(graph.nodes.is_empty());
    assert!(graph.edges.is_empty());
}

#[test]
fn repo_files_are_scanned_in_the_order_given() {
    let sources = vec![
        "class Person: pass\n".to_string(),
        String::new(),
        "@app.get(\"/p\")\ndef people(): pass\n".to_string(),
        "class Q: pass\n".to_string(),
    ];
    let graph = parse_python_repo(&sources).unwrap();
    assert_eq!(
        graph.nodes,
        vec![
            class("Person"),
            function("Person"),
            table("Person"),
            endpoint("/p"),
            function("people"),
            class("Q"),
            function("Q"),
        ]
    );
    assert_eq!(graph.edges, vec![(0, 1), (5, 6)]);
}

#[test]
fn repo_scan_equals_file_by_file_scan() {
    let sources = vec!["class A: pass\n".to_string(), "def b(): pass\nclass C: pass\n".to_string()];
    let whole = parse_python_repo(&sources).unwrap();
    let mut stepwise = Graph::new();
    for source in &sources {
        parse_python_file(source, &mut stepwise).unwrap();
    }
    assert_eq!(whole.nodes, stepwise.nodes);
    assert_eq!(whole.edges, stepwise.edges);
}

#[test]
fn test_python_parsing() {
    let repo_path = "python";
    let entries = vec![
        ("models.py", "class Person:\n    def greet(self):\n        pass\n"),
        ("README.md", "class NotPython: pass\n"),
        ("views.py", "@app.route(\"/people\")\ndef people():\n    pass\n"),
    ];
    let mut sources = Vec::new();
    for (name, code) in &entries {
        if has_python_extension(name) {
            println!("Parsing file: {}/{}", repo_path, name);
            sources.push(code.to_string());
        }
    }
    let graph = parse_python_repo(&sources).unwrap();

    println!("Graph Nodes: {:?}", graph.nodes);
    println!("Graph Edges: {:?}", graph.edges);

    assert_eq!(
        graph.nodes,
        vec![
            class("Person"),
            function("Person"),
            table("Person"),
            function("greet"),
            endpoint("/people"),
            function("people"),
        ]
    );
    assert_eq!(graph.edges, vec![(0, 1)]);
}
