use code_graph::parser::{parse_python, ParseError};
use code_graph::syntax::{Span, SyntaxNode};
use code_graph::text::span_text;

fn kinds(nodes: &[SyntaxNode]) -> Vec<&str> {
    nodes.iter().map(|node| node.kind.as_str()).collect()
}

fn text<'a>(code: &'a str, span: Span) -> &'a str {
    span_text(code, span.start, span.end)
}

fn count(node: &SyntaxNode) -> usize {
    1 + node.children.iter().map(count).sum::<usize>()
}

#[test]
fn empty_text_parses_to_a_bare_module() {
    let root = parse_python("").unwrap();
    assert_eq!(root.kind, "module");
    assert_eq!(root.span, Span { start: 0, end: 0 });
    assert_eq!(root.name, None);
    assert!(root.children.is_empty());
}

#[test]
fn class_definition_has_its_kind_name_and_span() {
    let code = "class Foo:\n    pass\n";
    let root = parse_python(code).unwrap();
    assert_eq!(root.kind, "module");
    assert_eq!(root.span, Span { start: 0, end: code.len() });
    assert_eq!(kinds(&root.children), vec!["class_definition"]);
    let class = &root.children[0];
    assert_eq!(class.span.start, 0);
    assert_eq!(class.name, Some(Span { start: 6, end: 9 }));
    assert_eq!(text(code, class.name.unwrap()), "Foo");
    assert_eq!(kinds(&class.children), vec!["class", "identifier", ":", "block"]);
    assert_eq!(class.children[1].span, Span { start: 6, end: 9 });
    assert_eq!(class.children[1].name, None);
    assert!(class.children[1].children.is_empty());
}

#[test]
fn function_definition_has_its_name() {
    let code = "x = 1\ndef bar(a, b):\n    return a\n";
    let root = parse_python(code).unwrap();
    assert_eq!(kinds(&root.children), vec!["expression_statement", "function_definition"]);
    let function = &root.children[1];
    assert_eq!(text(code, function.name.unwrap()), "bar");
    assert_eq!(text(code, function.span), "def bar(a, b):\n    return a");
    assert_eq!(
        kinds(&function.children),
        vec!["def", "identifier", "parameters", ":", "block"]
    );
}

#[test]
fn decorated_definition_starts_with_its_decorator() {
    let code = "@app.route(\"/users\")\ndef list_users():\n    pass\n";
    let root = parse_python(code).unwrap();
    assert_eq!(kinds(&root.children), vec!["decorated_definition"]);
    let decorated = &root.children[0];
    assert_eq!(decorated.name, None);
    assert_eq!(kinds(&decorated.children), vec!["decorator", "function_definition"]);
    assert_eq!(text(code, decorated.children[0].span).trim_end(), "@app.route(\"/users\")");
    assert_eq!(text(code, decorated.children[1].name.unwrap()), "list_users");
}

#[test]
fn children_come_in_source_order_with_spans_inside_the_parent() {
    let code = "def a(): pass\nclass B: pass\ndef c(): pass\n";
    let root = parse_python(code).unwrap();
    assert_eq!(
        kinds(&root.children),
        vec!["function_definition", "class_definition", "function_definition"]
    );
    let names: Vec<&str> =
        root.children.iter().map(|child| text(code, child.name.unwrap())).collect();
    assert_eq!(names, vec!["a", "B", "c"]);
    let mut last_end = 0;
    for child in &root.children {
        assert!(last_end <= child.span.start);
        assert!(child.span.start < child.span.end);
        assert!(child.span.end <= root.span.end);
        last_end = child.span.end;
    }
}

#[test]
fn spans_count_bytes_of_the_encoded_text() {
    let code = "# é→\nclass Größe:\n    pass\n";
    let root = parse_python(code).unwrap();
    assert_eq!(kinds(&root.children), vec!["comment", "class_definition"]);
    assert_eq!(root.children[0].span, Span { start: 0, end: 7 });
    assert_eq!(text(code, root.children[0].span), "# é→");
    assert_eq!(text(code, root.children[1].name.unwrap()), "Größe");
}

#[test]
fn whole_tree_is_copied() {
    let code = "def f(x):\n    return x + 1\n";
    let root = parse_python(code).unwrap();
    assert!(count(&root) > 12);
    let block = root.children[0].children.last().unwrap();
    assert_eq!(block.kind, "block");
    assert_eq!(kinds(&block.children), vec!["return_statement"]);
    let sum = &block.children[0].children[1];
    assert_eq!(sum.kind, "binary_operator");
    assert_eq!(kinds(&sum.children), vec!["identifier", "+", "integer"]);
    assert_eq!(text(code, sum.children[2].span), "1");
}

#[test]
fn text_that_is_no_python_still_has_a_tree() {
    let root = parse_python("class (:\n  )) def").unwrap();
    assert_eq!(root.kind, "module");
    assert_eq!(root.span.start, 0);
}

#[test]
fn same_text_parses_to_the_same_tree() {
    let code = "class A:\n    def m(self): pass\n";
    let first = format!("{:?}", parse_python(code).unwrap());
    let second = format!("{:?}", parse_python(code).unwrap());
    assert_eq!(first, second);
}

#[test]
fn parse_errors_say_what_went_wrong() {
    assert_eq!(ParseError::GrammarRejected.message(), "Failed to load Python grammar");
    assert_eq!(ParseError::NoTree.message(), "Failed to parse code");
    assert_ne!(ParseError::GrammarRejected, ParseError::NoTree);
}
