//! The classifying visitor: a walk over a syntax tree, each node before its
//! children and the children first to last, that records what it recognises
//! in a graph.

use crate::graph::{Entity, Graph, GraphView, NodeType};
use crate::rules::{
    declares_route, extract_route, is_persisted_name, is_route_decorator, names_persisted_entity,
    route_text,
};
use crate::syntax::{SyntaxNode, SyntaxTree};
use crate::text::{same_text, span_text, text_at};
use vstd::prelude::*;

verus! {

/// The source text that a node covers.
pub open spec fn node_text(tree: SyntaxTree, code: Seq<char>) -> Seq<char> {
    text_at(code, tree.span.start as int, tree.span.end as int)
}

/// The text of a node's `name` field; empty where the node has no such field.
pub open spec fn name_text(tree: SyntaxTree, code: Seq<char>) -> Seq<char> {
    match tree.name {
        Some(span) => text_at(code, span.start as int, span.end as int),
        None => Seq::empty(),
    }
}

/// The route that a decorated definition declares: the path named by its
/// first child, where that child is a decorator whose text declares a route.
pub open spec fn declared_route(tree: SyntaxTree, code: Seq<char>) -> Option<Seq<char>> {
    if tree.children.len() > 0 && tree.children[0].kind == "decorator"@ && declares_route(
        node_text(tree.children[0], code),
    ) {
        Some(route_text(node_text(tree.children[0], code)))
    } else {
        None
    }
}

/// The entities that one node gives rise to by itself, in the order in which
/// they are recorded.
///
/// A class definition gives a class and a function of the same name, and a
/// table of that name too where the name marks a storage-backed type. A
/// function definition gives a function. A decorated definition gives an
/// endpoint where it declares a route. Every other node gives nothing.
pub open spec fn own_entities(tree: SyntaxTree, code: Seq<char>) -> Seq<Entity> {
    if tree.kind == "class_definition"@ {
        let name = name_text(tree, code);
        if is_persisted_name(name) {
            seq![Entity::Class(name), Entity::Function(name), Entity::Table(name)]
        } else {
            seq![Entity::Class(name), Entity::Function(name)]
        }
    } else if tree.kind == "function_definition"@ {
        seq![Entity::Function(name_text(tree, code))]
    } else if tree.kind == "decorated_definition"@ {
        match declared_route(tree, code) {
            Some(route) => seq![Entity::Endpoint(route)],
            None => Seq::empty(),
        }
    } else {
        Seq::empty()
    }
}

/// The entities that a tree gives rise to: those of its root, then those of
/// each child's tree, first child to last.
pub open spec fn tree_entities(tree: SyntaxTree, code: Seq<char>) -> Seq<Entity>
    decreases tree,
{
    own_entities(tree, code) + forest_entities(tree.children, code)
}

/// The entities that a row of trees gives rise to, first tree to last.
pub open spec fn forest_entities(forest: Seq<SyntaxTree>, code: Seq<char>) -> Seq<Entity>
    decreases forest,
{
    if forest.len() == 0 {
        Seq::empty()
    } else {
        forest_entities(forest.drop_last(), code) + tree_entities(forest.last(), code)
    }
}

/// The edges that belong to a run of entities whose first is recorded at
/// position `base`: one from each class to the node right behind it.
pub open spec fn class_links(entities: Seq<Entity>, base: int) -> Seq<(int, int)>
    decreases entities.len(),
{
    if entities.len() == 0 {
        Seq::empty()
    } else {
        let earlier = class_links(entities.drop_last(), base);
        if entities.last() is Class {
            earlier.push((base + entities.len() - 1, base + entities.len()))
        } else {
            earlier
        }
    }
}

/// `graph` after the entities `found` and their edges were recorded in it.
pub open spec fn recorded(graph: GraphView, found: Seq<Entity>) -> GraphView {
    GraphView {
        nodes: graph.nodes + found,
        edges: graph.edges + class_links(found, graph.nodes.len() as int),
    }
}

/// The edges of two runs of entities recorded one after the other are those
/// of the first run followed by those of the second.
pub proof fn lemma_class_links_concat(first: Seq<Entity>, second: Seq<Entity>, base: int)
    ensures
        class_links(first + second, base) == class_links(first, base) + class_links(
            second,
            base + first.len(),
        ),
    decreases second.len(),
{
    if second.len() == 0 {
        assert(first + second =~= first);
        assert(class_links(first, base) + class_links(second, base + first.len()) =~= class_links(
            first,
            base,
        ));
    } else {
        assert((first + second).drop_last() =~= first + second.drop_last());
        lemma_class_links_concat(first, second.drop_last(), base);
        assert(class_links(first + second, base) =~= class_links(first, base) + class_links(
            second,
            base + first.len(),
        ));
    }
}

/// Recording two runs of entities one after the other is recording both at
/// once.
pub proof fn lemma_recorded_twice(graph: GraphView, first: Seq<Entity>, second: Seq<Entity>)
    ensures
        recorded(recorded(graph, first), second) == recorded(graph, first + second),
{
    lemma_class_links_concat(first, second, graph.nodes.len() as int);
    assert(recorded(recorded(graph, first), second).nodes =~= recorded(
        graph,
        first + second,
    ).nodes);
    assert(recorded(recorded(graph, first), second).edges =~= recorded(
        graph,
        first + second,
    ).edges);
}

/// The edges that one node gives rise to by itself: a class definition gives
/// one edge, from its class to its function, and no other node gives any.
pub proof fn lemma_own_links(tree: SyntaxTree, code: Seq<char>, base: int)
    ensures
        class_links(own_entities(tree, code), base) == if tree.kind == "class_definition"@ {
            seq![(base, base + 1)]
        } else {
            Seq::<(int, int)>::empty()
        },
{
    reveal_with_fuel(class_links, 4);
    let found = own_entities(tree, code);
    if tree.kind == "class_definition"@ {
        assert(found.drop_last().drop_last() =~= found.take(found.len() - 2));
        assert(class_links(found, base) =~= seq![(base, base + 1)]);
    } else {
        assert(class_links(found, base) =~= Seq::<(int, int)>::empty());
    }
}

/// Every class in the run is followed at once by a function of its name.
pub open spec fn classes_paired(entities: Seq<Entity>) -> bool {
    forall|i: int|
        0 <= i < entities.len() && (#[trigger] entities[i]) is Class ==> {
            &&& i + 1 < entities.len()
            &&& entities[i + 1] == Entity::Function(entities[i]->Class_0)
        }
}

/// Every edge of `graph` from position `first` on leads from a class to the
/// node right behind it, and that node is the function of the class's name.
pub open spec fn links_join_pairs(graph: GraphView, first: int) -> bool {
    forall|k: int|
        first <= k < graph.edges.len() ==> {
            let link = #[trigger] graph.edges[k];
            &&& 0 <= link.0
            &&& link.1 == link.0 + 1
            &&& link.1 < graph.nodes.len()
            &&& graph.nodes[link.0] is Class
            &&& graph.nodes[link.1] == Entity::Function(graph.nodes[link.0]->Class_0)
        }
}

/// Each edge of a run of entities starts at a class of the run and ends at
/// the position behind it.
pub proof fn lemma_class_links_ends(entities: Seq<Entity>, base: int, k: int)
    requires
        0 <= k < class_links(entities, base).len(),
    ensures
        base <= class_links(entities, base)[k].0 < base + entities.len(),
        class_links(entities, base)[k].1 == class_links(entities, base)[k].0 + 1,
        entities[class_links(entities, base)[k].0 - base] is Class,
    decreases entities.len(),
{
    if entities.len() > 0 {
        let earlier = class_links(entities.drop_last(), base);
        if k < earlier.len() {
            lemma_class_links_ends(entities.drop_last(), base, k);
        }
    }
}

/// Two runs in which the classes are paired make one such run.
pub proof fn lemma_paired_concat(first: Seq<Entity>, second: Seq<Entity>)
    requires
        classes_paired(first),
        classes_paired(second),
    ensures
        classes_paired(first + second),
{
    let both = first + second;
    assert forall|i: int| 0 <= i < both.len() && (#[trigger] both[i]) is Class implies i + 1
        < both.len() && both[i + 1] == Entity::Function(both[i]->Class_0) by {
        if i < first.len() {
            assert(first[i] is Class);
            assert(both[i + 1] == first[i + 1]);
        } else {
            assert(second[i - first.len()] is Class);
            assert(both[i + 1] == second[i + 1 - first.len()]);
        }
    }
}

/// In what one node gives rise to, every class is followed at once by a
/// function of its name.
pub proof fn lemma_own_entities_paired(tree: SyntaxTree, code: Seq<char>)
    ensures
        classes_paired(own_entities(tree, code)),
{
}

/// In what a tree gives rise to, every class is followed at once by a
/// function of its name.
pub proof fn lemma_tree_entities_paired(tree: SyntaxTree, code: Seq<char>)
    ensures
        classes_paired(tree_entities(tree, code)),
    decreases tree,
{
    lemma_own_entities_paired(tree, code);
    lemma_forest_entities_paired(tree.children, code);
    lemma_paired_concat(own_entities(tree, code), forest_entities(tree.children, code));
}

/// In what a row of trees gives rise to, every class is followed at once by
/// a function of its name.
pub proof fn lemma_forest_entities_paired(forest: Seq<SyntaxTree>, code: Seq<char>)
    ensures
        classes_paired(forest_entities(forest, code)),
    decreases forest,
{
    if forest.len() > 0 {
        lemma_forest_entities_paired(forest.drop_last(), code);
        lemma_tree_entities_paired(forest.last(), code);
        lemma_paired_concat(
            forest_entities(forest.drop_last(), code),
            tree_entities(forest.last(), code),
        );
    }
}

/// Recording only appends: what the graph held stays where it was. The new
/// edges lead from each new class to the function recorded right behind it,
/// so that no new edge touches an endpoint or a table; and where every edge
/// of the graph ended at one of its nodes before, every edge does so after.
pub proof fn lemma_recorded_links(graph: GraphView, found: Seq<Entity>)
    requires
        classes_paired(found),
    ensures
        recorded(graph, found).extends(graph),
        links_join_pairs(recorded(graph, found), graph.edges.len() as int),
        graph.edges_in_bounds() ==> recorded(graph, found).edges_in_bounds(),
{
    let after = recorded(graph, found);
    let base = graph.nodes.len() as int;
    assert forall|k: int| graph.edges.len() <= k < after.edges.len() implies {
        let link = #[trigger] after.edges[k];
        &&& 0 <= link.0
        &&& link.1 == link.0 + 1
        &&& link.1 < after.nodes.len()
        &&& after.nodes[link.0] is Class
        &&& after.nodes[link.1] == Entity::Function(after.nodes[link.0]->Class_0)
    } by {
        let j = k - graph.edges.len();
        lemma_class_links_ends(found, base, j);
        let link = class_links(found, base)[j];
        assert(after.edges[k] == link);
        assert(found[link.0 - base] is Class);
        assert(after.nodes[link.0] == found[link.0 - base]);
        assert(after.nodes[link.1] == found[link.0 - base + 1]);
    }
    if graph.edges_in_bounds() {
        assert forall|i: int| 0 <= i < after.edges.len() implies {
            &&& 0 <= (#[trigger] after.edges[i]).0 < after.nodes.len()
            &&& 0 <= after.edges[i].1 < after.nodes.len()
        } by {
            if i < graph.edges.len() {
                assert(after.edges[i] == graph.edges[i]);
            }
        }
    }
}

/// What a walk over a tree leaves in the graph: see [`lemma_recorded_links`].
pub proof fn lemma_traversal_links(graph: GraphView, tree: SyntaxTree, code: Seq<char>)
    ensures
        recorded(graph, tree_entities(tree, code)).extends(graph),
        links_join_pairs(recorded(graph, tree_entities(tree, code)), graph.edges.len() as int),
        graph.edges_in_bounds() ==> recorded(graph, tree_entities(tree, code)).edges_in_bounds(),
{
    lemma_tree_entities_paired(tree, code);
    lemma_recorded_links(graph, tree_entities(tree, code));
}

/// The text of a node's `name` field, read from the source text.
fn read_name(node: &SyntaxNode, code: &str) -> (name: String)
    ensures
        name@ == name_text(node@, code@),
{
    match node.name {
        Some(span) => span_text(code, span.start, span.end).to_owned(),
        None => String::new(),
    }
}

/// Records in `graph` what the node itself gives rise to, without looking
/// below it further than the first child.
pub fn classify_node(node: &SyntaxNode, code: &str, graph: &mut Graph)
    ensures
        final(graph)@ == recorded(old(graph)@, own_entities(node@, code@)),
{
    let ghost before = graph@;
    let ghost found = own_entities(node@, code@);
    proof {
        lemma_own_links(node@, code@, before.nodes.len() as int);
        if node.children.len() > 0 {
            assert(node.children[0]@ == node@.children[0]);
        }
    }
    let kind = node.kind.as_str();
    if same_text(kind, "class_definition") {
        let name = read_name(node, code);
        let flagged = names_persisted_entity(name.as_str());
        let class_index = graph.add_node(NodeType::Class(name.clone()));
        let function_index = graph.add_node(NodeType::Function(name.clone()));
        graph.add_edge(class_index, function_index);
        if flagged {
            graph.add_node(NodeType::Table(name));
        }
    } else if same_text(kind, "function_definition") {
        let name = read_name(node, code);
        graph.add_node(NodeType::Function(name));
    } else if same_text(kind, "decorated_definition") && node.children.len() > 0 {
        let decorator = &node.children[0];
        if same_text(decorator.kind.as_str(), "decorator") {
            let text = span_text(code, decorator.span.start, decorator.span.end);
            if is_route_decorator(text) {
                let route = extract_route(text);
                graph.add_node(NodeType::Endpoint(route));
            }
        }
    }
    proof {
        assert(graph@.nodes =~= before.nodes + found);
        assert(graph@.edges =~= before.edges + class_links(found, before.nodes.len() as int));
    }
}

/// Walks the tree below `node`, each node before its children, and records in
/// `graph` what each node gives rise to. `code` is the source text that the
/// tree was parsed from.
///
/// The graph only grows: the entities of the tree are placed behind the nodes
/// that it held, in the order of the walk, and behind its edges one edge for
/// each class, from the class to the function recorded with it.
pub fn traverse_tree(node: &SyntaxNode, code: &str, graph: &mut Graph)
    ensures
        final(graph)@ == recorded(old(graph)@, tree_entities(node@, code@)),
        final(graph)@.extends(old(graph)@),
        links_join_pairs(final(graph)@, old(graph)@.edges.len() as int),
        old(graph)@.edges_in_bounds() ==> final(graph)@.edges_in_bounds(),
    decreases node,
{
    let ghost before = graph@;
    let ghost own = own_entities(node@, code@);
    classify_node(node, code, graph);
    let count = node.children.len();
    let mut i: usize = 0;
    while i < count
        invariant
            i <= count == node.children.len(),
            graph@ == recorded(before, own + forest_entities(node@.children.take(i as int), code@)),
        decreases count - i,
    {
        let ghost done = forest_entities(node@.children.take(i as int), code@);
        let ghost next = tree_entities(node@.children[i as int], code@);
        traverse_tree(&node.children[i], code, graph);
        proof {
            assert(node.children[i as int]@ == node@.children[i as int]);
            lemma_recorded_twice(before, own + done, next);
            assert(node@.children.take(i + 1).drop_last() =~= node@.children.take(i as int));
            assert((own + done) + next =~= own + (done + next));
        }
        i += 1;
    }
    proof {
        assert(node@.children.take(count as int) =~= node@.children);
        lemma_traversal_links(before, node@, code@);
    }
}

} // verus!
