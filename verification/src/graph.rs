//! The graph store: an append-only container of typed nodes and directed
//! edges, addressed by position.

use vstd::prelude::*;

verus! {

/// What a node stands for, as a mathematical value: the view of a [`NodeType`].
pub enum Entity {
    /// A named structural type.
    Class(Seq<char>),
    /// A named function or method.
    Function(Seq<char>),
    /// An externally reachable path taken from a route decoration.
    Endpoint(Seq<char>),
    /// A type flagged as storage-backed.
    Table(Seq<char>),
}

/// The kind of a graph node, with the one text field that each kind carries.
#[derive(Debug, PartialEq, Eq)]
pub enum NodeType {
    /// A named structural type.
    Class(String),
    /// A named function or method.
    Function(String),
    /// An externally reachable path taken from a route decoration.
    Endpoint(String),
    /// A type flagged as storage-backed.
    Table(String),
}

impl View for NodeType {
    type V = Entity;

    open spec fn view(&self) -> Entity {
        match self {
            NodeType::Class(name) => Entity::Class(name@),
            NodeType::Function(name) => Entity::Function(name@),
            NodeType::Endpoint(route) => Entity::Endpoint(route@),
            NodeType::Table(name) => Entity::Table(name@),
        }
    }
}

/// The mathematical model of a [`Graph`]: the entities in insertion order, and
/// the edges in creation order as pairs of node positions.
pub struct GraphView {
    pub nodes: Seq<Entity>,
    pub edges: Seq<(int, int)>,
}

impl GraphView {
    /// The graph without nodes or edges.
    pub open spec fn empty() -> GraphView {
        GraphView { nodes: Seq::empty(), edges: Seq::empty() }
    }

    /// The position that the next node will get.
    pub open spec fn next_index(self) -> int {
        self.nodes.len() as int
    }

    /// This graph with one more node, placed last.
    pub open spec fn add_node(self, entity: Entity) -> GraphView {
        GraphView { nodes: self.nodes.push(entity), edges: self.edges }
    }

    /// This graph with one more edge, placed last.
    pub open spec fn add_edge(self, from: int, to: int) -> GraphView {
        GraphView { nodes: self.nodes, edges: self.edges.push((from, to)) }
    }

    /// This graph after a run of node insertions, in the order of `entities`.
    pub open spec fn add_nodes(self, entities: Seq<Entity>) -> GraphView
        decreases entities.len(),
    {
        if entities.len() == 0 {
            self
        } else {
            self.add_nodes(entities.drop_last()).add_node(entities.last())
        }
    }

    /// Both ends of every edge are positions of nodes of this graph.
    pub open spec fn edges_in_bounds(self) -> bool {
        forall|i: int|
            0 <= i < self.edges.len() ==> {
                &&& 0 <= (#[trigger] self.edges[i]).0 < self.nodes.len()
                &&& 0 <= self.edges[i].1 < self.nodes.len()
            }
    }

    /// This graph holds everything that `earlier` holds, at the same positions.
    pub open spec fn extends(self, earlier: GraphView) -> bool {
        &&& earlier.nodes.is_prefix_of(self.nodes)
        &&& earlier.edges.is_prefix_of(self.edges)
    }
}

/// An append-only graph. A node's identity is its position in `nodes`; an edge
/// is a pair of such positions, `(from, to)`.
#[derive(Debug)]
pub struct Graph {
    pub nodes: Vec<NodeType>,
    pub edges: Vec<(usize, usize)>,
}

impl View for Graph {
    type V = GraphView;

    open spec fn view(&self) -> GraphView {
        GraphView {
            nodes: self.nodes@.map_values(|node: NodeType| node@),
            edges: self.edges@.map_values(|edge: (usize, usize)| (edge.0 as int, edge.1 as int)),
        }
    }
}

impl Graph {
    /// Creates a graph without nodes or edges.
    pub fn new() -> (graph: Graph)
        ensures
            graph@ == GraphView::empty(),
    {
        let graph = Graph { nodes: Vec::new(), edges: Vec::new() };
        assert(graph@.nodes =~= Seq::empty());
        assert(graph@.edges =~= Seq::empty());
        graph
    }

    /// Appends a node and returns its position, which is the number of nodes
    /// that the graph held before.
    pub fn add_node(&mut self, node: NodeType) -> (index: usize)
        ensures
            final(self)@ == old(self)@.add_node(node@),
            index == old(self)@.next_index(),
            index == final(self).nodes.len() - 1,
    {
        self.nodes.push(node);
        assert(self@.nodes =~= old(self)@.nodes.push(node@));
        self.nodes.len() - 1
    }

    /// Appends the edge `(from, to)`. Neither end is checked against the nodes
    /// that the graph holds.
    pub fn add_edge(&mut self, from: usize, to: usize)
        ensures
            final(self)@ == old(self)@.add_edge(from as int, to as int),
    {
        self.edges.push((from, to));
        assert(self@.edges =~= old(self)@.edges.push((from as int, to as int)));
    }
}

/// Insertion assigns positions densely and in order: when `entities` are added
/// one after another to a graph, the call that adds `entities[k]` returns the
/// graph's earlier node count plus `k`, and right after it the graph holds one
/// node more than that. On a new graph the first call returns 0, the second 1,
/// and so on.
pub proof fn lemma_add_node_positions(graph: GraphView, entities: Seq<Entity>, k: int)
    requires
        0 <= k < entities.len(),
    ensures
        graph.add_nodes(entities.take(k)).next_index() == graph.nodes.len() + k,
        graph.add_nodes(entities.take(k + 1)).nodes.len() == graph.nodes.len() + k + 1,
        graph.add_nodes(entities.take(k + 1)) == graph.add_nodes(entities.take(k)).add_node(
            entities[k],
        ),
{
    lemma_add_nodes_appends(graph, entities.take(k));
    lemma_add_nodes_appends(graph, entities.take(k + 1));
    assert(entities.take(k + 1).drop_last() =~= entities.take(k));
}

/// A run of insertions appends exactly the inserted entities and leaves the
/// edges as they were.
pub proof fn lemma_add_nodes_appends(graph: GraphView, entities: Seq<Entity>)
    ensures
        graph.add_nodes(entities).nodes == graph.nodes + entities,
        graph.add_nodes(entities).edges == graph.edges,
    decreases entities.len(),
{
    if entities.len() == 0 {
        assert(graph.nodes + entities =~= graph.nodes);
    } else {
        lemma_add_nodes_appends(graph, entities.drop_last());
        assert(graph.nodes + entities =~= (graph.nodes + entities.drop_last()).push(
            entities.last(),
        ));
    }
}

} // verus!
