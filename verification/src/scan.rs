//! The per-file driver and the scan: source texts go in, one graph shared by
//! all of them comes out.

use crate::graph::{Graph, GraphView};
use crate::parser::{parse_python, python_syntax, ParseError};
use crate::syntax::{SyntaxNode, SyntaxTree};
use crate::visitor::{lemma_traversal_links, recorded, traverse_tree, tree_entities};
use vstd::prelude::*;

verus! {

/// `graph` after the outcome of parsing `code` was taken in: with the
/// entities of the tree recorded, or the reason why there is no tree.
pub open spec fn file_recorded(
    graph: GraphView,
    parsed: Result<SyntaxTree, ParseError>,
    code: Seq<char>,
) -> Result<GraphView, ParseError> {
    match parsed {
        Ok(tree) => Ok(recorded(graph, tree_entities(tree, code))),
        Err(error) => Err(error),
    }
}

/// `graph` after the source texts were parsed and recorded one after the
/// other, first to last; the reason given for the first text that has no
/// tree, where there is one.
pub open spec fn scanned(
    graph: GraphView,
    sources: Seq<Seq<char>>,
) -> Result<GraphView, ParseError>
    decreases sources.len(),
{
    if sources.len() == 0 {
        Ok(graph)
    } else {
        match scanned(graph, sources.drop_last()) {
            Ok(earlier) => file_recorded(earlier, python_syntax(sources.last()), sources.last()),
            Err(error) => Err(error),
        }
    }
}

/// The texts of a list of sources.
pub open spec fn texts(sources: Seq<String>) -> Seq<Seq<char>> {
    sources.map_values(|source: String| source@)
}

/// Takes in the outcome of parsing `code`: records the tree in `graph`, or
/// hands on the reason why there is none and leaves `graph` as it is.
pub fn record_parsed(
    parsed: &Result<SyntaxNode, ParseError>,
    code: &str,
    graph: &mut Graph,
) -> (done: Result<(), ParseError>)
    ensures
        match parsed {
            Ok(root) => done is Ok && final(graph)@ == recorded(
                old(graph)@,
                tree_entities(root@, code@),
            ),
            Err(error) => done == Err::<(), ParseError>(*error) && final(graph)@ == old(graph)@,
        },
{
    match parsed {
        Ok(root) => {
            traverse_tree(root, code, graph);
            Ok(())
        },
        Err(error) => Err(*error),
    }
}

/// Parses one file's text as Python and records in `graph` what its syntax
/// tree gives rise to. Where the parser gives no tree, `graph` stays as it is
/// and the reason comes back.
pub fn parse_python_file(code: &str, graph: &mut Graph) -> (done: Result<(), ParseError>)
    ensures
        match file_recorded(old(graph)@, python_syntax(code@), code@) {
            Ok(after) => done is Ok && final(graph)@ == after,
            Err(error) => done == Err::<(), ParseError>(error) && final(graph)@ == old(graph)@,
        },
{
    let parsed = parse_python(code);
    record_parsed(&parsed, code, graph)
}

/// Scans the texts of the files of a repository, in the order given, into one
/// new graph. The scan stops at the first text for which the parser gives no
/// tree, and hands on the reason. Without any text the graph is empty.
pub fn parse_python_repo(sources: &Vec<String>) -> (scan: Result<Graph, ParseError>)
    ensures
        match scanned(GraphView::empty(), texts(sources@)) {
            Ok(after) => scan is Ok && scan->Ok_0@ == after,
            Err(error) => scan is Err && scan->Err_0 == error,
        },
        sources@.len() == 0 ==> scan is Ok && scan->Ok_0@ == GraphView::empty(),
        scan is Ok ==> scan->Ok_0@.edges_in_bounds(),
{
    let mut graph = Graph::new();
    let mut i: usize = 0;
    while i < sources.len()
        invariant
            i <= sources.len(),
            scanned(GraphView::empty(), texts(sources@).take(i as int)) == Ok::<
                GraphView,
                ParseError,
            >(graph@),
            graph@.edges_in_bounds(),
        decreases sources.len() - i,
    {
        let ghost before = graph@;
        proof {
            if python_syntax(sources@[i as int]@) is Ok {
                lemma_traversal_links(
                    before,
                    python_syntax(sources@[i as int]@)->Ok_0,
                    sources@[i as int]@,
                );
            }
            assert(texts(sources@).take(i + 1).drop_last() =~= texts(sources@).take(i as int));
            assert(texts(sources@).take(i + 1).last() == sources@[i as int]@);
        }
        match parse_python_file(sources[i].as_str(), &mut graph) {
            Ok(()) => {},
            Err(error) => {
                proof {
                    lemma_scan_stays_failed(GraphView::empty(), texts(sources@), i + 1);
                }
                return Err(error);
            },
        }
        i += 1;
    }
    proof {
        assert(texts(sources@).take(sources@.len() as int) =~= texts(sources@));
    }
    Ok(graph)
}

/// A scan that has failed on the first `count` texts fails on all of them,
/// for the same reason.
pub proof fn lemma_scan_stays_failed(graph: GraphView, sources: Seq<Seq<char>>, count: int)
    requires
        0 <= count <= sources.len(),
        scanned(graph, sources.take(count)) is Err,
    ensures
        scanned(graph, sources) == scanned(graph, sources.take(count)),
    decreases sources.len(),
{
    if count < sources.len() {
        assert(sources.drop_last().take(count) =~= sources.take(count));
        lemma_scan_stays_failed(graph, sources.drop_last(), count);
    } else {
        assert(sources.take(count) =~= sources);
    }
}

} // verus!
