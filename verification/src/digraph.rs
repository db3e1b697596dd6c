//! The directed graph of `petgraph` that holds the modules, and what this
//! library takes for granted about it.
//!
//! Nothing in this file is proved. Each function states what the `petgraph`
//! method it calls does to the nodes and edges of the graph.

use petgraph::dot::{Config, Dot};
use petgraph::graph::{EdgeIndex, Graph, NodeIndex};
use petgraph::Directed;
use vstd::prelude::*;

verus! {

/// `petgraph::graph::Graph`. What a graph holds is known only through
/// `graph_nodes` and `graph_edges`.
#[verifier::external_type_specification]
#[verifier::external_body]
#[verifier::reject_recursive_types(N)]
#[verifier::reject_recursive_types(E)]
#[verifier::reject_recursive_types(Ty)]
#[verifier::reject_recursive_types(Ix)]
pub struct ExGraph<N, E, Ty, Ix>(Graph<N, E, Ty, Ix>);

/// `petgraph::Directed`, the marker of graphs with directed edges.
#[verifier::external_type_specification]
#[verifier::external_body]
pub struct ExDirected(Directed);

/// The weights of the graph's nodes, by node index.
pub uninterp spec fn graph_nodes(g: Graph<String, (), Directed, u32>) -> Seq<Seq<char>>;

/// The source and target node index of each edge of the graph, by edge index.
pub uninterp spec fn graph_edges(g: Graph<String, (), Directed, u32>) -> Seq<(usize, usize)>;

/// The text that `petgraph` writes for a graph with these node weights and
/// edges, in the format of Graphviz and without edge labels.
pub uninterp spec fn dot_text(nodes: Seq<Seq<char>>, edges: Seq<(usize, usize)>) -> Seq<char>;

/// The targets of the edges that leave node `a`, the edge added last first.
pub open spec fn successors(edges: Seq<(usize, usize)>, a: usize) -> Seq<usize>
    decreases edges.len(),
{
    if edges.len() == 0 {
        Seq::empty()
    } else if edges.last().0 == a {
        seq![edges.last().1] + successors(edges.drop_last(), a)
    } else {
        successors(edges.drop_last(), a)
    }
}

/// `Graph::new`: a directed graph without nodes and edges.
#[verifier::external_body]
pub(crate) fn graph_new() -> (g: Graph<String, (), Directed, u32>)
    ensures
        graph_nodes(g) == Seq::<Seq<char>>::empty(),
        graph_edges(g) == Seq::<(usize, usize)>::empty(),
{
    Graph::new()
}

/// `Graph::node_count`: the number of nodes.
#[verifier::external_body]
pub(crate) fn graph_node_count(g: &Graph<String, (), Directed, u32>) -> (n: usize)
    ensures
        n == graph_nodes(*g).len(),
{
    g.node_count()
}

/// `Graph::add_node`: appends a node with the given weight and returns its
/// index, which is the number of nodes before the call. The edges stay. The
/// method panics when the index would be `u32::MAX`.
#[verifier::external_body]
pub(crate) fn graph_add_node(g: &mut Graph<String, (), Directed, u32>, name: String) -> (i: usize)
    requires
        graph_nodes(*old(g)).len() < u32::MAX,
    ensures
        graph_nodes(*final(g)) == graph_nodes(*old(g)).push(name@),
        graph_edges(*final(g)) == graph_edges(*old(g)),
        i == graph_nodes(*old(g)).len(),
{
    g.add_node(name).index()
}

/// `Graph::edge_count`: the number of edges.
#[verifier::external_body]
pub(crate) fn graph_edge_count(g: &Graph<String, (), Directed, u32>) -> (n: usize)
    ensures
        n == graph_edges(*g).len(),
{
    g.edge_count()
}

/// Indexing a `Graph` by a node index: the weight of that node. It panics
/// when the graph has no such node.
#[verifier::external_body]
pub(crate) fn graph_node_name(g: &Graph<String, (), Directed, u32>, i: usize) -> (name: &String)
    requires
        i < graph_nodes(*g).len(),
    ensures
        name@ == graph_nodes(*g)[i as int],
{
    &g[NodeIndex::new(i)]
}

/// `Graph::find_edge`: the index of an edge from `a` to `b`, or `None` when
/// the graph has no such edge.
#[verifier::external_body]
pub(crate) fn graph_find_edge(g: &Graph<String, (), Directed, u32>, a: usize, b: usize) -> (e:
    Option<usize>)
    requires
        a <= u32::MAX,
        b <= u32::MAX,
    ensures
        match e {
            Some(k) => k < graph_edges(*g).len() && graph_edges(*g)[k as int] == (a, b),
            None => forall|k: int| 0 <= k < graph_edges(*g).len() ==> graph_edges(*g)[k] != (a, b),
        },
{
    g.find_edge(NodeIndex::new(a), NodeIndex::new(b)).map(|e| e.index())
}

/// `Graph::add_edge`: appends an edge from `a` to `b` and returns its index,
/// which is the number of edges before the call. The nodes stay. The method
/// panics when the graph lacks one of the two nodes, and when the index
/// would be `u32::MAX`.
#[verifier::external_body]
pub(crate) fn graph_add_edge(g: &mut Graph<String, (), Directed, u32>, a: usize, b: usize) -> (e:
    usize)
    requires
        a < graph_nodes(*old(g)).len(),
        b < graph_nodes(*old(g)).len(),
        graph_edges(*old(g)).len() < u32::MAX,
    ensures
        graph_nodes(*final(g)) == graph_nodes(*old(g)),
        graph_edges(*final(g)) == graph_edges(*old(g)).push((a, b)),
        e == graph_edges(*old(g)).len(),
{
    g.add_edge(NodeIndex::new(a), NodeIndex::new(b), ()).index()
}

/// `Graph::edge_endpoints`: the source and the target of the edge with
/// index `k`, or `None` when the graph has no such edge.
#[verifier::external_body]
pub(crate) fn graph_edge_endpoints(g: &Graph<String, (), Directed, u32>, k: usize) -> (ends: Option<
    (usize, usize),
>)
    requires
        k <= u32::MAX,
    ensures
        match ends {
            Some(pair) => k < graph_edges(*g).len() && pair == graph_edges(*g)[k as int],
            None => k >= graph_edges(*g).len(),
        },
{
    g.edge_endpoints(EdgeIndex::new(k)).map(|(a, b)| (a.index(), b.index()))
}

/// `Graph::neighbors`: the targets of the edges that leave node `a`. For a
/// directed graph it lists them in reverse order of the edges' addition.
#[verifier::external_body]
pub(crate) fn graph_neighbors(g: &Graph<String, (), Directed, u32>, a: usize) -> (targets: Vec<
    usize,
>)
    requires
        a <= u32::MAX,
    ensures
        targets@ == successors(graph_edges(*g), a),
{
    g.neighbors(NodeIndex::new(a)).map(|n| n.index()).collect()
}

/// Formatting `Dot::with_config` for the graph with `Config::EdgeNoLabel`:
/// the Graphviz text of the graph.
#[verifier::external_body]
pub(crate) fn graph_dot(g: &Graph<String, (), Directed, u32>) -> (text: String)
    ensures
        text@ == dot_text(graph_nodes(*g), graph_edges(*g)),
{
    format!("{:?}", Dot::with_config(g, &[Config::EdgeNoLabel]))
}

} // verus!
