//! The dependency graph: modules as nodes, "imports" as edges, each at most
//! once.

use crate::digraph::{
    dot_text, graph_add_edge, graph_add_node, graph_dot, graph_edge_count, graph_edge_endpoints,
    graph_edges, graph_find_edge, graph_neighbors, graph_new, graph_node_count, graph_node_name,
    graph_nodes, successors,
};
use crate::distinct::push_new;
use crate::order::{sort_names, sorted_names};
use crate::text::texts;
use petgraph::graph::Graph;
use petgraph::Directed;
use vstd::hash_map::StringHashMap;
use vstd::prelude::*;
use vstd::string::*;

verus! {

/// The modules that the edges lead to from `module`, the edge made last
/// first.
pub open spec fn targets_of(edges: Seq<(Seq<char>, Seq<char>)>, module: Seq<char>) -> Seq<Seq<char>>
    decreases edges.len(),
{
    if edges.len() == 0 {
        Seq::empty()
    } else if edges.last().0 == module {
        seq![edges.last().1] + targets_of(edges.drop_last(), module)
    } else {
        targets_of(edges.drop_last(), module)
    }
}

/// What a `DependencyGraph` holds: the module names and the edges between
/// them, each in the order in which the graph got them.
pub struct GraphModel {
    pub names: Seq<Seq<char>>,
    pub edges: Seq<(Seq<char>, Seq<char>)>,
}

/// A directed graph of modules. A node holds a module name and no two nodes
/// hold the same name; an edge says that its source imports its target, and
/// no two edges join the same nodes in the same direction.
pub struct DependencyGraph {
    graph: Graph<String, (), Directed, u32>,
    index: StringHashMap<usize>,
}

impl View for DependencyGraph {
    type V = GraphModel;

    open spec fn view(&self) -> GraphModel {
        GraphModel { names: self.names(), edges: self.edges() }
    }
}

impl DependencyGraph {
    /// The module names, by node index: in the order in which the nodes were
    /// made.
    pub closed spec fn names(&self) -> Seq<Seq<char>> {
        graph_nodes(self.graph)
    }

    /// The edges as pairs of node indices, source first, in the order in
    /// which they were made.
    pub closed spec fn links(&self) -> Seq<(usize, usize)> {
        graph_edges(self.graph)
    }

    /// The edges as pairs of module names, source first, in the order in
    /// which they were made.
    pub open spec fn edges(&self) -> Seq<(Seq<char>, Seq<char>)> {
        Seq::new(
            self.links().len(),
            |k: int| (self.names()[self.links()[k].0 as int], self.names()[self.links()[k].1 as int]),
        )
    }

    /// The graph is well formed: the lookup table maps each name to the index
    /// of its node and knows no other name, every edge joins two nodes of the
    /// graph, no edge occurs twice, and the nodes and edges can be counted
    /// in 32 bits.
    pub closed spec fn wf(&self) -> bool {
        &&& self.names().len() <= u32::MAX
        &&& self.links().len() <= u32::MAX
        &&& forall|i: int|
            0 <= i < self.names().len() ==> self.index@.contains_key(#[trigger] self.names()[i])
                && self.index@[self.names()[i]] == i
        &&& forall|n: Seq<char>| #[trigger]
            self.index@.contains_key(n) ==> self.index@[n] < self.names().len()
                && self.names()[self.index@[n] as int] == n
        &&& forall|k: int|
            0 <= k < self.links().len() ==> (#[trigger] self.links()[k]).0 < self.names().len()
                && self.links()[k].1 < self.names().len()
        &&& self.links().no_duplicates()
    }

    /// A graph without nodes and edges.
    pub fn new() -> (g: Self)
        ensures
            g.wf(),
            g.names() == Seq::<Seq<char>>::empty(),
            g.links() == Seq::<(usize, usize)>::empty(),
            g.edges() == Seq::<(Seq<char>, Seq<char>)>::empty(),
    {
        DependencyGraph { graph: graph_new(), index: StringHashMap::new() }
    }

    /// The number of modules.
    pub fn node_count(&self) -> (n: usize)
        ensures
            n == self.names().len(),
    {
        graph_node_count(&self.graph)
    }

    /// The number of edges.
    pub fn edge_count(&self) -> (n: usize)
        ensures
            n == self.links().len(),
            n == self.edges().len(),
    {
        graph_edge_count(&self.graph)
    }

    /// Finds the node of a module, or makes one when the graph has none: the
    /// index of the only node that holds `name`. A new node needs an index
    /// below `u32::MAX`.
    pub fn upsert_node(&mut self, name: &str) -> (i: usize)
        requires
            old(self).wf(),
            push_new(old(self).names(), name@).len() <= u32::MAX,
        ensures
            final(self).wf(),
            final(self).names() == push_new(old(self).names(), name@),
            final(self).links() == old(self).links(),
            final(self).edges() == old(self).edges(),
            i < final(self).names().len(),
            final(self).names()[i as int] == name@,
    {
        let found = match self.index.get(name) {
            Some(i) => Some(*i),
            None => None,
        };
        match found {
            Some(i) => i,
            None => {
                let i = graph_add_node(&mut self.graph, String::from_str(name));
                self.index.insert(String::from_str(name), i);
                i
            },
        }
    }

    /// Makes an edge from node `from` to node `to`, unless the graph has one.
    /// Says whether it made one. A new edge needs an index below `u32::MAX`.
    pub fn upsert_edge(&mut self, from: usize, to: usize) -> (made: bool)
        requires
            old(self).wf(),
            from < old(self).names().len(),
            to < old(self).names().len(),
            push_new(old(self).links(), (from, to)).len() <= u32::MAX,
        ensures
            final(self).wf(),
            final(self).names() == old(self).names(),
            final(self).links() == push_new(old(self).links(), (from, to)),
            final(self).edges() == push_new(
                old(self).edges(),
                (old(self).names()[from as int], old(self).names()[to as int]),
            ),
            made == !old(self).links().contains((from, to)),
    {
        proof {
            self.lemma_edge_of_link(from, to);
        }
        match graph_find_edge(&self.graph, from, to) {
            Some(_) => false,
            None => {
                graph_add_edge(&mut self.graph, from, to);
                true
            },
        }
    }

    /// Records that module `from` imports module `to`: finds or makes the
    /// node of `to`, then that of `from`, then the edge between them. What
    /// is new needs an index below `u32::MAX`.
    pub fn add_dependency(&mut self, from: &str, to: &str)
        requires
            old(self).wf(),
            push_new(push_new(old(self).names(), to@), from@).len() <= u32::MAX,
            push_new(old(self).edges(), (from@, to@)).len() <= u32::MAX,
        ensures
            final(self).wf(),
            final(self).names() == push_new(push_new(old(self).names(), to@), from@),
            final(self).edges() == push_new(old(self).edges(), (from@, to@)),
    {
        let target = self.upsert_node(to);
        let source = self.upsert_node(from);
        self.upsert_edge(source, target);
    }

    /// The index of the node of a module, if the graph has one.
    pub fn node_index(&self, name: &str) -> (r: Option<usize>)
        requires
            self.wf(),
        ensures
            match r {
                Some(i) => i < self.names().len() && self.names()[i as int] == name@,
                None => !self.names().contains(name@),
            },
    {
        match self.index.get(name) {
            Some(i) => Some(*i),
            None => None,
        }
    }

    /// Says whether the graph has a node for a module.
    pub fn contains_node(&self, name: &str) -> (r: bool)
        requires
            self.wf(),
        ensures
            r == self.names().contains(name@),
    {
        self.node_index(name).is_some()
    }

    /// The module name that node `i` holds, if there is such a node.
    pub fn node_name(&self, i: usize) -> (r: Option<&String>)
        ensures
            match r {
                Some(name) => i < self.names().len() && name@ == self.names()[i as int],
                None => i >= self.names().len(),
            },
    {
        if i < graph_node_count(&self.graph) {
            Some(graph_node_name(&self.graph, i))
        } else {
            None
        }
    }

    /// Says whether the graph has an edge from module `from` to module `to`.
    pub fn contains_edge(&self, from: &str, to: &str) -> (r: bool)
        requires
            self.wf(),
        ensures
            r == self.edges().contains((from@, to@)),
    {
        proof {
            self.lemma_edges_distinct();
        }
        let source = match self.node_index(from) {
            Some(i) => i,
            None => {
                return false;
            },
        };
        let target = match self.node_index(to) {
            Some(i) => i,
            None => {
                return false;
            },
        };
        proof {
            self.lemma_edge_of_link(source, target);
        }
        graph_find_edge(&self.graph, source, target).is_some()
    }

    /// The module names, by node index.
    pub fn module_names(&self) -> (out: Vec<String>)
        ensures
            texts(out@) == self.names(),
    {
        let n = graph_node_count(&self.graph);
        let mut out: Vec<String> = Vec::new();
        let mut i: usize = 0;
        while i < n
            invariant
                i <= n,
                n == self.names().len(),
                out.len() == i,
                forall|k: int| 0 <= k < i ==> out[k]@ == self.names()[k],
            decreases n - i,
        {
            out.push(graph_node_name(&self.graph, i).clone());
            i += 1;
        }
        out
    }

    /// The edges as pairs of module names, source first, by edge index.
    pub fn edge_list(&self) -> (out: Vec<(String, String)>)
        requires
            self.wf(),
        ensures
            out.len() == self.edges().len(),
            forall|k: int| 0 <= k < out.len() ==> (out[k].0@, out[k].1@) == self.edges()[k],
    {
        let n = graph_edge_count(&self.graph);
        let mut out: Vec<(String, String)> = Vec::new();
        let mut i: usize = 0;
        while i < n
            invariant
                self.wf(),
                i <= n,
                n == self.links().len(),
                out.len() == i,
                forall|k: int| 0 <= k < i ==> (out[k].0@, out[k].1@) == self.edges()[k],
            decreases n - i,
        {
            match graph_edge_endpoints(&self.graph, i) {
                Some(pair) => {
                    let source = graph_node_name(&self.graph, pair.0).clone();
                    let target = graph_node_name(&self.graph, pair.1).clone();
                    out.push((source, target));
                },
                None => {},
            }
            i += 1;
        }
        out
    }

    /// The indices of the nodes that the edges lead to from node `i`, the
    /// edge made last first.
    pub fn neighbors(&self, i: usize) -> (out: Vec<usize>)
        requires
            self.wf(),
        ensures
            out@ == successors(self.links(), i),
            forall|k: int| 0 <= k < out.len() ==> out[k] < self.names().len(),
    {
        proof {
            self.lemma_successors(i, self.links().len() as int);
            assert(self.links().subrange(0, self.links().len() as int) =~= self.links());
        }
        if i < graph_node_count(&self.graph) {
            graph_neighbors(&self.graph, i)
        } else {
            Vec::new()
        }
    }

    /// The modules that a module imports, the edge made last first. A module
    /// that the graph does not know imports nothing.
    pub fn neighbor_names(&self, module: &str) -> (out: Vec<String>)
        requires
            self.wf(),
        ensures
            texts(out@) == targets_of(self.edges(), module@),
    {
        let mut out: Vec<String> = Vec::new();
        let i = match self.node_index(module) {
            Some(i) => i,
            None => {
                proof {
                    self.lemma_targets_of_stranger(module@, self.edges().len() as int);
                    assert(self.edges().subrange(0, self.edges().len() as int) =~= self.edges());
                }
                return out;
            },
        };
        let found = self.neighbors(i);
        let mut k: usize = 0;
        while k < found.len()
            invariant
                k <= found.len(),
                out.len() == k,
                forall|j: int| 0 <= j < found.len() ==> found[j] < self.names().len(),
                forall|j: int| 0 <= j < k ==> out[j]@ == self.names()[found[j] as int],
            decreases found.len() - k,
        {
            out.push(graph_node_name(&self.graph, found[k]).clone());
            k += 1;
        }
        proof {
            self.lemma_successors(i, self.links().len() as int);
            assert(self.links().subrange(0, self.links().len() as int) =~= self.links());
            assert(self.edges().subrange(0, self.links().len() as int) =~= self.edges());
        }
        out
    }

    /// The modules that a module imports, in the order of the dictionary.
    pub fn dependencies(&self, module: &str) -> (out: Vec<String>)
        requires
            self.wf(),
        ensures
            texts(out@) == sorted_names(targets_of(self.edges(), module@)),
    {
        let found = self.neighbor_names(module);
        sort_names(&found)
    }

    /// The graph in the format of Graphviz, as `petgraph` writes it: the
    /// nodes with their names as labels, then the edges without labels.
    pub fn to_dot(&self) -> (text: String)
        ensures
            text@ == dot_text(self.names(), self.links()),
    {
        graph_dot(&self.graph)
    }

    /// The names of the nodes with these indices.
    spec fn named(&self, nodes: Seq<usize>) -> Seq<Seq<char>> {
        Seq::new(nodes.len(), |k: int| self.names()[nodes[k] as int])
    }

    /// Among the first `n` edges, those that leave node `i` lead to nodes of
    /// the graph, and to the modules that the edges between names lead to
    /// from the name of `i`.
    proof fn lemma_successors(self, i: usize, n: int)
        requires
            self.wf(),
            0 <= n <= self.links().len(),
        ensures
            forall|k: int|
                0 <= k < successors(self.links().subrange(0, n), i).len() ==> successors(
                    self.links().subrange(0, n),
                    i,
                )[k] < self.names().len(),
            i < self.names().len() ==> self.named(successors(self.links().subrange(0, n), i))
                == targets_of(self.edges().subrange(0, n), self.names()[i as int]),
            i >= self.names().len() ==> successors(self.links().subrange(0, n), i).len() == 0,
        decreases n,
    {
        let links = self.links().subrange(0, n);
        let edges = self.edges().subrange(0, n);
        if n > 0 {
            self.lemma_successors(i, n - 1);
            self.lemma_names_distinct();
            assert(links.drop_last() =~= self.links().subrange(0, n - 1));
            assert(edges.drop_last() =~= self.edges().subrange(0, n - 1));
        }
    }

    /// No edge leaves a module that the graph does not know.
    proof fn lemma_targets_of_stranger(self, module: Seq<char>, n: int)
        requires
            self.wf(),
            !self.names().contains(module),
            0 <= n <= self.edges().len(),
        ensures
            targets_of(self.edges().subrange(0, n), module) == Seq::<Seq<char>>::empty(),
        decreases n,
    {
        if n > 0 {
            self.lemma_targets_of_stranger(module, n - 1);
            self.lemma_edges_distinct();
            let edges = self.edges().subrange(0, n);
            assert(edges.drop_last() =~= self.edges().subrange(0, n - 1));
        }
    }

    /// No two nodes hold the same module name.
    pub proof fn lemma_names_distinct(self)
        requires
            self.wf(),
        ensures
            self.names().no_duplicates(),
    {
        assert forall|i: int, j: int|
            0 <= i < self.names().len() && 0 <= j < self.names().len() && i != j implies self.names()[i]
            != self.names()[j] by {}
    }

    /// No two edges join the same modules in the same direction, and every
    /// edge joins two modules of the graph.
    pub proof fn lemma_edges_distinct(self)
        requires
            self.wf(),
        ensures
            self.edges().no_duplicates(),
            forall|k: int|
                0 <= k < self.edges().len() ==> self.names().contains((#[trigger] self.edges()[k]).0)
                    && self.names().contains(self.edges()[k].1),
    {
        self.lemma_names_distinct();
        assert forall|j: int, k: int|
            0 <= j < self.edges().len() && 0 <= k < self.edges().len() && j != k implies self.edges()[j]
            != self.edges()[k] by {}
        assert forall|k: int| 0 <= k < self.edges().len() implies self.names().contains(
            (#[trigger] self.edges()[k]).0,
        ) && self.names().contains(self.edges()[k].1) by {}
    }

    /// The graph has the edge between two nodes exactly when it has the edge
    /// between their names.
    proof fn lemma_edge_of_link(self, from: usize, to: usize)
        requires
            self.wf(),
            from < self.names().len(),
            to < self.names().len(),
        ensures
            self.links().contains((from, to)) <==> self.edges().contains(
                (self.names()[from as int], self.names()[to as int]),
            ),
    {
        self.lemma_names_distinct();
        let pair = (self.names()[from as int], self.names()[to as int]);
        if self.links().contains((from, to)) {
            let k = choose|k: int| 0 <= k < self.links().len() && self.links()[k] == (from, to);
            assert(self.edges()[k] == pair);
        }
    }
}

} // verus!
