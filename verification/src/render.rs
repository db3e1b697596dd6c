//! The dependency graph as text: a listing of what each module imports, and
//! the description of the graph for Graphviz.

use crate::graph::{targets_of, DependencyGraph, GraphModel};
use crate::order::{lemma_sorted_names, sorted_names};
use crate::text::texts;
use vstd::prelude::*;
use vstd::string::*;

verus! {

/// The line that opens the imports of a module.
pub open spec fn heading(module: Seq<char>) -> Seq<char> {
    "Dependencies for module `"@ + module + "`:"@
}

/// The line for one imported module: a tab and its name.
pub open spec fn entry(target: Seq<char>) -> Seq<char> {
    "\t"@ + target
}

/// The lines for these imported modules, in their order.
pub open spec fn entries(targets: Seq<Seq<char>>) -> Seq<Seq<char>> {
    Seq::new(targets.len(), |k: int| entry(targets[k]))
}

/// The lines for one module: its heading and its imports in the order of
/// the dictionary. A module that imports nothing has no lines.
pub open spec fn block(module: Seq<char>, targets: Seq<Seq<char>>) -> Seq<Seq<char>> {
    if targets.len() == 0 {
        Seq::empty()
    } else {
        seq![heading(module)] + entries(sorted_names(targets))
    }
}

/// The lines for the first `n` modules of a graph, module by module.
pub open spec fn listing_of(graph: GraphModel, n: int) -> Seq<Seq<char>>
    decreases n,
{
    if n <= 0 {
        Seq::empty()
    } else {
        listing_of(graph, n - 1) + block(
            graph.names[n - 1],
            targets_of(graph.edges, graph.names[n - 1]),
        )
    }
}

/// The listing of a graph, line by line: for each module that imports
/// something, in the order of the nodes, its heading and the modules that it
/// imports.
pub fn listing(graph: &DependencyGraph) -> (lines: Vec<String>)
    requires
        graph.wf(),
    ensures
        texts(lines@) == listing_of(graph@, graph@.names.len() as int),
{
    let modules = graph.module_names();
    let mut lines: Vec<String> = Vec::new();
    let mut i: usize = 0;
    while i < modules.len()
        invariant
            graph.wf(),
            i <= modules.len(),
            texts(modules@) == graph@.names,
            texts(lines@) == listing_of(graph@, i as int),
        decreases modules.len() - i,
    {
        let imported = graph.dependencies(modules[i].as_str());
        let ghost before = texts(lines@);
        let ghost module = graph@.names[i as int];
        let ghost sorted = sorted_names(targets_of(graph@.edges, module));
        proof {
            lemma_sorted_names(targets_of(graph@.edges, module));
        }
        if imported.len() > 0 {
            let mut line = String::from_str("Dependencies for module `");
            line.append(modules[i].as_str());
            line.append("`:");
            lines.push(line);
            let mut k: usize = 0;
            while k < imported.len()
                invariant
                    k <= imported.len(),
                    texts(imported@) == sorted,
                    texts(lines@) == before + seq![heading(module)] + entries(sorted).subrange(
                        0,
                        k as int,
                    ),
                decreases imported.len() - k,
            {
                let mut line = String::from_str("\t");
                line.append(imported[k].as_str());
                let ghost shown = texts(lines@);
                lines.push(line);
                proof {
                    assert(texts(lines@) =~= shown.push(entry(sorted[k as int])));
                }
                k += 1;
            }
        }
        i += 1;
    }
    lines
}

} // verus!
