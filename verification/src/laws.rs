//! What holds of every graph that `build` returns, stated over the sequences
//! of names and edges that its contract gives.

use crate::builder::{
    all_edges, all_nodes, all_resolve, built_edges, built_nodes, dependency_nodes, file_edges,
    file_nodes, keeps, module_name, targets, FileModel,
};
use crate::distinct::{lemma_extend_contains, lemma_extend_no_duplicates};
use crate::identity::{Classification, RootModel};
use vstd::prelude::*;

verus! {

/// One of the file's imports starts with `lead`.
pub open spec fn imports_lead(file: FileModel, lead: Seq<char>) -> bool {
    exists|k: int| 0 <= k < file.imports.len() && (#[trigger] file.imports[k])[0] == lead
}

/// One of the files belongs to `module`.
pub open spec fn is_module(root: RootModel, files: Seq<FileModel>, module: Seq<char>) -> bool {
    exists|i: int| 0 <= i < files.len() && module_name(root, #[trigger] files[i]) == module
}

/// One of the files of `module` has an import that starts with `lead` and is
/// kept.
pub open spec fn depends_on(
    root: RootModel,
    ignore_external: bool,
    files: Seq<FileModel>,
    module: Seq<char>,
    lead: Seq<char>,
) -> bool {
    keeps(root, ignore_external, lead) && exists|i: int|
        0 <= i < files.len() && module_name(root, #[trigger] files[i]) == module && imports_lead(
            files[i],
            lead,
        )
}

/// One of the files has an import that starts with `lead` and is kept.
pub open spec fn is_imported(
    root: RootModel,
    ignore_external: bool,
    files: Seq<FileModel>,
    lead: Seq<char>,
) -> bool {
    keeps(root, ignore_external, lead) && exists|i: int|
        0 <= i < files.len() && imports_lead(#[trigger] files[i], lead)
}

/// The targets of a file are the leading segments of its imports that are
/// kept.
pub proof fn lemma_targets_contains(
    root: RootModel,
    ignore_external: bool,
    file: FileModel,
    lead: Seq<char>,
)
    ensures
        targets(root, ignore_external, file.imports).contains(lead) <==> keeps(
            root,
            ignore_external,
            lead,
        ) && imports_lead(file, lead),
    decreases file.imports.len(),
{
    let imports = file.imports;
    if imports.len() > 0 {
        let shorter = FileModel { path: file.path, imports: imports.drop_last() };
        lemma_targets_contains(root, ignore_external, shorter, lead);
        let front = targets(root, ignore_external, imports.drop_last());
        let last = imports.last()[0];
        if imports_lead(file, lead) {
            let k = choose|k: int| 0 <= k < imports.len() && (#[trigger] imports[k])[0] == lead;
            if k < imports.len() - 1 {
                assert(shorter.imports[k][0] == lead);
            }
        }
        if keeps(root, ignore_external, last) {
            let all = front.push(last);
            assert(all[front.len() as int] == last);
            if front.contains(lead) {
                let k = choose|k: int| 0 <= k < front.len() && front[k] == lead;
                assert(all[k] == lead);
            }
        }
    }
}

/// The names that a file brings up are its module and its targets.
pub proof fn lemma_file_nodes_contains(module: Seq<char>, kept: Seq<Seq<char>>, name: Seq<char>)
    ensures
        file_nodes(module, kept).contains(name) <==> name == module || kept.contains(name),
    decreases kept.len(),
{
    let own = dependency_nodes(module, kept);
    let all = file_nodes(module, kept);
    assert(all[own.len() as int] == module);
    if kept.len() > 0 {
        let shorter = kept.drop_last();
        lemma_file_nodes_contains(module, shorter, name);
        let before = file_nodes(module, shorter);
        let inner = dependency_nodes(module, shorter);
        assert(all[inner.len() as int] == kept.last());
        if before.contains(name) {
            let k = choose|k: int| 0 <= k < before.len() && before[k] == name;
            if k < inner.len() {
                assert(all[k] == name);
            }
        }
        if kept.contains(name) {
            let k = choose|k: int| 0 <= k < kept.len() && kept[k] == name;
            if k < kept.len() - 1 {
                assert(shorter[k] == name);
            }
        }
        if all.contains(name) {
            let k = choose|k: int| 0 <= k < all.len() && all[k] == name;
            if k < inner.len() {
                assert(before[k] == name);
            }
        }
    }
}

/// The edges that a file brings up lead from its module to its targets.
pub proof fn lemma_file_edges_contains(
    module: Seq<char>,
    kept: Seq<Seq<char>>,
    edge: (Seq<char>, Seq<char>),
)
    ensures
        file_edges(module, kept).contains(edge) <==> edge.0 == module && kept.contains(edge.1),
{
    let all = file_edges(module, kept);
    if edge.0 == module && kept.contains(edge.1) {
        let k = choose|k: int| 0 <= k < kept.len() && kept[k] == edge.1;
        assert(all[k] == edge);
    }
}

/// A sequence holds what one of two parts of it holds.
proof fn lemma_concat_contains<T>(a: Seq<T>, b: Seq<T>, x: T)
    ensures
        (a + b).contains(x) <==> a.contains(x) || b.contains(x),
{
    let all = a + b;
    if a.contains(x) {
        let k = choose|k: int| 0 <= k < a.len() && a[k] == x;
        assert(all[k] == x);
    }
    if b.contains(x) {
        let k = choose|k: int| 0 <= k < b.len() && b[k] == x;
        assert(all[a.len() + k] == x);
    }
}

/// The names that the files bring up are the modules of the files and the
/// leading segments of their kept imports.
pub proof fn lemma_all_nodes_contains(
    root: RootModel,
    ignore_external: bool,
    files: Seq<FileModel>,
    name: Seq<char>,
)
    ensures
        all_nodes(root, ignore_external, files).contains(name) <==> is_module(root, files, name)
            || is_imported(root, ignore_external, files, name),
    decreases files.len(),
{
    if files.len() > 0 {
        let shorter = files.drop_last();
        let last = files.last();
        let module = module_name(root, last);
        let kept = targets(root, ignore_external, last.imports);
        lemma_all_nodes_contains(root, ignore_external, shorter, name);
        lemma_file_nodes_contains(module, kept, name);
        lemma_targets_contains(root, ignore_external, last, name);
        lemma_concat_contains(
            all_nodes(root, ignore_external, shorter),
            file_nodes(module, kept),
            name,
        );
        if is_module(root, files, name) {
            let i = choose|i: int|
                0 <= i < files.len() && module_name(root, #[trigger] files[i]) == name;
            if i < files.len() - 1 {
                assert(shorter[i] == files[i]);
            }
        }
        if is_imported(root, ignore_external, files, name) {
            let i = choose|i: int| 0 <= i < files.len() && imports_lead(#[trigger] files[i], name);
            if i < files.len() - 1 {
                assert(shorter[i] == files[i]);
            }
        }
    }
}

/// The edges that the files bring up lead from the module of a file to the
/// leading segment of one of its kept imports.
pub proof fn lemma_all_edges_contains(
    root: RootModel,
    ignore_external: bool,
    files: Seq<FileModel>,
    edge: (Seq<char>, Seq<char>),
)
    ensures
        all_edges(root, ignore_external, files).contains(edge) <==> depends_on(
            root,
            ignore_external,
            files,
            edge.0,
            edge.1,
        ),
    decreases files.len(),
{
    if files.len() > 0 {
        let shorter = files.drop_last();
        let last = files.last();
        let module = module_name(root, last);
        let kept = targets(root, ignore_external, last.imports);
        lemma_all_edges_contains(root, ignore_external, shorter, edge);
        lemma_file_edges_contains(module, kept, edge);
        lemma_targets_contains(root, ignore_external, last, edge.1);
        lemma_concat_contains(
            all_edges(root, ignore_external, shorter),
            file_edges(module, kept),
            edge,
        );
        if depends_on(root, ignore_external, files, edge.0, edge.1) {
            let i = choose|i: int|
                0 <= i < files.len() && module_name(root, #[trigger] files[i]) == edge.0
                    && imports_lead(files[i], edge.1);
            if i < files.len() - 1 {
                assert(shorter[i] == files[i]);
            }
        }
    }
}

/// The nodes of a built graph are the modules of its files and the leading
/// segments of their kept imports, and nothing else.
pub proof fn lemma_built_nodes(
    root: RootModel,
    ignore_external: bool,
    files: Seq<FileModel>,
    name: Seq<char>,
)
    ensures
        built_nodes(root, ignore_external, files).contains(name) <==> is_module(root, files, name)
            || is_imported(root, ignore_external, files, name),
{
    lemma_extend_contains(Seq::empty(), all_nodes(root, ignore_external, files), name);
    lemma_all_nodes_contains(root, ignore_external, files, name);
}

/// A built graph has the edge from `module` to `lead` exactly when a file of
/// `module` has a kept import that starts with `lead`.
pub proof fn lemma_built_edges(
    root: RootModel,
    ignore_external: bool,
    files: Seq<FileModel>,
    module: Seq<char>,
    lead: Seq<char>,
)
    ensures
        built_edges(root, ignore_external, files).contains((module, lead)) <==> depends_on(
            root,
            ignore_external,
            files,
            module,
            lead,
        ),
{
    lemma_extend_contains(Seq::empty(), all_edges(root, ignore_external, files), (module, lead));
    lemma_all_edges_contains(root, ignore_external, files, (module, lead));
}

/// In a built graph no module name and no edge occurs twice.
pub proof fn lemma_built_distinct(root: RootModel, ignore_external: bool, files: Seq<FileModel>)
    ensures
        built_nodes(root, ignore_external, files).no_duplicates(),
        built_edges(root, ignore_external, files).no_duplicates(),
{
    lemma_extend_no_duplicates(Seq::empty(), all_nodes(root, ignore_external, files));
    lemma_extend_no_duplicates(Seq::empty(), all_edges(root, ignore_external, files));
}

/// A file without imports has the node of its module in the built graph,
/// and brings up no edge.
pub proof fn law_file_without_imports(
    root: RootModel,
    ignore_external: bool,
    files: Seq<FileModel>,
    i: int,
)
    requires
        0 <= i < files.len(),
        files[i].imports.len() == 0,
    ensures
        built_nodes(root, ignore_external, files).contains(module_name(root, files[i])),
        file_edges(
            module_name(root, files[i]),
            targets(root, ignore_external, files[i].imports),
        ).len() == 0,
{
    lemma_built_nodes(root, ignore_external, files, module_name(root, files[i]));
}

/// No edge of the built graph leaves a module whose files have no import
/// that is kept.
pub proof fn law_module_without_imports(
    root: RootModel,
    ignore_external: bool,
    files: Seq<FileModel>,
    module: Seq<char>,
)
    requires
        forall|j: int|
            0 <= j < files.len() && module_name(root, #[trigger] files[j]) == module ==> targets(
                root,
                ignore_external,
                files[j].imports,
            ).len() == 0,
    ensures
        forall|k: int|
            0 <= k < built_edges(root, ignore_external, files).len() ==> (#[trigger] built_edges(
                root,
                ignore_external,
                files,
            )[k]).0 != module,
{
    let edges = built_edges(root, ignore_external, files);
    assert forall|k: int| 0 <= k < edges.len() implies (#[trigger] edges[k]).0 != module by {
        let edge = edges[k];
        if edge.0 == module {
            lemma_built_edges(root, ignore_external, files, module, edge.1);
            let j = choose|j: int|
                0 <= j < files.len() && module_name(root, #[trigger] files[j]) == module
                    && imports_lead(files[j], edge.1);
            lemma_targets_contains(root, ignore_external, files[j], edge.1);
        }
    }
}

/// A file that imports the same leading segment in two declarations has
/// exactly one edge from its module to that segment in the built graph,
/// where such imports are kept.
pub proof fn law_repeated_import_one_edge(
    root: RootModel,
    ignore_external: bool,
    files: Seq<FileModel>,
    i: int,
    first: int,
    second: int,
)
    requires
        0 <= i < files.len(),
        0 <= first < second < files[i].imports.len(),
        files[i].imports[first][0] == files[i].imports[second][0],
        keeps(root, ignore_external, files[i].imports[first][0]),
    ensures
        ({
            let edges = built_edges(root, ignore_external, files);
            let edge = (module_name(root, files[i]), files[i].imports[first][0]);
            &&& edges.contains(edge)
            &&& forall|a: int, b: int|
                0 <= a < edges.len() && 0 <= b < edges.len() && edges[a] == edge && edges[b]
                    == edge ==> a == b
        }),
{
    let lead = files[i].imports[first][0];
    lemma_built_edges(root, ignore_external, files, module_name(root, files[i]), lead);
    lemma_built_distinct(root, ignore_external, files);
}

/// Two files of the same module share one node in the built graph, and the
/// kept imports of both are edges that leave that node.
pub proof fn law_shared_module_node(
    root: RootModel,
    ignore_external: bool,
    files: Seq<FileModel>,
    i: int,
    j: int,
)
    requires
        0 <= i < files.len(),
        0 <= j < files.len(),
        module_name(root, files[i]) == module_name(root, files[j]),
    ensures
        ({
            let nodes = built_nodes(root, ignore_external, files);
            let edges = built_edges(root, ignore_external, files);
            let module = module_name(root, files[i]);
            &&& nodes.contains(module)
            &&& forall|a: int, b: int|
                0 <= a < nodes.len() && 0 <= b < nodes.len() && nodes[a] == module && nodes[b]
                    == module ==> a == b
            &&& forall|lead: Seq<char>|
                keeps(root, ignore_external, lead) && (imports_lead(files[i], lead) || imports_lead(
                    files[j],
                    lead,
                )) ==> #[trigger] edges.contains((module, lead))
        }),
{
    let edges = built_edges(root, ignore_external, files);
    let module = module_name(root, files[i]);
    lemma_built_nodes(root, ignore_external, files, module);
    lemma_built_distinct(root, ignore_external, files);
    assert forall|lead: Seq<char>|
        keeps(root, ignore_external, lead) && (imports_lead(files[i], lead) || imports_lead(
            files[j],
            lead,
        )) implies #[trigger] edges.contains((module, lead)) by {
        lemma_built_edges(root, ignore_external, files, module, lead);
    }
}

/// When external names are ignored, every node of the built graph is the
/// module of a file or an internal name.
pub proof fn law_no_external_nodes(root: RootModel, files: Seq<FileModel>)
    ensures
        forall|k: int|
            0 <= k < built_nodes(root, true, files).len() ==> is_module(
                root,
                files,
                #[trigger] built_nodes(root, true, files)[k],
            ) || root.classify(built_nodes(root, true, files)[k]) == Classification::Internal,
{
    let nodes = built_nodes(root, true, files);
    assert forall|k: int| 0 <= k < nodes.len() implies is_module(root, files, #[trigger] nodes[k])
        || root.classify(nodes[k]) == Classification::Internal by {
        lemma_built_nodes(root, true, files, nodes[k]);
    }
}

/// The order of the files does not matter to what the built graph holds:
/// two inputs with the same files give the same set of nodes and the same
/// set of edges, and every file of the one has a module exactly when every
/// file of the other has.
pub proof fn law_order_independent(
    root: RootModel,
    ignore_external: bool,
    files: Seq<FileModel>,
    shuffled: Seq<FileModel>,
)
    requires
        files.to_multiset() == shuffled.to_multiset(),
    ensures
        all_resolve(root, files) <==> all_resolve(root, shuffled),
        built_nodes(root, ignore_external, files).to_set() == built_nodes(
            root,
            ignore_external,
            shuffled,
        ).to_set(),
        built_edges(root, ignore_external, files).to_set() == built_edges(
            root,
            ignore_external,
            shuffled,
        ).to_set(),
{
    lemma_same_files(files, shuffled);
    lemma_resolve_of_same_files(root, files, shuffled);
    lemma_resolve_of_same_files(root, shuffled, files);
    let nodes = built_nodes(root, ignore_external, files);
    let other_nodes = built_nodes(root, ignore_external, shuffled);
    assert forall|name: Seq<char>| nodes.contains(name) <==> other_nodes.contains(name) by {
        lemma_built_nodes(root, ignore_external, files, name);
        lemma_built_nodes(root, ignore_external, shuffled, name);
        lemma_mentions_of_same_files(root, ignore_external, files, shuffled, name, name);
        lemma_mentions_of_same_files(root, ignore_external, shuffled, files, name, name);
    }
    let edges = built_edges(root, ignore_external, files);
    let other_edges = built_edges(root, ignore_external, shuffled);
    assert forall|edge: (Seq<char>, Seq<char>)|
        edges.contains(edge) <==> other_edges.contains(edge) by {
        lemma_built_edges(root, ignore_external, files, edge.0, edge.1);
        lemma_built_edges(root, ignore_external, shuffled, edge.0, edge.1);
        lemma_mentions_of_same_files(root, ignore_external, files, shuffled, edge.0, edge.1);
        lemma_mentions_of_same_files(root, ignore_external, shuffled, files, edge.0, edge.1);
    }
}

/// Two sequences with the same multiset of items hold the same items.
proof fn lemma_same_files(a: Seq<FileModel>, b: Seq<FileModel>)
    requires
        a.to_multiset() == b.to_multiset(),
    ensures
        forall|f: FileModel| a.contains(f) <==> b.contains(f),
{
    assert forall|f: FileModel| a.contains(f) <==> b.contains(f) by {
        vstd::seq_lib::to_multiset_contains(a, f);
        vstd::seq_lib::to_multiset_contains(b, f);
    }
}

/// If every file of `b` is one of `a` and all of `a` have a module, then all
/// of `b` have one.
proof fn lemma_resolve_of_same_files(root: RootModel, a: Seq<FileModel>, b: Seq<FileModel>)
    requires
        forall|f: FileModel| a.contains(f) <==> b.contains(f),
    ensures
        all_resolve(root, a) ==> all_resolve(root, b),
{
    if all_resolve(root, a) {
        assert forall|i: int| 0 <= i < b.len() implies (#[trigger] root.module_of(
            b[i].path,
        )).is_ok() by {
            assert(b.contains(b[i]));
        }
    }
}

/// What the files of `a` are modules of, import and depend on, the files of
/// `b` do too, if every file of `a` is one of `b`.
proof fn lemma_mentions_of_same_files(
    root: RootModel,
    ignore_external: bool,
    a: Seq<FileModel>,
    b: Seq<FileModel>,
    module: Seq<char>,
    lead: Seq<char>,
)
    requires
        forall|f: FileModel| a.contains(f) <==> b.contains(f),
    ensures
        is_module(root, a, module) ==> is_module(root, b, module),
        is_imported(root, ignore_external, a, lead) ==> is_imported(root, ignore_external, b, lead),
        depends_on(root, ignore_external, a, module, lead) ==> depends_on(
            root,
            ignore_external,
            b,
            module,
            lead,
        ),
{
    if is_module(root, a, module) {
        let i = choose|i: int| 0 <= i < a.len() && module_name(root, #[trigger] a[i]) == module;
        assert(a.contains(a[i]));
        let k = choose|k: int| 0 <= k < b.len() && b[k] == a[i];
    }
    if is_imported(root, ignore_external, a, lead) {
        let i = choose|i: int| 0 <= i < a.len() && imports_lead(#[trigger] a[i], lead);
        assert(a.contains(a[i]));
        let k = choose|k: int| 0 <= k < b.len() && b[k] == a[i];
    }
    if depends_on(root, ignore_external, a, module, lead) {
        let i = choose|i: int|
            0 <= i < a.len() && module_name(root, #[trigger] a[i]) == module && imports_lead(
                a[i],
                lead,
            );
        assert(a.contains(a[i]));
        let k = choose|k: int| 0 <= k < b.len() && b[k] == a[i];
    }
}

} // verus!
