//! Building the dependency graph of a source tree from its files and their
//! imports.
//!
//! The files are taken in order. Each file brings up the node of its module
//! and, for each of its imports that is kept, the node of the imported
//! module and the edge to it. What the finished graph holds is stated by
//! `built_nodes` and `built_edges`.

use crate::distinct::{
    extend_distinct, first_occurrences, lemma_extend_concat, lemma_extend_push,
    lemma_push_new_contains, push_new,
};
use crate::graph::DependencyGraph;
use crate::identity::{
    classify, resolve_source_module, Classification, PathResolutionError, Root, RootModel,
    SourcePath,
};
use crate::import::{paths, ImportPath};
use crate::syntax::{imports_in, parse_imports, ParseError};
use vstd::prelude::*;
use vstd::string::*;

verus! {

/// A source file: where it lies and what it imports, in the order of its
/// import declarations.
pub struct SourceFile {
    pub path: SourcePath,
    pub imports: Vec<ImportPath>,
}

/// What a `SourceFile` holds.
pub struct FileModel {
    pub path: Seq<Seq<char>>,
    pub imports: Seq<Seq<Seq<char>>>,
}

/// What each of a sequence of files holds.
pub open spec fn models(files: Seq<SourceFile>) -> Seq<FileModel> {
    Seq::new(files.len(), |i: int| files[i]@)
}

impl View for SourceFile {
    type V = FileModel;

    open spec fn view(&self) -> FileModel {
        FileModel { path: self.path@, imports: paths(self.imports@) }
    }
}

impl SourceFile {
    /// The file at `path` with these imports.
    pub fn new(path: SourcePath, imports: Vec<ImportPath>) -> (file: Self)
        ensures
            file@ == (FileModel { path: path@, imports: paths(imports@) }),
    {
        SourceFile { path, imports }
    }
}

/// A source file as it is read: where it lies and what it says.
pub struct SourceText {
    pub path: SourcePath,
    pub content: String,
}

/// What a `SourceText` holds.
pub struct TextModel {
    pub path: Seq<Seq<char>>,
    pub content: Seq<char>,
}

/// What each of a sequence of source texts holds.
pub open spec fn text_models(sources: Seq<SourceText>) -> Seq<TextModel> {
    Seq::new(sources.len(), |i: int| sources[i]@)
}

impl View for SourceText {
    type V = TextModel;

    open spec fn view(&self) -> TextModel {
        TextModel { path: self.path@, content: self.content@ }
    }
}

impl SourceText {
    /// The file at `path` that reads `content`.
    pub fn new(path: SourcePath, content: String) -> (source: Self)
        ensures
            source@ == (TextModel { path: path@, content: content@ }),
    {
        SourceText { path, content }
    }
}

/// The file that a source text stands for: its path and the imports that
/// are read from it; none where it has a syntax error.
pub open spec fn parsed(source: TextModel) -> FileModel {
    FileModel {
        path: source.path,
        imports: match imports_in(source.content) {
            Some(imports) => imports,
            None => Seq::empty(),
        },
    }
}

/// The files that the source texts stand for.
pub open spec fn all_parsed(sources: Seq<TextModel>) -> Seq<FileModel> {
    Seq::new(sources.len(), |i: int| parsed(sources[i]))
}

/// Why a file cannot be added to a graph.
#[derive(Debug)]
pub enum FileError {
    /// The file is not valid source.
    Parse(ParseError),
    /// The file has no module.
    PathResolution(PathResolutionError),
    /// The graph cannot take the nodes and edges that the file may bring.
    Capacity,
}

/// What is wrong with a file.
pub enum Failure {
    /// The file is not valid source.
    Parse,
    /// The file has no module.
    PathResolution(PathResolutionError),
    /// The graph has no room for the file.
    Capacity,
}

impl FileError {
    /// What is wrong, without the error that the parser gave.
    pub open spec fn failure(self) -> Failure {
        match self {
            FileError::Parse(_) => Failure::Parse,
            FileError::PathResolution(e) => Failure::PathResolution(e),
            FileError::Capacity => Failure::Capacity,
        }
    }
}

/// What is wrong with the outcome of adding a file, if anything.
pub open spec fn failure_of(r: Result<(), FileError>) -> Option<Failure> {
    match r {
        Ok(_) => None,
        Err(e) => Some(e.failure()),
    }
}

/// Why no graph was built: the position of the first file that could not
/// be added, and what was wrong with it.
#[derive(Debug)]
pub struct BuildError {
    pub file: usize,
    pub error: FileError,
}

/// An import with this leading segment becomes an edge, unless external
/// names are ignored and the segment is external.
pub open spec fn keeps(root: RootModel, ignore_external: bool, lead: Seq<char>) -> bool {
    !(ignore_external && root.classify(lead) == Classification::External)
}

/// The modules that a file's imports make it depend on: the leading segment
/// of each import that is kept, in the order of the imports.
pub open spec fn targets(root: RootModel, ignore_external: bool, imports: Seq<Seq<Seq<char>>>) -> Seq<
    Seq<char>,
>
    decreases imports.len(),
{
    if imports.len() == 0 {
        Seq::empty()
    } else {
        let front = targets(root, ignore_external, imports.drop_last());
        if keeps(root, ignore_external, imports.last()[0]) {
            front.push(imports.last()[0])
        } else {
            front
        }
    }
}

/// The module names that the dependencies of `module` on `targets` bring up,
/// in order: for each target the target and then the module.
pub open spec fn dependency_nodes(module: Seq<char>, targets: Seq<Seq<char>>) -> Seq<Seq<char>>
    decreases targets.len(),
{
    if targets.len() == 0 {
        Seq::empty()
    } else {
        dependency_nodes(module, targets.drop_last()).push(targets.last()).push(module)
    }
}

/// The module names that a file of `module` with these targets brings up,
/// in order: those of its dependencies, and at last the module itself, so
/// that a file without imports still has its node.
pub open spec fn file_nodes(module: Seq<char>, targets: Seq<Seq<char>>) -> Seq<Seq<char>> {
    dependency_nodes(module, targets).push(module)
}

/// The edges that a file of `module` with these targets brings up, in order.
pub open spec fn file_edges(module: Seq<char>, targets: Seq<Seq<char>>) -> Seq<
    (Seq<char>, Seq<char>),
> {
    Seq::new(targets.len(), |i: int| (module, targets[i]))
}

/// The module of a file that has one.
pub open spec fn module_name(root: RootModel, file: FileModel) -> Seq<char> {
    match root.module_of(file.path) {
        Ok(name) => name,
        Err(_) => Seq::empty(),
    }
}

/// Every file has a module.
pub open spec fn all_resolve(root: RootModel, files: Seq<FileModel>) -> bool {
    forall|i: int| 0 <= i < files.len() ==> (#[trigger] root.module_of(files[i].path)).is_ok()
}

/// The module names that the files bring up, file by file.
pub open spec fn all_nodes(root: RootModel, ignore_external: bool, files: Seq<FileModel>) -> Seq<
    Seq<char>,
>
    decreases files.len(),
{
    if files.len() == 0 {
        Seq::empty()
    } else {
        all_nodes(root, ignore_external, files.drop_last()) + file_nodes(
            module_name(root, files.last()),
            targets(root, ignore_external, files.last().imports),
        )
    }
}

/// The edges that the files bring up, file by file.
pub open spec fn all_edges(root: RootModel, ignore_external: bool, files: Seq<FileModel>) -> Seq<
    (Seq<char>, Seq<char>),
>
    decreases files.len(),
{
    if files.len() == 0 {
        Seq::empty()
    } else {
        all_edges(root, ignore_external, files.drop_last()) + file_edges(
            module_name(root, files.last()),
            targets(root, ignore_external, files.last().imports),
        )
    }
}

/// The nodes of the graph built from these files, in order: each module
/// name that the files bring up, where it comes up first.
pub open spec fn built_nodes(root: RootModel, ignore_external: bool, files: Seq<FileModel>) -> Seq<
    Seq<char>,
> {
    first_occurrences(all_nodes(root, ignore_external, files))
}

/// The edges of the graph built from these files, in order: each edge that
/// the files bring up, where it comes up first.
pub open spec fn built_edges(root: RootModel, ignore_external: bool, files: Seq<FileModel>) -> Seq<
    (Seq<char>, Seq<char>),
> {
    first_occurrences(all_edges(root, ignore_external, files))
}

/// A graph with this many nodes and edges can take a file with this many
/// imports, whatever they are: a node and an edge for each import and one
/// node more, with all node and edge indices below `u32::MAX`.
pub open spec fn has_room(nodes: nat, edges: nat, imports: nat) -> bool {
    nodes + imports + 1 <= u32::MAX && edges + imports <= u32::MAX
}

/// What is wrong with a file for a graph with this many nodes and edges: a
/// path without a module comes first, then a graph without room.
pub open spec fn file_outcome(root: RootModel, nodes: nat, edges: nat, file: FileModel) -> Option<
    Failure,
> {
    match root.module_of(file.path) {
        Err(e) => Some(Failure::PathResolution(e)),
        Ok(_) => if has_room(nodes, edges, file.imports.len()) {
            None
        } else {
            Some(Failure::Capacity)
        },
    }
}

/// What is wrong with a source text for a graph with this many nodes and
/// edges: a syntax error comes first, then what is wrong with its file.
pub open spec fn source_outcome(root: RootModel, nodes: nat, edges: nat, source: TextModel) -> Option<
    Failure,
> {
    if imports_in(source.content).is_none() {
        Some(Failure::Parse)
    } else {
        file_outcome(root, nodes, edges, parsed(source))
    }
}

/// What is wrong with the file at position `i` for the graph of the files
/// in front of it.
pub open spec fn file_outcome_at(
    root: RootModel,
    ignore_external: bool,
    files: Seq<FileModel>,
    i: int,
) -> Option<Failure> {
    file_outcome(
        root,
        built_nodes(root, ignore_external, files.subrange(0, i)).len(),
        built_edges(root, ignore_external, files.subrange(0, i)).len(),
        files[i],
    )
}

/// What is wrong with the source text at position `i` for the graph of the
/// texts in front of it.
pub open spec fn source_outcome_at(
    root: RootModel,
    ignore_external: bool,
    sources: Seq<TextModel>,
    i: int,
) -> Option<Failure> {
    source_outcome(
        root,
        built_nodes(root, ignore_external, all_parsed(sources).subrange(0, i)).len(),
        built_edges(root, ignore_external, all_parsed(sources).subrange(0, i)).len(),
        sources[i],
    )
}

impl DependencyGraph {
    /// Says whether the graph can take a file with this many imports.
    pub fn room_for(&self, imports: usize) -> (r: bool)
        requires
            self.wf(),
        ensures
            r == has_room(self.names().len(), self.edges().len(), imports as nat),
    {
        let limit: usize = 0xFFFF_FFFF;
        let nodes = self.node_count();
        let edges = self.edge_count();
        if nodes >= limit || edges > limit {
            return false;
        }
        imports <= limit - nodes - 1 && imports <= limit - edges
    }

    /// Adds the imports of one file of `module` to the graph: for each
    /// import that is kept the node of the imported module, the node of
    /// `module` and the edge between them, and at last the node of `module`.
    pub fn add_imports(
        &mut self,
        root: &Root,
        module: &str,
        imports: &Vec<ImportPath>,
        ignore_external: bool,
    )
        requires
            old(self).wf(),
            has_room(old(self).names().len(), old(self).edges().len(), imports@.len()),
        ensures
            final(self).wf(),
            final(self).names() == extend_distinct(
                old(self).names(),
                file_nodes(module@, targets(root@, ignore_external, paths(imports@))),
            ),
            final(self).edges() == extend_distinct(
                old(self).edges(),
                file_edges(module@, targets(root@, ignore_external, paths(imports@))),
            ),
    {
        let ghost names0 = self.names();
        let ghost edges0 = self.edges();
        let ghost all = paths(imports@);
        let n = imports.len();
        let mut i: usize = 0;
        while i < n
            invariant
                self.wf(),
                i <= n,
                n == imports.len(),
                all == paths(imports@),
                has_room(names0.len(), edges0.len(), n as nat),
                self.names().len() <= names0.len() + i + 1,
                self.names().len() == names0.len() + i + 1 ==> self.names().contains(module@),
                self.edges().len() <= edges0.len() + i,
                self.names() == extend_distinct(
                    names0,
                    dependency_nodes(
                        module@,
                        targets(root@, ignore_external, all.subrange(0, i as int)),
                    ),
                ),
                self.edges() == extend_distinct(
                    edges0,
                    file_edges(module@, targets(root@, ignore_external, all.subrange(0, i as int))),
                ),
            decreases n - i,
        {
            let lead = imports[i].leading();
            let ghost before = targets(root@, ignore_external, all.subrange(0, i as int));
            proof {
                let next = all.subrange(0, i + 1);
                assert(next.drop_last() =~= all.subrange(0, i as int));
            }
            let skipped = ignore_external && match classify(root, lead.as_str()) {
                Classification::Internal => false,
                Classification::External => true,
            };
            if !skipped {
                let ghost held = self.names();
                proof {
                    lemma_push_new_contains(held, lead@, module@);
                }
                self.add_dependency(module, lead.as_str());
                proof {
                    lemma_push_new_contains(push_new(held, lead@), module@, module@);
                    let after = before.push(lead@);
                    assert(after.drop_last() =~= before);
                    lemma_extend_push(names0, dependency_nodes(module@, before), lead@);
                    lemma_extend_push(
                        names0,
                        dependency_nodes(module@, before).push(lead@),
                        module@,
                    );
                    assert(file_edges(module@, after) =~= file_edges(module@, before).push(
                        (module@, lead@),
                    ));
                    lemma_extend_push(edges0, file_edges(module@, before), (module@, lead@));
                }
            }
            i += 1;
        }
        proof {
            assert(all.subrange(0, n as int) =~= all);
            lemma_extend_push(
                names0,
                dependency_nodes(module@, targets(root@, ignore_external, all)),
                module@,
            );
        }
        self.upsert_node(module);
    }

    /// Adds the file at `path` with these imports to the graph.
    fn add_parts(
        &mut self,
        root: &Root,
        path: &SourcePath,
        imports: &Vec<ImportPath>,
        ignore_external: bool,
    ) -> (r: Result<(), FileError>)
        requires
            old(self).wf(),
        ensures
            final(self).wf(),
            added(
                *old(self),
                *final(self),
                root@,
                ignore_external,
                FileModel { path: path@, imports: paths(imports@) },
                r,
            ),
            file_outcome(
                root@,
                old(self).names().len(),
                old(self).edges().len(),
                FileModel { path: path@, imports: paths(imports@) },
            ) == failure_of(r),
    {
        let module = match resolve_source_module(root, path) {
            Ok(module) => module,
            Err(e) => {
                return Err(FileError::PathResolution(e));
            },
        };
        if !self.room_for(imports.len()) {
            return Err(FileError::Capacity);
        }
        self.add_imports(root, module.as_str(), imports, ignore_external);
        Ok(())
    }

    /// Adds one file to the graph: the node of its module, and for each of
    /// its imports that is kept the node of the imported module and the edge
    /// to it. A file without a module and a file for which the graph has no
    /// room leave the graph as it was.
    pub fn add_file(&mut self, root: &Root, file: &SourceFile, ignore_external: bool) -> (r: Result<
        (),
        FileError,
    >)
        requires
            old(self).wf(),
        ensures
            final(self).wf(),
            added(*old(self), *final(self), root@, ignore_external, file@, r),
            file_outcome(root@, old(self).names().len(), old(self).edges().len(), file@)
                == failure_of(r),
    {
        self.add_parts(root, &file.path, &file.imports, ignore_external)
    }

    /// Reads one source text and adds its file to the graph. A text that is
    /// not valid source leaves the graph as it was, as does a file that
    /// cannot be added.
    pub fn add_source(&mut self, root: &Root, source: &SourceText, ignore_external: bool) -> (r:
        Result<(), FileError>)
        requires
            old(self).wf(),
        ensures
            final(self).wf(),
            added(*old(self), *final(self), root@, ignore_external, parsed(source@), r),
            source_outcome(root@, old(self).names().len(), old(self).edges().len(), source@)
                == failure_of(r),
    {
        match parse_imports(source.content.as_str()) {
            Ok(imports) => self.add_parts(root, &source.path, &imports, ignore_external),
            Err(e) => Err(FileError::Parse(e)),
        }
    }
}

/// How a graph changes when a file is added: with success it gains the
/// nodes and edges that the file brings up, each unless it holds it
/// already; without success it stays as it was.
pub open spec fn added(
    before: DependencyGraph,
    after: DependencyGraph,
    root: RootModel,
    ignore_external: bool,
    file: FileModel,
    r: Result<(), FileError>,
) -> bool {
    match r {
        Ok(_) => {
            &&& after.names() == extend_distinct(
                before.names(),
                file_nodes(
                    module_name(root, file),
                    targets(root, ignore_external, file.imports),
                ),
            )
            &&& after.edges() == extend_distinct(
                before.edges(),
                file_edges(
                    module_name(root, file),
                    targets(root, ignore_external, file.imports),
                ),
            )
        },
        Err(_) => after.names() == before.names() && after.links() == before.links(),
    }
}

/// The graph of the first `i + 1` files is the graph of the first `i` with
/// the file at position `i` added.
proof fn lemma_built_step(
    root: RootModel,
    ignore_external: bool,
    files: Seq<FileModel>,
    i: int,
)
    requires
        0 <= i < files.len(),
    ensures
        built_nodes(root, ignore_external, files.subrange(0, i + 1)) == extend_distinct(
            built_nodes(root, ignore_external, files.subrange(0, i)),
            file_nodes(
                module_name(root, files[i]),
                targets(root, ignore_external, files[i].imports),
            ),
        ),
        built_edges(root, ignore_external, files.subrange(0, i + 1)) == extend_distinct(
            built_edges(root, ignore_external, files.subrange(0, i)),
            file_edges(
                module_name(root, files[i]),
                targets(root, ignore_external, files[i].imports),
            ),
        ),
{
    let done = files.subrange(0, i);
    let next = files.subrange(0, i + 1);
    let module = module_name(root, files[i]);
    let kept = targets(root, ignore_external, files[i].imports);
    assert(next.drop_last() =~= done);
    lemma_extend_concat(
        Seq::empty(),
        all_nodes(root, ignore_external, done),
        file_nodes(module, kept),
    );
    lemma_extend_concat(
        Seq::empty(),
        all_edges(root, ignore_external, done),
        file_edges(module, kept),
    );
}

/// Builds the dependency graph of the files under `root`, taking them in
/// order. The first file that cannot be added ends the build, and no graph
/// is returned.
pub fn build(root: &Root, files: &Vec<SourceFile>, ignore_external: bool) -> (r: Result<
    DependencyGraph,
    BuildError,
>)
    ensures
        match r {
            Ok(g) => {
                &&& g.wf()
                &&& forall|j: int|
                    0 <= j < files.len() ==> file_outcome_at(
                        root@,
                        ignore_external,
                        models(files@),
                        j,
                    ).is_none()
                &&& g.names() == built_nodes(root@, ignore_external, models(files@))
                &&& g.edges() == built_edges(root@, ignore_external, models(files@))
            },
            Err(e) => {
                &&& e.file < files.len()
                &&& forall|j: int|
                    0 <= j < e.file ==> file_outcome_at(
                        root@,
                        ignore_external,
                        models(files@),
                        j,
                    ).is_none()
                &&& file_outcome_at(root@, ignore_external, models(files@), e.file as int)
                    == Some(e.error.failure())
            },
        },
{
    let mut graph = DependencyGraph::new();
    let ghost all = models(files@);
    let mut i: usize = 0;
    while i < files.len()
        invariant
            graph.wf(),
            i <= files.len(),
            all == models(files@),
            forall|j: int|
                0 <= j < i ==> file_outcome_at(root@, ignore_external, all, j).is_none(),
            graph.names() == built_nodes(root@, ignore_external, all.subrange(0, i as int)),
            graph.edges() == built_edges(root@, ignore_external, all.subrange(0, i as int)),
        decreases files.len() - i,
    {
        proof {
            lemma_built_step(root@, ignore_external, all, i as int);
        }
        match graph.add_file(root, &files[i], ignore_external) {
            Ok(_) => {},
            Err(error) => {
                return Err(BuildError { file: i, error });
            },
        }
        i += 1;
    }
    proof {
        assert(all.subrange(0, i as int) =~= all);
    }
    Ok(graph)
}

/// Builds the dependency graph of the source texts under `root`, taking
/// them in order. The first text that cannot be added ends the build, and
/// no graph is returned.
pub fn build_from_sources(root: &Root, sources: &Vec<SourceText>, ignore_external: bool) -> (r:
    Result<DependencyGraph, BuildError>)
    ensures
        match r {
            Ok(g) => {
                &&& g.wf()
                &&& forall|j: int|
                    0 <= j < sources.len() ==> source_outcome_at(
                        root@,
                        ignore_external,
                        text_models(sources@),
                        j,
                    ).is_none()
                &&& g.names() == built_nodes(
                    root@,
                    ignore_external,
                    all_parsed(text_models(sources@)),
                )
                &&& g.edges() == built_edges(
                    root@,
                    ignore_external,
                    all_parsed(text_models(sources@)),
                )
            },
            Err(e) => {
                &&& e.file < sources.len()
                &&& forall|j: int|
                    0 <= j < e.file ==> source_outcome_at(
                        root@,
                        ignore_external,
                        text_models(sources@),
                        j,
                    ).is_none()
                &&& source_outcome_at(root@, ignore_external, text_models(sources@), e.file as int)
                    == Some(e.error.failure())
            },
        },
{
    let mut graph = DependencyGraph::new();
    let ghost texts = text_models(sources@);
    let ghost all = all_parsed(texts);
    let mut i: usize = 0;
    while i < sources.len()
        invariant
            graph.wf(),
            i <= sources.len(),
            texts == text_models(sources@),
            all == all_parsed(texts),
            forall|j: int|
                0 <= j < i ==> source_outcome_at(root@, ignore_external, texts, j).is_none(),
            graph.names() == built_nodes(root@, ignore_external, all.subrange(0, i as int)),
            graph.edges() == built_edges(root@, ignore_external, all.subrange(0, i as int)),
        decreases sources.len() - i,
    {
        proof {
            lemma_built_step(root@, ignore_external, all, i as int);
        }
        match graph.add_source(root, &sources[i], ignore_external) {
            Ok(_) => {},
            Err(error) => {
                return Err(BuildError { file: i, error });
            },
        }
        i += 1;
    }
    proof {
        assert(all.subrange(0, i as int) =~= all);
    }
    Ok(graph)
}

} // verus!
