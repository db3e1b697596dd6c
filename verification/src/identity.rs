//! Which module a file belongs to, and whether an imported name is a module
//! of the tree or comes from elsewhere.

use crate::text::{contains_name, module_of_component, source_suffix, strip_source_suffix, texts};
use vstd::prelude::*;
use vstd::string::*;

verus! {

/// A path as the sequence of its components, outermost first.
pub struct SourcePath {
    pub components: Vec<String>,
}

impl View for SourcePath {
    type V = Seq<Seq<char>>;

    open spec fn view(&self) -> Seq<Seq<char>> {
        texts(self.components@)
    }
}

impl SourcePath {
    /// The path with these components.
    pub fn new(components: Vec<String>) -> (p: Self)
        ensures
            p@ == texts(components@),
    {
        SourcePath { components }
    }
}

/// Where an imported name comes from.
#[derive(Clone, Copy, Debug, PartialEq, Eq, Structural)]
pub enum Classification {
    /// A module of the tree.
    Internal,
    /// Anything else: a dependency from outside the tree.
    External,
}

/// Why a file has no module.
#[derive(Clone, Copy, Debug, PartialEq, Eq, Structural)]
pub enum PathResolutionError {
    /// The file does not lie under the root.
    NotUnderRoot,
    /// The file's path is the root itself, so no component names a module.
    NoComponent,
}

/// The root directory of a source tree as the library sees it: where it is,
/// which regular files and which directories stand directly in it, and the
/// name, if any, under which files of the tree import the tree itself.
pub struct Root {
    path: SourcePath,
    files: Vec<String>,
    dirs: Vec<String>,
    alias: Option<String>,
}

/// What a `Root` holds.
pub struct RootModel {
    pub path: Seq<Seq<char>>,
    pub files: Seq<Seq<char>>,
    pub dirs: Seq<Seq<char>>,
    pub alias: Option<Seq<char>>,
}

impl RootModel {
    /// A leading import segment is internal when the root holds a source
    /// file or a directory of that name, or when it is the tree's own alias.
    pub open spec fn classify(self, segment: Seq<char>) -> Classification {
        if self.files.contains(segment + source_suffix()) || self.dirs.contains(segment)
            || self.alias == Some(segment) {
            Classification::Internal
        } else {
            Classification::External
        }
    }

    /// The module of a file: the first component of its path below the
    /// root, without the source suffix.
    pub open spec fn module_of(self, file: Seq<Seq<char>>) -> Result<
        Seq<char>,
        PathResolutionError,
    > {
        if !self.path.is_prefix_of(file) {
            Err(PathResolutionError::NotUnderRoot)
        } else if file.len() == self.path.len() {
            Err(PathResolutionError::NoComponent)
        } else {
            Ok(strip_source_suffix(file[self.path.len() as int]))
        }
    }
}

impl View for Root {
    type V = RootModel;

    closed spec fn view(&self) -> RootModel {
        RootModel {
            path: self.path@,
            files: texts(self.files@),
            dirs: texts(self.dirs@),
            alias: match self.alias {
                Some(a) => Some(a@),
                None => None,
            },
        }
    }
}

impl Root {
    /// The root at `path` with these regular files and directories directly
    /// in it, and without an alias.
    pub fn new(path: SourcePath, files: Vec<String>, dirs: Vec<String>) -> (root: Self)
        ensures
            root@ == (RootModel {
                path: path@,
                files: texts(files@),
                dirs: texts(dirs@),
                alias: None,
            }),
    {
        Root { path, files, dirs, alias: None }
    }

    /// The same root, known to its files under `alias`.
    pub fn with_alias(self, alias: String) -> (root: Self)
        ensures
            root@ == (RootModel { alias: Some(alias@), ..self@ }),
    {
        Root { path: self.path, files: self.files, dirs: self.dirs, alias: Some(alias) }
    }
}

/// Says where the leading segment of an import comes from.
pub fn classify(root: &Root, segment: &str) -> (c: Classification)
    ensures
        c == root@.classify(segment@),
{
    let mut file_name = String::from_str(segment);
    file_name.append(".rs");
    proof {
        reveal_strlit(".rs");
        assert(".rs"@ =~= source_suffix());
    }
    if contains_name(&root.files, file_name.as_str()) {
        return Classification::Internal;
    }
    if contains_name(&root.dirs, segment) {
        return Classification::Internal;
    }
    match &root.alias {
        Some(a) => {
            let wanted = String::from_str(segment);
            if *a == wanted {
                Classification::Internal
            } else {
                Classification::External
            }
        },
        None => Classification::External,
    }
}

/// Finds the module that a file belongs to.
pub fn resolve_source_module(root: &Root, file: &SourcePath) -> (r: Result<
    String,
    PathResolutionError,
>)
    ensures
        match r {
            Ok(name) => root@.module_of(file@) == Ok::<Seq<char>, PathResolutionError>(name@),
            Err(e) => root@.module_of(file@) == Err::<Seq<char>, PathResolutionError>(e),
        },
{
    let n = root.path.components.len();
    if file.components.len() < n {
        return Err(PathResolutionError::NotUnderRoot);
    }
    let mut i: usize = 0;
    while i < n
        invariant
            i <= n,
            n == root.path.components.len(),
            n <= file.components.len(),
            forall|j: int| 0 <= j < i ==> root.path@[j] == file@[j],
        decreases n - i,
    {
        if root.path.components[i] != file.components[i] {
            assert(root.path@[i as int] != file@[i as int]);
            return Err(PathResolutionError::NotUnderRoot);
        }
        i += 1;
    }
    if file.components.len() == n {
        return Err(PathResolutionError::NoComponent);
    }
    Ok(module_of_component(file.components[n].as_str()))
}

} // verus!
