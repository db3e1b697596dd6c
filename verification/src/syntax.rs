//! Reading the import declarations of a source text. The text is parsed by
//! `syn`; which imports the syntax tree stands for is decided here.

use crate::import::{paths, ImportPath};
use crate::text::texts;
use vstd::prelude::*;
use vstd::string::*;

verus! {

/// `syn::File`, the syntax tree of a source file. What it holds is known
/// only through `file_items`.
#[verifier::external_type_specification]
#[verifier::external_body]
pub struct ExFile(syn::File);

/// `syn::UseTree`, the tree of a `use` item. What it holds is known only
/// through `shape_of`.
#[verifier::external_type_specification]
#[verifier::external_body]
pub struct ExUseTree(syn::UseTree);

/// `syn::Error`, a syntax error. It is carried through and never read.
#[verifier::external_type_specification]
#[verifier::external_body]
pub struct ExError(syn::Error);

/// What a `use` tree of `syn` holds, as far as imports are read from it.
pub enum UseShape {
    /// A name and what follows it: `name::...`.
    Path(Seq<char>, Box<UseShape>),
    /// A name at the end of a path.
    Name(Seq<char>),
    /// A name at the end of a path, and the name that the file gives it.
    Rename(Seq<char>, Seq<char>),
    /// The star at the end of a path.
    Glob,
    /// A group in braces at the end of a path.
    Group,
}

/// What a `use` tree holds.
pub uninterp spec fn shape_of(tree: syn::UseTree) -> UseShape;

/// The items at the top level of a file, in order: for a `use` item what
/// its tree holds, for any other item nothing.
pub uninterp spec fn file_items(file: syn::File) -> Seq<Option<UseShape>>;

/// The items of the file that `syn` reads from a source text, or nothing
/// when it finds a syntax error in the text.
pub uninterp spec fn parse_outcome(content: Seq<char>) -> Option<Seq<Option<UseShape>>>;

/// `syn::parse_file`: the syntax tree of a source text, or the first syntax
/// error in it. The same text gives the same tree.
#[verifier::external_body]
pub(crate) fn parse_file(content: &str) -> (r: Result<syn::File, syn::Error>)
    ensures
        match r {
            Ok(file) => parse_outcome(content@) == Some(file_items(file)),
            Err(_) => parse_outcome(content@).is_none(),
        },
{
    syn::parse_file(content)
}

/// The number of items in the field `items` of a `syn::File`.
#[verifier::external_body]
pub(crate) fn item_count(file: &syn::File) -> (n: usize)
    ensures
        n == file_items(*file).len(),
{
    file.items.len()
}

/// The tree of item `i` of a `syn::File` where that item is `Item::Use`,
/// and nothing where it is another item.
#[verifier::external_body]
pub(crate) fn item_use_tree(file: &syn::File, i: usize) -> (r: Option<&syn::UseTree>)
    requires
        i < file_items(*file).len(),
    ensures
        match r {
            Some(tree) => file_items(*file)[i as int] == Some(shape_of(*tree)),
            None => file_items(*file)[i as int].is_none(),
        },
{
    match &file.items[i] {
        syn::Item::Use(item) => Some(&item.tree),
        _ => None,
    }
}

/// The name and the rest of a `UseTree::Path`, and nothing for another
/// tree.
#[verifier::external_body]
pub(crate) fn use_tree_path(tree: &syn::UseTree) -> (r: Option<(String, &syn::UseTree)>)
    ensures
        match r {
            Some(step) => shape_of(*tree) == UseShape::Path(step.0@, Box::new(shape_of(*step.1))),
            None => !(shape_of(*tree) is Path),
        },
{
    match tree {
        syn::UseTree::Path(path) => Some((path.ident.to_string(), &*path.tree)),
        _ => None,
    }
}

/// The name of a `UseTree::Name` or a `UseTree::Rename`, and nothing for
/// another tree.
#[verifier::external_body]
pub(crate) fn use_tree_name(tree: &syn::UseTree) -> (r: Option<String>)
    ensures
        match shape_of(*tree) {
            UseShape::Name(name) => r.is_some() && r.unwrap()@ == name,
            UseShape::Rename(name, _) => r.is_some() && r.unwrap()@ == name,
            _ => r.is_none(),
        },
{
    match tree {
        syn::UseTree::Name(name) => Some(name.ident.to_string()),
        syn::UseTree::Rename(rename) => Some(rename.ident.to_string()),
        _ => None,
    }
}

/// The segments of the import that a `use` tree stands for: the names along
/// its path. A star or a group ends the path and adds no segment.
pub open spec fn segments_of(shape: UseShape) -> Seq<Seq<char>>
    decreases shape,
{
    match shape {
        UseShape::Path(name, rest) => seq![name] + segments_of(*rest),
        UseShape::Name(name) => seq![name],
        UseShape::Rename(name, _) => seq![name],
        UseShape::Glob => Seq::empty(),
        UseShape::Group => Seq::empty(),
    }
}

/// The number of names in front of the end of a path.
pub open spec fn depth(shape: UseShape) -> nat
    decreases shape,
{
    match shape {
        UseShape::Path(_, rest) => 1 + depth(*rest),
        _ => 0,
    }
}

/// The imports of a file: the segments of each `use` item that has any, in
/// the order of the items.
pub open spec fn imports_of(items: Seq<Option<UseShape>>) -> Seq<Seq<Seq<char>>>
    decreases items.len(),
{
    if items.len() == 0 {
        Seq::empty()
    } else {
        let front = imports_of(items.drop_last());
        match items.last() {
            Some(shape) => if segments_of(shape).len() > 0 {
                front.push(segments_of(shape))
            } else {
                front
            },
            None => front,
        }
    }
}

/// The imports of a source text, or nothing when the text has a syntax
/// error.
pub open spec fn imports_in(content: Seq<char>) -> Option<Seq<Seq<Seq<char>>>> {
    match parse_outcome(content) {
        Some(items) => Some(imports_of(items)),
        None => None,
    }
}

/// A source text that is not valid source, with the error that `syn` found
/// in it.
#[derive(Debug)]
pub struct ParseError {
    pub cause: syn::Error,
}

/// The import that a `use` tree stands for, if it names anything.
pub fn import_of(tree: &syn::UseTree) -> (r: Option<ImportPath>)
    ensures
        match r {
            Some(path) => path@ == segments_of(shape_of(*tree)) && path@.len() > 0,
            None => segments_of(shape_of(*tree)).len() == 0,
        },
{
    let mut segments: Vec<String> = Vec::new();
    let mut at: &syn::UseTree = tree;
    let mut step = use_tree_path(at);
    while step.is_some()
        invariant
            texts(segments@) + segments_of(shape_of(*at)) == segments_of(shape_of(*tree)),
            match step {
                Some(s) => shape_of(*at) == UseShape::Path(s.0@, Box::new(shape_of(*s.1))),
                None => !(shape_of(*at) is Path),
            },
        decreases depth(shape_of(*at)),
    {
        let (name, rest) = step.unwrap();
        segments.push(name);
        at = rest;
        step = use_tree_path(at);
    }
    match use_tree_name(at) {
        Some(name) => segments.push(name),
        None => {},
    }
    ImportPath::new(segments)
}

/// The imports of a parsed file.
pub fn extract_imports(file: &syn::File) -> (imports: Vec<ImportPath>)
    ensures
        paths(imports@) == imports_of(file_items(*file)),
{
    let n = item_count(file);
    let mut imports: Vec<ImportPath> = Vec::new();
    let mut i: usize = 0;
    let ghost items = file_items(*file);
    while i < n
        invariant
            i <= n,
            n == items.len(),
            items == file_items(*file),
            paths(imports@) == imports_of(items.subrange(0, i as int)),
        decreases n - i,
    {
        proof {
            let next = items.subrange(0, i + 1);
            assert(next.drop_last() =~= items.subrange(0, i as int));
        }
        match item_use_tree(file, i) {
            Some(tree) => {
                match import_of(tree) {
                    Some(path) => imports.push(path),
                    None => {},
                }
            },
            None => {},
        }
        i += 1;
    }
    assert(items.subrange(0, i as int) =~= items);
    imports
}

/// Reads the imports of a source text.
pub fn parse_imports(content: &str) -> (r: Result<Vec<ImportPath>, ParseError>)
    ensures
        match r {
            Ok(imports) => imports_in(content@) == Some(paths(imports@)),
            Err(_) => imports_in(content@).is_none(),
        },
{
    match parse_file(content) {
        Ok(file) => Ok(extract_imports(&file)),
        Err(cause) => Err(ParseError { cause }),
    }
}

} // verus!
