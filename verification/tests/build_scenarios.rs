use depgraph::builder::{build, FileError, SourceFile};
use depgraph::identity::{PathResolutionError, Root, SourcePath};
use depgraph::import::ImportPath;
use depgraph::render::listing;

fn path(parts: &[&str]) -> SourcePath {
    SourcePath::new(parts.iter().map(|p| p.to_string()).collect())
}

fn import(parts: &[&str]) -> ImportPath {
    ImportPath::new(parts.iter().map(|p| p.to_string()).collect()).unwrap()
}

fn names(parts: &[&str]) -> Vec<String> {
    parts.iter().map(|p| p.to_string()).collect()
}

fn pairs(list: &[(&str, &str)]) -> Vec<(String, String)> {
    list.iter().map(|(a, b)| (a.to_string(), b.to_string())).collect()
}

fn two_files() -> (Root, Vec<SourceFile>) {
    let root = Root::new(path(&["root"]), names(&["a.rs", "b.rs"]), names(&[]));
    let files = vec![
        SourceFile::new(
            path(&["root", "a.rs"]),
            vec![import(&["b"]), import(&["b"]), import(&["external_lib"])],
        ),
        SourceFile::new(path(&["root", "b.rs"]), vec![]),
    ];
    (root, files)
}

#[test]
fn end_to_end_with_external_names() {
    let (root, files) = two_files();
    let graph = build(&root, &files, false).ok().unwrap();
    assert_eq!(graph.node_count(), 3);
    assert_eq!(graph.module_names(), names(&["b", "a", "external_lib"]));
    assert_eq!(graph.edge_count(), 2);
    assert_eq!(graph.edge_list(), pairs(&[("a", "b"), ("a", "external_lib")]));
    assert!(graph.contains_edge("a", "b"));
    assert!(graph.contains_edge("a", "external_lib"));
    assert!(!graph.contains_edge("b", "a"));
}

#[test]
fn end_to_end_without_external_names() {
    let (root, files) = two_files();
    let graph = build(&root, &files, true).ok().unwrap();
    assert_eq!(graph.module_names(), names(&["b", "a"]));
    assert_eq!(graph.edge_list(), pairs(&[("a", "b")]));
    assert!(!graph.contains_node("external_lib"));
}

#[test]
fn import_of_a_directory_module_uses_the_leading_segment() {
    let root = Root::new(path(&["root"]), names(&["a.rs"]), names(&["sub"]));
    let files = vec![SourceFile::new(path(&["root", "a.rs"]), vec![import(&["sub", "thing"])])];
    let graph = build(&root, &files, true).ok().unwrap();
    assert_eq!(graph.module_names(), names(&["sub", "a"]));
    assert_eq!(graph.edge_list(), pairs(&[("a", "sub")]));
    assert!(!graph.contains_node("sub::thing"));
    assert!(!graph.contains_node("thing"));
}

#[test]
fn file_without_imports_has_a_node_and_no_edge() {
    let root = Root::new(path(&["root"]), names(&["lonely.rs"]), names(&[]));
    let files = vec![SourceFile::new(path(&["root", "lonely.rs"]), vec![])];
    let graph = build(&root, &files, false).ok().unwrap();
    assert_eq!(graph.module_names(), names(&["lonely"]));
    assert_eq!(graph.edge_count(), 0);
    assert_eq!(graph.neighbor_names("lonely"), names(&[]));
}

#[test]
fn repeated_import_gives_one_edge() {
    let root = Root::new(path(&["root"]), names(&["a.rs"]), names(&[]));
    let files = vec![SourceFile::new(
        path(&["root", "a.rs"]),
        vec![import(&["x", "one"]), import(&["y"]), import(&["x", "two"])],
    )];
    let graph = build(&root, &files, false).ok().unwrap();
    assert_eq!(graph.edge_list(), pairs(&[("a", "x"), ("a", "y")]));
    assert_eq!(graph.module_names(), names(&["x", "a", "y"]));
}

#[test]
fn file_and_directory_of_one_name_share_a_node() {
    let root = Root::new(path(&["root"]), names(&["foo.rs"]), names(&["foo"]));
    let files = vec![
        SourceFile::new(path(&["root", "foo.rs"]), vec![import(&["left"])]),
        SourceFile::new(path(&["root", "foo", "inner.rs"]), vec![import(&["right"])]),
        SourceFile::new(path(&["root", "foo", "deep", "more.rs"]), vec![import(&["left"])]),
    ];
    let graph = build(&root, &files, false).ok().unwrap();
    assert_eq!(graph.module_names(), names(&["left", "foo", "right"]));
    assert_eq!(graph.edge_list(), pairs(&[("foo", "left"), ("foo", "right")]));
}

#[test]
fn ignored_external_names_leave_no_node() {
    let root = Root::new(path(&["root"]), names(&["a.rs", "b.rs"]), names(&["c"]));
    let files = vec![
        SourceFile::new(
            path(&["root", "a.rs"]),
            vec![import(&["std", "fmt"]), import(&["b"]), import(&["serde"]), import(&["c", "d"])],
        ),
        SourceFile::new(path(&["root", "b.rs"]), vec![import(&["std"]), import(&["a"])]),
    ];
    let graph = build(&root, &files, true).ok().unwrap();
    assert_eq!(graph.module_names(), names(&["b", "a", "c"]));
    assert_eq!(graph.edge_list(), pairs(&[("a", "b"), ("a", "c"), ("b", "a")]));
}

#[test]
fn external_name_that_is_also_a_source_module_keeps_its_node() {
    // `ghost` is no file or directory of the root, yet a file resolves to it.
    let root = Root::new(path(&["root"]), names(&["a.rs"]), names(&[]));
    let files = vec![
        SourceFile::new(path(&["root", "a.rs"]), vec![import(&["ghost"])]),
        SourceFile::new(path(&["root", "ghost", "x.rs"]), vec![]),
    ];
    let graph = build(&root, &files, true).ok().unwrap();
    assert_eq!(graph.module_names(), names(&["a", "ghost"]));
    assert_eq!(graph.edge_count(), 0);
}

#[test]
fn order_of_files_does_not_change_the_sets() {
    let (root, mut files) = two_files();
    let forward = build(&root, &files, false).ok().unwrap();
    files.reverse();
    let backward = build(&root, &files, false).ok().unwrap();
    let mut a = forward.module_names();
    let mut b = backward.module_names();
    a.sort();
    b.sort();
    assert_eq!(a, b);
    let mut a = forward.edge_list();
    let mut b = backward.edge_list();
    a.sort();
    b.sort();
    assert_eq!(a, b);
    assert_eq!(backward.module_names(), names(&["b", "a", "external_lib"]));
}

#[test]
fn building_twice_gives_the_same_graph() {
    let (root, files) = two_files();
    let first = build(&root, &files, false).ok().unwrap();
    let second = build(&root, &files, false).ok().unwrap();
    assert_eq!(first.module_names(), second.module_names());
    assert_eq!(first.edge_list(), second.edge_list());
    assert_eq!(first.to_dot(), second.to_dot());
}

#[test]
fn self_import_makes_a_loop() {
    let root = Root::new(path(&["root"]), names(&["a.rs"]), names(&[]));
    let files = vec![SourceFile::new(path(&["root", "a.rs"]), vec![import(&["a", "inner"])])];
    let graph = build(&root, &files, true).ok().unwrap();
    assert_eq!(graph.module_names(), names(&["a"]));
    assert_eq!(graph.edge_list(), pairs(&[("a", "a")]));
}

#[test]
fn alias_of_the_tree_is_kept_when_external_names_are_ignored() {
    let plain = Root::new(path(&["root"]), names(&["a.rs"]), names(&[]));
    let files = vec![SourceFile::new(path(&["root", "a.rs"]), vec![import(&["crate", "b"])])];
    let graph = build(&plain, &files, true).ok().unwrap();
    assert_eq!(graph.module_names(), names(&["a"]));
    let aliased =
        Root::new(path(&["root"]), names(&["a.rs"]), names(&[])).with_alias("crate".to_string());
    let graph = build(&aliased, &files, true).ok().unwrap();
    assert_eq!(graph.module_names(), names(&["crate", "a"]));
    assert_eq!(graph.edge_list(), pairs(&[("a", "crate")]));
}

#[test]
fn first_file_without_a_module_ends_the_build() {
    let root = Root::new(path(&["root"]), names(&["a.rs"]), names(&[]));
    let files = vec![
        SourceFile::new(path(&["root", "a.rs"]), vec![]),
        SourceFile::new(path(&["elsewhere", "b.rs"]), vec![]),
        SourceFile::new(path(&["root"]), vec![]),
    ];
    let error = build(&root, &files, false).err().unwrap();
    assert_eq!(error.file, 1);
    assert!(matches!(
        error.error,
        FileError::PathResolution(PathResolutionError::NotUnderRoot)
    ));
    let files = vec![
        SourceFile::new(path(&["root"]), vec![]),
        SourceFile::new(path(&["elsewhere", "b.rs"]), vec![]),
    ];
    let error = build(&root, &files, false).err().unwrap();
    assert_eq!(error.file, 0);
    assert!(matches!(
        error.error,
        FileError::PathResolution(PathResolutionError::NoComponent)
    ));
}

#[test]
fn no_files_give_an_empty_graph() {
    let root = Root::new(path(&["root"]), names(&[]), names(&[]));
    let graph = build(&root, &vec![], false).ok().unwrap();
    assert_eq!(graph.node_count(), 0);
    assert_eq!(graph.edge_count(), 0);
    assert_eq!(listing(&graph), names(&[]));
}

#[test]
fn listing_of_the_two_files() {
    let (root, files) = two_files();
    let graph = build(&root, &files, false).ok().unwrap();
    assert_eq!(
        listing(&graph),
        names(&["Dependencies for module `a`:", "\tb", "\texternal_lib"])
    );
}

#[test]
fn dot_text_of_the_two_files() {
    let (root, files) = two_files();
    let graph = build(&root, &files, false).ok().unwrap();
    assert_eq!(
        graph.to_dot(),
        "digraph {\n    0 [ label = \"\\\"b\\\"\" ]\n    1 [ label = \"\\\"a\\\"\" ]\n    2 [ label = \"\\\"external_lib\\\"\" ]\n    1 -> 0 [ ]\n    1 -> 2 [ ]\n}\n"
    );
}
