use depgraph::builder::{build_from_sources, FileError, SourceText};
use depgraph::graph::DependencyGraph;
use depgraph::identity::{PathResolutionError, Root, SourcePath};
use depgraph::syntax::{extract_imports, import_of, parse_imports};

fn at(parts: &[&str]) -> SourcePath {
    SourcePath::new(parts.iter().map(|p| p.to_string()).collect())
}

fn text(parts: &[&str], content: &str) -> SourceText {
    SourceText::new(at(parts), content.to_string())
}

fn owned(parts: &[&str]) -> Vec<String> {
    parts.iter().map(|p| p.to_string()).collect()
}

fn statements(content: &str) -> Vec<String> {
    match parse_imports(content) {
        Ok(imports) => imports.iter().map(|i| i.statement()).collect(),
        Err(_) => panic!("the text does not parse"),
    }
}

#[test]
fn imports_of_a_source_text() {
    let content = "use std::collections::HashMap;\nuse b::Thing as Other;\nfn main() {}\nuse c::*;\nuse d::{e, f::g};\nuse h;\nuse i as j;\npub use ::k::l;\n";
    assert_eq!(
        statements(content),
        owned(&["std::collections::HashMap", "b::Thing", "c", "d", "h", "i", "k::l"])
    );
}

#[test]
fn only_top_level_imports_are_read() {
    let content = "mod inner { use hidden::thing; }\nfn f() { use local::thing; }\nuse seen::thing;\n";
    assert_eq!(statements(content), owned(&["seen::thing"]));
}

#[test]
fn groups_and_globs_at_the_start_name_nothing() {
    assert_eq!(statements("use {a::b, c::d};\nuse e::f;"), owned(&["e::f"]));
}

#[test]
fn text_without_imports() {
    assert_eq!(statements(""), owned(&[]));
    assert_eq!(statements("fn main() {}\nstruct S;\n"), owned(&[]));
}

#[test]
fn leading_segments_of_a_source_text() {
    let imports = parse_imports("use crate::a;\nuse self::b;\nuse super::c;\nuse r#type::d;").ok().unwrap();
    let leads: Vec<String> = imports.iter().map(|i| i.leading().clone()).collect();
    assert_eq!(leads, owned(&["crate", "self", "super", "r#type"]));
}

#[test]
fn syntax_error_is_reported() {
    assert!(parse_imports("use ;").is_err());
    assert!(parse_imports("fn main( {").is_err());
    let error = parse_imports("use a::b\nfn x() {}").err().unwrap();
    assert!(!error.cause.to_string().is_empty());
}

#[test]
fn byte_order_mark_and_shebang_are_accepted() {
    assert_eq!(statements("\u{feff}use a::b;"), owned(&["a::b"]));
    assert_eq!(statements("#!/usr/bin/env run\nuse a::b;"), owned(&["a::b"]));
}

#[test]
fn import_of_a_use_tree() {
    let file = syn::parse_file("use a::b::c;\nuse *;\nfn f() {}").unwrap();
    let imports = extract_imports(&file);
    assert_eq!(imports.len(), 1);
    assert_eq!(imports[0].statement(), "a::b::c");
    let tree = match &file.items[0] {
        syn::Item::Use(item) => &item.tree,
        _ => panic!("not a use item"),
    };
    assert_eq!(import_of(tree).unwrap().statement(), "a::b::c");
    let star = match &file.items[1] {
        syn::Item::Use(item) => &item.tree,
        _ => panic!("not a use item"),
    };
    assert!(import_of(star).is_none());
}

#[test]
fn graph_from_source_texts() {
    let root = Root::new(at(&["src"]), owned(&["a.rs", "b.rs"]), owned(&["sub"]));
    let sources = vec![
        text(&["src", "a.rs"], "use b::x;\nuse b::y;\nuse external_lib::z;\nuse sub::thing;\n"),
        text(&["src", "b.rs"], "pub struct X;\n"),
        text(&["src", "sub", "mod.rs"], "use a;\n"),
    ];
    let graph = build_from_sources(&root, &sources, false).ok().unwrap();
    assert_eq!(graph.module_names(), owned(&["b", "a", "external_lib", "sub"]));
    assert_eq!(
        graph.edge_list(),
        vec![
            ("a".to_string(), "b".to_string()),
            ("a".to_string(), "external_lib".to_string()),
            ("a".to_string(), "sub".to_string()),
            ("sub".to_string(), "a".to_string()),
        ]
    );
    let graph = build_from_sources(&root, &sources, true).ok().unwrap();
    assert_eq!(graph.module_names(), owned(&["b", "a", "sub"]));
    assert_eq!(graph.edge_count(), 3);
}

#[test]
fn first_bad_source_ends_the_build() {
    let root = Root::new(at(&["src"]), owned(&[]), owned(&[]));
    let sources = vec![
        text(&["src", "a.rs"], "use b;"),
        text(&["src", "b.rs"], "use ;"),
        text(&["other", "c.rs"], "use d;"),
    ];
    let error = build_from_sources(&root, &sources, false).err().unwrap();
    assert_eq!(error.file, 1);
    assert!(matches!(error.error, FileError::Parse(_)));
    let sources = vec![
        text(&["src", "a.rs"], "use b;"),
        text(&["other", "c.rs"], "use d;"),
        text(&["src", "b.rs"], "use ;"),
    ];
    let error = build_from_sources(&root, &sources, false).err().unwrap();
    assert_eq!(error.file, 1);
    assert!(matches!(
        error.error,
        FileError::PathResolution(PathResolutionError::NotUnderRoot)
    ));
}

#[test]
fn syntax_error_comes_before_a_missing_module() {
    let root = Root::new(at(&["src"]), owned(&[]), owned(&[]));
    let mut graph = DependencyGraph::new();
    let r = graph.add_source(&root, &text(&["other", "c.rs"], "use ;"), false);
    assert!(matches!(r, Err(FileError::Parse(_))));
    let r = graph.add_source(&root, &text(&["src"], "use a;"), false);
    assert!(matches!(r, Err(FileError::PathResolution(PathResolutionError::NoComponent))));
    assert_eq!(graph.node_count(), 0);
    let r = graph.add_source(&root, &text(&["src", "m.rs"], "use a;"), false);
    assert!(r.is_ok());
    assert_eq!(graph.module_names(), owned(&["a", "m"]));
}
