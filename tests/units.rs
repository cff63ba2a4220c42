use lobster_rust::annotations::{justification, trace_reference, trim_filename};
use lobster_rust::context::Context;
use lobster_rust::cst::{parse_events, CstEvent, SyntaxTag};
use lobster_rust::node::{syntax_kind_to_node_kind, NodeKind, RustTraceableNode};
use lobster_rust::location::{decimal_string, FileReference, WhitespaceData};
use lobster_rust::resolve::{check_nested_submodule, resolve_module_declaration, DirEntry};
use lobster_rust::session::file_stem;

fn entry(path: &[&str], is_dir: bool) -> DirEntry {
    DirEntry {
        path: path.iter().map(|s| s.to_string()).collect(),
        is_dir,
    }
}

#[test]
fn context_round_trip() {
    let c = Context::from_str("a.b.c");
    assert_eq!(c.to_str(), "a.b.c");
    assert!(matches!(Context::from_str(""), Context::Empty));
    assert_eq!(Context::Empty.to_str(), "");
}

#[test]
fn context_combine_is_associative_with_identity() {
    let a = Context::from_str("x");
    let b = Context::from_str("y.z");
    let c = Context::from_str("w");
    let left = a.combine(&b).combine(&c);
    let right = a.combine(&b.combine(&c));
    assert_eq!(left.to_str(), "x.y.z.w");
    assert_eq!(right.to_str(), "x.y.z.w");
    assert_eq!(Context::Empty.combine(&a).to_str(), "x");
    assert_eq!(a.combine(&Context::Empty).to_str(), "x");
    assert!(matches!(Context::Empty.combine(&Context::Empty), Context::Empty));
}

#[test]
fn file_reference_text() {
    let r = FileReference::new("lib".to_string(), Some(12), Some(4));
    assert_eq!(r.to_string(), "lib:12:4");
    let d = FileReference::new_default();
    assert_eq!(d.to_string(), "main.rs");
    let l = FileReference::new("x".to_string(), Some(7), None);
    assert_eq!(l.to_string(), "x:7");
}

#[test]
fn decimal_numbers() {
    assert_eq!(decimal_string(0), "0");
    assert_eq!(decimal_string(9), "9");
    assert_eq!(decimal_string(10), "10");
    assert_eq!(decimal_string(4096), "4096");
    assert_eq!(decimal_string(usize::MAX), usize::MAX.to_string());
}

#[test]
fn whitespace_accounting() {
    let mut w = WhitespaceData::new();
    assert_eq!(w.calculate_token_location(5), (1, 5));
    w.visit_whitespace("\n  \n ", 10);
    assert_eq!(w.current_line, 3);
    assert_eq!(w.last_linebrk, 13);
    assert_eq!(w.calculate_token_location(15), (3, 2));
    w.visit_whitespace("   ", 20);
    assert_eq!(w.current_line, 3);
    assert_eq!(w.last_linebrk, 13);
}

#[test]
fn comment_annotations() {
    assert_eq!(
        trace_reference("// lobster-trace: Req.x-1_y and more"),
        Some("req Req.x-1_y".to_string())
    );
    assert_eq!(trace_reference("// nothing here"), None);
    assert_eq!(
        justification("/* lobster-exclude: generated */"),
        Some("generated".to_string())
    );
    assert_eq!(justification("// lobster-exclude:"), None);
}

#[test]
fn filename_trimming() {
    assert_eq!(trim_filename("src/utils/context.rs"), Some("context".to_string()));
    assert_eq!(trim_filename("main.rs"), Some("main".to_string()));
    assert_eq!(trim_filename("README.md"), None);
}

#[test]
fn file_stems() {
    assert_eq!(file_stem("main.rs"), "main");
    assert_eq!(file_stem("a.b.rs"), "a.b");
    assert_eq!(file_stem(".hidden"), ".hidden");
    assert_eq!(file_stem("plain"), "plain");
}

#[test]
fn resolution_beside_a_root_file() {
    let listing = vec![entry(&["sub.rs"], false), entry(&["dir"], true), entry(&["dir", "mod.rs"], false)];
    let r = resolve_module_declaration("lib", "sub", &listing).unwrap();
    assert_eq!(r.path, vec!["sub.rs".to_string()]);
    assert_eq!(r.context.to_str(), "");
    let d = resolve_module_declaration("mod", "dir", &listing).unwrap();
    assert_eq!(d.path, vec!["dir".to_string(), "mod.rs".to_string()]);
    assert_eq!(d.context.to_str(), "dir");
    assert!(resolve_module_declaration("main", "none", &listing).is_none());
}

#[test]
fn resolution_below_a_plain_file() {
    let listing = vec![
        entry(&["net"], true),
        entry(&["net", "tcp.rs"], false),
        entry(&["net", "udp"], true),
        entry(&["net", "udp", "mod.rs"], false),
        entry(&["tcp.rs"], false),
    ];
    let t = resolve_module_declaration("net", "tcp", &listing).unwrap();
    assert_eq!(t.path, vec!["net".to_string(), "tcp.rs".to_string()]);
    assert_eq!(t.context.to_str(), "net");
    let u = resolve_module_declaration("net", "udp", &listing).unwrap();
    assert_eq!(u.path, vec!["net".to_string(), "udp".to_string(), "mod.rs".to_string()]);
    assert_eq!(u.context.to_str(), "net.udp");
    assert!(resolve_module_declaration("other", "tcp", &listing).is_none());
}

#[test]
fn directory_module_needs_its_marker_file() {
    let listing = vec![entry(&["dir"], true)];
    assert!(resolve_module_declaration("main", "dir", &listing).is_none());
}

#[test]
fn node_description_and_kind_names() {
    let n = RustTraceableNode::new(
        "root.f".to_string(),
        FileReference::new("root".to_string(), Some(3), Some(4)),
        NodeKind::Function,
    );
    assert_eq!(n.to_string(), "Node Function root.f at root:3:4\n");
    assert_eq!(NodeKind::Source.to_str(), "Module");
    assert_eq!(NodeKind::Context.to_str(), "Context");
    assert_eq!(syntax_kind_to_node_kind(SyntaxTag::Module), Some(NodeKind::Context));
    assert_eq!(syntax_kind_to_node_kind(SyntaxTag::Name), None);
}

#[test]
fn parser_kind_names() {
    assert_eq!(SyntaxTag::from_name("FN"), SyntaxTag::Fn);
    assert_eq!(SyntaxTag::from_name("PATH_TYPE"), SyntaxTag::PathType);
    assert_eq!(SyntaxTag::from_name("STRING"), SyntaxTag::StringLit);
    assert_eq!(SyntaxTag::from_name("FN_KW"), SyntaxTag::FnKw);
    assert_eq!(SyntaxTag::from_name("MACRO_CALL"), SyntaxTag::Other);
}

#[test]
fn parsed_events_are_a_balanced_walk() {
    let ev = parse_events("fn a() {}");
    assert!(matches!(ev.first(), Some(CstEvent::Enter(SyntaxTag::SourceFile))));
    assert!(matches!(ev.last(), Some(CstEvent::Exit(SyntaxTag::SourceFile))));
    let mut text = String::new();
    let mut depth: i64 = 0;
    for e in &ev {
        match e {
            CstEvent::Enter(_) => depth += 1,
            CstEvent::Exit(_) => depth -= 1,
            CstEvent::Token(_, t, _) => text.push_str(t),
        }
    }
    assert_eq!(depth, 0);
    assert_eq!(text, "fn a() {}");
    assert!(ev.iter().any(|e| matches!(e, CstEvent::Token(SyntaxTag::FnKw, t, 0) if t == "fn")));
}

#[test]
fn line_start_is_a_byte_offset() {
    let mut w = WhitespaceData::new();
    w.visit_whitespace("\u{2028}\n", 10);
    assert_eq!(w.current_line, 2);
    assert_eq!(w.last_linebrk, 13);
    assert_eq!(w.calculate_token_location(16), (2, 3));
}

#[test]
fn nested_search_works_for_any_stem() {
    let listing = vec![entry(&["main"], true), entry(&["main", "inner.rs"], false)];
    let r = check_nested_submodule(&listing, "inner", "main").unwrap();
    assert_eq!(r.path, vec!["main".to_string(), "inner.rs".to_string()]);
    assert_eq!(r.context.to_str(), "main");
}
