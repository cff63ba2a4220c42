use lobster_rust::node::Record;
use lobster_rust::resolve::DirEntry;
use lobster_rust::session::Session;
use lobster_rust::visitor::Warning;

fn entry(path: &[&str], is_dir: bool) -> DirEntry {
    DirEntry {
        path: path.iter().map(|s| s.to_string()).collect(),
        is_dir,
    }
}

fn analyze_one(file: &str, text: &str) -> (Vec<Record>, Session) {
    let mut session = Session::new(file);
    session.analyze(text, &Vec::new());
    (session.records(), session)
}

#[test]
fn single_function_gives_one_record() {
    let (records, _) = analyze_one("root.rs", "fn alpha() {}");
    assert_eq!(records.len(), 1);
    assert_eq!(records[0].kind, "Function");
    assert_eq!(records[0].name, "root.alpha");
    assert_eq!(records[0].tag, "rust root.alpha");
    assert_eq!(records[0].location.filename, "root");
    assert_eq!(records[0].location.line, Some(1));
    assert_eq!(records[0].location.column, Some(0));
    assert_eq!(records[0].language, "Rust");
    assert!(records[0].messages.is_empty());
    assert!(records[0].just_down.is_empty());
    assert!(records[0].just_global.is_empty());
}

#[test]
fn trace_comment_above_function() {
    let (records, _) = analyze_one("root.rs", "// lobster-trace: REQ.alpha\nfn beta() {}");
    assert_eq!(records.len(), 1);
    assert_eq!(records[0].name, "root.beta");
    assert_eq!(records[0].refs, vec!["req REQ.alpha".to_string()]);
    assert!(records[0].just_up.is_empty());
}

#[test]
fn struct_and_method_records() {
    let (records, _) = analyze_one("root.rs", "struct S {} impl S { fn m() {} }");
    assert_eq!(records.len(), 2);
    assert_eq!(records[0].kind, "Struct");
    assert_eq!(records[0].name, "root.S");
    assert_eq!(records[1].kind, "Function");
    assert_eq!(records[1].name, "root.S.m");
}

#[test]
fn trait_items_are_left_out() {
    let (records, _) = analyze_one("root.rs", "trait T { fn t() {} }");
    assert!(records.is_empty());
}

#[test]
fn declared_module_file_is_analysed() {
    let mut session = Session::new("main.rs");
    let listing = vec![entry(&["main.rs"], false), entry(&["sub.rs"], false)];
    session.analyze("fn first() {}\nmod sub;\n", &listing);
    let job = session.next_job().expect("the module file comes next");
    assert_eq!(job.path, vec!["sub.rs".to_string()]);
    session.analyze("fn gamma(){}", &Vec::new());
    assert!(session.next_job().is_none());
    let records = session.records();
    assert_eq!(records.len(), 2);
    assert_eq!(records[0].name, "main.first");
    assert_eq!(records[1].name, "sub.gamma");
    assert_eq!(records[1].location.filename, "sub");
}

#[test]
fn justification_and_reference_in_one_comment() {
    let text = "fn f() {\n    // lobster-trace: A.b lobster-exclude: too_simple\n}";
    let (records, _) = analyze_one("lib.rs", text);
    assert_eq!(records.len(), 1);
    assert_eq!(records[0].refs, vec!["req A.b".to_string()]);
    assert_eq!(records[0].just_up, vec!["too_simple".to_string()]);
}

#[test]
fn keyword_position_is_exact() {
    let (records, _) = analyze_one("root.rs", "\n\n  fn later() {}\n\n   struct Late;");
    assert_eq!(records.len(), 2);
    assert_eq!(records[0].location.line, Some(3));
    assert_eq!(records[0].location.column, Some(3));
    assert_eq!(records[1].location.line, Some(5));
    assert_eq!(records[1].location.column, Some(4));
}

#[test]
fn inline_module_and_trait_impl_scope_names() {
    let text = "mod inner { fn f() {} }\nstruct S;\nimpl Clone for S { fn clone(&self) -> S { S } }";
    let (records, _) = analyze_one("root.rs", text);
    let names: Vec<&str> = records.iter().map(|r| r.name.as_str()).collect();
    assert_eq!(names, vec!["root.inner.f", "root.S", "root.S.clone"]);
}

#[test]
fn nested_function_is_folded_into_its_parent() {
    let (records, _) = analyze_one("root.rs", "fn outer() { fn inner() {} }");
    assert_eq!(records.len(), 1);
    assert_eq!(records[0].name, "root.outer");
}

#[test]
fn enums_give_no_records() {
    let (records, _) = analyze_one("root.rs", "enum E { A, B }");
    assert!(records.is_empty());
}

#[test]
fn malformed_impl_is_reported_and_skipped() {
    let (records, session) = analyze_one("root.rs", "impl dyn T { fn m() {} }");
    assert!(matches!(session.warnings[0], Warning::MalformedImpl(_)));
    assert_eq!(records.len(), 1);
    assert_eq!(records[0].name, "root.m");
}

#[test]
fn unresolved_module_is_reported() {
    let (_, session) = analyze_one("main.rs", "mod missing;");
    assert!(session.next_job().is_none());
    match &session.warnings[0] {
        Warning::UnresolvedModule(name) => assert_eq!(name, "missing"),
        _ => panic!("expected an unresolved module"),
    }
}

#[test]
fn path_attribute_overrides_resolution() {
    let mut session = Session::new("main.rs");
    session.analyze("#[path = \"extra/other.rs\"]\nmod x;", &Vec::new());
    let job = session.next_job().expect("the attribute names a file");
    assert_eq!(job.path, vec!["extra".to_string(), "other.rs".to_string()]);
    assert_eq!(job.context.to_str(), "");
}

#[test]
fn modules_are_analysed_in_declaration_order() {
    let mut session = Session::new("main.rs");
    let listing = vec![entry(&["a.rs"], false), entry(&["b.rs"], false)];
    session.analyze("mod a;\nmod b;", &listing);
    assert_eq!(session.next_job().unwrap().path, vec!["a.rs".to_string()]);
    let a_listing = vec![entry(&["a"], true), entry(&["a", "c.rs"], false)];
    session.analyze("fn fa() {}\nmod c;", &a_listing);
    assert_eq!(
        session.next_job().unwrap().path,
        vec!["a".to_string(), "c.rs".to_string()]
    );
    assert_eq!(session.next_job().unwrap().context.to_str(), "a");
    session.analyze("fn fc() {}", &Vec::new());
    assert_eq!(session.next_job().unwrap().path, vec!["b.rs".to_string()]);
    session.analyze("fn fb() {}", &Vec::new());
    let names: Vec<String> = session.records().iter().map(|r| r.name.clone()).collect();
    assert_eq!(names, vec!["a.fa", "a.c.fc", "b.fb"]);
}

#[test]
fn unreadable_file_is_skipped() {
    let mut session = Session::new("main.rs");
    session.skip();
    assert!(session.next_job().is_none());
    assert!(session.records().is_empty());
}

#[test]
fn repeated_analysis_gives_identical_records() {
    let text = "// lobster-trace: R.one\nfn a() {}\nstruct B {}\nimpl B { fn c() {} }";
    let (first, _) = analyze_one("main.rs", text);
    let (second, _) = analyze_one("main.rs", text);
    assert_eq!(first.len(), second.len());
    for (x, y) in first.iter().zip(second.iter()) {
        assert_eq!(x.tag, y.tag);
        assert_eq!(x.name, y.name);
        assert_eq!(x.location.line, y.location.line);
        assert_eq!(x.location.column, y.location.column);
        assert_eq!(x.refs, y.refs);
        assert_eq!(x.just_up, y.just_up);
        assert_eq!(x.kind, y.kind);
    }
}

#[test]
fn every_record_has_a_line() {
    let text = "fn a() {}\n\nmod m {\n    struct S;\n    impl S {\n        fn f() {}\n    }\n}\n";
    let (records, _) = analyze_one("root.rs", text);
    assert_eq!(records.len(), 3);
    for r in &records {
        assert!(r.location.line.unwrap() >= 1);
    }
    assert_eq!(records[2].name, "root.m.S.f");
    assert_eq!(records[2].location.line, Some(6));
}

#[test]
fn columns_after_multibyte_whitespace() {
    let (records, _) = analyze_one("root.rs", "\u{2028}\n  fn f() {}");
    assert_eq!(records.len(), 1);
    assert_eq!(records[0].location.line, Some(2));
    assert_eq!(records[0].location.column, Some(3));
}

#[test]
fn nameless_trait_is_reported() {
    let (records, session) = analyze_one("root.rs", "trait { fn t() {} }");
    assert!(records.is_empty());
    assert!(session.warnings.iter().any(|w| matches!(w, Warning::UnnamedItem(_))));
}
