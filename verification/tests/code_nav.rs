use nidex::code_nav::{
    scan_walk,
    capture_name, classify_file, file_selected, files_to_prune, find_project_root, run_symbols,
    run_symbols_for_files, sort_symbols_exec, stored_mtime, symbol_from_match, symbol_from_row,
    symbol_langs, symbols_query, FileScan, Lang, QueryError, QueryMatch, QueryResults, Symbol,
    SymbolKind, MAX_MATCHES,
};
use nidex::models::Timestamp;

fn capture(cap: &str, text: &str, file: &str, line: usize) -> QueryMatch {
    QueryMatch {
        capture: cap.to_string(),
        text: text.to_string(),
        file: file.to_string(),
        start_line: line,
        end_line: line,
    }
}

#[test]
fn languages_by_extension_and_name() {
    assert_eq!(Lang::from_extension("rs"), Some(Lang::Rust));
    assert_eq!(Lang::from_extension("tsx"), Some(Lang::TypeScript));
    assert_eq!(Lang::from_extension("hpp"), Some(Lang::Cpp));
    assert_eq!(Lang::from_extension("md"), None);
    assert_eq!(Lang::from_str("Python"), Some(Lang::Python));
    assert_eq!(Lang::from_str("SH"), Some(Lang::Bash));
    assert_eq!(Lang::from_str("cobol"), None);
    assert_eq!(Lang::Swift.as_str(), "swift");
}

#[test]
fn language_names_round_trip() {
    for lang in [
        Lang::Bash,
        Lang::C,
        Lang::Cpp,
        Lang::Go,
        Lang::JavaScript,
        Lang::Python,
        Lang::Rust,
        Lang::Swift,
        Lang::TypeScript,
    ] {
        assert_eq!(Lang::from_str(lang.as_str()), Some(lang));
        for ext in lang.extensions() {
            assert_eq!(Lang::from_extension(ext), Some(lang));
            assert!(file_selected(lang, ext));
        }
    }
    assert!(!file_selected(Lang::Rust, "py"));
}

#[test]
fn symbol_kinds_round_trip() {
    assert_eq!(SymbolKind::from_capture_prefix("struct"), SymbolKind::Struct);
    assert_eq!(SymbolKind::from_capture_prefix("whatever"), SymbolKind::Unknown);
    for kind in [SymbolKind::Fn, SymbolKind::Trait, SymbolKind::Namespace, SymbolKind::Unknown] {
        assert_eq!(SymbolKind::from_str(kind.as_str()), kind);
    }
}

#[test]
fn captures_become_symbols() {
    let s = symbol_from_match(capture("@struct.name", "Foo", "a.rs", 3));
    assert_eq!(s, Symbol { name: "Foo".to_string(), kind: SymbolKind::Struct, file: "a.rs".to_string(), line: 3 });
    let t = symbol_from_match(capture("@method", "go", "b.js", 9));
    assert_eq!(t.kind, SymbolKind::Method);
}

#[test]
fn rust_file_symbols_come_sorted() {
    let matches = vec![
        capture("@enum.name", "Baz", "sample.rs", 3),
        capture("@struct.name", "Foo", "sample.rs", 1),
        capture("@fn.name", "bar", "sample.rs", 2),
    ];
    let symbols = run_symbols(vec![Ok(matches)]).unwrap();
    let names: Vec<&str> = symbols.iter().map(|s| s.name.as_str()).collect();
    assert_eq!(names, vec!["Foo", "bar", "Baz"]);
    assert_eq!(symbols[0].kind, SymbolKind::Struct);
    assert_eq!(symbols[1].kind, SymbolKind::Fn);
}

#[test]
fn symbols_sort_by_file_then_line_stably() {
    let v = vec![
        Symbol { name: "z".to_string(), kind: SymbolKind::Fn, file: "b.py".to_string(), line: 1 },
        Symbol { name: "x".to_string(), kind: SymbolKind::Fn, file: "a.py".to_string(), line: 5 },
        Symbol { name: "y1".to_string(), kind: SymbolKind::Class, file: "a.py".to_string(), line: 2 },
        Symbol { name: "y2".to_string(), kind: SymbolKind::Fn, file: "a.py".to_string(), line: 2 },
    ];
    let sorted = sort_symbols_exec(&v);
    let names: Vec<&str> = sorted.iter().map(|s| s.name.as_str()).collect();
    assert_eq!(names, vec!["y1", "y2", "x", "z"]);
    assert_eq!(sorted.len(), v.len());
}

#[test]
fn first_query_error_wins() {
    let err = QueryError { message: "bad query".to_string() };
    let r = run_symbols(vec![
        Ok(vec![capture("@fn.name", "a", "x.go", 1)]),
        Err(err.clone()),
        Err(QueryError { message: "later".to_string() }),
    ]);
    assert_eq!(r, Err(err));
    assert_eq!(run_symbols(vec![]), Ok(vec![]));
}

#[test]
fn per_file_symbols_keep_path_and_time() {
    let t = Timestamp { secs: 10, nanos: 5 };
    let r = run_symbols_for_files(vec![
        ("a.rs".to_string(), t, Ok(vec![capture("@fn.name", "f", "a.rs", 4), capture("@mod.name", "m", "a.rs", 1)])),
        ("b.rs".to_string(), t, Ok(vec![])),
    ])
    .unwrap();
    assert_eq!(r.len(), 2);
    assert_eq!(r[0].0, "a.rs");
    assert_eq!(r[0].1, t);
    assert_eq!(r[0].2[0].name, "m");
    assert!(r[1].2.is_empty());
    let err = QueryError { message: "boom".to_string() };
    let bad = run_symbols_for_files(vec![("c.rs".to_string(), t, Err(err.clone()))]);
    assert_eq!(bad, Err(err));
}

#[test]
fn languages_to_query() {
    assert_eq!(symbol_langs(Some(Lang::Go), true, "rs"), Some(vec![Lang::Go]));
    assert_eq!(symbol_langs(None, true, "py"), Some(vec![Lang::Python]));
    assert_eq!(symbol_langs(None, true, "txt"), None);
    assert_eq!(symbol_langs(None, false, "").map(|v| v.len()), Some(9));
}

#[test]
fn queries_name_their_captures_by_kind() {
    let q = symbols_query(Lang::Python);
    assert!(q.contains("@fn.name"));
    assert!(q.contains("@class.name"));
    assert!(symbols_query(Lang::Rust).contains("@macro.name"));
    assert!(symbols_query(Lang::Swift).contains("@struct.name"));
}

#[test]
fn query_results_stop_at_the_limit() {
    let mut r = QueryResults::new();
    assert!(!r.push("fn.name", "main".to_string(), "m.rs".to_string(), 0, 2));
    let first = r.into_results();
    assert_eq!(first, vec![capture_with_end("@fn.name", "main", "m.rs", 1, 3)]);
    let mut r = QueryResults::new();
    let mut full = false;
    for i in 0..MAX_MATCHES {
        full = r.push("x", String::new(), String::new(), i, i);
    }
    assert!(full);
    assert_eq!(r.into_results().len(), MAX_MATCHES);
    assert_eq!(capture_name(&vec!["a", "b"], 1), "b");
    assert_eq!(capture_name(&vec!["a"], 4), "unknown");
}

fn capture_with_end(cap: &str, text: &str, file: &str, start: usize, end: usize) -> QueryMatch {
    QueryMatch { capture: cap.to_string(), text: text.to_string(), file: file.to_string(), start_line: start, end_line: end }
}

#[test]
fn project_root_is_the_nearest_git_directory() {
    let ancestors = vec!["/r/a/b".to_string(), "/r/a".to_string(), "/r".to_string()];
    assert_eq!(find_project_root("/r/a/b/f.rs", &ancestors, &vec![false, true, true]), "/r/a");
    assert_eq!(find_project_root("/r/a/b/f.rs", &ancestors, &vec![false, false, false]), "/r/a/b/f.rs");
    assert_eq!(find_project_root("/r/a/b", &ancestors, &vec![]), "/r/a/b");
}

#[test]
fn scan_decides_per_file() {
    assert_eq!(classify_file("md", None, None, (1, 0)), FileScan::Skip);
    assert_eq!(classify_file("rs", Some(Lang::Go), None, (1, 0)), FileScan::Skip);
    assert_eq!(classify_file("rs", None, Some((1, 0)), (1, 0)), FileScan::Fresh(Lang::Rust));
    assert_eq!(classify_file("rs", Some(Lang::Rust), Some((1, 0)), (2, 0)), FileScan::Stale(Lang::Rust));
    assert_eq!(classify_file("go", None, None, (2, 0)), FileScan::Stale(Lang::Go));
}

#[test]
fn deleted_files_are_pruned() {
    let indexed = vec!["a.rs".to_string(), "b.rs".to_string(), "c.rs".to_string()];
    let existing = vec!["c.rs".to_string(), "a.rs".to_string()];
    assert_eq!(files_to_prune(&indexed, &existing), vec!["b.rs".to_string()]);
    assert!(files_to_prune(&vec![], &existing).is_empty());
}

#[test]
fn rows_read_back_as_symbols() {
    let s = symbol_from_row("Foo".to_string(), "trait", "x.rs".to_string(), 12);
    assert_eq!(s.kind, SymbolKind::Trait);
    assert_eq!(s.line, 12);
    assert_eq!(stored_mtime(7, 9), (7, 9));
}

#[test]
fn walks_sort_into_stale_and_existing_files() {
    let walked = vec![
        ("a.rs".to_string(), "rs".to_string(), (5, 0)),
        ("notes.md".to_string(), "md".to_string(), (1, 0)),
        ("b.py".to_string(), "py".to_string(), (7, 1)),
        ("c.rs".to_string(), "rs".to_string(), (9, 9)),
    ];
    let cached = vec![("a.rs".to_string(), (5, 0)), ("c.rs".to_string(), (8, 0))];
    let (stale, existing) = scan_walk(&walked, None, &cached);
    assert_eq!(stale, vec![(2, Lang::Python), (3, Lang::Rust)]);
    assert_eq!(existing, vec!["a.rs".to_string(), "b.py".to_string(), "c.rs".to_string()]);
    let (stale, existing) = scan_walk(&walked, Some(Lang::Rust), &cached);
    assert_eq!(stale, vec![(3, Lang::Rust)]);
    assert_eq!(existing, vec!["a.rs".to_string(), "c.rs".to_string()]);
}

#[test]
fn every_listed_extension_reads_back_as_its_language() {
    let langs = [
        Lang::Bash, Lang::C, Lang::Cpp, Lang::Go, Lang::JavaScript, Lang::Python, Lang::Rust, Lang::Swift,
        Lang::TypeScript,
    ];
    for l in langs {
        for e in l.extensions() {
            assert_eq!(Lang::from_extension(e), Some(l));
        }
    }
    for e in ["RS", "", "java", "Py", "tsx "] {
        assert_eq!(Lang::from_extension(e), None);
    }
}

#[test]
fn language_names_ignore_ascii_case() {
    assert_eq!(Lang::from_str("C++"), Some(Lang::Cpp));
    assert_eq!(Lang::from_str("GoLang"), Some(Lang::Go));
    assert_eq!(Lang::from_str("TSX"), Some(Lang::TypeScript));
    assert_eq!(Lang::from_str("java"), None);
    for s in ["C++", "GoLang", "TSX", "Rust", "PYTHON", "java", "Sh"] {
        assert_eq!(Lang::from_str(s), Lang::from_str(&s.to_lowercase()));
    }
}
