use nidex::code_nav::{run_symbols, symbols_query, Lang, QueryMatch, SymbolKind};
use nidex::code_query::{run_query_on_sources, run_symbols_on_sources};

fn file(path: &str, ext: &str, text: &str) -> (String, String, Vec<u8>) {
    (path.to_string(), ext.to_string(), text.as_bytes().to_vec())
}

fn symbol_names(lang: Lang, files: &Vec<(String, String, Vec<u8>)>) -> Vec<String> {
    let matches = run_query_on_sources(symbols_query(lang), lang, files);
    let symbols = run_symbols(vec![matches]).expect("query runs");
    symbols.into_iter().map(|s| s.name).collect()
}

#[test]
fn symbols_rust_file() {
    let files = vec![file("sample.rs", "rs", "pub struct Foo {}\npub fn bar() {}\npub enum Baz {}\n")];
    let names = symbol_names(Lang::Rust, &files);
    assert!(names.contains(&"Foo".to_string()), "expected Foo in {names:?}");
    assert!(names.contains(&"bar".to_string()), "expected bar in {names:?}");
    assert!(names.contains(&"Baz".to_string()), "expected Baz in {names:?}");
}

#[test]
fn symbols_python_file() {
    let files = vec![file("sample.py", "py", "def greet(name):\n    pass\n\nclass Dog:\n    pass\n")];
    let names = symbol_names(Lang::Python, &files);
    assert!(names.contains(&"greet".to_string()), "expected greet in {names:?}");
    assert!(names.contains(&"Dog".to_string()), "expected Dog in {names:?}");
}

#[test]
fn symbols_swift_file() {
    let files = vec![file("sample.swift", "swift", "struct Foo {}\nfunc bar() {}\nenum Baz {}\nclass Qux {}\n")];
    let names = symbol_names(Lang::Swift, &files);
    for n in ["Foo", "bar", "Baz", "Qux"] {
        assert!(names.contains(&n.to_string()), "expected {n} in {names:?}");
    }
}

#[test]
fn query_matches_name_text_and_lines() {
    let files = vec![
        file("a.py", "py", "x = 1\ndef f():\n    pass\n"),
        file("notes.txt", "txt", "def g():\n    pass\n"),
    ];
    let r = run_query_on_sources("(function_definition name: (identifier) @name)", Lang::Python, &files).unwrap();
    assert_eq!(
        r,
        vec![QueryMatch {
            capture: "@name".to_string(),
            text: "f".to_string(),
            file: "a.py".to_string(),
            start_line: 2,
            end_line: 2,
        }]
    );
    let rows = run_symbols(vec![Ok(r)]).unwrap();
    assert_eq!(rows[0].kind, SymbolKind::Unknown);
}

#[test]
fn invalid_queries_are_errors() {
    let err = run_query_on_sources("(no_such_node", Lang::Rust, &vec![]).unwrap_err();
    assert_eq!(err.message, "invalid tree-sitter query for rust");
}

#[test]
fn query_runs_stop_at_the_limit() {
    let mut text = String::new();
    for i in 0..600 {
        text.push_str(&format!("fn f{i}() {{}}\n"));
    }
    let files = vec![file("many.rs", "rs", &text)];
    let r = run_query_on_sources("(function_item name: (identifier) @fn.name)", Lang::Rust, &files).unwrap();
    assert_eq!(r.len(), 500);
    assert_eq!(r[499].text, "f499");
    assert_eq!(r[0].start_line, 1);
}

#[test]
fn path_symbols_cover_every_language_in_order() {
    let files = vec![
        file("src/b.py", "py", "def late():\n    pass\n"),
        file("src/a.rs", "rs", "fn first() {}\nstruct Second;\n"),
        file("README.md", "md", "# fn nothing() {}\n"),
    ];
    let syms = run_symbols_on_sources(None, false, "", &files).unwrap();
    let got: Vec<(String, String, usize)> = syms.iter().map(|s| (s.file.clone(), s.name.clone(), s.line)).collect();
    assert_eq!(
        got,
        vec![
            ("src/a.rs".to_string(), "first".to_string(), 1),
            ("src/a.rs".to_string(), "Second".to_string(), 2),
            ("src/b.py".to_string(), "late".to_string(), 1),
        ]
    );
    assert_eq!(syms[0].kind, SymbolKind::Fn);
    assert_eq!(syms[1].kind, SymbolKind::Struct);
}

#[test]
fn a_file_of_no_known_language_has_no_symbols() {
    let files = vec![file("notes.txt", "txt", "fn x() {}\n")];
    assert_eq!(run_symbols_on_sources(None, true, "txt", &files), Ok(vec![]));
    let only_rust = run_symbols_on_sources(Some(Lang::Rust), true, "txt", &vec![file("x.rs", "rs", "fn x() {}\n")]).unwrap();
    assert_eq!(only_rust.len(), 1);
}
