//! Running a tree-sitter query over the sources of a language: which files
//! are queried, how each capture becomes a match, and where the run stops.
//! Walking directories and reading files is the caller's work.
use vstd::prelude::*;
use tree_sitter::StreamingIterator;
use crate::code_nav::{
    lang_extensions, lang_name, file_selected, match_symbol, matches_symbols, collect_results, run_symbols,
    sort_symbols, symbol_langs, symbol_langs_spec, symbols_query, symbols_query_text, symbols_view, Lang,
    QueryError, QueryMatch, Symbol, SymbolView, MAX_MATCHES,
};
use crate::code_nav_laws::{law_symbols_sorted, symbols_sorted};
use crate::text::{push_char, push_str};

verus! {

/// The capture names of `query` compiled for `lang`'s grammar, in order, or
/// `None` when the query does not compile.
pub uninterp spec fn ts_capture_names(lang: Lang, query: Seq<char>) -> Option<Seq<Seq<char>>>;

/// The captures `query` finds in `source` parsed with `lang`'s grammar, in
/// the order tree-sitter reports them: capture index, start and end byte,
/// start and end row. Empty when the source does not parse.
pub uninterp spec fn ts_captures(lang: Lang, query: Seq<char>, source: Seq<u8>) -> Seq<(usize, usize, usize, usize, usize)>;

/// Whether a `Parser` takes `lang`'s grammar (`set_language` succeeds: the
/// grammar's ABI version is one the tree-sitter library supports).
pub uninterp spec fn ts_language_fits(lang: Lang) -> bool;

/// The text the bytes encode in UTF-8, or `None` when they are not UTF-8.
pub uninterp spec fn utf8_decode(bytes: Seq<u8>) -> Option<Seq<char>>;

pub open spec fn strs_view(v: Seq<String>) -> Seq<Seq<char>> {
    v.map_values(|s: String| s@)
}

#[verifier::external_type_specification]
#[verifier::external_body]
pub struct ExTsLanguage(tree_sitter::Language);

#[verifier::external_type_specification]
#[verifier::external_body]
pub struct ExTsQuery(tree_sitter::Query);

/// `Query::new` for `lang`'s grammar (the `LANGUAGE` of its tree-sitter
/// crate): the grammar and the compiled query, `None` exactly when the
/// query does not compile.
#[verifier::external_body]
fn ts_compile(lang: Lang, query: &str) -> (r: Option<(tree_sitter::Language, tree_sitter::Query)>)
    ensures
        r is None <==> ts_capture_names(lang, query@) is None,
{
    let grammar: tree_sitter::Language = match lang {
        Lang::Bash => tree_sitter_bash::LANGUAGE, Lang::C => tree_sitter_c::LANGUAGE,
        Lang::Cpp => tree_sitter_cpp::LANGUAGE, Lang::Go => tree_sitter_go::LANGUAGE,
        Lang::JavaScript => tree_sitter_javascript::LANGUAGE, Lang::Python => tree_sitter_python::LANGUAGE,
        Lang::Rust => tree_sitter_rust::LANGUAGE, Lang::Swift => tree_sitter_swift::LANGUAGE,
        Lang::TypeScript => tree_sitter_typescript::LANGUAGE_TYPESCRIPT,
    }.into();
    tree_sitter::Query::new(&grammar, query).ok().map(|q| (grammar, q))
}

/// A query compiled for a language's grammar. Only `compile` makes one, so
/// `query` is always `text` compiled for `lang`'s `language`.
pub struct CompiledQuery {
    lang: Lang,
    text: String,
    language: tree_sitter::Language,
    query: tree_sitter::Query,
}

/// `Query::capture_names`: the capture names of the compiled query, named
/// `ts_capture_names(lang, text)`.
#[verifier::external_body]
fn ts_names(cq: &CompiledQuery) -> (r: Vec<String>)
    ensures
        ts_capture_names(cq.lang, cq.text@) == Some(strs_view(r@)),
{
    cq.query.capture_names().iter().map(|n| n.to_string()).collect()
}

/// Parses `source` with a `Parser` set to the query's grammar and collects
/// the captures of `QueryCursor::matches` over the tree, named
/// `ts_captures(lang, text, source)`; none when the source does not parse.
/// A node never ends before it starts, in bytes or in rows.
#[verifier::external_body]
fn ts_captures_in(cq: &CompiledQuery, source: &[u8]) -> (r: Vec<(usize, usize, usize, usize, usize)>)
    ensures
        r@ == ts_captures(cq.lang, cq.text@, source@),
        forall|i: int| 0 <= i < r.len() ==> #[trigger] r@[i].1 <= r@[i].2 && r@[i].3 <= r@[i].4,
{
    let mut parser = tree_sitter::Parser::new();
    let tree = parser.set_language(&cq.language).ok().and_then(|_| parser.parse(source, None));
    let (mut caps, mut cursor) = (Vec::new(), tree_sitter::QueryCursor::new());
    if let Some(t) = &tree {
        let mut ms = cursor.matches(&cq.query, t.root_node(), source);
        while let Some(m) = ms.next() {
            caps.extend(m.captures.iter().map(|c| (c.index as usize, c.node.start_byte(), c.node.end_byte(),
                c.node.start_position().row, c.node.end_position().row)));
        }
    }
    caps
}

/// `Parser::set_language` with the query's grammar on a new parser: whether
/// it succeeds, named `ts_language_fits(lang)`.
#[verifier::external_body]
fn ts_set_language(cq: &CompiledQuery) -> (r: bool)
    ensures
        r == ts_language_fits(cq.lang),
{
    tree_sitter::Parser::new().set_language(&cq.language).is_ok()
}

/// Compiles `text` for `lang`; `None` when it does not compile.
fn compile(lang: Lang, text: &str) -> (r: Option<CompiledQuery>)
    ensures
        r is None <==> ts_capture_names(lang, text@) is None,
        r matches Some(cq) ==> cq.lang == lang && cq.text@ == text@,
{
    match ts_compile(lang, text) {
        Some((language, query)) => Some(CompiledQuery { lang, text: text.to_string(), language, query }),
        None => None,
    }
}

/// `std::str::from_utf8`: the text of UTF-8 bytes, named `utf8_decode`.
#[verifier::external_body]
fn utf8_string(bytes: &[u8]) -> (r: Option<String>)
    ensures
        match r {
            Some(s) => utf8_decode(bytes@) == Some(s@),
            None => utf8_decode(bytes@) is None,
        },
{
    std::str::from_utf8(bytes).ok().map(|s| s.to_string())
}

/// A match as plain values: capture, text, file, first and last line.
pub open spec fn match_view(m: QueryMatch) -> (Seq<char>, Seq<char>, Seq<char>, usize, usize) {
    (m.capture@, m.text@, m.file@, m.start_line, m.end_line)
}

pub open spec fn matches_view(v: Seq<QueryMatch>) -> Seq<(Seq<char>, Seq<char>, Seq<char>, usize, usize)> {
    v.map_values(|m: QueryMatch| match_view(m))
}

/// A source file: its path, its extension and its bytes.
pub open spec fn files_view(v: Seq<(String, String, Vec<u8>)>) -> Seq<(Seq<char>, Seq<char>, Seq<u8>)> {
    v.map_values(|f: (String, String, Vec<u8>)| (f.0@, f.1@, f.2@))
}

/// The name of capture `i`, `unknown` when there is none.
pub open spec fn name_at(names: Seq<Seq<char>>, i: usize) -> Seq<char> {
    if i < names.len() {
        names[i as int]
    } else {
        "unknown"@
    }
}

/// The text of a capture: its bytes decoded, when the whole source is UTF-8
/// and the range lies in it; empty otherwise.
pub open spec fn capture_text(source: Seq<u8>, start: usize, end: usize) -> Seq<char> {
    if utf8_decode(source) is Some && start <= end <= source.len() {
        match utf8_decode(source.subrange(start as int, end as int)) {
            Some(t) => t,
            None => Seq::empty(),
        }
    } else {
        Seq::empty()
    }
}

/// The 1-based line of a 0-based row.
pub open spec fn line_of(row: usize) -> usize {
    if row < usize::MAX {
        (row + 1) as usize
    } else {
        row
    }
}

/// A capture as a match: `@` and its name, its text, the file, its lines.
pub open spec fn capture_match(
    names: Seq<Seq<char>>,
    file: Seq<char>,
    source: Seq<u8>,
    c: (usize, usize, usize, usize, usize),
) -> (Seq<char>, Seq<char>, Seq<char>, usize, usize) {
    (seq!['@'] + name_at(names, c.0), capture_text(source, c.1, c.2), file, line_of(c.3), line_of(c.4))
}

/// The matches in one file: none unless its extension is one of the
/// language's.
pub open spec fn file_matches(
    lang: Lang,
    query: Seq<char>,
    names: Seq<Seq<char>>,
    f: (Seq<char>, Seq<char>, Seq<u8>),
) -> Seq<(Seq<char>, Seq<char>, Seq<char>, usize, usize)> {
    if lang_extensions(lang).contains(f.1) {
        ts_captures(lang, query, f.2).map_values(|c: (usize, usize, usize, usize, usize)| capture_match(names, f.0, f.2, c))
    } else {
        Seq::empty()
    }
}

/// The matches in the files, file after file.
pub open spec fn all_matches(
    lang: Lang,
    query: Seq<char>,
    names: Seq<Seq<char>>,
    files: Seq<(Seq<char>, Seq<char>, Seq<u8>)>,
) -> Seq<(Seq<char>, Seq<char>, Seq<char>, usize, usize)>
    decreases files.len(),
{
    if files.len() == 0 {
        Seq::empty()
    } else {
        all_matches(lang, query, names, files.drop_last()) + file_matches(lang, query, names, files.last())
    }
}

/// The error for a query that does not compile.
pub open spec fn invalid_query_message(lang: Lang) -> Seq<char> {
    "invalid tree-sitter query for "@ + lang_name(lang)
}

/// The error for a grammar the parser does not take.
pub open spec fn language_error_message() -> Seq<char> {
    "failed to set parser language"@
}

/// What a query run gives: an error when the query does not compile or the
/// parser does not take the grammar, else the matches of the files in
/// order, up to `MAX_MATCHES`.
pub open spec fn query_matches(
    lang: Lang,
    query: Seq<char>,
    files: Seq<(Seq<char>, Seq<char>, Seq<u8>)>,
) -> Result<Seq<(Seq<char>, Seq<char>, Seq<char>, usize, usize)>, Seq<char>> {
    match ts_capture_names(lang, query) {
        None => Err(invalid_query_message(lang)),
        Some(names) => if !ts_language_fits(lang) {
            Err(language_error_message())
        } else {
            let all = all_matches(lang, query, names, files);
            Ok(if all.len() <= MAX_MATCHES { all } else { all.take(MAX_MATCHES as int) })
        },
    }
}

proof fn lemma_all_matches_add(
    lang: Lang,
    query: Seq<char>,
    names: Seq<Seq<char>>,
    a: Seq<(Seq<char>, Seq<char>, Seq<u8>)>,
    b: Seq<(Seq<char>, Seq<char>, Seq<u8>)>,
)
    ensures
        all_matches(lang, query, names, a + b) == all_matches(lang, query, names, a) + all_matches(lang, query, names, b),
    decreases b.len(),
{
    if b.len() == 0 {
        assert(a + b =~= a);
        assert(all_matches(lang, query, names, a) + Seq::empty() =~= all_matches(lang, query, names, a));
    } else {
        lemma_all_matches_add(lang, query, names, a, b.drop_last());
        assert((a + b).drop_last() =~= a + b.drop_last());
        assert((a + b).last() == b.last());
        let x = all_matches(lang, query, names, a);
        let y = all_matches(lang, query, names, b.drop_last());
        let z = file_matches(lang, query, names, b.last());
        assert(x + y + z =~= x + (y + z));
    }
}

/// The name of capture `i` among `names`.
fn name_of(names: &Vec<String>, i: usize) -> (r: String)
    ensures
        r@ == name_at(strs_view(names@), i),
{
    if i < names.len() {
        names[i].clone()
    } else {
        "unknown".to_string()
    }
}

fn text_of(source: &[u8], whole_utf8: bool, start: usize, end: usize) -> (r: String)
    requires
        whole_utf8 == utf8_decode(source@) is Some,
    ensures
        r@ == capture_text(source@, start, end),
{
    if whole_utf8 && start <= end && end <= source.len() {
        let part = vstd::slice::slice_subrange(source, start, end);
        match utf8_string(part) {
            Some(t) => t,
            None => String::new(),
        }
    } else {
        String::new()
    }
}

fn line_exec(row: usize) -> (r: usize)
    ensures
        r == line_of(row),
{
    if row < usize::MAX {
        row + 1
    } else {
        row
    }
}

/// Runs `query_str` for `lang` over the given files (path, extension,
/// bytes) in order: the files whose extension is the language's are parsed,
/// each capture becomes a match (`capture_match`), and the run stops at
/// `MAX_MATCHES`; a query that does not compile, or a grammar the parser
/// does not take, is an error (`query_matches`).
pub fn run_query_on_sources(query_str: &str, lang: Lang, files: &Vec<(String, String, Vec<u8>)>) -> (r: Result<Vec<QueryMatch>, QueryError>)
    ensures
        match query_matches(lang, query_str@, files_view(files@)) {
            Ok(ms) => r matches Ok(v) && matches_view(v@) == ms,
            Err(m) => r matches Err(e) && e.message@ == m,
        },
{
    let ghost fv = files_view(files@);
    let cq = match compile(lang, query_str) {
        Some(cq) => cq,
        None => {
            let mut m = "invalid tree-sitter query for ".to_string();
            push_str(&mut m, lang.as_str());
            return Err(QueryError { message: m });
        },
    };
    let names = ts_names(&cq);
    if !ts_set_language(&cq) {
        proof {
            reveal_strlit("failed to set parser language");
        }
        return Err(QueryError { message: "failed to set parser language".to_string() });
    }
    let ghost nv = strs_view(names@);
    let ghost q = query_str@;
    let mut out: Vec<QueryMatch> = Vec::new();
    let mut i: usize = 0;
    assert(fv.take(0) =~= Seq::<(Seq<char>, Seq<char>, Seq<u8>)>::empty());
    while i < files.len()
        invariant
            i <= files.len(),
            fv == files_view(files@),
            q == query_str@,
            ts_capture_names(lang, q) == Some(nv),
            ts_language_fits(lang),
            nv == strs_view(names@),
            cq.lang == lang,
            cq.text@ == q,
            matches_view(out@) == all_matches(lang, q, nv, fv.take(i as int)),
            out.len() < MAX_MATCHES,
        decreases files.len() - i,
    {
        let ghost base = matches_view(out@);
        let ghost fi = fv[i as int];
        proof {
            assert(fv.take(i + 1).drop_last() =~= fv.take(i as int));
            assert(fv.take(i + 1).last() == fi);
        }
        let (path, ext, source) = (&files[i].0, &files[i].1, &files[i].2);
        assert(fi == (path@, ext@, source@));
        if file_selected(lang, ext.as_str()) {
            let caps = ts_captures_in(&cq, source.as_slice());
            let ghost cm = ts_captures(lang, q, source@).map_values(
                |c: (usize, usize, usize, usize, usize)| capture_match(nv, path@, source@, c),
            );
            assert(file_matches(lang, q, nv, fi) == cm);
            let whole = utf8_string(source.as_slice()).is_some();
            let mut j: usize = 0;
            while j < caps.len()
                invariant
                    j <= caps.len(),
                    caps@ == ts_captures(lang, q, source@),
                    cm == ts_captures(lang, q, source@).map_values(
                        |c: (usize, usize, usize, usize, usize)| capture_match(nv, path@, source@, c),
                    ),
                    whole == utf8_decode(source@) is Some,
                    nv == strs_view(names@),
                    matches_view(out@) == base + cm.take(j as int),
                    out.len() < MAX_MATCHES,
                    base.len() + j == out.len(),
                    i < files.len(),
                    ts_capture_names(lang, q) == Some(nv),
                    ts_language_fits(lang),
                    fv == files_view(files@),
                    q == query_str@,
                    base == all_matches(lang, q, nv, fv.take(i as int)),
                    file_matches(lang, q, nv, fv[i as int]) == cm,
                    fv.take(i + 1).drop_last() == fv.take(i as int),
                    fv.take(i + 1).last() == fv[i as int],
                decreases caps.len() - j,
            {
                let c = caps[j];
                let mut capture = String::new();
                push_char(&mut capture, '@');
                let nm = name_of(&names, c.0);
                push_str(&mut capture, nm.as_str());
                let text = text_of(source.as_slice(), whole, c.1, c.2);
                let m = QueryMatch {
                    capture,
                    text,
                    file: path.clone(),
                    start_line: line_exec(c.3),
                    end_line: line_exec(c.4),
                };
                assert(match_view(m) == cm[j as int]);
                let ghost before = out@;
                out.push(m);
                proof {
                    assert(out@ =~= before.push(m));
                    assert(matches_view(out@) =~= matches_view(before).push(match_view(m)));
                    assert(cm.take(j + 1) =~= cm.take(j as int).push(cm[j as int]));
                    assert(base + cm.take(j + 1) =~= (base + cm.take(j as int)).push(cm[j as int]));
                }
                j += 1;
                if out.len() >= MAX_MATCHES {
                    proof {
                        let all = all_matches(lang, q, nv, fv);
                        assert(fv =~= fv.take(i + 1) + fv.skip(i + 1));
                        lemma_all_matches_add(lang, q, nv, fv.take(i + 1), fv.skip(i + 1));
                        let head = all_matches(lang, q, nv, fv.take(i + 1));
                        assert(head == base + cm);
                        assert(matches_view(out@) =~= all.take(MAX_MATCHES as int));
                        if all.len() <= MAX_MATCHES {
                            assert(all.take(MAX_MATCHES as int) =~= all);
                        }
                    }
                    return Ok(out);
                }
            }
            assert(cm.take(j as int) =~= cm);
        } else {
            assert(file_matches(lang, q, nv, fi) =~= Seq::empty());
            assert(base + Seq::empty() =~= base);
        }
        i += 1;
    }
    assert(fv.take(files.len() as int) =~= fv);
    Ok(out)
}


/// The symbols of query matches.
pub open spec fn view_symbols(ms: Seq<(Seq<char>, Seq<char>, Seq<char>, usize, usize)>) -> Seq<SymbolView> {
    ms.map_values(|m: (Seq<char>, Seq<char>, Seq<char>, usize, usize)| match_symbol(m.0, m.1, m.2, m.3))
}

/// The symbols the languages' symbol queries find in the files, language
/// after language, or the first error.
pub open spec fn symbols_for(langs: Seq<Lang>, files: Seq<(Seq<char>, Seq<char>, Seq<u8>)>) -> Result<Seq<SymbolView>, Seq<char>>
    decreases langs.len(),
{
    if langs.len() == 0 {
        Ok(Seq::empty())
    } else {
        match symbols_for(langs.drop_last(), files) {
            Err(e) => Err(e),
            Ok(acc) => match query_matches(langs.last(), symbols_query_text(langs.last()), files) {
                Err(e) => Err(e),
                Ok(ms) => Ok(acc + view_symbols(ms)),
            },
        }
    }
}

/// The top-level symbols of a path: none for a file of no known language
/// (and no language given); else those the symbol queries of the languages
/// to query (`symbol_langs_spec`) find in the path's files, sorted by file
/// and line; or the first query error.
pub open spec fn path_symbols(
    lang: Option<Lang>,
    is_file: bool,
    ext: Seq<char>,
    files: Seq<(Seq<char>, Seq<char>, Seq<u8>)>,
) -> Result<Seq<SymbolView>, Seq<char>> {
    match symbol_langs_spec(lang, is_file, ext) {
        None => Ok(Seq::empty()),
        Some(langs) => match symbols_for(langs, files) {
            Err(e) => Err(e),
            Ok(all) => Ok(sort_symbols(all)),
        },
    }
}

/// Lists the top-level symbols of a path (`path_symbols`) from the files
/// read under it (path, extension, bytes); `is_file` and `ext` describe the
/// path itself.
pub fn run_symbols_on_sources(
    lang: Option<Lang>,
    is_file: bool,
    ext: &str,
    files: &Vec<(String, String, Vec<u8>)>,
) -> (r: Result<Vec<Symbol>, QueryError>)
    ensures
        match path_symbols(lang, is_file, ext@, files_view(files@)) {
            Ok(syms) => r matches Ok(v) && symbols_view(v@) == syms,
            Err(m) => r matches Err(e) && e.message@ == m,
        },
{
    let ghost fv = files_view(files@);
    let langs = match symbol_langs(lang, is_file, ext) {
        Some(l) => l,
        None => {
            let v: Vec<Symbol> = Vec::new();
            assert(symbols_view(v@) =~= Seq::<SymbolView>::empty());
            return Ok(v);
        },
    };
    let mut results: Vec<Result<Vec<QueryMatch>, QueryError>> = Vec::new();
    let mut i: usize = 0;
    while i < langs.len()
        invariant
            i <= langs.len(),
            fv == files_view(files@),
            results.len() == i,
            match symbols_for(langs@.take(i as int), fv) {
                Ok(acc) => collect_results(results@) matches Ok(a) && a == acc,
                Err(m) => collect_results(results@) matches Err(e) && e.message@ == m,
            },
        decreases langs.len() - i,
    {
        let l = langs[i];
        let r = run_query_on_sources(symbols_query(l), l, files);
        let ghost before = results@;
        proof {
            assert(langs@.take(i + 1).drop_last() =~= langs@.take(i as int));
            assert(langs@.take(i + 1).last() == l);
        }
        let ghost rv = r;
        results.push(r);
        proof {
            assert(results@.drop_last() =~= before);
            match rv {
                Ok(ms) => {
                    assert(matches_symbols(ms@) =~= view_symbols(matches_view(ms@)));
                },
                Err(_) => {},
            }
        }
        i += 1;
    }
    assert(langs@.take(langs.len() as int) =~= langs@);
    run_symbols(results)
}

proof fn lemma_all_lines(
    lang: Lang,
    query: Seq<char>,
    names: Seq<Seq<char>>,
    files: Seq<(Seq<char>, Seq<char>, Seq<u8>)>,
)
    ensures
        forall|i: int|
            0 <= i < all_matches(lang, query, names, files).len() ==> #[trigger] all_matches(
                lang,
                query,
                names,
                files,
            )[i].3 >= 1,
    decreases files.len(),
{
    if files.len() > 0 {
        lemma_all_lines(lang, query, names, files.drop_last());
        let x = all_matches(lang, query, names, files.drop_last());
        let y = file_matches(lang, query, names, files.last());
        assert(all_matches(lang, query, names, files) == x + y);
        assert forall|i: int| 0 <= i < (x + y).len() implies #[trigger] (x + y)[i].3 >= 1 by {
            if i >= x.len() {
                let f = files.last();
                let cs = ts_captures(lang, query, f.2);
                assert(lang_extensions(lang).contains(f.1));
                assert(y[i - x.len()] == capture_match(names, f.0, f.2, cs[i - x.len()]));
            }
        }
    }
}

proof fn lemma_symbols_for_lines(langs: Seq<Lang>, files: Seq<(Seq<char>, Seq<char>, Seq<u8>)>)
    ensures
        symbols_for(langs, files) matches Ok(syms) ==> forall|i: int|
            0 <= i < syms.len() ==> #[trigger] syms[i].line >= 1,
    decreases langs.len(),
{
    if langs.len() > 0 {
        lemma_symbols_for_lines(langs.drop_last(), files);
        let l = langs.last();
        let q = symbols_query_text(l);
        if let Some(names) = ts_capture_names(l, q) {
            lemma_all_lines(l, q, names, files);
            let all = all_matches(l, q, names, files);
            let ms = if all.len() <= MAX_MATCHES { all } else { all.take(MAX_MATCHES as int) };
            assert forall|i: int| 0 <= i < view_symbols(ms).len() implies #[trigger] view_symbols(ms)[i].line >= 1 by {
                assert(ms[i] == all[i]);
            }
        }
    }
}

/// A symbol listing comes out ordered by file, then line, and every symbol
/// in it stands on a line numbered from 1.
pub proof fn law_path_symbols_ordered(
    lang: Option<Lang>,
    is_file: bool,
    ext: Seq<char>,
    files: Seq<(Seq<char>, Seq<char>, Seq<u8>)>,
)
    ensures
        path_symbols(lang, is_file, ext, files) matches Ok(syms) ==> symbols_sorted(syms) && forall|i: int|
            0 <= i < syms.len() ==> #[trigger] syms[i].line >= 1,
{
    broadcast use vstd::seq_lib::group_to_multiset_ensures;

    if let Some(langs) = symbol_langs_spec(lang, is_file, ext) {
        lemma_symbols_for_lines(langs, files);
        if let Ok(all) = symbols_for(langs, files) {
            law_symbols_sorted(all);
            let sorted = sort_symbols(all);
            assert forall|i: int| 0 <= i < sorted.len() implies #[trigger] sorted[i].line >= 1 by {
                assert(sorted.contains(sorted[i]));
                assert(sorted.to_multiset().count(sorted[i]) > 0);
                assert(all.contains(sorted[i]));
            }
        }
    }
}

} // verus!
