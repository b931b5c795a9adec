use nidex::dsml::{DsmlParser, DsmlSegment, ParsedToolCall};

// U+FF5C = FULLWIDTH VERTICAL LINE, the namespace delimiter used by DSML.
const NS: &str = "\u{FF5C}DSML\u{FF5C}";
const OPEN_TAG: &str = "<\u{FF5C}DSML\u{FF5C}tool_calls>";
const CLOSE_TAG: &str = "</\u{FF5C}DSML\u{FF5C}tool_calls>";

fn invoke(name: &str, params: &[(&str, bool, &str)]) -> String {
    let mut s = format!("<{NS}invoke name=\"{name}\">\n");
    for (pname, is_str, value) in params {
        let flag = if *is_str { "true" } else { "false" };
        s.push_str(&format!(
            "<{NS}parameter name=\"{pname}\" string=\"{flag}\">{value}</{NS}parameter>\n"
        ));
    }
    s.push_str(&format!("</{NS}invoke>"));
    s
}

fn dsml_block(invokes: &str) -> String {
    format!("{OPEN_TAG}\n{invokes}\n{CLOSE_TAG}")
}

fn feed_all(chunks: &[&str]) -> Vec<DsmlSegment> {
    let mut parser = DsmlParser::new();
    let mut out = Vec::new();
    for chunk in chunks {
        out.extend(parser.feed(chunk));
    }
    out.extend(parser.finish());
    out
}

fn single_tool_call(name: &str, arguments: &str, call_id: &str) -> DsmlSegment {
    DsmlSegment::ToolCalls(vec![ParsedToolCall {
        name: name.to_string(),
        arguments: arguments.to_string(),
        call_id: call_id.to_string(),
    }])
}

#[test]
fn parses_single_invoke_string_param() {
    let block = dsml_block(&invoke("search", &[("query", true, "hello world")]));
    let segs = feed_all(&[&block]);
    assert_eq!(
        segs,
        vec![single_tool_call("search", r#"{"query":"hello world"}"#, "dsml-tool-0")]
    );
}

#[test]
fn parses_json_param_string_false() {
    let block = dsml_block(&invoke("calc", &[("n", false, "42")]));
    let segs = feed_all(&[&block]);
    assert_eq!(segs, vec![single_tool_call("calc", r#"{"n":42}"#, "dsml-tool-0")]);
}

#[test]
fn parses_multiple_invokes() {
    let body = format!(
        "{}\n{}",
        invoke("a", &[("x", true, "foo")]),
        invoke("b", &[("y", false, "true")])
    );
    let block = dsml_block(&body);
    let segs = feed_all(&[&block]);
    assert_eq!(
        segs,
        vec![DsmlSegment::ToolCalls(vec![
            ParsedToolCall {
                name: "a".into(),
                arguments: r#"{"x":"foo"}"#.into(),
                call_id: "dsml-tool-0".into()
            },
            ParsedToolCall {
                name: "b".into(),
                arguments: r#"{"y":true}"#.into(),
                call_id: "dsml-tool-1".into()
            },
        ])]
    );
}

#[test]
fn normal_text_before_and_after_block() {
    let text = format!(
        "prefix\n{}\nsuffix",
        dsml_block(&invoke("t", &[("k", true, "v")]))
    );
    let segs = feed_all(&[&text]);
    assert_eq!(segs[0], DsmlSegment::Normal("prefix\n".into()));
    assert!(matches!(&segs[1], DsmlSegment::ToolCalls(calls) if calls[0].name == "t"));
    assert_eq!(segs[2], DsmlSegment::Normal("\nsuffix".into()));
}

#[test]
fn block_split_across_chunks() {
    let full = dsml_block(&invoke("search", &[("q", true, "split")]));
    let mid = full.len() / 2;
    let segs = feed_all(&[&full[..mid], &full[mid..]]);
    assert_eq!(segs.len(), 1);
    assert!(matches!(&segs[0], DsmlSegment::ToolCalls(calls) if calls[0].name == "search"));
}

#[test]
fn truncated_block_flushed_by_finish() {
    // No closing tag: finish() must still emit the parsed calls.
    let partial = format!("{OPEN_TAG}\n{}", invoke("t", &[("k", true, "v")]));
    let segs = feed_all(&[&partial]);
    assert_eq!(segs.len(), 1);
    assert!(matches!(&segs[0], DsmlSegment::ToolCalls(calls) if calls[0].name == "t"));
}

#[test]
fn plain_text_passes_through_unchanged() {
    let segs = feed_all(&["hello world"]);
    assert_eq!(segs, vec![DsmlSegment::Normal("hello world".into())]);
}

#[test]
fn parameters_are_sorted_and_later_duplicates_win() {
    let block = dsml_block(&invoke(
        "f",
        &[("zeta", true, " z "), ("alpha", false, "[1, 2]"), ("zeta", false, "not json")],
    ));
    let segs = feed_all(&[&block]);
    assert_eq!(
        segs,
        vec![single_tool_call("f", r#"{"alpha":[1,2],"zeta":"not json"}"#, "dsml-tool-0")]
    );
}

#[test]
fn partial_open_tag_is_held_until_the_next_delta() {
    let mut parser = DsmlParser::new();
    let first = parser.feed("abc<\u{FF5C}DS");
    assert_eq!(first, vec![DsmlSegment::Normal("abc".into())]);
    let second = parser.feed("x");
    assert_eq!(second, vec![DsmlSegment::Normal("<\u{FF5C}DSx".into())]);
    assert!(parser.finish().is_empty());
}

#[test]
fn held_partial_tag_is_emitted_by_finish() {
    let mut parser = DsmlParser::new();
    assert_eq!(parser.feed("tail <"), vec![DsmlSegment::Normal("tail ".into())]);
    assert_eq!(parser.finish(), vec![DsmlSegment::Normal("<".into())]);
}

#[test]
fn call_ids_continue_across_blocks() {
    let one = dsml_block(&invoke("a", &[]));
    let two = dsml_block(&invoke("b", &[]));
    let segs = feed_all(&[&one, &two]);
    assert_eq!(
        segs,
        vec![single_tool_call("a", "{}", "dsml-tool-0"), single_tool_call("b", "{}", "dsml-tool-1")]
    );
}

#[test]
fn block_without_invocations_emits_nothing() {
    let segs = feed_all(&[&format!("x{OPEN_TAG}junk{CLOSE_TAG}y")]);
    assert_eq!(segs, vec![DsmlSegment::Normal("xy".into())]);
}

#[test]
fn parameters_come_out_keyed_in_order_with_later_duplicates_winning() {
    let block = dsml_block(&invoke(
        "edit",
        &[("path", true, "a.rs"), ("count", false, "2"), ("path", true, "b.rs"), ("obj", false, "{\"z\":1,\"a\":[true,null]}")],
    ));
    let segs = feed_all(&[&block]);
    assert_eq!(
        segs,
        vec![single_tool_call("edit", r#"{"count":2,"obj":{"a":[true,null],"z":1},"path":"b.rs"}"#, "dsml-tool-0")]
    );
}

#[test]
fn text_and_block_cut_into_many_pieces_parse_as_whole() {
    let full = format!(
        "before {} after",
        dsml_block(&invoke("search", &[("q", true, "many"), ("n", false, "[1, 2]")]))
    );
    let whole = feed_all(&[&full]);
    // Pieces of seven characters up to the closing tag, which stays whole.
    let close_at = full.find(CLOSE_TAG).expect("closing tag");
    let chars: Vec<char> = full[..close_at].chars().collect();
    let mut pieces: Vec<String> = chars.chunks(7).map(|c| c.iter().collect()).collect();
    pieces.push(full[close_at..].to_string());
    let refs: Vec<&str> = pieces.iter().map(|p| p.as_str()).collect();
    let cut = feed_all(&refs);
    let text = |segs: &[DsmlSegment]| -> String {
        segs.iter()
            .map(|s| match s {
                DsmlSegment::Normal(t) => t.clone(),
                DsmlSegment::ToolCalls(_) => String::from("|calls|"),
            })
            .collect()
    };
    assert_eq!(text(&cut), text(&whole));
    let calls = |segs: &[DsmlSegment]| -> Vec<(String, String, String)> {
        segs.iter()
            .flat_map(|s| match s {
                DsmlSegment::ToolCalls(c) => c
                    .iter()
                    .map(|t: &ParsedToolCall| (t.name.clone(), t.arguments.clone(), t.call_id.clone()))
                    .collect(),
                DsmlSegment::Normal(_) => Vec::new(),
            })
            .collect()
    };
    assert_eq!(calls(&cut), calls(&whole));
    assert_eq!(
        calls(&whole),
        vec![(
            "search".to_string(),
            r#"{"n":[1,2],"q":"many"}"#.to_string(),
            "dsml-tool-0".to_string(),
        )]
    );
}

#[test]
fn checked_feed_and_finish_agree_with_the_plain_ones() {
    let block = dsml_block(&invoke("search", &[("q", true, "x")]));
    let cut = block.len() - 5;
    let mut plain = DsmlParser::new();
    let mut checked = DsmlParser::new();
    let a = plain.feed(&block[..cut]);
    let b = checked.feed_checked(&block[..cut]).expect("within range");
    assert_eq!(a, b);
    let a = plain.finish();
    let b = checked.finish_checked().expect("within range");
    assert_eq!(a, b);
    assert_eq!(b, vec![single_tool_call("search", r#"{"q":"x"}"#, "dsml-tool-0")]);
}

#[test]
fn chunked_feeding_keeps_calls_grouped_by_block() {
    let full = format!(
        "a {} b {} c",
        dsml_block(&invoke("one", &[("x", true, "1")])),
        dsml_block(&format!("{}\n{}", invoke("two", &[]), invoke("three", &[("y", false, "2")])))
    );
    let mut whole_parser = DsmlParser::new();
    let whole = whole_parser.feed(&full);
    // Cut into pieces of five characters, keeping each closing tag whole.
    let mut pieces: Vec<String> = Vec::new();
    let mut rest = full.as_str();
    while !rest.is_empty() {
        if rest.starts_with(CLOSE_TAG) {
            pieces.push(CLOSE_TAG.to_string());
            rest = &rest[CLOSE_TAG.len()..];
            continue;
        }
        let mut piece = String::new();
        for c in rest.chars().take(5) {
            if rest[piece.len()..].starts_with(CLOSE_TAG) {
                break;
            }
            piece.push(c);
        }
        rest = &rest[piece.len()..];
        pieces.push(piece);
    }
    let mut parser = DsmlParser::new();
    let mut cut: Vec<DsmlSegment> = Vec::new();
    for p in &pieces {
        for seg in parser.feed(p) {
            match (cut.last_mut(), seg) {
                (Some(DsmlSegment::Normal(t)), DsmlSegment::Normal(u)) => t.push_str(&u),
                (_, seg) => cut.push(seg),
            }
        }
    }
    assert_eq!(cut, whole);
    assert_eq!(whole.len(), 5);
    assert!(matches!(&whole[1], DsmlSegment::ToolCalls(c) if c.len() == 1));
    assert!(matches!(&whole[3], DsmlSegment::ToolCalls(c) if c.len() == 2));
}
