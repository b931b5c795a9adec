//! Streaming parser for DeepSeek DSML tool calls.
//!
//! DeepSeek models embed tool calls in `delta.content` text as markup
//! delimited by the token `｜DSML｜` (U+FF5C FULLWIDTH VERTICAL LINE):
//!
//! ```text
//! <｜DSML｜tool_calls>
//! <｜DSML｜invoke name="my_tool">
//! <｜DSML｜parameter name="query" string="true">hello world</｜DSML｜parameter>
//! <｜DSML｜parameter name="count" string="false">3</｜DSML｜parameter>
//! </｜DSML｜invoke>
//! </｜DSML｜tool_calls>
//! ```
//!
//! `DsmlParser::feed` splits each delta into plain text and parsed tool
//! calls; `DsmlParser::finish` flushes what is still buffered at the end of
//! the stream.
use vstd::prelude::*;
use crate::json::{
    entry_texts, json_insert, json_model, json_object, json_reencode, json_string, json_string_literal,
    json_text, json_to_string, lemma_insert_texts, lemma_object_text, model_entries, parse_json,
    render_object, sorted_insert,
};
use crate::text::{
    chars_of, extend_chars, find_from, find_from_exec, lemma_find_from, occurs_at,
    occurs_at_exec, lemma_find_shift, slice_range, string_from_chars, suffix_prefix_len, suffix_prefix_len_exec,
    trim, trim_chars, push_char, decimal, decimal_exec,
};

verus! {

// ---------------------------------------------------------------------------
// Markup tokens
// ---------------------------------------------------------------------------

/// `<｜DSML｜tool_calls>`
pub open spec fn open_tag() -> Seq<char> {
    seq!['<', '\u{FF5C}', 'D', 'S', 'M', 'L', '\u{FF5C}', 't', 'o', 'o', 'l', '_', 'c', 'a', 'l', 'l', 's', '>']
}

/// `</｜DSML｜tool_calls>`
pub open spec fn close_tag() -> Seq<char> {
    seq!['<', '/', '\u{FF5C}', 'D', 'S', 'M', 'L', '\u{FF5C}', 't', 'o', 'o', 'l', '_', 'c', 'a', 'l', 'l', 's', '>']
}

/// `<｜DSML｜invoke name="`
pub open spec fn invoke_open() -> Seq<char> {
    seq!['<', '\u{FF5C}', 'D', 'S', 'M', 'L', '\u{FF5C}', 'i', 'n', 'v', 'o', 'k', 'e', ' ', 'n', 'a', 'm', 'e', '=', '"']
}

/// `</｜DSML｜invoke>`
pub open spec fn invoke_close() -> Seq<char> {
    seq!['<', '/', '\u{FF5C}', 'D', 'S', 'M', 'L', '\u{FF5C}', 'i', 'n', 'v', 'o', 'k', 'e', '>']
}

/// `<｜DSML｜parameter name="`
pub open spec fn param_open() -> Seq<char> {
    seq!['<', '\u{FF5C}', 'D', 'S', 'M', 'L', '\u{FF5C}', 'p', 'a', 'r', 'a', 'm', 'e', 't', 'e', 'r', ' ', 'n', 'a', 'm', 'e', '=', '"']
}

/// `</｜DSML｜parameter>`
pub open spec fn param_close() -> Seq<char> {
    seq!['<', '/', '\u{FF5C}', 'D', 'S', 'M', 'L', '\u{FF5C}', 'p', 'a', 'r', 'a', 'm', 'e', 't', 'e', 'r', '>']
}

/// `" string="`
pub open spec fn string_attr() -> Seq<char> {
    seq!['"', ' ', 's', 't', 'r', 'i', 'n', 'g', '=', '"']
}

/// `">`
pub open spec fn attr_end() -> Seq<char> {
    seq!['"', '>']
}

pub open spec fn lit_true() -> Seq<char> {
    seq!['t', 'r', 'u', 'e']
}

pub open spec fn lit_false() -> Seq<char> {
    seq!['f', 'a', 'l', 's', 'e']
}

/// `dsml-tool-`
pub open spec fn call_id_prefix() -> Seq<char> {
    seq!['d', 's', 'm', 'l', '-', 't', 'o', 'o', 'l', '-']
}

fn open_tag_exec() -> (r: Vec<char>)
    ensures
        r@ == open_tag(),
{
    let r = vec!['<', '\u{FF5C}', 'D', 'S', 'M', 'L', '\u{FF5C}', 't', 'o', 'o', 'l', '_', 'c', 'a', 'l', 'l', 's', '>'];
    assert(r@ =~= open_tag());
    r
}

fn close_tag_exec() -> (r: Vec<char>)
    ensures
        r@ == close_tag(),
{
    let r = vec!['<', '/', '\u{FF5C}', 'D', 'S', 'M', 'L', '\u{FF5C}', 't', 'o', 'o', 'l', '_', 'c', 'a', 'l', 'l', 's', '>'];
    assert(r@ =~= close_tag());
    r
}

fn invoke_open_exec() -> (r: Vec<char>)
    ensures
        r@ == invoke_open(),
{
    let r = vec!['<', '\u{FF5C}', 'D', 'S', 'M', 'L', '\u{FF5C}', 'i', 'n', 'v', 'o', 'k', 'e', ' ', 'n', 'a', 'm', 'e', '=', '"'];
    assert(r@ =~= invoke_open());
    r
}

fn invoke_close_exec() -> (r: Vec<char>)
    ensures
        r@ == invoke_close(),
{
    let r = vec!['<', '/', '\u{FF5C}', 'D', 'S', 'M', 'L', '\u{FF5C}', 'i', 'n', 'v', 'o', 'k', 'e', '>'];
    assert(r@ =~= invoke_close());
    r
}

fn param_open_exec() -> (r: Vec<char>)
    ensures
        r@ == param_open(),
{
    let r = vec!['<', '\u{FF5C}', 'D', 'S', 'M', 'L', '\u{FF5C}', 'p', 'a', 'r', 'a', 'm', 'e', 't', 'e', 'r', ' ', 'n', 'a', 'm', 'e', '=', '"'];
    assert(r@ =~= param_open());
    r
}

fn param_close_exec() -> (r: Vec<char>)
    ensures
        r@ == param_close(),
{
    let r = vec!['<', '/', '\u{FF5C}', 'D', 'S', 'M', 'L', '\u{FF5C}', 'p', 'a', 'r', 'a', 'm', 'e', 't', 'e', 'r', '>'];
    assert(r@ =~= param_close());
    r
}

fn string_attr_exec() -> (r: Vec<char>)
    ensures
        r@ == string_attr(),
{
    let r = vec!['"', ' ', 's', 't', 'r', 'i', 'n', 'g', '=', '"'];
    assert(r@ =~= string_attr());
    r
}

fn attr_end_exec() -> (r: Vec<char>)
    ensures
        r@ == attr_end(),
{
    let r = vec!['"', '>'];
    assert(r@ =~= attr_end());
    r
}

fn lit_true_exec() -> (r: Vec<char>)
    ensures
        r@ == lit_true(),
{
    let r = vec!['t', 'r', 'u', 'e'];
    assert(r@ =~= lit_true());
    r
}

fn lit_false_exec() -> (r: Vec<char>)
    ensures
        r@ == lit_false(),
{
    let r = vec!['f', 'a', 'l', 's', 'e'];
    assert(r@ =~= lit_false());
    r
}

// ---------------------------------------------------------------------------
// Matching invocations and parameters
// ---------------------------------------------------------------------------

/// Index of the first `"` at or after `i`, or `s.len()` when there is none.
pub open spec fn quote_end(s: Seq<char>, i: int) -> int
    decreases s.len() - i,
{
    if i < 0 || i >= s.len() || s[i] == '"' {
        i
    } else {
        quote_end(s, i + 1)
    }
}

proof fn lemma_quote_end(s: Seq<char>, i: int)
    requires
        0 <= i <= s.len(),
    ensures
        i <= quote_end(s, i) <= s.len(),
    decreases s.len() - i,
{
    if i < s.len() && s[i] != '"' {
        lemma_quote_end(s, i + 1);
    }
}

/// The invocation that starts at index `i` of `s`, if one does: its name,
/// its body and the index just past its closing tag. This is the match that
/// `<｜DSML｜invoke name="([^"]+)">([\s\S]*?)</｜DSML｜invoke>` finds when
/// it starts at `i`: the name runs to the next `"` and must not be empty,
/// and the body ends at the first closing tag that follows.
pub open spec fn invoke_at(s: Seq<char>, i: int) -> Option<(Seq<char>, Seq<char>, int)> {
    if !occurs_at(s, invoke_open(), i) {
        None
    } else {
        let j = i + invoke_open().len();
        let k = quote_end(s, j);
        if k == j || !occurs_at(s, attr_end(), k) {
            None
        } else {
            let b = k + attr_end().len();
            match find_from(s, invoke_close(), b) {
                None => None,
                Some(q) => Some((s.subrange(j, k), s.subrange(b, q), q + invoke_close().len())),
            }
        }
    }
}

/// All invocations found scanning `s` from index `i`, leftmost first and
/// without overlap (as `captures_iter` finds them).
pub open spec fn invokes_from(s: Seq<char>, i: int) -> Seq<(Seq<char>, Seq<char>)>
    decreases s.len() - i,
{
    if i < 0 || i >= s.len() {
        Seq::empty()
    } else {
        match invoke_at(s, i) {
            Some((name, body, end)) => if i < end <= s.len() {
                seq![(name, body)] + invokes_from(s, end)
            } else {
                Seq::empty()
            },
            None => invokes_from(s, i + 1),
        }
    }
}

/// The parameter that starts at index `i` of `s`, if one does: name, the
/// `string` flag, raw value and the index just past its closing tag. This is
/// the match of `<｜DSML｜parameter name="([^"]+)" string="(true|false)">([\s\S]*?)</｜DSML｜parameter>`
/// that starts at `i`.
pub open spec fn param_at(s: Seq<char>, i: int) -> Option<(Seq<char>, bool, Seq<char>, int)> {
    if !occurs_at(s, param_open(), i) {
        None
    } else {
        let j = i + param_open().len();
        let k = quote_end(s, j);
        if k == j || !occurs_at(s, string_attr(), k) {
            None
        } else {
            let m = k + string_attr().len();
            let flag_end: Option<(bool, int)> = if occurs_at(s, lit_true(), m) {
                Some((true, m + lit_true().len()))
            } else if occurs_at(s, lit_false(), m) {
                Some((false, m + lit_false().len()))
            } else {
                None
            };
            match flag_end {
                None => None,
                Some((flag, after)) => if !occurs_at(s, attr_end(), after) {
                    None
                } else {
                    let b = after + attr_end().len();
                    match find_from(s, param_close(), b) {
                        None => None,
                        Some(q) => Some((s.subrange(j, k), flag, s.subrange(b, q), q + param_close().len())),
                    }
                },
            }
        }
    }
}

/// All parameters found scanning `s` from index `i`.
pub open spec fn params_from(s: Seq<char>, i: int) -> Seq<(Seq<char>, bool, Seq<char>)>
    decreases s.len() - i,
{
    if i < 0 || i >= s.len() {
        Seq::empty()
    } else {
        match param_at(s, i) {
            Some((name, flag, raw, end)) => if i < end <= s.len() {
                seq![(name, flag, raw)] + params_from(s, end)
            } else {
                Seq::empty()
            },
            None => params_from(s, i + 1),
        }
    }
}

/// JSON text of a parameter value: a JSON string for `string="true"`,
/// otherwise the value parsed as JSON, falling back to a JSON string when it
/// does not parse. Values are trimmed first.
pub open spec fn param_json(flag: bool, raw: Seq<char>) -> Seq<char> {
    let t = trim(raw);
    if flag {
        json_string_literal(t)
    } else {
        match json_reencode(t) {
            Some(j) => j,
            None => json_string_literal(t),
        }
    }
}

/// Sorted object entries for the parameters, a later parameter of the same
/// name replacing an earlier one.
pub open spec fn param_entries(p: Seq<(Seq<char>, bool, Seq<char>)>) -> Seq<(Seq<char>, Seq<char>)>
    decreases p.len(),
{
    if p.len() == 0 {
        Seq::empty()
    } else {
        let last = p.last();
        sorted_insert(param_entries(p.drop_last()), last.0, param_json(last.1, last.2))
    }
}

/// The arguments object of an invocation body.
pub open spec fn arguments_json(body: Seq<char>) -> Seq<char> {
    render_object(param_entries(params_from(body, 0)))
}

/// `dsml-tool-<n>`
pub open spec fn call_id(n: nat) -> Seq<char> {
    call_id_prefix() + decimal(n)
}

/// A parsed tool call as plain sequences.
pub struct CallView {
    pub name: Seq<char>,
    pub arguments: Seq<char>,
    pub call_id: Seq<char>,
}

/// The tool calls of one DSML block, numbered from `counter`.
pub open spec fn parse_block(block: Seq<char>, counter: nat) -> Seq<CallView> {
    let inv = invokes_from(block, 0);
    Seq::new(
        inv.len(),
        |i: int|
            CallView {
                name: inv[i].0,
                arguments: arguments_json(inv[i].1),
                call_id: call_id((counter + i) as nat),
            },
    )
}

// ---------------------------------------------------------------------------
// Executable matching
// ---------------------------------------------------------------------------

/// The markup tokens, built once per parse.
struct Tokens {
    open: Vec<char>,
    close: Vec<char>,
    inv_open: Vec<char>,
    inv_close: Vec<char>,
    p_open: Vec<char>,
    p_close: Vec<char>,
    s_attr: Vec<char>,
    a_end: Vec<char>,
    t: Vec<char>,
    f: Vec<char>,
}

impl Tokens {
    spec fn wf(&self) -> bool {
        &&& self.open@ == open_tag()
        &&& self.close@ == close_tag()
        &&& self.inv_open@ == invoke_open()
        &&& self.inv_close@ == invoke_close()
        &&& self.p_open@ == param_open()
        &&& self.p_close@ == param_close()
        &&& self.s_attr@ == string_attr()
        &&& self.a_end@ == attr_end()
        &&& self.t@ == lit_true()
        &&& self.f@ == lit_false()
    }

    fn new() -> (r: Tokens)
        ensures
            r.wf(),
    {
        Tokens {
            open: open_tag_exec(),
            close: close_tag_exec(),
            inv_open: invoke_open_exec(),
            inv_close: invoke_close_exec(),
            p_open: param_open_exec(),
            p_close: param_close_exec(),
            s_attr: string_attr_exec(),
            a_end: attr_end_exec(),
            t: lit_true_exec(),
            f: lit_false_exec(),
        }
    }
}

fn quote_end_exec(s: &[char], i: usize) -> (r: usize)
    requires
        i <= s.len(),
    ensures
        r as int == quote_end(s@, i as int),
        i <= r <= s.len(),
{
    let mut k = i;
    while k < s.len() && s[k] != '"'
        invariant
            i <= k <= s.len(),
            quote_end(s@, i as int) == quote_end(s@, k as int),
        decreases s.len() - k,
    {
        k += 1;
    }
    k
}

/// Positions `(name_start, name_end, body_start, body_end)` of the invocation
/// starting at `i`, if there is one.
fn invoke_at_exec(tk: &Tokens, s: &[char], i: usize) -> (r: Option<(usize, usize, usize, usize)>)
    requires
        tk.wf(),
    ensures
        r is None ==> invoke_at(s@, i as int) is None,
        r matches Some((j, k, b, q)) ==> {
            &&& i < j <= k <= b <= q
            &&& q + invoke_close().len() <= s.len()
            &&& invoke_at(s@, i as int) == Some(
                (s@.subrange(j as int, k as int), s@.subrange(b as int, q as int), q + invoke_close().len()),
            )
        },
{
    if !occurs_at_exec(s, &tk.inv_open, i) {
        return None;
    }
    assert(occurs_at(s@, invoke_open(), i as int));
    assert(invoke_open().len() == 20);
    assert(i + tk.inv_open@.len() <= s@.len());
    assert(s@.len() == s.len());
    let j = i + tk.inv_open.len();
    let k = quote_end_exec(s, j);
    if k == j || !occurs_at_exec(s, &tk.a_end, k) {
        return None;
    }
    let b = k + tk.a_end.len();
    match find_from_exec(s, &tk.inv_close, b) {
        None => None,
        Some(q) => {
            proof {
                lemma_find_from(s@, invoke_close(), b as int);
            }
            Some((j, k, b, q))
        },
    }
}

/// Positions `(name_start, name_end, flag, body_start, body_end)` of the
/// parameter starting at `i`, if there is one.
fn param_at_exec(tk: &Tokens, s: &[char], i: usize) -> (r: Option<(usize, usize, bool, usize, usize)>)
    requires
        tk.wf(),
    ensures
        r is None ==> param_at(s@, i as int) is None,
        r matches Some((j, k, flag, b, q)) ==> {
            &&& i < j <= k <= b <= q
            &&& q + param_close().len() <= s.len()
            &&& param_at(s@, i as int) == Some(
                (s@.subrange(j as int, k as int), flag, s@.subrange(b as int, q as int), q + param_close().len()),
            )
        },
{
    if !occurs_at_exec(s, &tk.p_open, i) {
        return None;
    }
    assert(occurs_at(s@, param_open(), i as int));
    assert(param_open().len() == 23);
    assert(i + tk.p_open@.len() <= s@.len());
    assert(s@.len() == s.len());
    let j = i + tk.p_open.len();
    let k = quote_end_exec(s, j);
    if k == j || !occurs_at_exec(s, &tk.s_attr, k) {
        return None;
    }
    let m = k + tk.s_attr.len();
    let flag: bool;
    let after: usize;
    if occurs_at_exec(s, &tk.t, m) {
        flag = true;
        after = m + tk.t.len();
    } else if occurs_at_exec(s, &tk.f, m) {
        flag = false;
        after = m + tk.f.len();
    } else {
        return None;
    }
    if !occurs_at_exec(s, &tk.a_end, after) {
        return None;
    }
    let b = after + tk.a_end.len();
    match find_from_exec(s, &tk.p_close, b) {
        None => None,
        Some(q) => {
            proof {
                lemma_find_from(s@, param_close(), b as int);
            }
            Some((j, k, flag, b, q))
        },
    }
}

/// The JSON value of one parameter: a string for `string="true"`, otherwise
/// the parsed value, or a string when it does not parse.
fn param_value_exec(flag: bool, raw: &[char]) -> (r: serde_json::Value)
    ensures
        json_text(json_model(r)) == param_json(flag, raw@),
{
    let t = trim_chars(raw);
    let ts = string_from_chars(&t);
    if flag {
        json_string(ts)
    } else {
        match parse_json(ts.as_str()) {
            Some(v) => v,
            None => json_string(ts),
        }
    }
}

/// The compact JSON arguments object of an invocation body.
fn arguments_exec(tk: &Tokens, body: &[char]) -> (r: Vec<char>)
    requires
        tk.wf(),
    ensures
        r@ == arguments_json(body@),
{
    let mut obj = json_object();
    let ghost mut found: Seq<(Seq<char>, bool, Seq<char>)> = Seq::empty();
    let mut i: usize = 0;
    assert(params_from(body@, 0) =~= found + params_from(body@, 0));
    while i < body.len()
        invariant
            tk.wf(),
            i <= body.len(),
            params_from(body@, 0) == found + params_from(body@, i as int),
            json_model(obj) is Object,
            entry_texts(model_entries(json_model(obj))) == param_entries(found),
        decreases body.len() - i,
    {
        match param_at_exec(tk, body, i) {
            Some((j, k, flag, b, q)) => {
                let name = slice_range(body, j, k);
                let raw = slice_range(body, b, q);
                let value = param_value_exec(flag, &raw);
                let ghost item = (name@, flag, raw@);
                proof {
                    lemma_insert_texts(model_entries(json_model(obj)), name@, json_model(value));
                }
                json_insert(&mut obj, string_from_chars(&name), value);
                let end = q + 18;
                proof {
                    assert(param_close().len() == 18);
                    assert(params_from(body@, i as int) == seq![item] + params_from(body@, end as int));
                    assert(found.push(item).drop_last() =~= found);
                    assert(found + (seq![item] + params_from(body@, end as int)) =~= found.push(item) + params_from(body@, end as int));
                    found = found.push(item);
                }
                i = end;
            },
            None => {
                i += 1;
            },
        }
    }
    assert(params_from(body@, i as int) =~= Seq::<(Seq<char>, bool, Seq<char>)>::empty());
    assert(found =~= params_from(body@, 0));
    proof {
        lemma_object_text(model_entries(json_model(obj)));
    }
    let text = json_to_string(&obj);
    chars_of(text.as_str())
}

fn call_id_exec(n: u32) -> (r: String)
    ensures
        r@ == call_id(n as nat),
{
    let mut v = vec!['d', 's', 'm', 'l', '-', 't', 'o', 'o', 'l', '-'];
    assert(v@ =~= call_id_prefix());
    let d = decimal_exec(n as u64);
    extend_chars(&mut v, &d);
    string_from_chars(&v)
}

// ---------------------------------------------------------------------------
// Parsed output
// ---------------------------------------------------------------------------

/// A fully-parsed DSML tool invocation ready to be dispatched.
#[derive(Debug, PartialEq, Eq)]
pub struct ParsedToolCall {
    pub name: String,
    /// Compact JSON object text, e.g. `{"count":3,"query":"foo"}`.
    pub arguments: String,
    /// Synthetic call id, e.g. `dsml-tool-0`.
    pub call_id: String,
}

impl View for ParsedToolCall {
    type V = CallView;

    open spec fn view(&self) -> CallView {
        CallView { name: self.name@, arguments: self.arguments@, call_id: self.call_id@ }
    }
}

/// Output of `DsmlParser::feed` and `DsmlParser::finish`.
#[derive(Debug, PartialEq, Eq)]
pub enum DsmlSegment {
    /// Assistant text to forward to the message accumulator.
    Normal(String),
    /// The tool calls of one complete DSML block.
    ToolCalls(Vec<ParsedToolCall>),
}

/// A segment as plain sequences.
pub enum SegmentView {
    Normal(Seq<char>),
    ToolCalls(Seq<CallView>),
}

pub open spec fn calls_view(v: Seq<ParsedToolCall>) -> Seq<CallView> {
    v.map_values(|c: ParsedToolCall| c@)
}

impl View for DsmlSegment {
    type V = SegmentView;

    open spec fn view(&self) -> SegmentView {
        match self {
            DsmlSegment::Normal(s) => SegmentView::Normal(s@),
            DsmlSegment::ToolCalls(c) => SegmentView::ToolCalls(calls_view(c@)),
        }
    }
}

pub open spec fn segs_view(v: Seq<DsmlSegment>) -> Seq<SegmentView> {
    v.map_values(|s: DsmlSegment| s@)
}

/// Parses one DSML block into tool calls numbered from `counter`.
fn parse_block_exec(tk: &Tokens, block: &[char], counter: u32) -> (calls: Vec<ParsedToolCall>)
    requires
        tk.wf(),
        counter + invokes_from(block@, 0).len() <= u32::MAX,
    ensures
        calls_view(calls@) == parse_block(block@, counter as nat),
{
    let mut calls: Vec<ParsedToolCall> = Vec::new();
    let ghost mut found: Seq<(Seq<char>, Seq<char>)> = Seq::empty();
    let mut i: usize = 0;
    assert(invokes_from(block@, 0) =~= found + invokes_from(block@, 0));
    while i < block.len()
        invariant
            tk.wf(),
            i <= block.len(),
            counter + invokes_from(block@, 0).len() <= u32::MAX,
            invokes_from(block@, 0) == found + invokes_from(block@, i as int),
            calls.len() == found.len(),
            forall|m: int|
                0 <= m < found.len() ==> #[trigger] calls@[m]@ == (CallView {
                    name: found[m].0,
                    arguments: arguments_json(found[m].1),
                    call_id: call_id((counter + m) as nat),
                }),
        decreases block.len() - i,
    {
        match invoke_at_exec(tk, block, i) {
            Some((j, k, b, q)) => {
                let name_chars = slice_range(block, j, k);
                let body = slice_range(block, b, q);
                let ghost item = (name_chars@, body@);
                let end = q + 15;
                assert(invoke_close().len() == 15);
                assert(invokes_from(block@, i as int) == seq![item] + invokes_from(block@, end as int));
                assert(found.len() < invokes_from(block@, 0).len()) by {
                    assert(invokes_from(block@, 0) == found + (seq![item] + invokes_from(block@, end as int)));
                }
                let arguments_chars = arguments_exec(tk, &body);
                let n = counter + calls.len() as u32;
                let call = ParsedToolCall {
                    name: string_from_chars(&name_chars),
                    arguments: string_from_chars(&arguments_chars),
                    call_id: call_id_exec(n),
                };
                calls.push(call);
                proof {
                    assert(found + (seq![item] + invokes_from(block@, end as int)) =~= found.push(item)
                        + invokes_from(block@, end as int));
                    found = found.push(item);
                }
                i = end;
            },
            None => {
                i += 1;
            },
        }
    }
    assert(invokes_from(block@, i as int) =~= Seq::<(Seq<char>, Seq<char>)>::empty());
    assert(found =~= invokes_from(block@, 0));
    assert(calls_view(calls@) =~= parse_block(block@, counter as nat));
    calls
}

// ---------------------------------------------------------------------------
// The streaming state machine
// ---------------------------------------------------------------------------

/// What the parser holds between deltas.
pub enum ModeView {
    /// No block is open and nothing is held back.
    Idle,
    /// Trailing text that may be the start of an opening tag.
    Held(Seq<char>),
    /// Inside an open block: the block text so far.
    Block(Seq<char>),
}

/// The parser's state: its mode and the number of tool calls numbered so far.
pub struct ParserView {
    pub mode: ModeView,
    pub counter: nat,
}

/// Appends text, merging it into a trailing `Normal` segment.
pub open spec fn push_normal(acc: Seq<SegmentView>, text: Seq<char>) -> Seq<SegmentView> {
    if text.len() == 0 {
        acc
    } else if acc.len() > 0 && acc.last() is Normal {
        acc.drop_last().push(SegmentView::Normal(acc.last()->Normal_0 + text))
    } else {
        acc.push(SegmentView::Normal(text))
    }
}

/// Appends a `ToolCalls` segment unless there are no calls.
pub open spec fn push_calls(acc: Seq<SegmentView>, calls: Seq<CallView>) -> Seq<SegmentView> {
    if calls.len() > 0 {
        acc.push(SegmentView::ToolCalls(calls))
    } else {
        acc
    }
}

pub open spec fn held_extra(mode: ModeView) -> nat {
    match mode {
        ModeView::Held(h) => h.len() + 1,
        _ => 0,
    }
}

/// Processing text `t` in `mode`, with `acc` emitted so far and `counter`
/// calls numbered so far: the segments, the mode and the counter afterwards.
///
/// Held text is processed again in front of the new text. Outside a block,
/// text up to an opening tag is emitted and a block opens; when no opening
/// tag occurs, a trailing piece that may begin one is held back. Inside a
/// block, the first closing tag in the new text ends the block, whose calls
/// are then emitted; without one, the text joins the block.
pub open spec fn feed_acc(acc: Seq<SegmentView>, mode: ModeView, counter: nat, t: Seq<char>) -> (
    Seq<SegmentView>,
    ModeView,
    nat,
)
    decreases t.len() + held_extra(mode),
{
    match mode {
        ModeView::Held(h) => feed_acc(acc, ModeView::Idle, counter, h + t),
        ModeView::Idle => match find_from(t, open_tag(), 0) {
            Some(p) => if 0 <= p && p + open_tag().len() <= t.len() {
                feed_acc(
                    push_normal(acc, t.take(p)),
                    ModeView::Block(Seq::empty()),
                    counter,
                    t.skip(p + open_tag().len()),
                )
            } else {
                (acc, mode, counter)
            },
            None => {
                let h = suffix_prefix_len(t, open_tag());
                (
                    push_normal(acc, t.take(t.len() - h)),
                    if h > 0 {
                        ModeView::Held(t.skip(t.len() - h))
                    } else {
                        ModeView::Idle
                    },
                    counter,
                )
            },
        },
        ModeView::Block(buf) => match find_from(t, close_tag(), 0) {
            Some(q) => if 0 <= q && q + close_tag().len() <= t.len() {
                let calls = parse_block(buf + t.take(q), counter);
                feed_acc(
                    push_calls(acc, calls),
                    ModeView::Idle,
                    counter + calls.len(),
                    t.skip(q + close_tag().len()),
                )
            } else {
                (acc, mode, counter)
            },
            None => (acc, ModeView::Block(buf + t), counter),
        },
    }
}

/// The result of feeding `t` to a parser in state `v`: the segments emitted
/// and the state afterwards.
pub open spec fn spec_feed(v: ParserView, t: Seq<char>) -> (Seq<SegmentView>, ParserView) {
    let r = feed_acc(Seq::empty(), v.mode, v.counter, t);
    (r.0, ParserView { mode: r.1, counter: r.2 })
}

/// The text a parser in `mode` keeps buffered.
pub open spec fn pending_len(mode: ModeView) -> nat {
    match mode {
        ModeView::Idle => 0,
        ModeView::Held(h) => h.len(),
        ModeView::Block(b) => b.len(),
    }
}

proof fn lemma_invokes_len(s: Seq<char>, i: int)
    requires
        0 <= i,
    ensures
        invokes_from(s, i).len() <= if i < s.len() { s.len() - i } else { 0 },
    decreases s.len() - i,
{
    if i < s.len() {
        match invoke_at(s, i) {
            Some((name, body, end)) => {
                if i < end <= s.len() {
                    lemma_invokes_len(s, end);
                }
            },
            None => {
                lemma_invokes_len(s, i + 1);
            },
        }
    }
}

/// A block's text holds at most as many invocations as it has characters.
proof fn lemma_block_calls_len(block: Seq<char>, counter: nat)
    ensures
        parse_block(block, counter).len() <= block.len(),
{
    lemma_invokes_len(block, 0);
}

/// Feeding `t` numbers at most as many new calls as there are characters
/// buffered and fed.
proof fn lemma_feed_counter_bound(acc: Seq<SegmentView>, mode: ModeView, counter: nat, t: Seq<char>)
    ensures
        feed_acc(acc, mode, counter, t).2 <= counter + pending_len(mode) + t.len(),
    decreases t.len() + held_extra(mode),
{
    match mode {
        ModeView::Held(h) => {
            lemma_feed_counter_bound(acc, ModeView::Idle, counter, h + t);
        },
        ModeView::Idle => match find_from(t, open_tag(), 0) {
            Some(p) => {
                if 0 <= p && p + open_tag().len() <= t.len() {
                    lemma_feed_counter_bound(
                        push_normal(acc, t.take(p)),
                        ModeView::Block(Seq::empty()),
                        counter,
                        t.skip(p + open_tag().len()),
                    );
                }
            },
            None => {},
        },
        ModeView::Block(buf) => match find_from(t, close_tag(), 0) {
            Some(q) => {
                if 0 <= q && q + close_tag().len() <= t.len() {
                    let calls = parse_block(buf + t.take(q), counter);
                    lemma_block_calls_len(buf + t.take(q), counter);
                    lemma_feed_counter_bound(
                        push_calls(acc, calls),
                        ModeView::Idle,
                        counter + calls.len(),
                        t.skip(q + close_tag().len()),
                    );
                }
            },
            None => {},
        },
    }
}

/// The result of finishing a parser in state `v`: held text is emitted as
/// text, an unclosed block is parsed as it stands, and the parser is idle.
pub open spec fn spec_finish(v: ParserView) -> (Seq<SegmentView>, ParserView) {
    match v.mode {
        ModeView::Idle => (Seq::empty(), v),
        ModeView::Held(h) => (
            push_normal(Seq::empty(), h),
            ParserView { mode: ModeView::Idle, counter: v.counter },
        ),
        ModeView::Block(buf) => {
            let calls = parse_block(buf, v.counter);
            (
                push_calls(Seq::empty(), calls),
                ParserView { mode: ModeView::Idle, counter: v.counter + calls.len() },
            )
        },
    }
}

proof fn lemma_feed_counter_grows(acc: Seq<SegmentView>, mode: ModeView, counter: nat, t: Seq<char>)
    ensures
        feed_acc(acc, mode, counter, t).2 >= counter,
    decreases t.len() + held_extra(mode),
{
    match mode {
        ModeView::Held(h) => lemma_feed_counter_grows(acc, ModeView::Idle, counter, h + t),
        ModeView::Idle => match find_from(t, open_tag(), 0) {
            Some(p) => if 0 <= p && p + open_tag().len() <= t.len() {
                lemma_feed_counter_grows(
                    push_normal(acc, t.take(p)),
                    ModeView::Block(Seq::empty()),
                    counter,
                    t.skip(p + open_tag().len()),
                );
            },
            None => {},
        },
        ModeView::Block(buf) => match find_from(t, close_tag(), 0) {
            Some(q) => if 0 <= q && q + close_tag().len() <= t.len() {
                let calls = parse_block(buf + t.take(q), counter);
                lemma_feed_counter_grows(
                    push_calls(acc, calls),
                    ModeView::Idle,
                    counter + calls.len(),
                    t.skip(q + close_tag().len()),
                );
            },
            None => {},
        },
    }
}

/// The parser's internal mode.
enum DsmlState {
    Idle,
    Held(Vec<char>),
    Block(Vec<char>),
}

impl DsmlState {
    spec fn mode(&self) -> ModeView {
        match self {
            DsmlState::Idle => ModeView::Idle,
            DsmlState::Held(h) => ModeView::Held(h@),
            DsmlState::Block(b) => ModeView::Block(b@),
        }
    }
}

/// Streaming DSML parser.
pub struct DsmlParser {
    state: DsmlState,
    call_counter: u32,
}

impl View for DsmlParser {
    type V = ParserView;

    closed spec fn view(&self) -> ParserView {
        ParserView { mode: self.state.mode(), counter: self.call_counter as nat }
    }
}

/// Appends characters to a string.
fn append_chars(s: &mut String, t: &[char])
    ensures
        final(s)@ == old(s)@ + t@,
{
    let mut i: usize = 0;
    while i < t.len()
        invariant
            i <= t.len(),
            s@ == old(s)@ + t@.take(i as int),
        decreases t.len() - i,
    {
        push_char(s, t[i]);
        assert(old(s)@ + t@.take(i as int) + seq![t@[i as int]] =~= old(s)@ + t@.take(i + 1));
        i += 1;
    }
    assert(t@.take(t.len() as int) =~= t@);
}

/// Appends text to the segments, merging into a trailing `Normal` segment.
fn push_normal_exec(segs: &mut Vec<DsmlSegment>, text: &[char])
    ensures
        segs_view(final(segs)@) == push_normal(segs_view(old(segs)@), text@),
{
    if text.len() == 0 {
        return;
    }
    let n = segs.len();
    let merge = n > 0 && match &segs[n - 1] {
        DsmlSegment::Normal(_) => true,
        DsmlSegment::ToolCalls(_) => false,
    };
    if merge {
        let last = segs.pop().unwrap();
        match last {
            DsmlSegment::Normal(mut existing) => {
                append_chars(&mut existing, text);
                segs.push(DsmlSegment::Normal(existing));
            },
            DsmlSegment::ToolCalls(c) => {
                segs.push(DsmlSegment::ToolCalls(c));
            },
        }
        assert(segs_view(segs@) =~= push_normal(segs_view(old(segs)@), text@));
    } else {
        segs.push(DsmlSegment::Normal(string_from_chars(text)));
        assert(segs_view(segs@) =~= push_normal(segs_view(old(segs)@), text@));
    }
}

/// Appends a `ToolCalls` segment unless `calls` is empty.
fn push_calls_exec(segs: &mut Vec<DsmlSegment>, calls: Vec<ParsedToolCall>)
    ensures
        segs_view(final(segs)@) == push_calls(segs_view(old(segs)@), calls_view(calls@)),
{
    if calls.len() > 0 {
        segs.push(DsmlSegment::ToolCalls(calls));
        assert(segs_view(segs@) =~= push_calls(segs_view(old(segs)@), calls_view(calls@)));
    } else {
        assert(segs_view(segs@) =~= push_calls(segs_view(old(segs)@), calls_view(calls@)));
    }
}

impl DsmlParser {
    /// A parser with nothing buffered and no calls numbered yet.
    pub fn new() -> (r: DsmlParser)
        ensures
            r@ == (ParserView { mode: ModeView::Idle, counter: 0 }),
    {
        DsmlParser { state: DsmlState::Idle, call_counter: 0 }
    }

    /// Feeds a streaming content delta: returns the text and complete tool
    /// call blocks it finishes, in order (`spec_feed`). Several blocks in one
    /// delta are supported. Text inside an open block is always kept as block
    /// text, whatever characters it starts with; only a held partial opening
    /// tag is taken up again in front of the next delta. Call ids count up
    /// from the calls numbered before, which must stay within `u32`
    /// (`feed_checked` tests this first).
    pub fn feed(&mut self, delta: &str) -> (segments: Vec<DsmlSegment>)
        requires
            spec_feed(old(self)@, delta@).1.counter <= u32::MAX,
        ensures
            segs_view(segments@) == spec_feed(old(self)@, delta@).0,
            final(self)@ == spec_feed(old(self)@, delta@).1,
    {
        let tk = Tokens::new();
        let d = chars_of(delta);
        let ghost target = feed_acc(Seq::empty(), self@.mode, self@.counter, delta@);
        let mut segs: Vec<DsmlSegment> = Vec::new();
        let mut counter = self.call_counter;
        let mut st = DsmlState::Idle;
        core::mem::swap(&mut st, &mut self.state);
        let mut text: Vec<char>;
        let mut mode: DsmlState;
        match st {
            DsmlState::Held(h) => {
                let mut t = h;
                let ghost hv = t@;
                extend_chars(&mut t, &d);
                text = t;
                mode = DsmlState::Idle;
                assert(target == feed_acc(Seq::empty(), ModeView::Idle, counter as nat, hv + delta@));
            },
            DsmlState::Idle => {
                text = d;
                mode = DsmlState::Idle;
            },
            DsmlState::Block(b) => {
                text = d;
                mode = DsmlState::Block(b);
            },
        }
        let mut pos: usize = 0;
        assert(text@.skip(0) =~= text@);
        assert(segs_view(segs@) =~= Seq::<SegmentView>::empty());
        assert(target == feed_acc(Seq::empty(), mode.mode(), counter as nat, text@));
        proof {
            lemma_feed_counter_grows(Seq::empty(), mode.mode(), counter as nat, text@);
        }
        loop
            invariant_except_break
                tk.wf(),
                pos <= text.len(),
                target.2 <= u32::MAX,
                mode.mode() !is Held,
                feed_acc(segs_view(segs@), mode.mode(), counter as nat, text@.skip(pos as int)) == target,
            ensures
                segs_view(segs@) == target.0,
                mode.mode() == target.1,
                counter as nat == target.2,
            decreases text.len() - pos,
        {
            let ghost rest = text@.skip(pos as int);
            proof {
                lemma_feed_counter_grows(segs_view(segs@), mode.mode(), counter as nat, rest);
            }
            match mode {
                DsmlState::Block(mut buf) => {
                    proof {
                        lemma_find_shift(text@, close_tag(), pos as int, 0);
                        lemma_find_from(text@, close_tag(), pos as int);
                    }
                    match find_from_exec(&text, &tk.close, pos) {
                        Some(q) => {
                            let ghost bv = buf@;
                            let piece = slice_range(&text, pos, q);
                            extend_chars(&mut buf, &piece);
                            assert(rest.take(q - pos) =~= piece@);
                            let ghost calls_spec = parse_block(bv + rest.take(q - pos), counter as nat);
                            proof {
                                let after = push_calls(segs_view(segs@), calls_spec);
                                lemma_feed_counter_grows(
                                    after,
                                    ModeView::Idle,
                                    (counter + calls_spec.len()) as nat,
                                    rest.skip(q - pos + close_tag().len()),
                                );
                            }
                            let calls = parse_block_exec(&tk, &buf, counter);
                            counter = counter + calls.len() as u32;
                            push_calls_exec(&mut segs, calls);
                            assert(close_tag().len() == 19);
                            assert(rest.skip(q - pos + 19) =~= text@.skip(q + 19));
                            pos = q + 19;
                            mode = DsmlState::Idle;
                        },
                        None => {
                            let piece = slice_range(&text, pos, text.len());
                            assert(piece@ =~= rest);
                            extend_chars(&mut buf, &piece);
                            mode = DsmlState::Block(buf);
                            break;
                        },
                    }
                },
                DsmlState::Idle => {
                    proof {
                        lemma_find_shift(text@, open_tag(), pos as int, 0);
                        lemma_find_from(text@, open_tag(), pos as int);
                    }
                    match find_from_exec(&text, &tk.open, pos) {
                        Some(p) => {
                            let piece = slice_range(&text, pos, p);
                            assert(rest.take(p - pos) =~= piece@);
                            push_normal_exec(&mut segs, &piece);
                            assert(open_tag().len() == 18);
                            assert(rest.skip(p - pos + 18) =~= text@.skip(p + 18));
                            pos = p + 18;
                            mode = DsmlState::Block(Vec::new());
                        },
                        None => {
                            let tail = slice_range(&text, pos, text.len());
                            assert(tail@ =~= rest);
                            let h = suffix_prefix_len_exec(&tail, &tk.open);
                            proof {
                                crate::text::lemma_suffix_prefix_upto(
                                    tail@,
                                    open_tag(),
                                    if tail@.len() < open_tag().len() { tail@.len() as int } else { open_tag().len() as int },
                                );
                            }
                            let cut = tail.len() - h;
                            let emit = slice_range(&tail, 0, cut);
                            assert(emit@ =~= rest.take(rest.len() - h));
                            push_normal_exec(&mut segs, &emit);
                            if h > 0 {
                                let held = slice_range(&tail, cut, tail.len());
                                assert(held@ =~= rest.skip(rest.len() - h));
                                mode = DsmlState::Held(held);
                            } else {
                                mode = DsmlState::Idle;
                            }
                            break;
                        },
                    }
                },
                DsmlState::Held(h) => {
                    mode = DsmlState::Held(h);
                    break;
                },
            }
        }
        self.state = mode;
        self.call_counter = counter;
        segs
    }

    /// Flushes what is buffered at the end of the stream (`spec_finish`): a
    /// held partial tag becomes text, and an unclosed block is parsed as it
    /// stands rather than dropped.
    pub fn finish(&mut self) -> (segments: Vec<DsmlSegment>)
        requires
            spec_finish(old(self)@).1.counter <= u32::MAX,
        ensures
            segs_view(segments@) == spec_finish(old(self)@).0,
            final(self)@ == spec_finish(old(self)@).1,
    {
        let mut segs: Vec<DsmlSegment> = Vec::new();
        let mut st = DsmlState::Idle;
        core::mem::swap(&mut st, &mut self.state);
        match st {
            DsmlState::Idle => {},
            DsmlState::Held(h) => {
                push_normal_exec(&mut segs, &h);
            },
            DsmlState::Block(buf) => {
                let tk = Tokens::new();
                let calls = parse_block_exec(&tk, &buf, self.call_counter);
                self.call_counter = self.call_counter + calls.len() as u32;
                push_calls_exec(&mut segs, calls);
            },
        }
        segs
    }
    /// The number of characters held back or buffered in an open block.
    fn pending(&self) -> (r: usize)
        ensures
            r == pending_len(self@.mode),
    {
        match &self.state {
            DsmlState::Idle => 0,
            DsmlState::Held(h) => h.len(),
            DsmlState::Block(b) => b.len(),
        }
    }

    /// Feeds a delta when the calls it could number stay within `u32`: when
    /// the calls numbered so far, the buffered characters and the delta's
    /// characters add up to at most `u32::MAX`, it feeds as `feed` does;
    /// otherwise it returns `None` and leaves the parser as it was.
    pub fn feed_checked(&mut self, delta: &str) -> (r: Option<Vec<DsmlSegment>>)
        ensures
            r is Some <==> old(self)@.counter + pending_len(old(self)@.mode) + delta@.len() <= u32::MAX,
            r matches Some(segs) ==> segs_view(segs@) == spec_feed(old(self)@, delta@).0 && final(self)@
                == spec_feed(old(self)@, delta@).1,
            r is None ==> final(self)@ == old(self)@,
    {
        let n = chars_of(delta).len();
        let held = self.pending();
        let room: u32 = u32::MAX - self.call_counter;
        if held as u64 <= room as u64 && n as u64 <= (room as u64) - (held as u64) {
            proof {
                lemma_feed_counter_bound(Seq::empty(), self@.mode, self@.counter, delta@);
            }
            Some(self.feed(delta))
        } else {
            None
        }
    }

    /// Flushes the parser when the calls it could number stay within `u32`:
    /// when the calls numbered so far and the buffered characters add up to
    /// at most `u32::MAX`, it finishes as `finish` does; otherwise it returns
    /// `None` and leaves the parser as it was.
    pub fn finish_checked(&mut self) -> (r: Option<Vec<DsmlSegment>>)
        ensures
            r is Some <==> old(self)@.counter + pending_len(old(self)@.mode) <= u32::MAX,
            r matches Some(segs) ==> segs_view(segs@) == spec_finish(old(self)@).0 && final(self)@ == spec_finish(
                old(self)@,
            ).1,
            r is None ==> final(self)@ == old(self)@,
    {
        let held = self.pending();
        let room: u32 = u32::MAX - self.call_counter;
        if held as u64 <= room as u64 {
            proof {
                if let ModeView::Block(buf) = self@.mode {
                    lemma_block_calls_len(buf, self@.counter);
                }
            }
            Some(self.finish())
        } else {
            None
        }
    }
}

} // verus!
