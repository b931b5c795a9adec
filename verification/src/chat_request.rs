//! Assembles a Chat Completions request from conversation items: the body
//! as a JSON value, whose compact text (object keys in sorted order, as
//! `serde_json::Map` keeps them) the contracts state, and the extra headers.
use vstd::prelude::*;
use std::collections::HashMap;
use crate::connectors::opt_view;
use crate::items::{
    ContentView, ItemView, LocalShellStatus, OutputPartView, PayloadView, ReasoningContentView,
    ResponseItem, ContentItem, ReasoningItemContent, FunctionCallOutputContentItem, items_view,
};
use crate::json::{
    entry_texts, join_commas, json_array, json_bool, json_clone, json_insert, json_model, json_null,
    json_object, json_string, json_string_literal, json_text, lemma_array_text, lemma_insert_texts,
    lemma_object_text, model_entries, models_of, render_object, sorted_insert, JsonModel,
};
use crate::text::{chars_eq, chars_of, contains, contains_exec, lowercase, push_str, to_lowercase};

verus! {

// ---------------------------------------------------------------------------
// Roles and model families
// ---------------------------------------------------------------------------

/// `role` is one of the roles the model accepts.
pub open spec fn role_supported(role: Seq<char>, roles: Seq<Seq<char>>) -> bool {
    exists|i: int| 0 <= i < roles.len() && roles[i] == role
}

/// Whether `role` is among `supported_roles`.
pub fn is_role_supported(role: &str, supported_roles: &[String]) -> (r: bool)
    ensures
        r == role_supported(role@, supported_roles@.map_values(|s: String| s@)),
{
    let ghost rv = supported_roles@.map_values(|s: String| s@);
    let rc = chars_of(role);
    let mut i: usize = 0;
    while i < supported_roles.len()
        invariant
            i <= supported_roles.len(),
            rv == supported_roles@.map_values(|s: String| s@),
            rc@ == role@,
            forall|k: int| 0 <= k < i ==> rv[k] != role@,
        decreases supported_roles.len() - i,
    {
        let c = chars_of(supported_roles[i].as_str());
        if chars_eq(&c, &rc) {
            assert(rv[i as int] == role@);
            return true;
        }
        i += 1;
    }
    false
}

/// `developer` falls back to `system`; other roles stay.
pub open spec fn fallback_role(role: Seq<char>) -> Seq<char> {
    if role == "developer"@ {
        "system"@
    } else {
        role
    }
}

/// The role to send in place of a role the model does not accept.
pub fn get_fallback_role(role: &str) -> (r: &str)
    ensures
        r@ == fallback_role(role@),
{
    let rc = chars_of(role);
    let dc = chars_of("developer");
    if chars_eq(&rc, &dc) {
        "system"
    } else {
        role
    }
}

/// A DeepSeek model or provider (pseudonyms included), judged on the
/// lower-cased identifier.
pub open spec fn deepseek_variant(identifier: Seq<char>) -> bool {
    let lower = lowercase(identifier);
    contains(lower, "deepseek"@) || contains(lower, "big-pickle"@) || contains(lower, "deep-seek"@)
        || (contains(lower, "r1"@) && contains(lower, "deep"@))
}

/// Whether an identifier names a DeepSeek variant.
pub fn is_deepseek_variant(identifier: &str) -> (r: bool)
    ensures
        r == deepseek_variant(identifier@),
{
    let lower = to_lowercase(identifier);
    let l = chars_of(lower.as_str());
    proof {
        reveal_strlit("deepseek");
        reveal_strlit("big-pickle");
        reveal_strlit("deep-seek");
        reveal_strlit("r1");
        reveal_strlit("deep");
    }
    let a = chars_of("deepseek");
    let b = chars_of("big-pickle");
    let c = chars_of("deep-seek");
    let d = chars_of("r1");
    let e = chars_of("deep");
    contains_exec(&l, &a) || contains_exec(&l, &b) || contains_exec(&l, &c) || (contains_exec(&l, &d)
        && contains_exec(&l, &e))
}

/// A model that refuses a role its definition may claim: DeepSeek variants
/// refuse `developer`.
pub open spec fn unsupports_role(model_slug: Seq<char>, role: Seq<char>) -> bool {
    role == "developer"@ && deepseek_variant(model_slug)
}

/// Whether the model explicitly refuses `role`.
pub fn provider_explicitly_unsupports_role(model_slug: &str, role: &str) -> (r: bool)
    ensures
        r == unsupports_role(model_slug@, role@),
{
    let rc = chars_of(role);
    let dc = chars_of("developer");
    if !chars_eq(&rc, &dc) {
        return false;
    }
    is_deepseek_variant(model_slug)
}

// ---------------------------------------------------------------------------
// JSON text of the body
// ---------------------------------------------------------------------------

pub open spec fn lit(s: Seq<char>) -> Seq<char> {
    json_string_literal(s)
}

/// The entries inserted in order into a sorted object.
pub open spec fn sorted_all(e: Seq<(Seq<char>, Seq<char>)>) -> Seq<(Seq<char>, Seq<char>)>
    decreases e.len(),
{
    if e.len() == 0 {
        Seq::empty()
    } else {
        sorted_insert(sorted_all(e.drop_last()), e.last().0, e.last().1)
    }
}

/// An object with the given entries.
pub open spec fn obj_text(e: Seq<(Seq<char>, Seq<char>)>) -> Seq<char> {
    render_object(sorted_all(e))
}

/// An array of the given item texts.
pub open spec fn list_text(items: Seq<Seq<char>>) -> Seq<char> {
    seq!['['] + join_commas(items) + seq![']']
}

/// A part of a message's or tool result's content.
pub enum PartV {
    Text(Seq<char>),
    Image(Seq<char>),
}

/// A tool call inside an assistant message.
pub enum CallV {
    Function { id: Seq<char>, name: Seq<char>, arguments: Seq<char> },
    LocalShell { id: Seq<char>, status: Seq<char>, action: Seq<char> },
    Custom { id: Option<Seq<char>>, name: Seq<char>, input: Seq<char> },
}

/// A value of a message object.
pub enum MV {
    Null,
    Str(Seq<char>),
    Parts(Seq<PartV>),
    Calls(Seq<CallV>),
}

pub open spec fn part_text(p: PartV) -> Seq<char> {
    match p {
        PartV::Text(t) => obj_text(seq![("type"@, lit("text"@)), ("text"@, lit(t))]),
        PartV::Image(u) => obj_text(
            seq![("type"@, lit("image_url"@)), ("image_url"@, obj_text(seq![("url"@, lit(u))]))],
        ),
    }
}

/// A string, or `null`.
pub open spec fn opt_lit(s: Option<Seq<char>>) -> Seq<char> {
    match s {
        Some(i) => lit(i),
        None => "null"@,
    }
}

pub open spec fn call_text(c: CallV) -> Seq<char> {
    match c {
        CallV::Function { id, name, arguments } => obj_text(
            seq![
                ("id"@, lit(id)),
                ("type"@, lit("function"@)),
                ("function"@, obj_text(seq![("name"@, lit(name)), ("arguments"@, lit(arguments))])),
            ],
        ),
        CallV::LocalShell { id, status, action } => obj_text(
            seq![
                ("id"@, lit(id)),
                ("type"@, lit("local_shell_call"@)),
                ("status"@, lit(status)),
                ("action"@, action),
            ],
        ),
        CallV::Custom { id, name, input } => obj_text(
            seq![
                ("id"@, opt_lit(id)),
                ("type"@, lit("custom"@)),
                ("custom"@, obj_text(seq![("name"@, lit(name)), ("input"@, lit(input))])),
            ],
        ),
    }
}

pub open spec fn mv_text(v: MV) -> Seq<char> {
    match v {
        MV::Null => "null"@,
        MV::Str(s) => lit(s),
        MV::Parts(ps) => list_text(ps.map_values(|p: PartV| part_text(p))),
        MV::Calls(cs) => list_text(cs.map_values(|c: CallV| call_text(c))),
    }
}

/// A message object: entries with distinct keys, in insertion order.
pub type MsgV = Seq<(Seq<char>, MV)>;

pub open spec fn msg_text(m: MsgV) -> Seq<char> {
    obj_text(m.map_values(|e: (Seq<char>, MV)| (e.0, mv_text(e.1))))
}

/// Position of `k` in a message.
pub open spec fn key_pos_from(m: MsgV, k: Seq<char>, i: int) -> Option<int>
    decreases m.len() - i,
{
    if i < 0 || i >= m.len() {
        None
    } else if m[i].0 == k {
        Some(i)
    } else {
        key_pos_from(m, k, i + 1)
    }
}

pub open spec fn key_pos(m: MsgV, k: Seq<char>) -> Option<int> {
    key_pos_from(m, k, 0)
}

pub open spec fn msg_get(m: MsgV, k: Seq<char>) -> Option<MV> {
    match key_pos(m, k) {
        Some(i) => Some(m[i].1),
        None => None,
    }
}

/// Sets `k` to `v`, in place when present.
pub open spec fn msg_put(m: MsgV, k: Seq<char>, v: MV) -> MsgV {
    match key_pos(m, k) {
        Some(i) => m.update(i, (k, v)),
        None => m.push((k, v)),
    }
}

// ---------------------------------------------------------------------------
// Reasoning anchoring
// ---------------------------------------------------------------------------

pub open spec fn is_role_msg(it: ItemView, role: Seq<char>) -> bool {
    match it {
        ItemView::Message { role: r, .. } => r == role,
        _ => false,
    }
}

/// The texts of a reasoning item's content, concatenated.
pub open spec fn reasoning_concat(c: Seq<ReasoningContentView>) -> Seq<char>
    decreases c.len(),
{
    if c.len() == 0 {
        Seq::empty()
    } else {
        reasoning_concat(c.drop_last()) + match c.last() {
            ReasoningContentView::ReasoningText(t) => t,
            ReasoningContentView::Text(t) => t,
        }
    }
}

/// The item a reasoning item's text is attached to: the assistant message
/// just before it (unless a user message follows), else the function call,
/// shell call or assistant message just after it.
pub open spec fn anchor(items: Seq<ItemView>, r: int) -> Option<int> {
    match items[r] {
        ItemView::Reasoning { content: Some(_), .. } => if r > 0 && is_role_msg(items[r - 1], "assistant"@)
            && (r + 1 >= items.len() || !is_role_msg(items[r + 1], "user"@)) {
            Some(r - 1)
        } else if r + 1 < items.len() && (items[r + 1] is FunctionCall || items[r + 1] is LocalShellCall
            || is_role_msg(items[r + 1], "assistant"@)) {
            Some(r + 1)
        } else {
            None
        },
        _ => None,
    }
}

pub open spec fn item_reasoning(it: ItemView) -> Seq<char> {
    match it {
        ItemView::Reasoning { content: Some(c), .. } => reasoning_concat(c),
        _ => Seq::empty(),
    }
}

/// The reasoning attached to item `idx` by the first `upto` items, in order.
pub open spec fn anchored(items: Seq<ItemView>, idx: int, upto: int) -> Option<Seq<char>>
    decreases upto,
{
    if upto <= 0 {
        None
    } else {
        let prev = anchored(items, idx, upto - 1);
        if anchor(items, upto - 1) == Some(idx) {
            Some(
                match prev {
                    Some(p) => p,
                    None => Seq::empty(),
                } + item_reasoning(items[upto - 1]),
            )
        } else {
            prev
        }
    }
}

pub open spec fn reasoning_at(items: Seq<ItemView>, idx: int) -> Option<Seq<char>> {
    anchored(items, idx, items.len() as int)
}

// ---------------------------------------------------------------------------
// Messages
// ---------------------------------------------------------------------------

/// What `build` reads besides the items.
pub struct BuildCfg {
    pub field: Seq<char>,
    pub roles: Seq<Seq<char>>,
    pub slug: Option<Seq<char>>,
}

/// The reasoning field: the one configured, else `reasoning_content` for
/// DeepSeek providers or models, else `reasoning`.
pub open spec fn reasoning_field_for(
    configured: Option<Seq<char>>,
    provider_name: Seq<char>,
    slug: Seq<char>,
) -> Seq<char> {
    match configured {
        Some(f) => f,
        None => if deepseek_variant(provider_name) || deepseek_variant(slug) {
            "reasoning_content"@
        } else {
            "reasoning"@
        },
    }
}

pub open spec fn effective_role(role: Seq<char>, cfg: BuildCfg) -> Seq<char> {
    if role_supported(role, cfg.roles) && !(match cfg.slug {
        Some(s) => unsupports_role(s, role),
        None => false,
    }) {
        role
    } else {
        fallback_role(role)
    }
}

pub open spec fn content_concat(c: Seq<ContentView>) -> Seq<char>
    decreases c.len(),
{
    if c.len() == 0 {
        Seq::empty()
    } else {
        content_concat(c.drop_last()) + match c.last() {
            ContentView::InputText(t) => t,
            ContentView::OutputText(t) => t,
            ContentView::InputImage(_) => Seq::empty(),
        }
    }
}

pub open spec fn content_part(c: ContentView) -> PartV {
    match c {
        ContentView::InputText(t) => PartV::Text(t),
        ContentView::OutputText(t) => PartV::Text(t),
        ContentView::InputImage(u) => PartV::Image(u),
    }
}

pub open spec fn has_image(c: Seq<ContentView>) -> bool {
    exists|i: int| 0 <= i < c.len() && c[i] is InputImage
}

pub open spec fn output_part(p: OutputPartView) -> PartV {
    match p {
        OutputPartView::InputText(t) => PartV::Text(t),
        OutputPartView::InputImage(u) => PartV::Image(u),
    }
}

pub open spec fn status_text(s: LocalShellStatus) -> Seq<char> {
    match s {
        LocalShellStatus::Completed => "completed"@,
        LocalShellStatus::InProgress => "in_progress"@,
        LocalShellStatus::Incomplete => "incomplete"@,
    }
}

/// Adds reasoning to a message holding tool calls: appended after a line
/// break to existing non-empty text under the field, else set.
pub open spec fn add_reasoning(m: MsgV, reasoning: Option<Seq<char>>, field: Seq<char>) -> MsgV {
    match reasoning {
        Some(r) => match msg_get(m, field) {
            Some(MV::Str(e)) => msg_put(m, field, MV::Str(if e.len() > 0 { e + seq!['\n'] + r } else { r })),
            _ => msg_put(m, field, MV::Str(r)),
        },
        None => m,
    }
}

/// Sets the reasoning field when there is reasoning text, or always for the
/// `reasoning_content` field.
pub open spec fn with_reasoning_field(m: MsgV, text: Seq<char>, field: Seq<char>) -> MsgV {
    if text.len() > 0 || field == "reasoning_content"@ {
        msg_put(m, field, MV::Str(text))
    } else {
        m
    }
}

pub open spec fn new_call_msg(call: CallV, reasoning: Option<Seq<char>>, field: Seq<char>) -> MsgV {
    with_reasoning_field(
        seq![("role"@, MV::Str("assistant"@)), ("content"@, MV::Null), ("tool_calls"@, MV::Calls(seq![call]))],
        match reasoning {
            Some(r) => r,
            None => Seq::empty(),
        },
        field,
    )
}

/// Tool calls join the assistant message just before them (after its text,
/// or after earlier calls); otherwise they open a new assistant message.
pub open spec fn push_tool_call(msgs: Seq<MsgV>, call: CallV, reasoning: Option<Seq<char>>, field: Seq<char>) -> Seq<MsgV> {
    if msgs.len() > 0 && msg_get(msgs.last(), "role"@) == Some(MV::Str("assistant"@)) {
        let last = msgs.last();
        match msg_get(last, "tool_calls"@) {
            Some(MV::Calls(cs)) => msgs.update(
                msgs.len() - 1,
                add_reasoning(msg_put(last, "tool_calls"@, MV::Calls(cs.push(call))), reasoning, field),
            ),
            Some(_) => msgs.push(new_call_msg(call, reasoning, field)),
            None => msgs.update(
                msgs.len() - 1,
                add_reasoning(msg_put(last, "tool_calls"@, MV::Calls(seq![call])), reasoning, field),
            ),
        }
    } else {
        msgs.push(new_call_msg(call, reasoning, field))
    }
}

/// Messages so far, and the text of the last assistant message sent.
pub struct Pass {
    pub msgs: Seq<MsgV>,
    pub last_assistant: Option<Seq<char>>,
}

/// One item turned into messages. A repeated assistant text is dropped.
pub open spec fn item_step(p: Pass, items: Seq<ItemView>, idx: int, cfg: BuildCfg) -> Pass {
    match items[idx] {
        ItemView::Message { role, content, .. } => {
            let text = content_concat(content);
            if role == "assistant"@ && p.last_assistant == Some(text) {
                p
            } else {
                let cv = if role == "assistant"@ {
                    MV::Str(text)
                } else if has_image(content) {
                    MV::Parts(content.map_values(|c: ContentView| content_part(c)))
                } else {
                    MV::Str(text)
                };
                let m0 = seq![("role"@, MV::Str(effective_role(role, cfg))), ("content"@, cv)];
                if role == "assistant"@ {
                    let rt = match reasoning_at(items, idx) {
                        Some(t) => t,
                        None => Seq::empty(),
                    };
                    Pass { msgs: p.msgs.push(with_reasoning_field(m0, rt, cfg.field)), last_assistant: Some(text) }
                } else {
                    Pass { msgs: p.msgs.push(m0), last_assistant: p.last_assistant }
                }
            }
        },
        ItemView::FunctionCall { name, arguments, call_id, .. } => Pass {
            msgs: push_tool_call(
                p.msgs,
                CallV::Function { id: call_id, name: name, arguments: arguments },
                reasoning_at(items, idx),
                cfg.field,
            ),
            ..p
        },
        ItemView::LocalShellCall { id, status, action, .. } => Pass {
            msgs: push_tool_call(
                p.msgs,
                CallV::LocalShell {
                    id: match id {
                        Some(i) => i,
                        None => Seq::empty(),
                    },
                    status: status_text(status),
                    action: json_text(action),
                },
                reasoning_at(items, idx),
                cfg.field,
            ),
            ..p
        },
        ItemView::FunctionCallOutput { call_id, output } => {
            let cv = match output.content_items {
                Some(parts) => MV::Parts(parts.map_values(|q: OutputPartView| output_part(q))),
                None => MV::Str(output.content),
            };
            Pass {
                msgs: p.msgs.push(
                    seq![("role"@, MV::Str("tool"@)), ("tool_call_id"@, MV::Str(call_id)), ("content"@, cv)],
                ),
                ..p
            }
        },
        ItemView::CustomToolCall { id, name, input, .. } => Pass {
            msgs: push_tool_call(
                p.msgs,
                CallV::Custom { id: id, name: name, input: input },
                reasoning_at(items, idx),
                cfg.field,
            ),
            ..p
        },
        ItemView::CustomToolCallOutput { call_id, output } => Pass {
            msgs: p.msgs.push(
                seq![("role"@, MV::Str("tool"@)), ("tool_call_id"@, MV::Str(call_id)), ("content"@, MV::Str(output))],
            ),
            ..p
        },
        _ => p,
    }
}

pub open spec fn system_msg(instructions: Seq<char>) -> MsgV {
    seq![("role"@, MV::Str("system"@)), ("content"@, MV::Str(instructions))]
}

/// The messages for the first `upto` items.
pub open spec fn pass_upto(instructions: Seq<char>, items: Seq<ItemView>, cfg: BuildCfg, upto: int) -> Pass
    decreases upto,
{
    if upto <= 0 {
        Pass { msgs: seq![system_msg(instructions)], last_assistant: None }
    } else {
        item_step(pass_upto(instructions, items, cfg, upto - 1), items, upto - 1, cfg)
    }
}

/// The messages of a request.
pub open spec fn chat_messages(instructions: Seq<char>, items: Seq<ItemView>, cfg: BuildCfg) -> Seq<MsgV> {
    pass_upto(instructions, items, cfg, items.len() as int).msgs
}

/// The request body.
pub open spec fn body_text(model: Seq<char>, msgs: Seq<MsgV>, tools: Seq<Seq<char>>) -> Seq<char> {
    obj_text(
        seq![
            ("model"@, lit(model)),
            ("messages"@, list_text(msgs.map_values(|m: MsgV| msg_text(m)))),
            ("stream"@, "true"@),
            ("stream_options"@, obj_text(seq![("include_usage"@, "true"@)])),
            ("tools"@, list_text(tools)),
        ],
    )
}

// ---------------------------------------------------------------------------
// Writing JSON text
// ---------------------------------------------------------------------------

/// Entries with their values written as text.
pub open spec fn pairs_view(v: Seq<(String, serde_json::Value)>) -> Seq<(Seq<char>, Seq<char>)> {
    v.map_values(|p: (String, serde_json::Value)| (p.0@, json_text(json_model(p.1))))
}

/// The texts of values.
pub open spec fn texts_of(v: Seq<serde_json::Value>) -> Seq<Seq<char>> {
    v.map_values(|x: serde_json::Value| json_text(json_model(x)))
}

/// An object with the given entries, inserted in order.
fn obj_value(entries: Vec<(String, serde_json::Value)>) -> (r: serde_json::Value)
    ensures
        json_text(json_model(r)) == obj_text(pairs_view(entries@)),
{
    let ghost pv = pairs_view(entries@);
    let ghost orig = entries@;
    let n: usize = entries.len();
    let mut rest = entries;
    let mut obj = json_object();
    let mut i: usize = 0;
    assert(entry_texts(model_entries(json_model(obj))) =~= sorted_all(pv.take(0)));
    assert(rest@ =~= orig.skip(0));
    while rest.len() > 0
        invariant
            i <= orig.len(),
            rest@ == orig.skip(i as int),
            rest.len() == orig.len() - i,
            orig.len() <= usize::MAX,
            pv == pairs_view(orig),
            json_model(obj) is Object,
            entry_texts(model_entries(json_model(obj))) == sorted_all(pv.take(i as int)),
        decreases rest.len(),
    {
        let (k, v) = rest.remove(0);
        proof {
            assert(orig[i as int] == (k, v));
            assert(pv.take(i + 1).drop_last() =~= pv.take(i as int));
            assert(pv.take(i + 1).last() == pv[i as int]);
            lemma_insert_texts(model_entries(json_model(obj)), k@, json_model(v));
            assert(orig.skip(i as int).remove(0) =~= orig.skip(i + 1));
        }
        json_insert(&mut obj, k, v);
        i += 1;
    }
    assert(pv.take(i as int) =~= pv);
    proof {
        lemma_object_text(model_entries(json_model(obj)));
    }
    obj
}

/// A JSON string.
fn str_value(s: &str) -> (r: serde_json::Value)
    ensures
        json_text(json_model(r)) == lit(s@),
{
    json_string(s.to_string())
}

/// An array of the given values.
fn list_value(items: Vec<serde_json::Value>) -> (r: serde_json::Value)
    ensures
        json_text(json_model(r)) == list_text(texts_of(items@)),
{
    let ghost ms = models_of(items@);
    let r = json_array(items);
    proof {
        lemma_array_text(ms);
        assert(ms.map_values(|x: JsonModel| json_text(x)) =~= texts_of(items@));
    }
    r
}

fn pair(k: &str, v: serde_json::Value) -> (r: (String, serde_json::Value))
    ensures
        r.0@ == k@,
        r.1 == v,
{
    (k.to_string(), v)
}

/// A part of content.
pub enum PartVal {
    Text(String),
    Image(String),
}

impl View for PartVal {
    type V = PartV;

    open spec fn view(&self) -> PartV {
        match self {
            PartVal::Text(t) => PartV::Text(t@),
            PartVal::Image(u) => PartV::Image(u@),
        }
    }
}

/// A tool call inside an assistant message.
pub enum CallVal {
    Function { id: String, name: String, arguments: String },
    LocalShell { id: String, status: String, action: serde_json::Value },
    Custom { id: Option<String>, name: String, input: String },
}

impl View for CallVal {
    type V = CallV;

    open spec fn view(&self) -> CallV {
        match self {
            CallVal::Function { id, name, arguments } => CallV::Function { id: id@, name: name@, arguments: arguments@ },
            CallVal::LocalShell { id, status, action } => CallV::LocalShell {
                id: id@,
                status: status@,
                action: json_text(json_model(*action)),
            },
            CallVal::Custom { id, name, input } => CallV::Custom { id: opt_view(*id), name: name@, input: input@ },
        }
    }
}

/// A value of a message object.
pub enum MsgVal {
    Null,
    Str(String),
    Parts(Vec<PartVal>),
    Calls(Vec<CallVal>),
}

impl View for MsgVal {
    type V = MV;

    open spec fn view(&self) -> MV {
        match self {
            MsgVal::Null => MV::Null,
            MsgVal::Str(s) => MV::Str(s@),
            MsgVal::Parts(ps) => MV::Parts(ps@.map_values(|p: PartVal| p@)),
            MsgVal::Calls(cs) => MV::Calls(cs@.map_values(|c: CallVal| c@)),
        }
    }
}

fn part_value(p: &PartVal) -> (r: serde_json::Value)
    ensures
        json_text(json_model(r)) == part_text(p@),
{
    match p {
        PartVal::Text(t) => {
            let e = vec![pair("type", str_value("text")), pair("text", str_value(t.as_str()))];
            assert(pairs_view(e@) =~= seq![("type"@, lit("text"@)), ("text"@, lit(t@))]);
            obj_value(e)
        },
        PartVal::Image(u) => {
            let inner = vec![pair("url", str_value(u.as_str()))];
            assert(pairs_view(inner@) =~= seq![("url"@, lit(u@))]);
            let e = vec![pair("type", str_value("image_url")), pair("image_url", obj_value(inner))];
            assert(pairs_view(e@) =~= seq![
                ("type"@, lit("image_url"@)),
                ("image_url"@, obj_text(seq![("url"@, lit(u@))])),
            ]);
            obj_value(e)
        },
    }
}

fn function_call_value(id: &String, name: &String, arguments: &String) -> (r: serde_json::Value)
    ensures
        json_text(json_model(r)) == call_text(CallV::Function { id: id@, name: name@, arguments: arguments@ }),
{
    let inner = vec![pair("name", str_value(name.as_str())), pair("arguments", str_value(arguments.as_str()))];
    assert(pairs_view(inner@) =~= seq![("name"@, lit(name@)), ("arguments"@, lit(arguments@))]);
    let f = obj_value(inner);
    let e = vec![pair("id", str_value(id.as_str())), pair("type", str_value("function")), pair("function", f)];
    assert(pairs_view(e@) =~= seq![
        ("id"@, lit(id@)),
        ("type"@, lit("function"@)),
        ("function"@, obj_text(seq![("name"@, lit(name@)), ("arguments"@, lit(arguments@))])),
    ]);
    obj_value(e)
}

fn shell_call_value(id: &String, status: &String, action: &serde_json::Value) -> (r: serde_json::Value)
    ensures
        json_text(json_model(r)) == call_text(
            CallV::LocalShell { id: id@, status: status@, action: json_text(json_model(*action)) },
        ),
{
    let e = vec![
        pair("id", str_value(id.as_str())),
        pair("type", str_value("local_shell_call")),
        pair("status", str_value(status.as_str())),
        pair("action", json_clone(action)),
    ];
    assert(pairs_view(e@) =~= seq![
        ("id"@, lit(id@)),
        ("type"@, lit("local_shell_call"@)),
        ("status"@, lit(status@)),
        ("action"@, json_text(json_model(*action))),
    ]);
    obj_value(e)
}

fn custom_call_value(id: &Option<String>, name: &String, input: &String) -> (r: serde_json::Value)
    ensures
        json_text(json_model(r)) == call_text(CallV::Custom { id: opt_view(*id), name: name@, input: input@ }),
{
    let inner = vec![pair("name", str_value(name.as_str())), pair("input", str_value(input.as_str()))];
    assert(pairs_view(inner@) =~= seq![("name"@, lit(name@)), ("input"@, lit(input@))]);
    let idv = match id {
        Some(i) => str_value(i.as_str()),
        None => json_null(),
    };
    let ghost idt: Seq<char> = opt_lit(opt_view(*id));
    assert(json_text(json_model(idv)) == idt);
    let e = vec![pair("id", idv), pair("type", str_value("custom")), pair("custom", obj_value(inner))];
    assert(pairs_view(e@) =~= seq![
        ("id"@, idt),
        ("type"@, lit("custom"@)),
        ("custom"@, obj_text(seq![("name"@, lit(name@)), ("input"@, lit(input@))])),
    ]);
    obj_value(e)
}

fn call_value(c: &CallVal) -> (r: serde_json::Value)
    ensures
        json_text(json_model(r)) == call_text(c@),
{
    match c {
        CallVal::Function { id, name, arguments } => function_call_value(id, name, arguments),
        CallVal::LocalShell { id, status, action } => shell_call_value(id, status, action),
        CallVal::Custom { id, name, input } => custom_call_value(id, name, input),
    }
}

fn mv_value(v: &MsgVal) -> (r: serde_json::Value)
    ensures
        json_text(json_model(r)) == mv_text(v@),
{
    match v {
        MsgVal::Null => json_null(),
        MsgVal::Str(s) => str_value(s.as_str()),
        MsgVal::Parts(ps) => {
            let mut vals: Vec<serde_json::Value> = Vec::new();
            let mut i: usize = 0;
            while i < ps.len()
                invariant
                    i <= ps.len(),
                    texts_of(vals@) =~= ps@.map_values(|p: PartVal| p@).map_values(|p: PartV| part_text(p)).take(
                        i as int,
                    ),
                decreases ps.len() - i,
            {
                let t = part_value(&ps[i]);
                let ghost prev = vals@;
                let ghost tv = json_text(json_model(t));
                vals.push(t);
                proof {
                    let full = ps@.map_values(|p: PartVal| p@).map_values(|p: PartV| part_text(p));
                    assert(texts_of(vals@) =~= texts_of(prev).push(tv));
                    assert(full.take(i + 1) =~= full.take(i as int).push(full[i as int]));
                }
                i += 1;
            }
            assert(texts_of(vals@) =~= ps@.map_values(|p: PartVal| p@).map_values(|p: PartV| part_text(p)));
            list_value(vals)
        },
        MsgVal::Calls(cs) => {
            let mut vals: Vec<serde_json::Value> = Vec::new();
            let mut i: usize = 0;
            while i < cs.len()
                invariant
                    i <= cs.len(),
                    texts_of(vals@) =~= cs@.map_values(|c: CallVal| c@).map_values(|c: CallV| call_text(c)).take(
                        i as int,
                    ),
                decreases cs.len() - i,
            {
                let t = call_value(&cs[i]);
                let ghost prev = vals@;
                let ghost tv = json_text(json_model(t));
                vals.push(t);
                proof {
                    let full = cs@.map_values(|p: CallVal| p@).map_values(|p: CallV| call_text(p));
                    assert(texts_of(vals@) =~= texts_of(prev).push(tv));
                    assert(full.take(i + 1) =~= full.take(i as int).push(full[i as int]));
                }
                i += 1;
            }
            assert(texts_of(vals@) =~= cs@.map_values(|c: CallVal| c@).map_values(|c: CallV| call_text(c)));
            list_value(vals)
        },
    }
}

pub open spec fn msg_view(m: Seq<(String, MsgVal)>) -> MsgV {
    m.map_values(|e: (String, MsgVal)| (e.0@, e.1@))
}

pub open spec fn msgs_view(ms: Seq<Vec<(String, MsgVal)>>) -> Seq<MsgV> {
    ms.map_values(|m: Vec<(String, MsgVal)>| msg_view(m@))
}

fn msg_value(m: &Vec<(String, MsgVal)>) -> (r: serde_json::Value)
    ensures
        json_text(json_model(r)) == msg_text(msg_view(m@)),
{
    let ghost target = msg_view(m@).map_values(|e: (Seq<char>, MV)| (e.0, mv_text(e.1)));
    let mut entries: Vec<(String, serde_json::Value)> = Vec::new();
    let mut i: usize = 0;
    while i < m.len()
        invariant
            i <= m.len(),
            target == msg_view(m@).map_values(|e: (Seq<char>, MV)| (e.0, mv_text(e.1))),
            pairs_view(entries@) =~= target.take(i as int),
        decreases m.len() - i,
    {
        let k = m[i].0.clone();
        let v = mv_value(&m[i].1);
        let ghost prev = entries@;
        let pr = (k, v);
        let ghost pv = (pr.0@, json_text(json_model(pr.1)));
        entries.push(pr);
        proof {
            assert(entries@ =~= prev.push(pr));
            assert(pairs_view(entries@) =~= pairs_view(prev).push(pv));
            assert(target.take(i + 1) =~= target.take(i as int).push(target[i as int]));
        }
        i += 1;
    }
    assert(pairs_view(entries@) =~= target);
    obj_value(entries)
}

// ---------------------------------------------------------------------------
// Message objects
// ---------------------------------------------------------------------------

type Msg = Vec<(String, MsgVal)>;

fn str_eq(a: &str, b: &str) -> (r: bool)
    ensures
        r == (a@ == b@),
{
    let x = chars_of(a);
    let y = chars_of(b);
    chars_eq(&x, &y)
}

fn key_pos_exec(m: &Msg, k: &str) -> (r: Option<usize>)
    ensures
        match r {
            Some(i) => key_pos(msg_view(m@), k@) == Some(i as int),
            None => key_pos(msg_view(m@), k@) is None,
        },
{
    let ghost mv = msg_view(m@);
    let mut i: usize = 0;
    while i < m.len()
        invariant
            i <= m.len(),
            mv == msg_view(m@),
            key_pos_from(mv, k@, 0) == key_pos_from(mv, k@, i as int),
        decreases m.len() - i,
    {
        if str_eq(m[i].0.as_str(), k) {
            return Some(i);
        }
        i += 1;
    }
    None
}

proof fn lemma_key_pos(m: MsgV, k: Seq<char>, i: int)
    requires
        0 <= i,
    ensures
        key_pos_from(m, k, i) matches Some(p) ==> i <= p < m.len() && m[p].0 == k,
    decreases m.len() - i,
{
    if i < m.len() && m[i].0 != k {
        lemma_key_pos(m, k, i + 1);
    }
}

fn msg_put_exec(m: &mut Msg, k: String, v: MsgVal)
    ensures
        msg_view(final(m)@) == msg_put(msg_view(old(m)@), k@, v@),
{
    let ghost mv = msg_view(m@);
    let ghost kv = (k@, v@);
    match key_pos_exec(m, k.as_str()) {
        Some(i) => {
            proof {
                lemma_key_pos(mv, k@, 0);
            }
            let ghost before = m@;
            m.set(i, (k, v));
            assert(msg_view(m@) =~= mv.update(i as int, kv));
        },
        None => {
            let ghost before = m@;
            m.push((k, v));
            assert(msg_view(m@) =~= mv.push(kv));
        },
    }
}

fn with_reasoning_field_exec(m: Msg, text: String, field: &str) -> (r: Msg)
    ensures
        msg_view(r@) == with_reasoning_field(msg_view(m@), text@, field@),
{
    let mut m = m;
    proof {
        reveal_strlit("reasoning_content");
    }
    if !text.as_str().is_empty() || str_eq(field, "reasoning_content") {
        msg_put_exec(&mut m, field.to_string(), MsgVal::Str(text));
    }
    m
}

fn add_reasoning_exec(m: &mut Msg, reasoning: Option<String>, field: &str)
    ensures
        msg_view(final(m)@) == add_reasoning(msg_view(old(m)@), opt_view(reasoning), field@),
{
    match reasoning {
        Some(r) => {
            let ghost mv = msg_view(m@);
            match key_pos_exec(m, field) {
                Some(i) => {
                    proof {
                        lemma_key_pos(mv, field@, 0);
                    }
                    let is_str = match &m[i].1 {
                        MsgVal::Str(_) => true,
                        _ => false,
                    };
                    if is_str {
                        let (k, v) = m.remove(i);
                        let mut t = match v {
                            MsgVal::Str(e) => e,
                            _ => String::new(),
                        };
                        let ghost e = t@;
                        if !t.as_str().is_empty() {
                            crate::text::push_char(&mut t, '\n');
                        }
                        push_str(&mut t, r.as_str());
                        assert(t@ == (if e.len() > 0 { e + seq!['\n'] + r@ } else { r@ }));
                        m.insert(i, (k, MsgVal::Str(t)));
                        assert(msg_view(m@) =~= mv.update(i as int, (field@, MV::Str(t@))));
                    } else {
                        msg_put_exec(m, field.to_string(), MsgVal::Str(r));
                    }
                },
                None => {
                    msg_put_exec(m, field.to_string(), MsgVal::Str(r));
                },
            }
        },
        None => {},
    }
}

fn new_call_msg_exec(call: CallVal, reasoning: Option<String>, field: &str) -> (r: Msg)
    ensures
        msg_view(r@) == new_call_msg(call@, opt_view(reasoning), field@),
{
    let ghost cv = call@;
    let m: Msg = vec![
        ("role".to_string(), MsgVal::Str("assistant".to_string())),
        ("content".to_string(), MsgVal::Null),
        ("tool_calls".to_string(), MsgVal::Calls(vec![call])),
    ];
    assert(msg_view(m@) =~= seq![
        ("role"@, MV::Str("assistant"@)),
        ("content"@, MV::Null),
        ("tool_calls"@, MV::Calls(seq![cv])),
    ]) by {
        if let MsgVal::Calls(cs) = m@[2].1 {
            assert(cs@.map_values(|c: CallVal| c@) =~= seq![cv]);
        }
    }
    let text = match reasoning {
        Some(r) => r,
        None => String::new(),
    };
    with_reasoning_field_exec(m, text, field)
}

pub open spec fn msg_role_is_assistant(m: MsgV) -> bool {
    msg_get(m, "role"@) == Some(MV::Str("assistant"@))
}

fn role_is_assistant(m: &Msg) -> (r: bool)
    ensures
        r == msg_role_is_assistant(msg_view(m@)),
{
    proof {
        reveal_strlit("assistant");
    }
    match key_pos_exec(m, "role") {
        Some(i) => {
            proof {
                lemma_key_pos(msg_view(m@), "role"@, 0);
            }
            match &m[i].1 {
                MsgVal::Str(s) => str_eq(s.as_str(), "assistant"),
                _ => false,
            }
        },
        None => false,
    }
}

/// Adds a tool call to the messages (`push_tool_call`).
fn push_tool_call_message(msgs: &mut Vec<Msg>, call: CallVal, reasoning: Option<String>, field: &str)
    ensures
        msgs_view(final(msgs)@) == push_tool_call(msgs_view(old(msgs)@), call@, opt_view(reasoning), field@),
{
    let ghost ms = msgs_view(msgs@);
    let ghost cv = call@;
    let n = msgs.len();
    if n > 0 && role_is_assistant(&msgs[n - 1]) {
        let mut last = msgs.pop().unwrap();
        assert(msgs_view(msgs@) =~= ms.drop_last());
        let ghost lv = msg_view(last@);
        assert(lv == ms.last());
        match key_pos_exec(&last, "tool_calls") {
            Some(i) => {
                proof {
                    lemma_key_pos(lv, "tool_calls"@, 0);
                }
                let is_calls = match &last[i].1 {
                    MsgVal::Calls(_) => true,
                    _ => false,
                };
                if is_calls {
                    let (k, v) = last.remove(i);
                    let mut cs = match v {
                        MsgVal::Calls(cs) => cs,
                        _ => Vec::new(),
                    };
                    let ghost csv = cs@.map_values(|c: CallVal| c@);
                    cs.push(call);
                    assert(cs@.map_values(|c: CallVal| c@) =~= csv.push(cv));
                    last.insert(i, (k, MsgVal::Calls(cs)));
                    assert(msg_view(last@) =~= msg_put(lv, "tool_calls"@, MV::Calls(csv.push(cv))));
                    add_reasoning_exec(&mut last, reasoning, field);
                    msgs.push(last);
                    assert(msgs_view(msgs@) =~= ms.update(ms.len() - 1, msg_view(last@)));
                } else {
                    msgs.push(last);
                    assert(msgs_view(msgs@) =~= ms);
                    let nm = new_call_msg_exec(call, reasoning, field);
                    msgs.push(nm);
                    assert(msgs_view(msgs@) =~= ms.push(msg_view(nm@)));
                }
            },
            None => {
                let cs = vec![call];
                assert(cs@.map_values(|c: CallVal| c@) =~= seq![cv]);
                msg_put_exec(&mut last, "tool_calls".to_string(), MsgVal::Calls(cs));
                add_reasoning_exec(&mut last, reasoning, field);
                msgs.push(last);
                assert(msgs_view(msgs@) =~= ms.update(ms.len() - 1, msg_view(last@)));
            },
        }
    } else {
        let nm = new_call_msg_exec(call, reasoning, field);
        msgs.push(nm);
        assert(msgs_view(msgs@) =~= ms.push(msg_view(nm@)));
    }
}

// ---------------------------------------------------------------------------
// Reading items
// ---------------------------------------------------------------------------

fn reasoning_concat_exec(c: &Vec<ReasoningItemContent>) -> (r: String)
    ensures
        r@ == reasoning_concat(c@.map_values(|x: ReasoningItemContent| x@)),
{
    let ghost cv = c@.map_values(|x: ReasoningItemContent| x@);
    let mut t = String::new();
    let mut i: usize = 0;
    assert(cv.take(0) =~= Seq::<ReasoningContentView>::empty());
    while i < c.len()
        invariant
            i <= c.len(),
            cv == c@.map_values(|x: ReasoningItemContent| x@),
            t@ == reasoning_concat(cv.take(i as int)),
        decreases c.len() - i,
    {
        proof {
            assert(cv.take(i + 1).drop_last() =~= cv.take(i as int));
            assert(cv.take(i + 1).last() == cv[i as int]);
        }
        match &c[i] {
            ReasoningItemContent::ReasoningText { text } => push_str(&mut t, text.as_str()),
            ReasoningItemContent::Text { text } => push_str(&mut t, text.as_str()),
        }
        i += 1;
    }
    assert(cv.take(c.len() as int) =~= cv);
    t
}

fn is_role_msg_exec(it: &ResponseItem, role: &str) -> (r: bool)
    ensures
        r == is_role_msg(it@, role@),
{
    match it {
        ResponseItem::Message { role: r, .. } => str_eq(r.as_str(), role),
        _ => false,
    }
}

fn anchor_exec(items: &[ResponseItem], r: usize) -> (a: Option<usize>)
    requires
        r < items.len(),
    ensures
        match a {
            Some(k) => anchor(items_view(items@), r as int) == Some(k as int),
            None => anchor(items_view(items@), r as int) is None,
        },
{
    let ghost iv = items_view(items@);
    proof {
        reveal_strlit("assistant");
        reveal_strlit("user");
    }
    match &items[r] {
        ResponseItem::Reasoning { content: Some(_), .. } => {
            if r > 0 && is_role_msg_exec(&items[r - 1], "assistant") && (r + 1 >= items.len()
                || !is_role_msg_exec(&items[r + 1], "user")) {
                Some(r - 1)
            } else if r + 1 < items.len() && (match &items[r + 1] {
                ResponseItem::FunctionCall { .. } => true,
                ResponseItem::LocalShellCall { .. } => true,
                _ => false,
            } || is_role_msg_exec(&items[r + 1], "assistant")) {
                Some(r + 1)
            } else {
                None
            }
        },
        _ => None,
    }
}

/// The text a map of anchors holds for item `idx`.
pub open spec fn anchor_text(m: Map<usize, String>, idx: int) -> Option<Seq<char>> {
    if 0 <= idx <= usize::MAX && m.contains_key(idx as usize) {
        Some(m[idx as usize]@)
    } else {
        None
    }
}

/// The reasoning text attached to each item (`reasoning_at`), keyed by the
/// item's index.
fn compute_anchors(items: &[ResponseItem]) -> (m: HashMap<usize, String>)
    ensures
        forall|idx: int| 0 <= idx < items.len() ==> #[trigger] anchor_text(m@, idx) == reasoning_at(items_view(items@), idx),
{
    broadcast use vstd::std_specs::hash::group_hash_axioms;

    let ghost iv = items_view(items@);
    let n = items.len();
    let mut m: HashMap<usize, String> = HashMap::new();
    let mut r: usize = 0;
    while r < n
        invariant
            r <= n,
            n == items.len(),
            iv == items_view(items@),
            forall|idx: int| 0 <= idx < n ==> #[trigger] anchor_text(m@, idx) == anchored(iv, idx, r as int),
        decreases n - r,
    {
        let a = anchor_exec(items, r);
        match a {
            Some(k) => {
                let text = match &items[r] {
                    ResponseItem::Reasoning { content: Some(c), .. } => reasoning_concat_exec(c),
                    _ => String::new(),
                };
                assert(text@ == item_reasoning(iv[r as int]));
                let ghost old_m = m@;
                let prev = match m.get(&k) {
                    Some(p) => p.clone(),
                    None => String::new(),
                };
                assert(anchor_text(old_m, k as int) == anchored(iv, k as int, r as int));
                let mut joined = prev;
                push_str(&mut joined, text.as_str());
                m.insert(k, joined);
                assert forall|idx: int| 0 <= idx < n implies #[trigger] anchor_text(m@, idx) == anchored(iv, idx, r + 1) by {
                    if idx != k {
                        assert(anchor_text(m@, idx) == anchor_text(old_m, idx));
                        assert(anchored(iv, idx, r as int) == anchor_text(old_m, idx));
                    }
                }
            },
            None => {
                assert forall|idx: int| 0 <= idx < n implies #[trigger] anchor_text(m@, idx) == anchored(iv, idx, r + 1) by {
                    assert(anchored(iv, idx, r as int) == anchor_text(m@, idx));
                }
            },
        }
        r += 1;
    }
    m
}

fn content_concat_exec(c: &Vec<ContentItem>) -> (r: String)
    ensures
        r@ == content_concat(c@.map_values(|x: ContentItem| x@)),
{
    let ghost cv = c@.map_values(|x: ContentItem| x@);
    let mut t = String::new();
    let mut i: usize = 0;
    assert(cv.take(0) =~= Seq::<ContentView>::empty());
    while i < c.len()
        invariant
            i <= c.len(),
            cv == c@.map_values(|x: ContentItem| x@),
            t@ == content_concat(cv.take(i as int)),
        decreases c.len() - i,
    {
        proof {
            assert(cv.take(i + 1).drop_last() =~= cv.take(i as int));
            assert(cv.take(i + 1).last() == cv[i as int]);
        }
        match &c[i] {
            ContentItem::InputText { text } => push_str(&mut t, text.as_str()),
            ContentItem::OutputText { text } => push_str(&mut t, text.as_str()),
            ContentItem::InputImage { .. } => {
                assert(t@ + Seq::<char>::empty() =~= t@);
            },
        }
        i += 1;
    }
    assert(cv.take(c.len() as int) =~= cv);
    t
}

fn content_parts_exec(c: &Vec<ContentItem>) -> (r: (Vec<PartVal>, bool))
    ensures
        r.0@.map_values(|p: PartVal| p@) == c@.map_values(|x: ContentItem| x@).map_values(|x: ContentView| content_part(x)),
        r.1 == has_image(c@.map_values(|x: ContentItem| x@)),
{
    let ghost cv = c@.map_values(|x: ContentItem| x@);
    let ghost target = cv.map_values(|x: ContentView| content_part(x));
    let mut parts: Vec<PartVal> = Vec::new();
    let mut saw = false;
    let mut i: usize = 0;
    while i < c.len()
        invariant
            i <= c.len(),
            cv == c@.map_values(|x: ContentItem| x@),
            target == cv.map_values(|x: ContentView| content_part(x)),
            parts@.map_values(|p: PartVal| p@) =~= target.take(i as int),
            saw == (exists|k: int| 0 <= k < i && cv[k] is InputImage),
        decreases c.len() - i,
    {
        let p = match &c[i] {
            ContentItem::InputText { text } => PartVal::Text(text.clone()),
            ContentItem::OutputText { text } => PartVal::Text(text.clone()),
            ContentItem::InputImage { image_url } => {
                saw = true;
                PartVal::Image(image_url.clone())
            },
        };
        let ghost prev = parts@;
        let ghost pv = p@;
        assert(pv == target[i as int]);
        parts.push(p);
        assert(parts@.map_values(|p: PartVal| p@) =~= prev.map_values(|p: PartVal| p@).push(pv));
        assert(target.take(i + 1) =~= target.take(i as int).push(target[i as int]));
        i += 1;
    }
    assert(target.take(c.len() as int) =~= target);
    (parts, saw)
}

fn output_parts_exec(c: &Vec<FunctionCallOutputContentItem>) -> (r: Vec<PartVal>)
    ensures
        r@.map_values(|p: PartVal| p@) == c@.map_values(|x: FunctionCallOutputContentItem| x@).map_values(
            |x: OutputPartView| output_part(x),
        ),
{
    let ghost target = c@.map_values(|x: FunctionCallOutputContentItem| x@).map_values(
        |x: OutputPartView| output_part(x),
    );
    let mut parts: Vec<PartVal> = Vec::new();
    let mut i: usize = 0;
    while i < c.len()
        invariant
            i <= c.len(),
            target == c@.map_values(|x: FunctionCallOutputContentItem| x@).map_values(
                |x: OutputPartView| output_part(x),
            ),
            parts@.map_values(|p: PartVal| p@) =~= target.take(i as int),
        decreases c.len() - i,
    {
        let p = match &c[i] {
            FunctionCallOutputContentItem::InputText { text } => PartVal::Text(text.clone()),
            FunctionCallOutputContentItem::InputImage { image_url } => PartVal::Image(image_url.clone()),
        };
        let ghost prev = parts@;
        let ghost pv = p@;
        assert(pv == target[i as int]);
        parts.push(p);
        assert(parts@.map_values(|p: PartVal| p@) =~= prev.map_values(|p: PartVal| p@).push(pv));
        assert(target.take(i + 1) =~= target.take(i as int).push(target[i as int]));
        i += 1;
    }
    assert(target.take(c.len() as int) =~= target);
    parts
}

fn status_text_exec(s: LocalShellStatus) -> (r: String)
    ensures
        r@ == status_text(s),
{
    match s {
        LocalShellStatus::Completed => "completed".to_string(),
        LocalShellStatus::InProgress => "in_progress".to_string(),
        LocalShellStatus::Incomplete => "incomplete".to_string(),
    }
}

// ---------------------------------------------------------------------------
// Building a request
// ---------------------------------------------------------------------------

pub open spec fn roles_view(v: Seq<String>) -> Seq<Seq<char>> {
    v.map_values(|s: String| s@)
}

pub open spec fn str_opt(o: Option<&str>) -> Option<Seq<char>> {
    match o {
        Some(s) => Some(s@),
        None => None,
    }
}

fn effective_role_exec(role: &str, roles: &Vec<String>, slug: Option<&str>) -> (r: String)
    ensures
        r@ == effective_role(role@, BuildCfg { field: Seq::empty(), roles: roles_view(roles@), slug: str_opt(slug) }),
{
    let unsupported = match slug {
        Some(s) => provider_explicitly_unsupports_role(s, role),
        None => false,
    };
    if is_role_supported(role, roles.as_slice()) && !unsupported {
        role.to_string()
    } else {
        get_fallback_role(role).to_string()
    }
}

/// One item turned into messages (`item_step`).
fn item_step_exec(
    msgs: &mut Vec<Msg>,
    last: &mut Option<String>,
    items: &[ResponseItem],
    idx: usize,
    anchors: &HashMap<usize, String>,
    field: &str,
    roles: &Vec<String>,
    slug: Option<&str>,
)
    requires
        idx < items.len(),
        forall|k: int| 0 <= k < items.len() ==> #[trigger] anchor_text(anchors@, k) == reasoning_at(items_view(items@), k),
    ensures
        ({
            let p = item_step(
                Pass { msgs: msgs_view(old(msgs)@), last_assistant: opt_view(*old(last)) },
                items_view(items@),
                idx as int,
                BuildCfg { field: field@, roles: roles_view(roles@), slug: str_opt(slug) },
            );
            &&& msgs_view(final(msgs)@) == p.msgs
            &&& opt_view(*final(last)) == p.last_assistant
        }),
{
    let ghost iv = items_view(items@);
    let ghost ms = msgs_view(msgs@);
    let ghost cfg = BuildCfg { field: field@, roles: roles_view(roles@), slug: str_opt(slug) };
    proof {
        reveal_strlit("assistant");
    }
    let reasoning: Option<String> = match anchors.get(&idx) {
        Some(t) => Some(t.clone()),
        None => None,
    };
    assert(anchor_text(anchors@, idx as int) == reasoning_at(iv, idx as int));
    assert(opt_view(reasoning) == reasoning_at(iv, idx as int));
    match &items[idx] {
        ResponseItem::Message { role, content, .. } => {
            let text = content_concat_exec(content);
            let is_asst = str_eq(role.as_str(), "assistant");
            let repeated = match &*last {
                Some(l) => is_asst && str_eq(l.as_str(), text.as_str()),
                None => false,
            };
            if repeated {
                return;
            }
            let (parts, saw) = content_parts_exec(content);
            let cv = if is_asst {
                MsgVal::Str(text.clone())
            } else if saw {
                MsgVal::Parts(parts)
            } else {
                MsgVal::Str(text.clone())
            };
            let eff = effective_role_exec(role.as_str(), roles, slug);
            let ghost cvv = cv@;
            let ghost effv = eff@;
            let m0: Msg = vec![("role".to_string(), MsgVal::Str(eff)), ("content".to_string(), cv)];
            assert(msg_view(m0@) =~= seq![("role"@, MV::Str(effv)), ("content"@, cvv)]);
            if is_asst {
                let rt = match reasoning {
                    Some(t) => t,
                    None => String::new(),
                };
                let m = with_reasoning_field_exec(m0, rt, field);
                let ghost mv = msg_view(m@);
                msgs.push(m);
                assert(msgs_view(msgs@) =~= ms.push(mv));
                *last = Some(text);
            } else {
                let ghost mv = msg_view(m0@);
                msgs.push(m0);
                assert(msgs_view(msgs@) =~= ms.push(mv));
            }
        },
        ResponseItem::FunctionCall { name, arguments, call_id, .. } => {
            let call = CallVal::Function { id: call_id.clone(), name: name.clone(), arguments: arguments.clone() };
            push_tool_call_message(msgs, call, reasoning, field);
        },
        ResponseItem::LocalShellCall { id, status, action, .. } => {
            let idt = match id {
                Some(i) => i.clone(),
                None => String::new(),
            };
            let call = CallVal::LocalShell { id: idt, status: status_text_exec(*status), action: json_clone(action) };
            push_tool_call_message(msgs, call, reasoning, field);
        },
        ResponseItem::FunctionCallOutput { call_id, output } => {
            let cv = match &output.content_items {
                Some(parts) => MsgVal::Parts(output_parts_exec(parts)),
                None => MsgVal::Str(output.content.clone()),
            };
            let ghost cvv = cv@;
            let m: Msg = vec![
                ("role".to_string(), MsgVal::Str("tool".to_string())),
                ("tool_call_id".to_string(), MsgVal::Str(call_id.clone())),
                ("content".to_string(), cv),
            ];
            let ghost mv = msg_view(m@);
            assert(mv =~= seq![("role"@, MV::Str("tool"@)), ("tool_call_id"@, MV::Str(call_id@)), ("content"@, cvv)]);
            msgs.push(m);
            assert(msgs_view(msgs@) =~= ms.push(mv));
        },
        ResponseItem::CustomToolCall { id, name, input, .. } => {
            let idc = match id {
                Some(i) => Some(i.clone()),
                None => None,
            };
            let call = CallVal::Custom { id: idc, name: name.clone(), input: input.clone() };
            push_tool_call_message(msgs, call, reasoning, field);
        },
        ResponseItem::CustomToolCallOutput { call_id, output } => {
            let m: Msg = vec![
                ("role".to_string(), MsgVal::Str("tool".to_string())),
                ("tool_call_id".to_string(), MsgVal::Str(call_id.clone())),
                ("content".to_string(), MsgVal::Str(output.clone())),
            ];
            let ghost mv = msg_view(m@);
            assert(mv =~= seq![("role"@, MV::Str("tool"@)), ("tool_call_id"@, MV::Str(call_id@)), ("content"@, MV::Str(output@))]);
            msgs.push(m);
            assert(msgs_view(msgs@) =~= ms.push(mv));
        },
        _ => {},
    }
}

/// What kind of session a request comes from, when it is a sub-agent.
#[derive(Debug, Clone, PartialEq, Eq)]
pub enum SubAgentSource {
    Review,
    Compact,
    Other(String),
}

/// Where a session was started.
#[derive(Debug, Clone, PartialEq, Eq)]
pub enum SessionSource {
    Cli,
    VSCode,
    Exec,
    Mcp,
    SubAgent(SubAgentSource),
    Unknown,
}

/// The sub-agent label of a session, if it is a sub-agent's.
pub open spec fn subagent_label(s: Option<SessionSource>) -> Option<Seq<char>> {
    match s {
        Some(SessionSource::SubAgent(a)) => Some(
            match a {
                SubAgentSource::Review => "review"@,
                SubAgentSource::Compact => "compact"@,
                SubAgentSource::Other(l) => l@,
            },
        ),
        _ => None,
    }
}

/// The `x-openai-subagent` header value for a session source.
pub fn subagent_header(source: &Option<SessionSource>) -> (r: Option<String>)
    ensures
        opt_view(r) == subagent_label(*source),
{
    match source {
        Some(SessionSource::SubAgent(a)) => Some(
            match a {
                SubAgentSource::Review => "review".to_string(),
                SubAgentSource::Compact => "compact".to_string(),
                SubAgentSource::Other(l) => l.clone(),
            },
        ),
        _ => None,
    }
}

pub open spec fn headers_view(h: Seq<(String, String)>) -> Seq<(Seq<char>, Seq<char>)> {
    h.map_values(|p: (String, String)| (p.0@, p.1@))
}

/// The extra headers of a request: the conversation id as `session_id`,
/// and the sub-agent label as `x-openai-subagent`.
pub open spec fn request_headers(conversation_id: Option<Seq<char>>, source: Option<SessionSource>) -> Seq<(Seq<char>, Seq<char>)> {
    (match conversation_id {
        Some(id) => seq![("session_id"@, id)],
        None => Seq::empty(),
    }) + (match subagent_label(source) {
        Some(l) => seq![("x-openai-subagent"@, l)],
        None => Seq::empty(),
    })
}

/// Which API a provider speaks.
#[derive(Debug, Clone, Copy, PartialEq, Eq)]
pub enum WireApi {
    Responses,
    Chat,
}

/// A model provider, as far as requests are concerned.
#[derive(Debug, Clone, PartialEq, Eq)]
pub struct Provider {
    pub name: String,
    pub base_url: String,
    pub wire: WireApi,
}

/// The messages as JSON values.
fn msg_values(msgs: &Vec<Msg>) -> (r: Vec<serde_json::Value>)
    ensures
        texts_of(r@) == msgs_view(msgs@).map_values(|m: MsgV| msg_text(m)),
{
    let mut msg_vals: Vec<serde_json::Value> = Vec::new();
    let mut i: usize = 0;
    let ghost mv = msgs_view(msgs@);
    while i < msgs.len()
        invariant
            i <= msgs.len(),
            mv == msgs_view(msgs@),
            texts_of(msg_vals@) =~= mv.map_values(|m: MsgV| msg_text(m)).take(i as int),
        decreases msgs.len() - i,
    {
        let t = msg_value(&msgs[i]);
        let ghost prev = msg_vals@;
        let ghost tv = json_text(json_model(t));
        msg_vals.push(t);
        proof {
            let full = mv.map_values(|m: MsgV| msg_text(m));
            assert(texts_of(msg_vals@) =~= texts_of(prev).push(tv));
            assert(full.take(i + 1) =~= full.take(i as int).push(full[i as int]));
        }
        i += 1;
    }
    assert(mv.map_values(|m: MsgV| msg_text(m)).take(msgs.len() as int) =~= mv.map_values(|m: MsgV| msg_text(m)));
    msg_vals
}

/// Copies of the tool definitions.
fn tool_values(tools: &[serde_json::Value]) -> (r: Vec<serde_json::Value>)
    ensures
        texts_of(r@) == texts_of(tools@),
{
    let mut tool_vals: Vec<serde_json::Value> = Vec::new();
    let mut j: usize = 0;
    let ghost tools_v = texts_of(tools@);
    while j < tools.len()
        invariant
            j <= tools.len(),
            tools_v == texts_of(tools@),
            texts_of(tool_vals@) =~= tools_v.take(j as int),
        decreases tools.len() - j,
    {
        let t = json_clone(&tools[j]);
        let ghost prev = tool_vals@;
        let ghost tv = json_text(json_model(t));
        tool_vals.push(t);
        proof {
            assert(texts_of(tool_vals@) =~= texts_of(prev).push(tv));
            assert(tools_v.take(j + 1) =~= tools_v.take(j as int).push(tools_v[j as int]));
        }
        j += 1;
    }
    assert(tools_v.take(tools.len() as int) =~= tools_v);
    tool_vals
}

/// The request body for a model, its messages and its tools.
fn body_value(model: &str, msgs: &Vec<Msg>, tools: &[serde_json::Value]) -> (r: serde_json::Value)
    ensures
        json_text(json_model(r)) == body_text(model@, msgs_view(msgs@), texts_of(tools@)),
{
    let ghost mv = msgs_view(msgs@);
    let msg_vals = msg_values(msgs);
    let tool_vals = tool_values(tools);
    let opts = vec![pair("include_usage", json_bool(true))];
    assert(pairs_view(opts@) =~= seq![("include_usage"@, "true"@)]);
    let body_entries = vec![
        pair("model", str_value(model)),
        pair("messages", list_value(msg_vals)),
        pair("stream", json_bool(true)),
        pair("stream_options", obj_value(opts)),
        pair("tools", list_value(tool_vals)),
    ];
    assert(pairs_view(body_entries@) =~= seq![
        ("model"@, lit(model@)),
        ("messages"@, list_text(mv.map_values(|m: MsgV| msg_text(m)))),
        ("stream"@, "true"@),
        ("stream_options"@, obj_text(seq![("include_usage"@, "true"@)])),
        ("tools"@, list_text(texts_of(tools@))),
    ]);
    obj_value(body_entries)
}

/// An assembled request: the body as a JSON value, and extra headers as
/// `(name, value)` pairs.
pub struct ChatRequest {
    pub body: serde_json::Value,
    pub headers: Vec<(String, String)>,
}

/// Collects what a Chat Completions request is made of.
pub struct ChatRequestBuilder<'a> {
    model: &'a str,
    instructions: &'a str,
    input: &'a [ResponseItem],
    tools: &'a [serde_json::Value],
    conversation_id: Option<String>,
    session_source: Option<SessionSource>,
    supported_message_roles: Vec<String>,
    model_slug: Option<&'a str>,
    reasoning_field_name: Option<&'a str>,
}

/// The roles a model accepts unless told otherwise.
pub open spec fn default_roles() -> Seq<Seq<char>> {
    seq!["system"@, "user"@, "assistant"@, "tool"@]
}

impl<'a> ChatRequestBuilder<'a> {
    pub closed spec fn spec_model(&self) -> Seq<char> {
        self.model@
    }

    pub closed spec fn spec_instructions(&self) -> Seq<char> {
        self.instructions@
    }

    pub closed spec fn spec_input(&self) -> Seq<ItemView> {
        items_view(self.input@)
    }

    pub closed spec fn spec_tools(&self) -> Seq<Seq<char>> {
        self.tools@.map_values(|v: serde_json::Value| json_text(json_model(v)))
    }

    pub closed spec fn spec_conversation_id(&self) -> Option<Seq<char>> {
        opt_view(self.conversation_id)
    }

    pub closed spec fn spec_session_source(&self) -> Option<SessionSource> {
        self.session_source
    }

    pub closed spec fn spec_roles(&self) -> Seq<Seq<char>> {
        roles_view(self.supported_message_roles@)
    }

    pub closed spec fn spec_model_slug(&self) -> Option<Seq<char>> {
        str_opt(self.model_slug)
    }

    pub closed spec fn spec_reasoning_field_name(&self) -> Option<Seq<char>> {
        str_opt(self.reasoning_field_name)
    }

    /// A builder for a model, instructions, input items and tools, with the
    /// default roles and nothing else set.
    pub fn new(
        model: &'a str,
        instructions: &'a str,
        input: &'a [ResponseItem],
        tools: &'a [serde_json::Value],
    ) -> (r: Self)
        ensures
            r.spec_model() == model@,
            r.spec_instructions() == instructions@,
            r.spec_input() == items_view(input@),
            r.spec_tools() == tools@.map_values(|v: serde_json::Value| json_text(json_model(v))),
            r.spec_conversation_id() is None,
            r.spec_session_source() is None,
            r.spec_roles() == default_roles(),
            r.spec_model_slug() is None,
            r.spec_reasoning_field_name() is None,
    {
        let roles = vec!["system".to_string(), "user".to_string(), "assistant".to_string(), "tool".to_string()];
        let r = Self {
            model,
            instructions,
            input,
            tools,
            conversation_id: None,
            session_source: None,
            supported_message_roles: roles,
            model_slug: None,
            reasoning_field_name: None,
        };
        assert(r.spec_roles() =~= default_roles());
        r
    }

    /// Sets the conversation id.
    pub fn conversation_id(self, id: Option<String>) -> (r: Self)
        ensures
            r.spec_conversation_id() == opt_view(id),
            r.spec_model() == self.spec_model(),
            r.spec_instructions() == self.spec_instructions(),
            r.spec_input() == self.spec_input(),
            r.spec_tools() == self.spec_tools(),
            r.spec_session_source() == self.spec_session_source(),
            r.spec_roles() == self.spec_roles(),
            r.spec_model_slug() == self.spec_model_slug(),
            r.spec_reasoning_field_name() == self.spec_reasoning_field_name(),
    {
        let mut s = self;
        s.conversation_id = id;
        s
    }

    /// Sets where the session comes from.
    pub fn session_source(self, source: Option<SessionSource>) -> (r: Self)
        ensures
            r.spec_session_source() == source,
            r.spec_model() == self.spec_model(),
            r.spec_instructions() == self.spec_instructions(),
            r.spec_input() == self.spec_input(),
            r.spec_tools() == self.spec_tools(),
            r.spec_conversation_id() == self.spec_conversation_id(),
            r.spec_roles() == self.spec_roles(),
            r.spec_model_slug() == self.spec_model_slug(),
            r.spec_reasoning_field_name() == self.spec_reasoning_field_name(),
    {
        let mut s = self;
        s.session_source = source;
        s
    }

    /// Sets the roles the model accepts.
    pub fn supported_message_roles(self, roles: Vec<String>) -> (r: Self)
        ensures
            r.spec_roles() == roles_view(roles@),
            r.spec_model() == self.spec_model(),
            r.spec_instructions() == self.spec_instructions(),
            r.spec_input() == self.spec_input(),
            r.spec_tools() == self.spec_tools(),
            r.spec_conversation_id() == self.spec_conversation_id(),
            r.spec_session_source() == self.spec_session_source(),
            r.spec_model_slug() == self.spec_model_slug(),
            r.spec_reasoning_field_name() == self.spec_reasoning_field_name(),
    {
        let mut s = self;
        s.supported_message_roles = roles;
        s
    }

    /// Sets the model slug used to recognise the model family.
    pub fn model_slug(self, slug: &'a str) -> (r: Self)
        ensures
            r.spec_model_slug() == Some(slug@),
            r.spec_model() == self.spec_model(),
            r.spec_instructions() == self.spec_instructions(),
            r.spec_input() == self.spec_input(),
            r.spec_tools() == self.spec_tools(),
            r.spec_conversation_id() == self.spec_conversation_id(),
            r.spec_session_source() == self.spec_session_source(),
            r.spec_roles() == self.spec_roles(),
            r.spec_reasoning_field_name() == self.spec_reasoning_field_name(),
    {
        let mut s = self;
        s.model_slug = Some(slug);
        s
    }

    /// Sets the name of the field that carries reasoning text.
    pub fn reasoning_field_name(self, name: Option<&'a str>) -> (r: Self)
        ensures
            r.spec_reasoning_field_name() == str_opt(name),
            r.spec_model() == self.spec_model(),
            r.spec_instructions() == self.spec_instructions(),
            r.spec_input() == self.spec_input(),
            r.spec_tools() == self.spec_tools(),
            r.spec_conversation_id() == self.spec_conversation_id(),
            r.spec_session_source() == self.spec_session_source(),
            r.spec_roles() == self.spec_roles(),
            r.spec_model_slug() == self.spec_model_slug(),
    {
        let mut s = self;
        s.reasoning_field_name = name;
        s
    }

    /// The reasoning field this request uses.
    pub open spec fn spec_field(&self, provider: &Provider) -> Seq<char> {
        reasoning_field_for(
            self.spec_reasoning_field_name(),
            provider.name@,
            match self.spec_model_slug() {
                Some(s) => s,
                None => self.spec_model(),
            },
        )
    }

    /// Assembles the request: a system message with the instructions, then
    /// the items as Chat Completions messages (`chat_messages`), streamed with
    /// usage reported; and the conversation and sub-agent headers.
    pub fn build(self, provider: &Provider) -> (r: Result<ChatRequest, crate::items::ApiError>)
        ensures
            r matches Ok(req) && json_text(json_model(req.body)) == body_text(
                self.spec_model(),
                chat_messages(
                    self.spec_instructions(),
                    self.spec_input(),
                    BuildCfg {
                        field: self.spec_field(provider),
                        roles: self.spec_roles(),
                        slug: self.spec_model_slug(),
                    },
                ),
                self.spec_tools(),
            ) && headers_view(req.headers@) == request_headers(
                self.spec_conversation_id(),
                self.spec_session_source(),
            ),
    {
        proof {
            reveal_strlit("reasoning_content");
            reveal_strlit("reasoning");
        }
        let field: &str = match self.reasoning_field_name {
            Some(f) => f,
            None => {
                let slug = match self.model_slug {
                    Some(s) => s,
                    None => self.model,
                };
                if is_deepseek_variant(provider.name.as_str()) || is_deepseek_variant(slug) {
                    "reasoning_content"
                } else {
                    "reasoning"
                }
            },
        };
        let input = self.input;
        let ghost iv = items_view(input@);
        let ghost cfg = BuildCfg { field: field@, roles: roles_view(self.supported_message_roles@), slug: str_opt(self.model_slug) };
        let anchors = compute_anchors(input);
        let mut msgs: Vec<Msg> = Vec::new();
        let sys: Msg = vec![
            ("role".to_string(), MsgVal::Str("system".to_string())),
            ("content".to_string(), MsgVal::Str(self.instructions.to_string())),
        ];
        assert(msg_view(sys@) =~= system_msg(self.instructions@));
        let ghost sv = msg_view(sys@);
        msgs.push(sys);
        assert(msgs_view(msgs@) =~= seq![sv]);
        let mut last: Option<String> = None;
        let mut idx: usize = 0;
        assert(msgs_view(msgs@) =~= pass_upto(self.instructions@, iv, cfg, 0).msgs);
        while idx < input.len()
            invariant
                idx <= input.len(),
                iv == items_view(input@),
                forall|k: int| 0 <= k < input.len() ==> #[trigger] anchor_text(anchors@, k) == reasoning_at(iv, k),
                cfg == (BuildCfg { field: field@, roles: roles_view(self.supported_message_roles@), slug: str_opt(self.model_slug) }),
                msgs_view(msgs@) == pass_upto(self.instructions@, iv, cfg, idx as int).msgs,
                opt_view(last) == pass_upto(self.instructions@, iv, cfg, idx as int).last_assistant,
            decreases input.len() - idx,
        {
            item_step_exec(
                &mut msgs,
                &mut last,
                input,
                idx,
                &anchors,
                field,
                &self.supported_message_roles,
                self.model_slug,
            );
            idx += 1;
        }
        let body = body_value(self.model, &msgs, self.tools);
        let mut headers: Vec<(String, String)> = Vec::new();
        match &self.conversation_id {
            Some(id) => {
                headers.push(("session_id".to_string(), id.clone()));
            },
            None => {},
        }
        let ghost h1 = headers@;
        match subagent_header(&self.session_source) {
            Some(label) => {
                headers.push(("x-openai-subagent".to_string(), label));
            },
            None => {},
        }
        assert(headers_view(headers@) =~= request_headers(opt_view(self.conversation_id), self.session_source));
        Ok(ChatRequest { body, headers })
    }
}


/// The part of a chat client that the library holds: the provider it talks
/// to. Sending requests is the caller's work.
pub struct ChatClient {
    provider: Provider,
}

/// The endpoint path for a provider's wire API.
pub open spec fn wire_path(wire: WireApi) -> Seq<char> {
    match wire {
        WireApi::Chat => "chat/completions"@,
        WireApi::Responses => "responses"@,
    }
}

/// The roles a request admits: those given, or the defaults.
pub open spec fn roles_or_default(roles: Option<Vec<String>>) -> Seq<Seq<char>> {
    match roles {
        Some(r) => roles_view(r@),
        None => default_roles(),
    }
}

impl ChatClient {
    pub closed spec fn spec_provider(&self) -> Provider {
        self.provider
    }

    /// A client for a provider.
    pub fn new(provider: Provider) -> (r: Self)
        ensures
            r.spec_provider() == provider,
    {
        ChatClient { provider }
    }

    /// The provider this client talks to.
    pub fn provider(&self) -> (r: &Provider)
        ensures
            *r == self.spec_provider(),
    {
        &self.provider
    }

    /// The path requests are sent to: `chat/completions` for the Chat wire
    /// API, `responses` otherwise.
    pub fn path(&self) -> (r: &'static str)
        ensures
            r@ == wire_path(self.spec_provider().wire),
    {
        proof {
            reveal_strlit("chat/completions");
            reveal_strlit("responses");
        }
        match self.provider.wire {
            WireApi::Chat => "chat/completions",
            WireApi::Responses => "responses",
        }
    }

    /// The request a prompt is streamed with: the model's name doubles as
    /// its slug, roles default unless given, and the reasoning field is the
    /// one named or the provider's.
    pub fn prompt_request(
        &self,
        model: &str,
        instructions: &str,
        input: &[ResponseItem],
        tools: &[serde_json::Value],
        conversation_id: Option<String>,
        session_source: Option<SessionSource>,
        supported_message_roles: Option<Vec<String>>,
        reasoning_field_name: Option<&str>,
    ) -> (r: Result<ChatRequest, crate::items::ApiError>)
        ensures
            r matches Ok(req) && json_text(json_model(req.body)) == body_text(
                model@,
                chat_messages(
                    instructions@,
                    items_view(input@),
                    BuildCfg {
                        field: reasoning_field_for(str_opt(reasoning_field_name), self.spec_provider().name@, model@),
                        roles: roles_or_default(supported_message_roles),
                        slug: Some(model@),
                    },
                ),
                tools@.map_values(|v: serde_json::Value| json_text(json_model(v))),
            ) && headers_view(req.headers@) == request_headers(opt_view(conversation_id), session_source),
    {
        let ghost cid = opt_view(conversation_id);
        let mut builder = ChatRequestBuilder::new(model, instructions, input, tools)
            .conversation_id(conversation_id)
            .session_source(session_source)
            .model_slug(model)
            .reasoning_field_name(reasoning_field_name);
        match supported_message_roles {
            Some(roles) => {
                builder = builder.supported_message_roles(roles);
            },
            None => {},
        }
        assert(cid == builder.spec_conversation_id());
        builder.build(&self.provider)
    }
}

/// The message a tool result is sent as: role `tool`, the id of the call it
/// answers, and as content the output's text, or, when the output has
/// content items, a text part for each text item and an image part for each
/// image item, in order.
pub open spec fn tool_result_message(call_id: Seq<char>, content: Seq<char>, items: Option<Seq<OutputPartView>>) -> MsgV {
    seq![
        ("role"@, MV::Str("tool"@)),
        ("tool_call_id"@, MV::Str(call_id)),
        ("content"@, match items {
            None => MV::Str(content),
            Some(parts) => MV::Parts(
                parts.map_values(
                    |q: OutputPartView| match q {
                        OutputPartView::InputText(t) => PartV::Text(t),
                        OutputPartView::InputImage(u) => PartV::Image(u),
                    },
                ),
            ),
        }),
    ]
}

/// A message whose role is not `assistant`.
pub open spec fn not_assistant(m: MsgV) -> bool {
    msg_get(m, "role"@) != Some(MV::Str("assistant"@))
}

proof fn lemma_item_step_keeps(p: Pass, items: Seq<ItemView>, idx: int, cfg: BuildCfg)
    requires
        0 <= idx < items.len(),
    ensures
        item_step(p, items, idx, cfg).msgs.len() >= p.msgs.len(),
        forall|j: int|
            0 <= j < p.msgs.len() && not_assistant(p.msgs[j]) ==> #[trigger] item_step(p, items, idx, cfg).msgs[j]
                == p.msgs[j],
{
}

proof fn lemma_pass_keeps(instructions: Seq<char>, items: Seq<ItemView>, cfg: BuildCfg, from: int, upto: int, j: int)
    requires
        0 <= from <= upto <= items.len(),
        0 <= j < pass_upto(instructions, items, cfg, from).msgs.len(),
        not_assistant(pass_upto(instructions, items, cfg, from).msgs[j]),
    ensures
        j < pass_upto(instructions, items, cfg, upto).msgs.len(),
        pass_upto(instructions, items, cfg, upto).msgs[j] == pass_upto(instructions, items, cfg, from).msgs[j],
    decreases upto - from,
{
    if upto > from {
        lemma_pass_keeps(instructions, items, cfg, from, upto - 1, j);
        lemma_item_step_keeps(pass_upto(instructions, items, cfg, upto - 1), items, upto - 1, cfg);
    }
}

/// Every custom tool-call output in the conversation reaches the model as a
/// tool message with the id of the call it answers and the output's text as
/// content.
pub proof fn law_custom_tool_outputs_are_sent(instructions: Seq<char>, items: Seq<ItemView>, cfg: BuildCfg, idx: int)
    requires
        0 <= idx < items.len(),
    ensures
        items[idx] matches ItemView::CustomToolCallOutput { call_id, output } ==> exists|j: int|
            0 <= j < chat_messages(instructions, items, cfg).len() && #[trigger] chat_messages(
                instructions,
                items,
                cfg,
            )[j] == tool_result_message(call_id, output, None),
{
    reveal_strlit("tool");
    reveal_strlit("assistant");
    reveal_strlit("role");
    if let ItemView::CustomToolCallOutput { call_id, output } = items[idx] {
        let p = pass_upto(instructions, items, cfg, idx);
        let m = tool_result_message(call_id, output, None);
        let j = p.msgs.len() as int;
        let after = pass_upto(instructions, items, cfg, idx + 1);
        assert(after == item_step(p, items, idx, cfg));
        assert(after.msgs[j] =~= m);
        assert(key_pos(m, "role"@) == Some(0int));
        assert(not_assistant(m)) by {
            assert("tool"@.len() != "assistant"@.len());
        }
        lemma_pass_keeps(instructions, items, cfg, idx + 1, items.len() as int, j);
        assert(chat_messages(instructions, items, cfg)[j] == m);
    }
}

/// Every function-call output in the conversation reaches the model: the
/// request's messages hold the tool message for it, with the id of the call
/// it answers and, as content, exactly the output's text (or, with content
/// items, the parts of those items).
pub proof fn law_tool_outputs_are_sent(instructions: Seq<char>, items: Seq<ItemView>, cfg: BuildCfg, idx: int)
    requires
        0 <= idx < items.len(),
    ensures
        items[idx] matches ItemView::FunctionCallOutput { call_id, output } ==> exists|j: int|
            0 <= j < chat_messages(instructions, items, cfg).len() && #[trigger] chat_messages(
                instructions,
                items,
                cfg,
            )[j] == tool_result_message(call_id, output.content, output.content_items),
{
    reveal_strlit("tool");
    reveal_strlit("assistant");
    reveal_strlit("role");
    if let ItemView::FunctionCallOutput { call_id, output } = items[idx] {
        let p = pass_upto(instructions, items, cfg, idx);
        let m = tool_result_message(call_id, output.content, output.content_items);
        let j = p.msgs.len() as int;
        let after = pass_upto(instructions, items, cfg, idx + 1);
        assert(after == item_step(p, items, idx, cfg));
        if let Some(parts) = output.content_items {
            assert(parts.map_values(|q: OutputPartView| output_part(q)) =~= parts.map_values(
                |q: OutputPartView| match q {
                    OutputPartView::InputText(t) => PartV::Text(t),
                    OutputPartView::InputImage(u) => PartV::Image(u),
                },
            ));
        }
        assert(after.msgs[j] =~= m);
        assert(key_pos(m, "role"@) == Some(0int));
        assert(not_assistant(m)) by {
            assert("tool"@.len() != "assistant"@.len());
        }
        lemma_pass_keeps(instructions, items, cfg, idx + 1, items.len() as int, j);
        assert(chat_messages(instructions, items, cfg)[j] == m);
    }
}

/// The texts of message content, one after another (images carry none).
pub open spec fn texts_of_content(c: Seq<ContentView>) -> Seq<char>
    decreases c.len(),
{
    if c.len() == 0 {
        Seq::empty()
    } else {
        let t = match c.last() {
            ContentView::InputText(t) => t,
            ContentView::OutputText(t) => t,
            ContentView::InputImage(_) => Seq::empty(),
        };
        texts_of_content(c.drop_last()) + t
    }
}

proof fn lemma_texts_of_content(c: Seq<ContentView>)
    ensures
        texts_of_content(c) == content_concat(c),
    decreases c.len(),
{
    if c.len() > 0 {
        lemma_texts_of_content(c.drop_last());
    }
}

/// Every message that is not the assistant's and carries no image reaches
/// the model as a message with its (effective) role and, as content, all
/// its texts joined in order.
pub proof fn law_text_messages_are_sent(instructions: Seq<char>, items: Seq<ItemView>, cfg: BuildCfg, idx: int)
    requires
        0 <= idx < items.len(),
    ensures
        items[idx] matches ItemView::Message { role, content, .. } ==> (
            role != "assistant"@
            && effective_role(role, cfg) != "assistant"@
            && (forall|i: int| 0 <= i < content.len() ==> !(#[trigger] content[i] is InputImage))
        ) ==> exists|j: int|
            0 <= j < chat_messages(instructions, items, cfg).len() && #[trigger] chat_messages(
                instructions,
                items,
                cfg,
            )[j] == seq![
                ("role"@, MV::Str(effective_role(role, cfg))),
                ("content"@, MV::Str(texts_of_content(content))),
            ],
{
    reveal_strlit("assistant");
    reveal_strlit("role");
    if let ItemView::Message { role, content, .. } = items[idx] {
        if role != "assistant"@ && effective_role(role, cfg) != "assistant"@ && (forall|i: int|
            0 <= i < content.len() ==> !(#[trigger] content[i] is InputImage)) {
            lemma_texts_of_content(content);
            let p = pass_upto(instructions, items, cfg, idx);
            let m = seq![
                ("role"@, MV::Str(effective_role(role, cfg))),
                ("content"@, MV::Str(texts_of_content(content))),
            ];
            let j = p.msgs.len() as int;
            let after = pass_upto(instructions, items, cfg, idx + 1);
            assert(after == item_step(p, items, idx, cfg));
            assert(!has_image(content));
            assert(after.msgs[j] =~= m);
            assert(key_pos(m, "role"@) == Some(0int));
            assert(not_assistant(m));
            lemma_pass_keeps(instructions, items, cfg, idx + 1, items.len() as int, j);
            assert(chat_messages(instructions, items, cfg)[j] == m);
        }
    }
}

} // verus!
