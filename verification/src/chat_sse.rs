//! The decisions of a Chat Completions event stream: each server-sent event's
//! data goes in, the response events it completes come out.
//!
//! The reader that waits for the next event (with an idle timeout) and sends
//! the produced events on is the caller's; `ChatSseState` holds what the
//! stream has accumulated between events.
use vstd::prelude::*;
use crate::items::{
    ApiError, ApiErrorView, ContentItem, ContentView, EventView, ItemView, OutView,
    ReasoningContentView, ReasoningItemContent, ResponseEvent, ResponseItem, TokenUsage,
    empty_assistant, empty_reasoning, new_assistant_message, new_reasoning_item, outs_view,
};
use crate::json::{
    json_as_array, json_as_i64, json_as_str, json_as_u64, json_get, json_model, json_parse,
    json_text, json_to_string, model_array, model_get, model_i64, model_str, model_u64, models_of,
    parse_json, JsonModel,
};
use crate::text::{push_str, chars_eq, chars_of, decimal, decimal_exec, extend_chars, string_from_chars, trim, trim_chars};

verus! {

// ---------------------------------------------------------------------------
// Model
// ---------------------------------------------------------------------------

/// A tool call being streamed, keyed by its index.
pub struct SlotView {
    pub index: usize,
    pub id: Option<Seq<char>>,
    pub name: Option<Seq<char>>,
    pub arguments: Seq<char>,
}

/// What the stream has accumulated: tool calls in the order their indices
/// first appeared, the index each call id was first given, the next index to
/// hand out, the index of the last tool-call delta, the texts of the open
/// assistant and reasoning items, and whether completion was reported.
pub struct SseView {
    pub slots: Seq<SlotView>,
    pub ids: Seq<(Seq<char>, usize)>,
    pub next_index: usize,
    pub last_index: Option<usize>,
    pub assistant: Option<Seq<Seq<char>>>,
    pub reasoning: Option<Seq<Seq<char>>>,
    pub completed_sent: bool,
}

pub open spec fn initial_sse() -> SseView {
    SseView {
        slots: Seq::empty(),
        ids: Seq::empty(),
        next_index: 0,
        last_index: None,
        assistant: None,
        reasoning: None,
        completed_sent: false,
    }
}

pub open spec fn ev(e: EventView) -> OutView {
    OutView::Event(e)
}

/// A JSON string under `key`.
pub open spec fn get_str(v: JsonModel, key: Seq<char>) -> Option<Seq<char>> {
    match model_get(v, key) {
        Some(x) => model_str(x),
        None => None,
    }
}

/// A JSON array under `key`.
pub open spec fn get_array(v: JsonModel, key: Seq<char>) -> Option<Seq<JsonModel>> {
    match model_get(v, key) {
        Some(x) => model_array(x),
        None => None,
    }
}

/// An `i64` under `key`, 0 when missing or not an `i64`.
pub open spec fn get_i64_or_zero(v: JsonModel, key: Seq<char>) -> i64 {
    match model_get(v, key) {
        Some(x) => match model_i64(x) {
            Some(n) => n,
            None => 0,
        },
        None => 0,
    }
}

/// An `i64` under `outer`.`inner`, 0 when missing.
pub open spec fn nested_i64_or_zero(v: JsonModel, outer: Seq<char>, inner: Seq<char>) -> i64 {
    match model_get(v, outer) {
        Some(d) => get_i64_or_zero(d, inner),
        None => 0,
    }
}

/// The token usage of an event body, when it reports a positive count.
pub open spec fn parse_usage(v: JsonModel) -> Option<TokenUsage> {
    match model_get(v, "usage"@) {
        None => None,
        Some(u) => {
            let t = TokenUsage {
                input_tokens: get_i64_or_zero(u, "prompt_tokens"@),
                cached_input_tokens: nested_i64_or_zero(u, "prompt_tokens_details"@, "cached_tokens"@),
                output_tokens: get_i64_or_zero(u, "completion_tokens"@),
                reasoning_output_tokens: nested_i64_or_zero(
                    u,
                    "completion_tokens_details"@,
                    "reasoning_tokens"@,
                ),
                total_tokens: get_i64_or_zero(u, "total_tokens"@),
            };
            if t.total_tokens > 0 || t.input_tokens > 0 || t.output_tokens > 0 {
                Some(t)
            } else {
                None
            }
        },
    }
}

pub open spec fn texts_to_output(ts: Seq<Seq<char>>) -> Seq<ContentView> {
    ts.map_values(|t: Seq<char>| ContentView::OutputText(t))
}

pub open spec fn texts_to_reasoning(ts: Seq<Seq<char>>) -> Seq<ReasoningContentView> {
    ts.map_values(|t: Seq<char>| ReasoningContentView::ReasoningText(t))
}

/// The assistant message made of the streamed texts.
pub open spec fn assistant_with(ts: Seq<Seq<char>>) -> ItemView {
    ItemView::Message {
        id: None,
        role: "assistant"@,
        content: texts_to_output(ts),
        end_turn: None,
        phase: None,
    }
}

/// The reasoning item made of the streamed texts.
pub open spec fn reasoning_with(ts: Seq<Seq<char>>) -> ItemView {
    ItemView::Reasoning {
        id: Seq::empty(),
        summary: Seq::empty(),
        content: Some(texts_to_reasoning(ts)),
        encrypted_content: None,
    }
}

/// Adds a reasoning text, opening the reasoning item first when needed.
pub open spec fn append_reasoning(st: SseView, outs: Seq<OutView>, text: Seq<char>) -> (SseView, Seq<OutView>) {
    let (texts, outs1) = match st.reasoning {
        None => (Seq::<Seq<char>>::empty(), outs.push(ev(EventView::OutputItemAdded(empty_reasoning())))),
        Some(t) => (t, outs),
    };
    (
        SseView { reasoning: Some(texts.push(text)), ..st },
        outs1.push(ev(EventView::ReasoningContentDelta { delta: text, content_index: texts.len() as i64 })),
    )
}

/// Adds an assistant text, opening the assistant message first when needed.
pub open spec fn append_assistant(st: SseView, outs: Seq<OutView>, text: Seq<char>) -> (SseView, Seq<OutView>) {
    let (texts, outs1) = match st.assistant {
        None => (Seq::<Seq<char>>::empty(), outs.push(ev(EventView::OutputItemAdded(empty_assistant())))),
        Some(t) => (t, outs),
    };
    (SseView { assistant: Some(texts.push(text)), ..st }, outs1.push(ev(EventView::OutputTextDelta(text))))
}

/// The reasoning of a delta or message: `reasoning`, else `reasoning_content`.
pub open spec fn reasoning_field(d: JsonModel) -> Option<JsonModel> {
    match model_get(d, "reasoning"@) {
        Some(r) => Some(r),
        None => model_get(d, "reasoning_content"@),
    }
}

/// The text of a reasoning value: a string, or a string under `text`, or
/// under `content`.
pub open spec fn reasoning_text(r: JsonModel) -> Option<Seq<char>> {
    match model_str(r) {
        Some(t) => Some(t),
        None => match get_str(r, "text"@) {
            Some(t) => Some(t),
            None => get_str(r, "content"@),
        },
    }
}

pub open spec fn apply_reasoning(st: SseView, outs: Seq<OutView>, d: JsonModel) -> (SseView, Seq<OutView>) {
    match reasoning_field(d) {
        Some(r) => match reasoning_text(r) {
            Some(t) => append_reasoning(st, outs, t),
            None => (st, outs),
        },
        None => (st, outs),
    }
}

/// The non-empty texts of content parts, each added in turn.
pub open spec fn append_content_items(st: SseView, outs: Seq<OutView>, items: Seq<JsonModel>) -> (SseView, Seq<OutView>)
    decreases items.len(),
{
    if items.len() == 0 {
        (st, outs)
    } else {
        let (s1, o1) = append_content_items(st, outs, items.drop_last());
        match get_str(items.last(), "text"@) {
            Some(t) => if t.len() > 0 {
                append_assistant(s1, o1, t)
            } else {
                (s1, o1)
            },
            None => (s1, o1),
        }
    }
}

pub open spec fn apply_content(st: SseView, outs: Seq<OutView>, d: JsonModel) -> (SseView, Seq<OutView>) {
    match model_get(d, "content"@) {
        Some(c) => match model_array(c) {
            Some(items) => append_content_items(st, outs, items),
            None => match model_str(c) {
                Some(t) => if t.len() > 0 {
                    append_assistant(st, outs, t)
                } else {
                    (st, outs)
                },
                None => (st, outs),
            },
        },
        None => (st, outs),
    }
}

/// Position of the tool call with the given index.
pub open spec fn slot_pos_from(slots: Seq<SlotView>, index: usize, i: int) -> Option<int>
    decreases slots.len() - i,
{
    if i < 0 || i >= slots.len() {
        None
    } else if slots[i].index == index {
        Some(i)
    } else {
        slot_pos_from(slots, index, i + 1)
    }
}

pub open spec fn slot_pos(slots: Seq<SlotView>, index: usize) -> Option<int> {
    slot_pos_from(slots, index, 0)
}

proof fn lemma_slot_pos(slots: Seq<SlotView>, index: usize, i: int)
    requires
        0 <= i,
    ensures
        slot_pos_from(slots, index, i) matches Some(k) ==> i <= k < slots.len() && slots[k].index == index,
        slot_pos_from(slots, index, i) is None ==> forall|k: int| i <= k < slots.len() ==> slots[k].index != index,
    decreases slots.len() - i,
{
    if i < slots.len() && slots[i].index != index {
        lemma_slot_pos(slots, index, i + 1);
    }
}

/// The index first given to a call id.
pub open spec fn id_index_from(ids: Seq<(Seq<char>, usize)>, id: Seq<char>, i: int) -> Option<usize>
    decreases ids.len() - i,
{
    if i < 0 || i >= ids.len() {
        None
    } else if ids[i].0 == id {
        Some(ids[i].1)
    } else {
        id_index_from(ids, id, i + 1)
    }
}

pub open spec fn id_index(ids: Seq<(Seq<char>, usize)>, id: Seq<char>) -> Option<usize> {
    id_index_from(ids, id, 0)
}

/// The first index from `n` on that no tool call holds (the largest index
/// stands when every index from `n` on is held).
pub open spec fn free_index(slots: Seq<SlotView>, n: usize) -> usize
    decreases usize::MAX - n,
{
    if n < usize::MAX && slot_pos(slots, n) is Some {
        free_index(slots, (n + 1) as usize)
    } else {
        n
    }
}

/// The index a tool-call delta belongs to, before a fresh one is handed out:
/// the index already given to its id; else its own index, unless a call with
/// another id holds it; and for a delta with neither, the last index seen.
pub open spec fn proposed_index(st: SseView, tc: JsonModel) -> Option<usize> {
    let own = match model_get(tc, "index"@) {
        Some(x) => match model_u64(x) {
            Some(i) => Some(i as usize),
            None => None,
        },
        None => None,
    };
    match get_str(tc, "id"@) {
        Some(cid) => match id_index(st.ids, cid) {
            Some(e) => Some(e),
            None => match own {
                Some(p) => match slot_pos(st.slots, p) {
                    Some(k) => match st.slots[k].id {
                        Some(eid) => if eid != cid {
                            None
                        } else {
                            own
                        },
                        None => own,
                    },
                    None => own,
                },
                None => None,
            },
        },
        None => match own {
            Some(p) => Some(p),
            None => st.last_index,
        },
    }
}

pub open spec fn new_slot(index: usize) -> SlotView {
    SlotView { index: index, id: None, name: None, arguments: Seq::empty() }
}

/// A slot updated by a delta: the id and a non-empty name are kept from the
/// first delta that has them; argument fragments are appended.
pub open spec fn update_slot(s: SlotView, tc: JsonModel) -> SlotView {
    let s1 = match get_str(tc, "id"@) {
        Some(cid) => if s.id is None {
            SlotView { id: Some(cid), ..s }
        } else {
            s
        },
        None => s,
    };
    match model_get(tc, "function"@) {
        Some(f) => {
            let s2 = match get_str(f, "name"@) {
                Some(n) => if n.len() > 0 && s1.name is None {
                    SlotView { name: Some(n), ..s1 }
                } else {
                    s1
                },
                None => s1,
            };
            match get_str(f, "arguments"@) {
                Some(a) => SlotView { arguments: s2.arguments + a, ..s2 },
                None => s2,
            }
        },
        None => s1,
    }
}

/// One tool-call delta folded into the state.
pub open spec fn tool_call_step(st: SseView, tc: JsonModel) -> SseView {
    let (index, next) = match proposed_index(st, tc) {
        Some(i) => (i, st.next_index),
        None => {
            let k = free_index(st.slots, st.next_index);
            (k, if k < usize::MAX { (k + 1) as usize } else { k })
        },
    };
    let slots1 = match slot_pos(st.slots, index) {
        Some(_) => st.slots,
        None => st.slots.push(new_slot(index)),
    };
    let pos = match slot_pos(st.slots, index) {
        Some(k) => k,
        None => st.slots.len() as int,
    };
    let ids1 = match get_str(tc, "id"@) {
        Some(cid) => if id_index(st.ids, cid) is None {
            st.ids.push((cid, index))
        } else {
            st.ids
        },
        None => st.ids,
    };
    SseView {
        slots: slots1.update(pos, update_slot(slots1[pos], tc)),
        ids: ids1,
        next_index: next,
        last_index: Some(index),
        ..st
    }
}

pub open spec fn apply_tool_calls(st: SseView, tcs: Seq<JsonModel>) -> SseView
    decreases tcs.len(),
{
    if tcs.len() == 0 {
        st
    } else {
        tool_call_step(apply_tool_calls(st, tcs.drop_last()), tcs.last())
    }
}

/// A streamed delta: its reasoning, its content, then its tool calls.
pub open spec fn apply_delta(st: SseView, outs: Seq<OutView>, d: JsonModel) -> (SseView, Seq<OutView>) {
    let (s1, o1) = apply_reasoning(st, outs, d);
    let (s2, o2) = apply_content(s1, o1, d);
    match get_array(d, "tool_calls"@) {
        Some(tcs) => (apply_tool_calls(s2, tcs), o2),
        None => (s2, o2),
    }
}

/// Closes the reasoning item, if one is open.
pub open spec fn flush_reasoning(st: SseView, outs: Seq<OutView>) -> (SseView, Seq<OutView>) {
    match st.reasoning {
        Some(t) => (SseView { reasoning: None, ..st }, outs.push(ev(EventView::OutputItemDone(reasoning_with(t))))),
        None => (st, outs),
    }
}

/// Closes the assistant message, if one is open.
pub open spec fn flush_assistant(st: SseView, outs: Seq<OutView>) -> (SseView, Seq<OutView>) {
    match st.assistant {
        Some(t) => (SseView { assistant: None, ..st }, outs.push(ev(EventView::OutputItemDone(assistant_with(t))))),
        None => (st, outs),
    }
}

/// `tool-call-<index>`
pub open spec fn fallback_call_id(index: usize) -> Seq<char> {
    "tool-call-"@ + decimal(index as nat)
}

/// The function call a streamed tool call completes, when it got a name.
pub open spec fn slot_call(s: SlotView) -> ItemView {
    ItemView::FunctionCall {
        id: None,
        name: s.name->0,
        arguments: s.arguments,
        call_id: match s.id {
            Some(i) => i,
            None => fallback_call_id(s.index),
        },
    }
}

/// The calls of the slots that got a name, in order.
pub open spec fn drain_calls(slots: Seq<SlotView>, outs: Seq<OutView>) -> Seq<OutView>
    decreases slots.len(),
{
    if slots.len() == 0 {
        outs
    } else {
        let o = drain_calls(slots.drop_last(), outs);
        if slots.last().name is Some {
            o.push(ev(EventView::OutputItemDone(slot_call(slots.last()))))
        } else {
            o
        }
    }
}

pub open spec fn completed(usage: Option<TokenUsage>) -> OutView {
    ev(EventView::Completed { response_id: Seq::empty(), token_usage: usage })
}

/// What the choices of one event have done so far.
pub struct ChoiceAcc {
    pub st: SseView,
    pub outs: Seq<OutView>,
    pub saw_tool_calls: bool,
    pub stop: bool,
}

/// One choice: its delta, the reasoning of its message, then its finish
/// reason (`stop` closes the items and reports completion once; `length`
/// fails the stream; `tool_calls` closes the reasoning and marks the event).
pub open spec fn choice_step(acc: ChoiceAcc, choice: JsonModel, usage: Option<TokenUsage>) -> ChoiceAcc {
    let (s1, o1) = match model_get(choice, "delta"@) {
        Some(d) => apply_delta(acc.st, acc.outs, d),
        None => (acc.st, acc.outs),
    };
    let (s2, o2) = match model_get(choice, "message"@) {
        Some(m) => apply_reasoning(s1, o1, m),
        None => (s1, o1),
    };
    let fr = get_str(choice, "finish_reason"@);
    if fr == Some("stop"@) {
        let (s3, o3) = flush_reasoning(s2, o2);
        let (s4, o4) = flush_assistant(s3, o3);
        if !s4.completed_sent {
            ChoiceAcc {
                st: SseView { completed_sent: true, ..s4 },
                outs: o4.push(completed(usage)),
                saw_tool_calls: acc.saw_tool_calls,
                stop: false,
            }
        } else {
            ChoiceAcc { st: s4, outs: o4, saw_tool_calls: acc.saw_tool_calls, stop: false }
        }
    } else if fr == Some("length"@) {
        ChoiceAcc {
            st: s2,
            outs: o2.push(OutView::Error(ApiErrorView::ContextWindowExceeded)),
            saw_tool_calls: acc.saw_tool_calls,
            stop: true,
        }
    } else if fr == Some("tool_calls"@) {
        let (s3, o3) = flush_reasoning(s2, o2);
        ChoiceAcc { st: s3, outs: o3, saw_tool_calls: true, stop: false }
    } else {
        ChoiceAcc { st: s2, outs: o2, saw_tool_calls: acc.saw_tool_calls, stop: false }
    }
}

/// The choices in order, up to the first that fails the stream.
pub open spec fn fold_choices(st: SseView, cs: Seq<JsonModel>, usage: Option<TokenUsage>) -> ChoiceAcc
    decreases cs.len(),
{
    if cs.len() == 0 {
        ChoiceAcc { st: st, outs: Seq::empty(), saw_tool_calls: false, stop: false }
    } else {
        let acc = fold_choices(st, cs.drop_last(), usage);
        if acc.stop {
            acc
        } else {
            choice_step(acc, cs.last(), usage)
        }
    }
}

/// After an event whose choices finished with `tool_calls`: the assistant
/// text, then the named tool calls, then completion (once).
pub open spec fn finish_tool_calls(st: SseView, outs: Seq<OutView>, usage: Option<TokenUsage>) -> (SseView, Seq<OutView>) {
    let (s1, o1) = flush_assistant(st, outs);
    let o2 = drain_calls(s1.slots, o1);
    let s2 = SseView { slots: Seq::empty(), ..s1 };
    if !s2.completed_sent {
        (SseView { completed_sent: true, ..s2 }, o2.push(completed(usage)))
    } else {
        (s2, o2)
    }
}

pub open spec fn provider_error_message(v: JsonModel) -> Seq<char> {
    "Provider error: "@ + json_text(v)
}

/// One parsed event body: the new state, what it emits, and whether the
/// stream is over.
pub open spec fn value_step(st: SseView, v: JsonModel) -> (SseView, Seq<OutView>, bool) {
    match get_array(v, "choices"@) {
        None => if model_get(v, "error"@) is Some {
            (st, seq![OutView::Error(ApiErrorView::Stream(provider_error_message(v)))], true)
        } else {
            (st, Seq::empty(), false)
        },
        Some(cs) => {
            let acc = fold_choices(st, cs, parse_usage(v));
            if acc.stop {
                (acc.st, acc.outs, true)
            } else if acc.saw_tool_calls {
                let (s, o) = finish_tool_calls(acc.st, acc.outs, parse_usage(v));
                (s, o, false)
            } else {
                (acc.st, acc.outs, false)
            }
        },
    }
}

pub open spec fn truncated_message() -> Seq<char> {
    "SSE stream closed without [DONE] and without any content"@
}

pub open spec fn has_named_slot(slots: Seq<SlotView>) -> bool {
    exists|i: int| 0 <= i < slots.len() && (#[trigger] slots[i]).name is Some
}

/// Closes what is open and reports completion; when the stream was cut
/// short and nothing at all came of it, reports an error instead.
pub open spec fn flush_and_complete(st: SseView, truncated: bool) -> (SseView, Seq<OutView>) {
    let emitted = st.reasoning is Some || st.assistant is Some || has_named_slot(st.slots);
    let (s1, o1) = flush_reasoning(st, Seq::empty());
    let (s2, o2) = flush_assistant(s1, o1);
    let o3 = drain_calls(s2.slots, o2);
    let s3 = SseView { slots: Seq::empty(), ..s2 };
    if truncated && !emitted {
        (s3, seq![OutView::Error(ApiErrorView::Stream(truncated_message()))])
    } else {
        (s3, o3.push(completed(None)))
    }
}

pub open spec fn is_done_sentinel(d: Seq<char>) -> bool {
    d == "[DONE]"@ || d == "DONE"@
}

/// One event's data: blank data is skipped; the `[DONE]` (or `DONE`)
/// sentinel completes the stream; data that does not parse is skipped.
pub open spec fn data_step(st: SseView, data: Seq<char>) -> (SseView, Seq<OutView>, bool) {
    let d = trim(data);
    if d.len() == 0 {
        (st, Seq::empty(), false)
    } else if is_done_sentinel(d) {
        if !st.completed_sent {
            let (s, o) = flush_and_complete(st, false);
            (s, o, true)
        } else {
            (st, Seq::empty(), true)
        }
    } else {
        match json_parse(d) {
            None => (st, Seq::empty(), false),
            Some(v) => value_step(st, v),
        }
    }
}

/// The stream ended without the sentinel.
pub open spec fn end_step(st: SseView) -> (SseView, Seq<OutView>) {
    if !st.completed_sent {
        flush_and_complete(st, true)
    } else {
        (st, Seq::empty())
    }
}

// ---------------------------------------------------------------------------
// Reading event bodies
// ---------------------------------------------------------------------------

pub open spec fn str_opt_view(o: Option<&str>) -> Option<Seq<char>> {
    match o {
        Some(s) => Some(s@),
        None => None,
    }
}

fn str_is(s: &str, lit: &str) -> (r: bool)
    ensures
        r == (s@ == lit@),
{
    let a = chars_of(s);
    let b = chars_of(lit);
    chars_eq(&a, &b)
}

fn get_str_exec<'a>(v: &'a serde_json::Value, key: &str) -> (r: Option<&'a str>)
    ensures
        str_opt_view(r) == get_str(json_model(*v), key@),
{
    match json_get(v, key) {
        Some(x) => json_as_str(x),
        None => None,
    }
}

fn get_array_exec<'a>(v: &'a serde_json::Value, key: &str) -> (r: Option<&'a Vec<serde_json::Value>>)
    ensures
        match r {
            Some(a) => get_array(json_model(*v), key@) == Some(models_of(a@)),
            None => get_array(json_model(*v), key@) is None,
        },
{
    match json_get(v, key) {
        Some(x) => json_as_array(x),
        None => None,
    }
}

fn get_i64_or_zero_exec(v: &serde_json::Value, key: &str) -> (r: i64)
    ensures
        r == get_i64_or_zero(json_model(*v), key@),
{
    match json_get(v, key) {
        Some(x) => match json_as_i64(x) {
            Some(n) => n,
            None => 0,
        },
        None => 0,
    }
}

fn nested_i64_or_zero_exec(v: &serde_json::Value, outer: &str, inner: &str) -> (r: i64)
    ensures
        r == nested_i64_or_zero(json_model(*v), outer@, inner@),
{
    match json_get(v, outer) {
        Some(d) => get_i64_or_zero_exec(d, inner),
        None => 0,
    }
}

/// Reads the token usage of an event body (`parse_usage`).
pub fn parse_usage_exec(v: &serde_json::Value) -> (r: Option<TokenUsage>)
    ensures
        r == parse_usage(json_model(*v)),
{
    match json_get(v, "usage") {
        None => None,
        Some(u) => {
            let t = TokenUsage {
                input_tokens: get_i64_or_zero_exec(u, "prompt_tokens"),
                cached_input_tokens: nested_i64_or_zero_exec(u, "prompt_tokens_details", "cached_tokens"),
                output_tokens: get_i64_or_zero_exec(u, "completion_tokens"),
                reasoning_output_tokens: nested_i64_or_zero_exec(
                    u,
                    "completion_tokens_details",
                    "reasoning_tokens",
                ),
                total_tokens: get_i64_or_zero_exec(u, "total_tokens"),
            };
            if t.total_tokens > 0 || t.input_tokens > 0 || t.output_tokens > 0 {
                Some(t)
            } else {
                None
            }
        },
    }
}

// ---------------------------------------------------------------------------
// State
// ---------------------------------------------------------------------------

/// A tool call being streamed.
pub struct ToolCallState {
    pub index: usize,
    pub id: Option<String>,
    pub name: Option<String>,
    pub arguments: String,
}

impl View for ToolCallState {
    type V = SlotView;

    open spec fn view(&self) -> SlotView {
        SlotView {
            index: self.index,
            id: crate::connectors::opt_view(self.id),
            name: crate::connectors::opt_view(self.name),
            arguments: self.arguments@,
        }
    }
}

pub open spec fn slots_view(v: Seq<ToolCallState>) -> Seq<SlotView> {
    v.map_values(|s: ToolCallState| s@)
}

pub open spec fn strs_view(v: Seq<String>) -> Seq<Seq<char>> {
    v.map_values(|s: String| s@)
}

pub open spec fn opt_strs_view(v: Option<Vec<String>>) -> Option<Seq<Seq<char>>> {
    match v {
        Some(t) => Some(strs_view(t@)),
        None => None,
    }
}

pub open spec fn ids_view(v: Seq<(String, usize)>) -> Seq<(Seq<char>, usize)> {
    v.map_values(|p: (String, usize)| (p.0@, p.1))
}

/// What a Chat Completions stream has accumulated between events.
pub struct ChatSseState {
    slots: Vec<ToolCallState>,
    ids: Vec<(String, usize)>,
    next_index: usize,
    last_index: Option<usize>,
    assistant: Option<Vec<String>>,
    reasoning: Option<Vec<String>>,
    completed_sent: bool,
}

impl View for ChatSseState {
    type V = SseView;

    closed spec fn view(&self) -> SseView {
        SseView {
            slots: slots_view(self.slots@),
            ids: ids_view(self.ids@),
            next_index: self.next_index,
            last_index: self.last_index,
            assistant: opt_strs_view(self.assistant),
            reasoning: opt_strs_view(self.reasoning),
            completed_sent: self.completed_sent,
        }
    }
}

/// What one step emits, and whether the stream is over.
pub struct SseStep {
    pub outputs: Vec<Result<ResponseEvent, ApiError>>,
    pub stop: bool,
}

fn push_out(outs: &mut Vec<Result<ResponseEvent, ApiError>>, r: Result<ResponseEvent, ApiError>)
    ensures
        outs_view(final(outs)@) == outs_view(old(outs)@).push(crate::items::out_view(r)),
{
    let ghost o = outs@;
    let ghost rv = crate::items::out_view(r);
    outs.push(r);
    assert(outs@ =~= o.push(r));
    assert(outs_view(outs@) =~= outs_view(o).push(rv));
}

fn output_items_of(texts: &Vec<String>) -> (r: Vec<ContentItem>)
    ensures
        r@.map_values(|c: ContentItem| c@) == texts_to_output(strs_view(texts@)),
{
    let mut r: Vec<ContentItem> = Vec::new();
    let ghost tv = strs_view(texts@);
    let mut i: usize = 0;
    while i < texts.len()
        invariant
            tv == strs_view(texts@),
            i <= texts.len(),
            r@.map_values(|c: ContentItem| c@) == texts_to_output(tv.take(i as int)),
        decreases texts.len() - i,
    {
        let t = texts[i].clone();
        let ghost prev = r@;
        let c = ContentItem::OutputText { text: t };
        assert(c@ == ContentView::OutputText(tv[i as int]));
        r.push(c);
        assert(r@ =~= prev.push(c));
        assert(r@.map_values(|c: ContentItem| c@) =~= prev.map_values(|c: ContentItem| c@).push(c@));
        assert(tv.take(i + 1) =~= tv.take(i as int).push(tv[i as int]));
        assert(r@.map_values(|c: ContentItem| c@) =~= texts_to_output(tv.take(i + 1)));
        i += 1;
    }
    assert(tv.take(texts.len() as int) =~= tv);
    r
}

fn reasoning_items_of(texts: &Vec<String>) -> (r: Vec<ReasoningItemContent>)
    ensures
        r@.map_values(|c: ReasoningItemContent| c@) == texts_to_reasoning(strs_view(texts@)),
{
    let mut r: Vec<ReasoningItemContent> = Vec::new();
    let ghost tv = strs_view(texts@);
    let mut i: usize = 0;
    while i < texts.len()
        invariant
            tv == strs_view(texts@),
            i <= texts.len(),
            r@.map_values(|c: ReasoningItemContent| c@) == texts_to_reasoning(tv.take(i as int)),
        decreases texts.len() - i,
    {
        let t = texts[i].clone();
        let ghost prev = r@;
        let c = ReasoningItemContent::ReasoningText { text: t };
        assert(c@ == ReasoningContentView::ReasoningText(tv[i as int]));
        r.push(c);
        assert(r@ =~= prev.push(c));
        assert(r@.map_values(|c: ReasoningItemContent| c@) =~= prev.map_values(|c: ReasoningItemContent| c@).push(c@));
        assert(tv.take(i + 1) =~= tv.take(i as int).push(tv[i as int]));
        assert(r@.map_values(|c: ReasoningItemContent| c@) =~= texts_to_reasoning(tv.take(i + 1)));
        i += 1;
    }
    assert(tv.take(texts.len() as int) =~= tv);
    r
}

fn assistant_item_of(texts: &Vec<String>) -> (r: ResponseItem)
    ensures
        r@ == assistant_with(strs_view(texts@)),
{
    let content = output_items_of(texts);
    let r = ResponseItem::Message {
        id: None,
        role: "assistant".to_string(),
        content,
        end_turn: None,
        phase: None,
    };
    r
}

fn reasoning_item_of(texts: &Vec<String>) -> (r: ResponseItem)
    ensures
        r@ == reasoning_with(strs_view(texts@)),
{
    let content = reasoning_items_of(texts);
    let r = ResponseItem::Reasoning {
        id: String::new(),
        summary: Vec::new(),
        content: Some(content),
        encrypted_content: None,
    };
    assert(r@ =~= reasoning_with(strs_view(texts@))) by {
        if let ItemView::Reasoning { summary, .. } = r@ {
            assert(summary =~= Seq::<Seq<char>>::empty());
        }
    }
    r
}

type Outs = Vec<Result<ResponseEvent, ApiError>>;

fn slot_of(index: usize) -> (r: ToolCallState)
    ensures
        r@ == new_slot(index),
{
    ToolCallState { index, id: None, name: None, arguments: String::new() }
}

/// A slot updated by a delta (`update_slot`).
fn updated_slot(s: &ToolCallState, tc: &serde_json::Value) -> (r: ToolCallState)
    ensures
        r@ == update_slot(s@, json_model(*tc)),
{
    let id = match get_str_exec(tc, "id") {
        Some(cid) => match &s.id {
            None => Some(cid.to_string()),
            Some(e) => Some(e.clone()),
        },
        None => match &s.id {
            None => None,
            Some(e) => Some(e.clone()),
        },
    };
    let mut name = match &s.name {
        None => None,
        Some(n) => Some(n.clone()),
    };
    let mut arguments = s.arguments.clone();
    match json_get(tc, "function") {
        Some(f) => {
            match get_str_exec(f, "name") {
                Some(n) => {
                    if n.unicode_len() > 0 && name.is_none() {
                        name = Some(n.to_string());
                    }
                },
                None => {},
            }
            match get_str_exec(f, "arguments") {
                Some(a) => {
                    push_str(&mut arguments, a);
                },
                None => {},
            }
        },
        None => {},
    }
    ToolCallState { index: s.index, id, name, arguments }
}

impl ChatSseState {
    /// A stream with nothing accumulated.
    pub fn new() -> (r: Self)
        ensures
            r@ == initial_sse(),
    {
        let r = ChatSseState {
            slots: Vec::new(),
            ids: Vec::new(),
            next_index: 0,
            last_index: None,
            assistant: None,
            reasoning: None,
            completed_sent: false,
        };
        assert(r@ =~= initial_sse()) by {
            assert(slots_view(r.slots@) =~= Seq::<SlotView>::empty());
            assert(ids_view(r.ids@) =~= Seq::<(Seq<char>, usize)>::empty());
        }
        r
    }

    fn append_reasoning_exec(&mut self, outs: &mut Outs, text: String)
        ensures
            (final(self)@, outs_view(final(outs)@)) == append_reasoning(old(self)@, outs_view(old(outs)@), text@),
    {
        let ghost t = text@;
        let ghost st = self@;
        let ghost o0 = outs_view(outs@);
        let mut texts = match self.reasoning.take() {
            Some(v) => v,
            None => {
                push_out(outs, Ok(ResponseEvent::OutputItemAdded(new_reasoning_item())));
                Vec::new()
            },
        };
        let ghost tv = texts@;
        let ghost o1 = outs_view(outs@);
        assert(strs_view(tv).len() == tv.len());
        assert(st.reasoning is None ==> strs_view(tv) =~= Seq::<Seq<char>>::empty());
        assert(st.reasoning is None ==> o1 == o0.push(ev(EventView::OutputItemAdded(empty_reasoning()))));
        assert(st.reasoning is Some ==> strs_view(tv) == st.reasoning->0 && o1 == o0);
        let idx = texts.len() as i64;
        push_out(outs, Ok(ResponseEvent::ReasoningContentDelta { delta: text.clone(), content_index: idx }));
        assert(outs_view(outs@) == o1.push(ev(EventView::ReasoningContentDelta { delta: t, content_index: tv.len() as i64 })));
        texts.push(text);
        assert(strs_view(texts@) =~= strs_view(tv).push(t));
        self.reasoning = Some(texts);
        assert(self@ =~= (SseView { reasoning: Some(strs_view(tv).push(t)), ..st }));
    }

    fn append_assistant_exec(&mut self, outs: &mut Outs, text: String)
        ensures
            (final(self)@, outs_view(final(outs)@)) == append_assistant(old(self)@, outs_view(old(outs)@), text@),
    {
        let ghost t = text@;
        let ghost st = self@;
        let ghost o0 = outs_view(outs@);
        let mut texts = match self.assistant.take() {
            Some(v) => v,
            None => {
                push_out(outs, Ok(ResponseEvent::OutputItemAdded(new_assistant_message())));
                Vec::new()
            },
        };
        let ghost tv = texts@;
        let ghost o1 = outs_view(outs@);
        assert(strs_view(tv).len() == tv.len());
        assert(st.assistant is None ==> strs_view(tv) =~= Seq::<Seq<char>>::empty());
        assert(st.assistant is None ==> o1 == o0.push(ev(EventView::OutputItemAdded(empty_assistant()))));
        assert(st.assistant is Some ==> strs_view(tv) == st.assistant->0 && o1 == o0);
        push_out(outs, Ok(ResponseEvent::OutputTextDelta(text.clone())));
        assert(outs_view(outs@) == o1.push(ev(EventView::OutputTextDelta(t))));
        texts.push(text);
        assert(strs_view(texts@) =~= strs_view(tv).push(t));
        self.assistant = Some(texts);
        assert(self@ =~= (SseView { assistant: Some(strs_view(tv).push(t)), ..st }));
    }

    fn apply_reasoning_exec(&mut self, outs: &mut Outs, d: &serde_json::Value)
        ensures
            (final(self)@, outs_view(final(outs)@)) == apply_reasoning(old(self)@, outs_view(old(outs)@), json_model(*d)),
    {
        let r = match json_get(d, "reasoning") {
            Some(r) => Some(r),
            None => json_get(d, "reasoning_content"),
        };
        match r {
            Some(r) => {
                let t = match json_as_str(r) {
                    Some(t) => Some(t),
                    None => match get_str_exec(r, "text") {
                        Some(t) => Some(t),
                        None => get_str_exec(r, "content"),
                    },
                };
                match t {
                    Some(t) => self.append_reasoning_exec(outs, t.to_string()),
                    None => {},
                }
            },
            None => {},
        }
    }

    fn append_content_items_exec(&mut self, outs: &mut Outs, items: &Vec<serde_json::Value>)
        ensures
            (final(self)@, outs_view(final(outs)@)) == append_content_items(
                old(self)@,
                outs_view(old(outs)@),
                models_of(items@),
            ),
    {
        let ghost ms = models_of(items@);
        let ghost s0 = self@;
        let ghost o0 = outs_view(outs@);
        let mut i: usize = 0;
        assert(ms.take(0) =~= Seq::<JsonModel>::empty());
        while i < items.len()
            invariant
                i <= items.len(),
                ms == models_of(items@),
                (self@, outs_view(outs@)) == append_content_items(s0, o0, ms.take(i as int)),
            decreases items.len() - i,
        {
            proof {
                assert(ms.take(i + 1).drop_last() =~= ms.take(i as int));
                assert(ms.take(i + 1).last() == json_model(items@[i as int]));
            }
            match get_str_exec(&items[i], "text") {
                Some(t) => {
                    if t.unicode_len() > 0 {
                        self.append_assistant_exec(outs, t.to_string());
                    }
                },
                None => {},
            }
            i += 1;
        }
        assert(ms.take(items.len() as int) =~= ms);
    }

    fn apply_content_exec(&mut self, outs: &mut Outs, d: &serde_json::Value)
        ensures
            (final(self)@, outs_view(final(outs)@)) == apply_content(old(self)@, outs_view(old(outs)@), json_model(*d)),
    {
        match json_get(d, "content") {
            Some(c) => match json_as_array(c) {
                Some(items) => self.append_content_items_exec(outs, items),
                None => match json_as_str(c) {
                    Some(t) => {
                        if t.unicode_len() > 0 {
                            self.append_assistant_exec(outs, t.to_string());
                        }
                    },
                    None => {},
                },
            },
            None => {},
        }
    }

    fn slot_pos_exec(&self, index: usize) -> (r: Option<usize>)
        ensures
            match r {
                Some(k) => slot_pos(self@.slots, index) == Some(k as int),
                None => slot_pos(self@.slots, index) is None,
            },
    {
        let ghost sv = self@.slots;
        let mut i: usize = 0;
        while i < self.slots.len()
            invariant
                i <= self.slots.len(),
                sv == self@.slots,
                sv.len() == self.slots.len(),
                slot_pos_from(sv, index, 0) == slot_pos_from(sv, index, i as int),
            decreases self.slots.len() - i,
        {
            if self.slots[i].index == index {
                return Some(i);
            }
            i += 1;
        }
        None
    }

    fn id_index_exec(&self, id: &str) -> (r: Option<usize>)
        ensures
            r == id_index(self@.ids, id@),
    {
        let ghost iv = self@.ids;
        let idc = chars_of(id);
        let mut i: usize = 0;
        while i < self.ids.len()
            invariant
                i <= self.ids.len(),
                iv == self@.ids,
                iv.len() == self.ids.len(),
                idc@ == id@,
                id_index_from(iv, id@, 0) == id_index_from(iv, id@, i as int),
            decreases self.ids.len() - i,
        {
            let c = chars_of(self.ids[i].0.as_str());
            if chars_eq(&c, &idc) {
                return Some(self.ids[i].1);
            }
            i += 1;
        }
        None
    }

    fn free_index_exec(&self, n: usize) -> (r: usize)
        ensures
            r == free_index(self@.slots, n),
    {
        let mut k = n;
        while k < usize::MAX && self.slot_pos_exec(k).is_some()
            invariant
                n <= k,
                free_index(self@.slots, n) == free_index(self@.slots, k),
            decreases usize::MAX - k,
        {
            k = k + 1;
        }
        k
    }

    fn proposed_index_exec(&self, tc: &serde_json::Value) -> (r: Option<usize>)
        ensures
            r == proposed_index(self@, json_model(*tc)),
    {
        let own: Option<usize> = match json_get(tc, "index") {
            Some(x) => match json_as_u64(x) {
                Some(i) => Some(i as usize),
                None => None,
            },
            None => None,
        };
        match get_str_exec(tc, "id") {
            Some(cid) => match self.id_index_exec(cid) {
                Some(e) => Some(e),
                None => match own {
                    Some(p) => match self.slot_pos_exec(p) {
                        Some(k) => match {
                            proof {
                                lemma_slot_pos(self@.slots, p, 0);
                            }
                            &self.slots[k].id
                        } {
                            Some(eid) => {
                                if !str_is(eid.as_str(), cid) {
                                    None
                                } else {
                                    own
                                }
                            },
                            None => own,
                        },
                        None => own,
                    },
                    None => None,
                },
            },
            None => match own {
                Some(p) => Some(p),
                None => self.last_index,
            },
        }
    }

    fn tool_call_step_exec(&mut self, tc: &serde_json::Value)
        ensures
            final(self)@ == tool_call_step(old(self)@, json_model(*tc)),
    {
        let ghost st = self@;
        let ghost m = json_model(*tc);
        let (index, next) = match self.proposed_index_exec(tc) {
            Some(i) => (i, self.next_index),
            None => {
                let k = self.free_index_exec(self.next_index);
                (k, if k < usize::MAX { k + 1 } else { k })
            },
        };
        let pos = match self.slot_pos_exec(index) {
            Some(k) => k,
            None => {
                let ghost before = self.slots@;
                let sl = slot_of(index);
                self.slots.push(sl);
                assert(slots_view(self.slots@) =~= slots_view(before).push(new_slot(index)));
                self.slots.len() - 1
            },
        };
        match get_str_exec(tc, "id") {
            Some(cid) => {
                if self.id_index_exec(cid).is_none() {
                    let ghost before = self.ids@;
                    self.ids.push((cid.to_string(), index));
                    assert(ids_view(self.ids@) =~= ids_view(before).push((cid@, index)));
                }
            },
            None => {},
        }
        proof {
            lemma_slot_pos(st.slots, index, 0);
            lemma_slot_pos(self@.slots, index, 0);
        }
        let updated = updated_slot(&self.slots[pos], tc);
        let ghost before = self.slots@;
        self.slots.set(pos, updated);
        assert(slots_view(self.slots@) =~= slots_view(before).update(pos as int, updated@));
        self.next_index = next;
        self.last_index = Some(index);
        assert(self@ =~= tool_call_step(st, m));
    }

    fn apply_tool_calls_exec(&mut self, tcs: &Vec<serde_json::Value>)
        ensures
            final(self)@ == apply_tool_calls(old(self)@, models_of(tcs@)),
    {
        let ghost ms = models_of(tcs@);
        let ghost s0 = self@;
        let mut i: usize = 0;
        assert(ms.take(0) =~= Seq::<JsonModel>::empty());
        while i < tcs.len()
            invariant
                i <= tcs.len(),
                ms == models_of(tcs@),
                self@ == apply_tool_calls(s0, ms.take(i as int)),
            decreases tcs.len() - i,
        {
            proof {
                assert(ms.take(i + 1).drop_last() =~= ms.take(i as int));
                assert(ms.take(i + 1).last() == json_model(tcs@[i as int]));
            }
            self.tool_call_step_exec(&tcs[i]);
            i += 1;
        }
        assert(ms.take(tcs.len() as int) =~= ms);
    }

    fn apply_delta_exec(&mut self, outs: &mut Outs, d: &serde_json::Value)
        ensures
            (final(self)@, outs_view(final(outs)@)) == apply_delta(old(self)@, outs_view(old(outs)@), json_model(*d)),
    {
        self.apply_reasoning_exec(outs, d);
        self.apply_content_exec(outs, d);
        match get_array_exec(d, "tool_calls") {
            Some(tcs) => self.apply_tool_calls_exec(tcs),
            None => {},
        }
    }

    fn flush_reasoning_exec(&mut self, outs: &mut Outs)
        ensures
            (final(self)@, outs_view(final(outs)@)) == flush_reasoning(old(self)@, outs_view(old(outs)@)),
    {
        match self.reasoning.take() {
            Some(t) => {
                let item = reasoning_item_of(&t);
                push_out(outs, Ok(ResponseEvent::OutputItemDone(item)));
            },
            None => {},
        }
    }

    fn flush_assistant_exec(&mut self, outs: &mut Outs)
        ensures
            (final(self)@, outs_view(final(outs)@)) == flush_assistant(old(self)@, outs_view(old(outs)@)),
    {
        match self.assistant.take() {
            Some(t) => {
                let item = assistant_item_of(&t);
                push_out(outs, Ok(ResponseEvent::OutputItemDone(item)));
            },
            None => {},
        }
    }

    /// Emits the named tool calls and clears them.
    fn drain_calls_exec(&mut self, outs: &mut Outs)
        ensures
            outs_view(final(outs)@) == drain_calls(old(self)@.slots, outs_view(old(outs)@)),
            final(self)@ == (SseView { slots: Seq::empty(), ..old(self)@ }),
    {
        let ghost sv = self@.slots;
        let ghost o0 = outs_view(outs@);
        let mut i: usize = 0;
        assert(sv.take(0) =~= Seq::<SlotView>::empty());
        while i < self.slots.len()
            invariant
                i <= self.slots.len(),
                sv == self@.slots,
                sv.len() == self.slots.len(),
                self@ == old(self)@,
                outs_view(outs@) == drain_calls(sv.take(i as int), o0),
            decreases self.slots.len() - i,
        {
            proof {
                assert(sv.take(i + 1).drop_last() =~= sv.take(i as int));
                assert(sv.take(i + 1).last() == self.slots@[i as int]@);
            }
            let s = &self.slots[i];
            match &s.name {
                Some(n) => {
                    let call_id = match &s.id {
                        Some(id) => id.clone(),
                        None => {
                            let mut v: Vec<char> = vec!['t', 'o', 'o', 'l', '-', 'c', 'a', 'l', 'l', '-'];
                            proof {
                                reveal_strlit("tool-call-");
                                assert(v@ =~= "tool-call-"@);
                            }
                            let d = decimal_exec(s.index as u64);
                            extend_chars(&mut v, &d);
                            string_from_chars(&v)
                        },
                    };
                    let item = ResponseItem::FunctionCall {
                        id: None,
                        name: n.clone(),
                        arguments: s.arguments.clone(),
                        call_id,
                    };
                    assert(item@ == slot_call(sv[i as int]));
                    push_out(outs, Ok(ResponseEvent::OutputItemDone(item)));
                },
                None => {},
            }
            i += 1;
        }
        assert(sv.take(self.slots.len() as int) =~= sv);
        self.slots = Vec::new();
        assert(slots_view(self.slots@) =~= Seq::<SlotView>::empty());
        assert(self@ =~= (SseView { slots: Seq::empty(), ..old(self)@ }));
    }

    fn push_completed(&mut self, outs: &mut Outs, usage: Option<TokenUsage>)
        ensures
            outs_view(final(outs)@) == outs_view(old(outs)@).push(completed(usage)),
            final(self)@ == (SseView { completed_sent: true, ..old(self)@ }),
    {
        let r = ResponseEvent::Completed { response_id: String::new(), token_usage: usage };
        push_out(outs, Ok(r));
        self.completed_sent = true;
    }

    fn choice_step_exec(
        &mut self,
        outs: &mut Outs,
        choice: &serde_json::Value,
        usage: Option<TokenUsage>,
        saw: &mut bool,
    ) -> (stop: bool)
        ensures
            ({
                let acc = choice_step(
                    ChoiceAcc { st: old(self)@, outs: outs_view(old(outs)@), saw_tool_calls: *old(saw), stop: false },
                    json_model(*choice),
                    usage,
                );
                &&& final(self)@ == acc.st
                &&& outs_view(final(outs)@) == acc.outs
                &&& *final(saw) == acc.saw_tool_calls
                &&& stop == acc.stop
            }),
    {
        match json_get(choice, "delta") {
            Some(d) => self.apply_delta_exec(outs, d),
            None => {},
        }
        match json_get(choice, "message") {
            Some(m) => self.apply_reasoning_exec(outs, m),
            None => {},
        }
        let fr = get_str_exec(choice, "finish_reason");
        proof {
            reveal_strlit("stop");
            reveal_strlit("length");
            reveal_strlit("tool_calls");
        }
        match fr {
            Some(f) => {
                if str_is(f, "stop") {
                    self.flush_reasoning_exec(outs);
                    self.flush_assistant_exec(outs);
                    if !self.completed_sent {
                        self.push_completed(outs, usage);
                    }
                    false
                } else if str_is(f, "length") {
                    push_out(outs, Err(ApiError::ContextWindowExceeded));
                    true
                } else if str_is(f, "tool_calls") {
                    self.flush_reasoning_exec(outs);
                    *saw = true;
                    false
                } else {
                    false
                }
            },
            None => false,
        }
    }

    fn finish_tool_calls_exec(&mut self, outs: &mut Outs, usage: Option<TokenUsage>)
        ensures
            (final(self)@, outs_view(final(outs)@)) == finish_tool_calls(old(self)@, outs_view(old(outs)@), usage),
    {
        self.flush_assistant_exec(outs);
        self.drain_calls_exec(outs);
        if !self.completed_sent {
            self.push_completed(outs, usage);
        }
    }

    /// Handles one parsed event body (`value_step`).
    pub fn on_value(&mut self, value: &serde_json::Value) -> (r: SseStep)
        ensures
            (final(self)@, outs_view(r.outputs@), r.stop) == value_step(old(self)@, json_model(*value)),
    {
        let mut outs: Outs = Vec::new();
        let ghost s0 = self@;
        let ghost m = json_model(*value);
        assert(outs_view(outs@) =~= Seq::<OutView>::empty());
        match get_array_exec(value, "choices") {
            None => {
                if json_get(value, "error").is_some() {
                    let mut msg = "Provider error: ".to_string();
                    let text = json_to_string(value);
                    push_str(&mut msg, text.as_str());
                    push_out(&mut outs, Err(ApiError::Stream(msg)));
                    assert(outs_view(outs@) =~= seq![OutView::Error(ApiErrorView::Stream(provider_error_message(m)))]);
                    SseStep { outputs: outs, stop: true }
                } else {
                    SseStep { outputs: outs, stop: false }
                }
            },
            Some(choices) => {
                let usage = parse_usage_exec(value);
                let ghost ms = models_of(choices@);
                let mut saw = false;
                let mut i: usize = 0;
                let mut stop = false;
                assert(ms.take(0) =~= Seq::<JsonModel>::empty());
                assert(ms.take(ms.len() as int) =~= ms);
                while i < choices.len()
                    invariant_except_break
                        i <= choices.len(),
                        ms.take(ms.len() as int) == ms,
                        ms == models_of(choices@),
                        usage == parse_usage(m),
                        !stop,
                        ({
                            let acc = fold_choices(s0, ms.take(i as int), usage);
                            &&& self@ == acc.st
                            &&& outs_view(outs@) == acc.outs
                            &&& saw == acc.saw_tool_calls
                            &&& !acc.stop
                        }),
                    ensures
                        ({
                            let acc = fold_choices(s0, ms, usage);
                            &&& self@ == acc.st
                            &&& outs_view(outs@) == acc.outs
                            &&& saw == acc.saw_tool_calls
                            &&& stop == acc.stop
                        }),
                    decreases choices.len() - i,
                {
                    proof {
                        assert(ms.take(i + 1).drop_last() =~= ms.take(i as int));
                        assert(ms.take(i + 1).last() == json_model(choices@[i as int]));
                    }
                    let st = self.choice_step_exec(&mut outs, &choices[i], usage, &mut saw);
                    i += 1;
                    if st {
                        stop = true;
                        proof {
                            lemma_fold_stops(s0, ms, usage, i as int);
                        }
                        break;
                    }
                }
                proof {
                    if !stop {
                        assert(ms.take(choices.len() as int) =~= ms);
                    }
                }
                if stop {
                    SseStep { outputs: outs, stop: true }
                } else if saw {
                    self.finish_tool_calls_exec(&mut outs, usage);
                    SseStep { outputs: outs, stop: false }
                } else {
                    SseStep { outputs: outs, stop: false }
                }
            },
        }
    }

    fn has_named_slot_exec(&self) -> (r: bool)
        ensures
            r == has_named_slot(self@.slots),
    {
        let ghost sv = self@.slots;
        let mut i: usize = 0;
        while i < self.slots.len()
            invariant
                i <= self.slots.len(),
                sv == self@.slots,
                sv.len() == self.slots.len(),
                forall|k: int| 0 <= k < i ==> (#[trigger] sv[k]).name is None,
            decreases self.slots.len() - i,
        {
            if self.slots[i].name.is_some() {
                assert(sv[i as int].name is Some);
                return true;
            }
            i += 1;
        }
        false
    }

    fn flush_and_complete_exec(&mut self, truncated: bool) -> (r: Outs)
        ensures
            (final(self)@, outs_view(r@)) == flush_and_complete(old(self)@, truncated),
    {
        let emitted = self.reasoning.is_some() || self.assistant.is_some() || self.has_named_slot_exec();
        let mut outs: Outs = Vec::new();
        assert(outs_view(outs@) =~= Seq::<OutView>::empty());
        self.flush_reasoning_exec(&mut outs);
        self.flush_assistant_exec(&mut outs);
        self.drain_calls_exec(&mut outs);
        if truncated && !emitted {
            let mut e: Outs = Vec::new();
            let msg = "SSE stream closed without [DONE] and without any content".to_string();
            push_out(&mut e, Err(ApiError::Stream(msg)));
            assert(outs_view(e@) =~= seq![OutView::Error(ApiErrorView::Stream(truncated_message()))]);
            e
        } else {
            push_out(&mut outs, Ok(ResponseEvent::Completed { response_id: String::new(), token_usage: None }));
            outs
        }
    }

    /// Handles one event's data (`data_step`).
    pub fn on_data(&mut self, data: &str) -> (r: SseStep)
        ensures
            (final(self)@, outs_view(r.outputs@), r.stop) == data_step(old(self)@, data@),
    {
        let dc = chars_of(data);
        let t = trim_chars(&dc);
        let d = string_from_chars(&t);
        let empty: Outs = Vec::new();
        assert(outs_view(empty@) =~= Seq::<OutView>::empty());
        if t.len() == 0 {
            return SseStep { outputs: empty, stop: false };
        }
        if str_is(d.as_str(), "[DONE]") || str_is(d.as_str(), "DONE") {
            if !self.completed_sent {
                let outs = self.flush_and_complete_exec(false);
                return SseStep { outputs: outs, stop: true };
            } else {
                return SseStep { outputs: empty, stop: true };
            }
        }
        match parse_json(d.as_str()) {
            None => SseStep { outputs: empty, stop: false },
            Some(v) => self.on_value(&v),
        }
    }

    /// The stream ended without the sentinel (`end_step`).
    pub fn on_stream_end(&mut self) -> (r: Vec<Result<ResponseEvent, ApiError>>)
        ensures
            (final(self)@, outs_view(r@)) == end_step(old(self)@),
    {
        if !self.completed_sent {
            self.flush_and_complete_exec(true)
        } else {
            let empty: Outs = Vec::new();
            assert(outs_view(empty@) =~= Seq::<OutView>::empty());
            empty
        }
    }
}

/// Once a choice fails the stream, the later choices change nothing.
proof fn lemma_fold_stops(st: SseView, cs: Seq<JsonModel>, usage: Option<TokenUsage>, i: int)
    requires
        0 < i <= cs.len(),
        fold_choices(st, cs.take(i), usage).stop,
    ensures
        fold_choices(st, cs, usage) == fold_choices(st, cs.take(i), usage),
    decreases cs.len() - i,
{
    if i < cs.len() {
        assert(cs.take(i + 1).drop_last() =~= cs.take(i));
        lemma_fold_stops(st, cs, usage, i + 1);
    } else {
        assert(cs.take(i) =~= cs);
    }
}

/// The error for a transport failure while reading the stream.
pub fn transport_error(message: String) -> (r: Result<ResponseEvent, ApiError>)
    ensures
        crate::items::out_view(r) == OutView::Error(ApiErrorView::Stream(message@)),
{
    Err(ApiError::Stream(message))
}

pub open spec fn idle_timeout_message() -> Seq<char> {
    "idle timeout waiting for SSE"@
}

/// The error for a stream that stayed silent past the idle timeout.
pub fn idle_timeout_error() -> (r: Result<ResponseEvent, ApiError>)
    ensures
        crate::items::out_view(r) == OutView::Error(ApiErrorView::Stream(idle_timeout_message())),
{
    Err(ApiError::Stream("idle timeout waiting for SSE".to_string()))
}

} // verus!
