//! What holds of a whole Chat Completions event stream: completion is
//! reported at most once, however the events arrive and however it ends.
use vstd::prelude::*;
use crate::items::{empty_assistant, ContentView, EventView, ItemView, OutView};
use crate::json::JsonModel;
use crate::chat_sse::{
    SseView, SlotView, ChoiceAcc, ev, get_str, get_array, append_reasoning, append_assistant,
    flush_reasoning, flush_assistant, append_content_items, apply_tool_calls, apply_reasoning,
    apply_content, apply_delta, reasoning_field, reasoning_text, reasoning_with, assistant_with,
    drain_calls, slot_call, choice_step, completed, fold_choices, value_step, provider_error_message,
    parse_usage, flush_and_complete, truncated_message, is_done_sentinel, data_step, end_step,
    initial_sse, has_named_slot,
};

verus! {

/// The output reports completion.
pub open spec fn is_completion(o: OutView) -> bool {
    o matches OutView::Event(EventView::Completed { .. })
}

/// How many completions the outputs report.
pub open spec fn completions(s: Seq<OutView>) -> nat
    decreases s.len(),
{
    if s.len() == 0 {
        0
    } else {
        completions(s.drop_last()) + if is_completion(s.last()) { 1nat } else { 0nat }
    }
}

/// How many completions a stream in this state may still report.
pub open spec fn completions_left(st: SseView) -> nat {
    if st.completed_sent { 0 } else { 1 }
}

/// The outputs of a stream in state `st` fed the event data `datas` in
/// order: it stops at the event that ends it; when none does, the input
/// ending closes it.
pub open spec fn run_stream(st: SseView, datas: Seq<Seq<char>>) -> Seq<OutView>
    decreases datas.len(),
{
    if datas.len() == 0 {
        end_step(st).1
    } else {
        let (s, o, done) = data_step(st, datas[0]);
        if done {
            o
        } else {
            o + run_stream(s, datas.drop_first())
        }
    }
}

proof fn lemma_push(s: Seq<OutView>, x: OutView)
    ensures
        completions(s.push(x)) == completions(s) + if is_completion(x) { 1nat } else { 0nat },
{
    assert(s.push(x).drop_last() =~= s);
}

proof fn lemma_add(a: Seq<OutView>, b: Seq<OutView>)
    ensures
        completions(a + b) == completions(a) + completions(b),
    decreases b.len(),
{
    if b.len() == 0 {
        assert(a + b =~= a);
    } else {
        lemma_add(a, b.drop_last());
        assert((a + b).drop_last() =~= a + b.drop_last());
        assert((a + b).last() == b.last());
    }
}

/// Steps that emit only item and delta events and leave the completion
/// flag alone.
proof fn lemma_quiet_appends(st: SseView, outs: Seq<OutView>, text: Seq<char>)
    ensures
        completions(append_reasoning(st, outs, text).1) == completions(outs),
        append_reasoning(st, outs, text).0.completed_sent == st.completed_sent,
        completions(append_assistant(st, outs, text).1) == completions(outs),
        append_assistant(st, outs, text).0.completed_sent == st.completed_sent,
        completions(flush_reasoning(st, outs).1) == completions(outs),
        flush_reasoning(st, outs).0.completed_sent == st.completed_sent,
        completions(flush_assistant(st, outs).1) == completions(outs),
        flush_assistant(st, outs).0.completed_sent == st.completed_sent,
{
    let a0 = ev(EventView::OutputItemAdded(crate::items::empty_reasoning()));
    let a1 = ev(EventView::OutputItemAdded(crate::items::empty_assistant()));
    lemma_push(outs, a0);
    lemma_push(outs, a1);
    match st.reasoning {
        Some(t) => {
            lemma_push(outs, ev(EventView::ReasoningContentDelta { delta: text, content_index: t.len() as i64 }));
            lemma_push(outs, ev(EventView::OutputItemDone(reasoning_with(t))));
        },
        None => {
            lemma_push(outs.push(a0), ev(EventView::ReasoningContentDelta { delta: text, content_index: 0 }));
        },
    }
    match st.assistant {
        Some(t) => {
            lemma_push(outs, ev(EventView::OutputTextDelta(text)));
            lemma_push(outs, ev(EventView::OutputItemDone(assistant_with(t))));
        },
        None => {
            lemma_push(outs.push(a1), ev(EventView::OutputTextDelta(text)));
        },
    }
}

proof fn lemma_quiet_content_items(st: SseView, outs: Seq<OutView>, items: Seq<JsonModel>)
    ensures
        completions(append_content_items(st, outs, items).1) == completions(outs),
        append_content_items(st, outs, items).0.completed_sent == st.completed_sent,
    decreases items.len(),
{
    if items.len() > 0 {
        lemma_quiet_content_items(st, outs, items.drop_last());
        let (s1, o1) = append_content_items(st, outs, items.drop_last());
        match get_str(items.last(), "text"@) {
            Some(t) => lemma_quiet_appends(s1, o1, t),
            None => {},
        }
    }
}

proof fn lemma_quiet_tool_calls(st: SseView, tcs: Seq<JsonModel>)
    ensures
        apply_tool_calls(st, tcs).completed_sent == st.completed_sent,
    decreases tcs.len(),
{
    if tcs.len() > 0 {
        lemma_quiet_tool_calls(st, tcs.drop_last());
    }
}

proof fn lemma_quiet_delta(st: SseView, outs: Seq<OutView>, d: JsonModel)
    ensures
        completions(apply_reasoning(st, outs, d).1) == completions(outs),
        apply_reasoning(st, outs, d).0.completed_sent == st.completed_sent,
        completions(apply_delta(st, outs, d).1) == completions(outs),
        apply_delta(st, outs, d).0.completed_sent == st.completed_sent,
{
    match reasoning_field(d) {
        Some(r) => match reasoning_text(r) {
            Some(t) => lemma_quiet_appends(st, outs, t),
            None => {},
        },
        None => {},
    }
    let (s1, o1) = apply_reasoning(st, outs, d);
    match model_get_content(d) {
        Some(c) => match crate::json::model_array(c) {
            Some(items) => lemma_quiet_content_items(s1, o1, items),
            None => match crate::json::model_str(c) {
                Some(t) => lemma_quiet_appends(s1, o1, t),
                None => {},
            },
        },
        None => {},
    }
    let (s2, o2) = apply_content(s1, o1, d);
    match get_array(d, "tool_calls"@) {
        Some(tcs) => lemma_quiet_tool_calls(s2, tcs),
        None => {},
    }
}

spec fn model_get_content(d: JsonModel) -> Option<JsonModel> {
    crate::json::model_get(d, "content"@)
}

proof fn lemma_quiet_drain(slots: Seq<SlotView>, outs: Seq<OutView>)
    ensures
        completions(drain_calls(slots, outs)) == completions(outs),
    decreases slots.len(),
{
    if slots.len() > 0 {
        lemma_quiet_drain(slots.drop_last(), outs);
        let o = drain_calls(slots.drop_last(), outs);
        lemma_push(o, ev(EventView::OutputItemDone(slot_call(slots.last()))));
    }
}

/// A choice reports completion only when none was reported yet, and then
/// records that it was.
proof fn lemma_choice(acc: ChoiceAcc, choice: JsonModel, usage: Option<crate::items::TokenUsage>)
    ensures
        completions(choice_step(acc, choice, usage).outs) + completions_left(choice_step(acc, choice, usage).st)
            == completions(acc.outs) + completions_left(acc.st),
{
    let (s1, o1) = match crate::json::model_get(choice, "delta"@) {
        Some(d) => apply_delta(acc.st, acc.outs, d),
        None => (acc.st, acc.outs),
    };
    match crate::json::model_get(choice, "delta"@) {
        Some(d) => lemma_quiet_delta(acc.st, acc.outs, d),
        None => {},
    }
    let (s2, o2) = match crate::json::model_get(choice, "message"@) {
        Some(m) => apply_reasoning(s1, o1, m),
        None => (s1, o1),
    };
    match crate::json::model_get(choice, "message"@) {
        Some(m) => lemma_quiet_delta(s1, o1, m),
        None => {},
    }
    let fr = get_str(choice, "finish_reason"@);
    if fr == Some("stop"@) {
        lemma_quiet_appends(s2, o2, Seq::empty());
        let (s3, o3) = flush_reasoning(s2, o2);
        lemma_quiet_appends(s3, o3, Seq::empty());
        let (s4, o4) = flush_assistant(s3, o3);
        lemma_push(o4, completed(usage));
    } else if fr == Some("length"@) {
        lemma_push(o2, OutView::Error(crate::items::ApiErrorView::ContextWindowExceeded));
    } else if fr == Some("tool_calls"@) {
        lemma_quiet_appends(s2, o2, Seq::empty());
    }
}

proof fn lemma_fold(st: SseView, cs: Seq<JsonModel>, usage: Option<crate::items::TokenUsage>)
    ensures
        completions(fold_choices(st, cs, usage).outs) + completions_left(fold_choices(st, cs, usage).st)
            == completions_left(st),
    decreases cs.len(),
{
    if cs.len() == 0 {
    } else {
        lemma_fold(st, cs.drop_last(), usage);
        let acc = fold_choices(st, cs.drop_last(), usage);
        if !acc.stop {
            lemma_choice(acc, cs.last(), usage);
        }
    }
}

proof fn lemma_value(st: SseView, v: JsonModel)
    ensures
        completions(value_step(st, v).1) + completions_left(value_step(st, v).0) == completions_left(st),
{
    match get_array(v, "choices"@) {
        None => {
            lemma_push(Seq::empty(), OutView::Error(crate::items::ApiErrorView::Stream(provider_error_message(v))));
            assert(seq![OutView::Error(crate::items::ApiErrorView::Stream(provider_error_message(v)))]
                =~= Seq::<OutView>::empty().push(OutView::Error(crate::items::ApiErrorView::Stream(provider_error_message(v)))));
        },
        Some(cs) => {
            let usage = parse_usage(v);
            lemma_fold(st, cs, usage);
            let acc = fold_choices(st, cs, usage);
            if !acc.stop && acc.saw_tool_calls {
                lemma_quiet_appends(acc.st, acc.outs, Seq::empty());
                let (s1, o1) = flush_assistant(acc.st, acc.outs);
                lemma_quiet_drain(s1.slots, o1);
                lemma_push(drain_calls(s1.slots, o1), completed(usage));
            }
        },
    }
}

proof fn lemma_flush_and_complete(st: SseView, truncated: bool)
    ensures
        completions(flush_and_complete(st, truncated).1) <= 1,
{
    let e: Seq<OutView> = Seq::empty();
    lemma_quiet_appends(st, e, Seq::empty());
    let (s1, o1) = flush_reasoning(st, e);
    lemma_quiet_appends(s1, o1, Seq::empty());
    let (s2, o2) = flush_assistant(s1, o1);
    lemma_quiet_drain(s2.slots, o2);
    lemma_push(drain_calls(s2.slots, o2), completed(None));
    let err = OutView::Error(crate::items::ApiErrorView::Stream(truncated_message()));
    lemma_push(e, err);
    assert(seq![err] =~= e.push(err));
}

proof fn lemma_data(st: SseView, data: Seq<char>)
    ensures
        !data_step(st, data).2 ==> completions(data_step(st, data).1) + completions_left(data_step(st, data).0)
            == completions_left(st),
        data_step(st, data).2 ==> completions(data_step(st, data).1) <= completions_left(st),
{
    let d = crate::text::trim(data);
    if d.len() == 0 {
    } else if is_done_sentinel(d) {
        if !st.completed_sent {
            lemma_flush_and_complete(st, false);
        }
    } else {
        match crate::json::json_parse(d) {
            None => {},
            Some(v) => lemma_value(st, v),
        }
    }
}

/// A stream reports completion at most once: never again once it has, and
/// at most once from any state that has not (a fresh stream among them).
pub proof fn law_completed_at_most_once(st: SseView, datas: Seq<Seq<char>>)
    ensures
        completions(run_stream(st, datas)) <= completions_left(st),
    decreases datas.len(),
{
    if datas.len() == 0 {
        if !st.completed_sent {
            lemma_flush_and_complete(st, true);
        }
    } else {
        let (s, o, done) = data_step(st, datas[0]);
        lemma_data(st, datas[0]);
        if !done {
            law_completed_at_most_once(s, datas.drop_first());
            lemma_add(o, run_stream(s, datas.drop_first()));
        }
    }
}

/// The body of an event with one choice whose delta carries the content
/// text `t`: `{"choices":[{"delta":{"content":t}}]}`.
pub open spec fn content_event(t: Seq<char>) -> JsonModel {
    JsonModel::Object(
        seq![
            (
                "choices"@,
                JsonModel::Array(
                    seq![
                        JsonModel::Object(
                            seq![("delta"@, JsonModel::Object(seq![("content"@, JsonModel::Str(t))]))],
                        ),
                    ],
                ),
            ),
        ],
    )
}

/// A stream in state `st` fed a content event for each text in turn: the
/// state it ends in and everything it emitted.
pub open spec fn content_run(st: SseView, ds: Seq<Seq<char>>) -> (SseView, Seq<OutView>)
    decreases ds.len(),
{
    if ds.len() == 0 {
        (st, Seq::empty())
    } else {
        let (s, o) = content_run(st, ds.drop_last());
        let r = value_step(s, content_event(ds.last()));
        (r.0, o + r.1)
    }
}

proof fn lemma_lookup_single(k: Seq<char>, x: JsonModel, key: Seq<char>)
    ensures
        crate::json::model_get(JsonModel::Object(seq![(k, x)]), key) == if k == key { Some(x) } else { None },
{
    assert(seq![(k, x)].drop_first() =~= Seq::<(Seq<char>, JsonModel)>::empty());
    assert(crate::json::obj_lookup(Seq::<(Seq<char>, JsonModel)>::empty(), key) is None);
}

proof fn lemma_content_event(st: SseView, t: Seq<char>)
    requires
        t.len() > 0,
    ensures
        value_step(st, content_event(t)) == (
            append_assistant(st, Seq::empty(), t).0,
            append_assistant(st, Seq::empty(), t).1,
            false,
        ),
{
    reveal_strlit("choices");
    reveal_strlit("delta");
    reveal_strlit("content");
    reveal_strlit("usage");
    reveal_strlit("message");
    reveal_strlit("finish_reason");
    reveal_strlit("reasoning");
    reveal_strlit("reasoning_content");
    reveal_strlit("tool_calls");
    reveal_strlit("error");
    let d = JsonModel::Object(seq![("content"@, JsonModel::Str(t))]);
    let choice = JsonModel::Object(seq![("delta"@, d)]);
    let v = content_event(t);
    let cs = JsonModel::Array(seq![choice]);
    lemma_lookup_single("choices"@, cs, "choices"@);
    lemma_lookup_single("choices"@, cs, "usage"@);
    lemma_lookup_single("choices"@, cs, "error"@);
    lemma_lookup_single("delta"@, d, "delta"@);
    lemma_lookup_single("delta"@, d, "message"@);
    lemma_lookup_single("delta"@, d, "finish_reason"@);
    lemma_lookup_single("content"@, JsonModel::Str(t), "content"@);
    lemma_lookup_single("content"@, JsonModel::Str(t), "reasoning"@);
    lemma_lookup_single("content"@, JsonModel::Str(t), "reasoning_content"@);
    lemma_lookup_single("content"@, JsonModel::Str(t), "tool_calls"@);
    assert(crate::json::model_get(v, "choices"@) == Some(JsonModel::Array(seq![choice])));
    assert(crate::json::model_get(v, "usage"@) is None) by {
        assert("choices"@.len() == 7 && "usage"@.len() == 5);
        assert("choices"@ != "usage"@);
    }
    assert(parse_usage(v) is None);
    assert(crate::json::model_get(choice, "delta"@) == Some(d));
    assert(crate::json::model_get(choice, "message"@) is None) by {
        assert("delta"@.len() == 5 && "message"@.len() == 7);
        assert("delta"@ != "message"@);
    }
    assert(get_str(choice, "finish_reason"@) is None) by {
        assert("delta"@.len() == 5 && "finish_reason"@.len() == 13);
        assert("delta"@ != "finish_reason"@);
    }
    assert(crate::json::model_get(d, "reasoning"@) is None) by {
        assert("content"@.len() == 7 && "reasoning"@.len() == 9);
        assert("content"@ != "reasoning"@);
    }
    assert(crate::json::model_get(d, "reasoning_content"@) is None) by {
        assert("content"@.len() == 7 && "reasoning_content"@.len() == 17);
        assert("content"@ != "reasoning_content"@);
    }
    assert(reasoning_field(d) is None);
    assert(crate::json::model_get(d, "content"@) == Some(JsonModel::Str(t)));
    assert(get_array(d, "tool_calls"@) is None) by {
        assert("content"@.len() == 7 && "tool_calls"@.len() == 10);
        assert("content"@ != "tool_calls"@);
    }
    let acc0 = ChoiceAcc { st: st, outs: Seq::empty(), saw_tool_calls: false, stop: false };
    assert(seq![choice].drop_last() =~= Seq::<JsonModel>::empty());
    assert(fold_choices(st, Seq::<JsonModel>::empty(), None) == acc0);
    assert(fold_choices(st, seq![choice], None) == choice_step(acc0, choice, None));
}

proof fn lemma_content_run(ds: Seq<Seq<char>>)
    requires
        ds.len() > 0,
        forall|i: int| 0 <= i < ds.len() ==> (#[trigger] ds[i]).len() > 0,
    ensures
        content_run(initial_sse(), ds).0 == (SseView { assistant: Some(ds), ..initial_sse() }),
        content_run(initial_sse(), ds).1 == seq![ev(EventView::OutputItemAdded(empty_assistant()))] + ds.map_values(
            |t: Seq<char>| ev(EventView::OutputTextDelta(t)),
        ),
    decreases ds.len(),
{
    let init = ds.drop_last();
    let t = ds.last();
    assert(t.len() > 0);
    if ds.len() == 1 {
        assert(init.len() == 0);
        assert(content_run(initial_sse(), init) == (initial_sse(), Seq::<OutView>::empty()));
        lemma_content_event(initial_sse(), t);
        assert(seq![t] =~= ds);
        assert(Seq::<Seq<char>>::empty().push(t) =~= ds);
        assert(Seq::<OutView>::empty() + seq![ev(EventView::OutputItemAdded(empty_assistant())), ev(EventView::OutputTextDelta(t))]
            =~= seq![ev(EventView::OutputItemAdded(empty_assistant()))] + ds.map_values(
            |t: Seq<char>| ev(EventView::OutputTextDelta(t)),
        ));
    } else {
        assert forall|i: int| 0 <= i < init.len() implies (#[trigger] init[i]).len() > 0 by {
            assert(init[i] == ds[i]);
        }
        lemma_content_run(init);
        let st = SseView { assistant: Some(init), ..initial_sse() };
        lemma_content_event(st, t);
        assert(init.push(t) =~= ds);
        assert(seq![ev(EventView::OutputItemAdded(empty_assistant()))] + init.map_values(
            |t: Seq<char>| ev(EventView::OutputTextDelta(t)),
        ) + seq![ev(EventView::OutputTextDelta(t))] =~= seq![ev(EventView::OutputItemAdded(empty_assistant()))]
            + ds.map_values(|t: Seq<char>| ev(EventView::OutputTextDelta(t))));
        assert(Seq::<OutView>::empty().push(ev(EventView::OutputTextDelta(t))) =~= seq![ev(EventView::OutputTextDelta(t))]);
    }
}

/// Content streamed in a turn becomes the assistant message, whole and in
/// order: fed events whose deltas carry the texts `ds` (none empty), a new
/// stream opens one assistant message and passes each text on as a text
/// delta; `[DONE]` then finishes that message with one output-text part per
/// streamed text, in the order they came, and reports completion.
pub proof fn law_streamed_content_is_the_message(ds: Seq<Seq<char>>)
    requires
        ds.len() > 0,
        forall|i: int| 0 <= i < ds.len() ==> (#[trigger] ds[i]).len() > 0,
    ensures
        content_run(initial_sse(), ds).1 == seq![ev(EventView::OutputItemAdded(empty_assistant()))] + ds.map_values(
            |t: Seq<char>| ev(EventView::OutputTextDelta(t)),
        ),
        data_step(content_run(initial_sse(), ds).0, "[DONE]"@).1 == seq![
            ev(
                EventView::OutputItemDone(
                    ItemView::Message {
                        id: None,
                        role: "assistant"@,
                        content: ds.map_values(|t: Seq<char>| ContentView::OutputText(t)),
                        end_turn: None,
                        phase: None,
                    },
                ),
            ),
            ev(EventView::Completed { response_id: Seq::empty(), token_usage: None }),
        ],
        data_step(content_run(initial_sse(), ds).0, "[DONE]"@).2,
{
    lemma_content_run(ds);
    let st = SseView { assistant: Some(ds), ..initial_sse() };
    reveal_strlit("[DONE]");
    let d = "[DONE]"@;
    assert(d.len() == 6);
    assert(d[0] == '[');
    assert(d[5] == ']');
    assert(!crate::text::is_white_space(d[0]));
    assert(!crate::text::is_white_space(d[5]));
    assert(crate::text::leading_ws_from(d, 0) == 0);
    assert(crate::text::trailing_ws_to(d, 0, 6) == 6);
    assert(d.subrange(0, 6) =~= d);
    assert(crate::text::trim(d) == d);
    assert(is_done_sentinel(d));
    assert(!has_named_slot(st.slots));
}

/// The body of an event with one choice whose delta carries the reasoning
/// text `t`: `{"choices":[{"delta":{"reasoning":t}}]}`.
pub open spec fn reasoning_event(t: Seq<char>) -> JsonModel {
    JsonModel::Object(
        seq![
            (
                "choices"@,
                JsonModel::Array(
                    seq![
                        JsonModel::Object(
                            seq![("delta"@, JsonModel::Object(seq![("reasoning"@, JsonModel::Str(t))]))],
                        ),
                    ],
                ),
            ),
        ],
    )
}

/// A stream in state `st` fed a reasoning event for each text in turn.
pub open spec fn reasoning_run(st: SseView, ds: Seq<Seq<char>>) -> (SseView, Seq<OutView>)
    decreases ds.len(),
{
    if ds.len() == 0 {
        (st, Seq::empty())
    } else {
        let (s, o) = reasoning_run(st, ds.drop_last());
        let r = value_step(s, reasoning_event(ds.last()));
        (r.0, o + r.1)
    }
}

proof fn lemma_reasoning_event(st: SseView, t: Seq<char>)
    ensures
        value_step(st, reasoning_event(t)) == (
            append_reasoning(st, Seq::empty(), t).0,
            append_reasoning(st, Seq::empty(), t).1,
            false,
        ),
{
    reveal_strlit("choices");
    reveal_strlit("delta");
    reveal_strlit("content");
    reveal_strlit("usage");
    reveal_strlit("message");
    reveal_strlit("finish_reason");
    reveal_strlit("reasoning");
    reveal_strlit("tool_calls");
    let r = JsonModel::Str(t);
    let d = JsonModel::Object(seq![("reasoning"@, r)]);
    let choice = JsonModel::Object(seq![("delta"@, d)]);
    let v = reasoning_event(t);
    let cs = JsonModel::Array(seq![choice]);
    assert("choices"@.len() == 7 && "usage"@.len() == 5);
    assert("delta"@.len() == 5 && "message"@.len() == 7 && "finish_reason"@.len() == 13);
    assert("reasoning"@.len() == 9 && "content"@.len() == 7 && "tool_calls"@.len() == 10);
    lemma_lookup_single("choices"@, cs, "choices"@);
    lemma_lookup_single("choices"@, cs, "usage"@);
    lemma_lookup_single("delta"@, d, "delta"@);
    lemma_lookup_single("delta"@, d, "message"@);
    lemma_lookup_single("delta"@, d, "finish_reason"@);
    lemma_lookup_single("reasoning"@, r, "reasoning"@);
    lemma_lookup_single("reasoning"@, r, "content"@);
    lemma_lookup_single("reasoning"@, r, "tool_calls"@);
    assert(parse_usage(v) is None);
    assert(reasoning_field(d) == Some(r));
    assert(reasoning_text(r) == Some(t));
    let acc0 = ChoiceAcc { st: st, outs: Seq::empty(), saw_tool_calls: false, stop: false };
    assert(seq![choice].drop_last() =~= Seq::<JsonModel>::empty());
    assert(fold_choices(st, Seq::<JsonModel>::empty(), None) == acc0);
}

proof fn lemma_reasoning_run(ds: Seq<Seq<char>>)
    requires
        ds.len() > 0,
    ensures
        reasoning_run(initial_sse(), ds).0 == (SseView { reasoning: Some(ds), ..initial_sse() }),
        reasoning_run(initial_sse(), ds).1 == seq![ev(EventView::OutputItemAdded(crate::items::empty_reasoning()))]
            + Seq::new(
            ds.len(),
            |i: int| ev(EventView::ReasoningContentDelta { delta: ds[i], content_index: i as i64 }),
        ),
    decreases ds.len(),
{
    let init = ds.drop_last();
    let t = ds.last();
    let added = seq![ev(EventView::OutputItemAdded(crate::items::empty_reasoning()))];
    if ds.len() == 1 {
        assert(init.len() == 0);
        assert(reasoning_run(initial_sse(), init) == (initial_sse(), Seq::<OutView>::empty()));
        lemma_reasoning_event(initial_sse(), t);
        assert(Seq::<Seq<char>>::empty().push(t) =~= ds);
        assert(Seq::<OutView>::empty() + seq![
            ev(EventView::OutputItemAdded(crate::items::empty_reasoning())),
            ev(EventView::ReasoningContentDelta { delta: t, content_index: 0 }),
        ] =~= added + Seq::new(
            ds.len(),
            |i: int| ev(EventView::ReasoningContentDelta { delta: ds[i], content_index: i as i64 }),
        ));
    } else {
        lemma_reasoning_run(init);
        let st = SseView { reasoning: Some(init), ..initial_sse() };
        lemma_reasoning_event(st, t);
        assert(init.push(t) =~= ds);
        let d0 = ev(EventView::ReasoningContentDelta { delta: t, content_index: init.len() as i64 });
        assert(Seq::<OutView>::empty().push(d0) =~= seq![d0]);
        assert(added + Seq::new(
            init.len(),
            |i: int| ev(EventView::ReasoningContentDelta { delta: init[i], content_index: i as i64 }),
        ) + seq![d0] =~= added + Seq::new(
            ds.len(),
            |i: int| ev(EventView::ReasoningContentDelta { delta: ds[i], content_index: i as i64 }),
        ));
    }
}

/// Reasoning streamed in a turn becomes the reasoning item, whole and in
/// order: fed events whose deltas carry the reasoning texts `ds`, a new
/// stream opens one reasoning item and passes each text on as a reasoning
/// delta numbered by its place; `[DONE]` then finishes that item with one
/// reasoning-text part per streamed text, in the order they came, and
/// reports completion.
pub proof fn law_streamed_reasoning_is_the_item(ds: Seq<Seq<char>>)
    requires
        ds.len() > 0,
    ensures
        reasoning_run(initial_sse(), ds).1 == seq![ev(EventView::OutputItemAdded(crate::items::empty_reasoning()))]
            + Seq::new(
            ds.len(),
            |i: int| ev(EventView::ReasoningContentDelta { delta: ds[i], content_index: i as i64 }),
        ),
        data_step(reasoning_run(initial_sse(), ds).0, "[DONE]"@).1 == seq![
            ev(
                EventView::OutputItemDone(
                    ItemView::Reasoning {
                        id: Seq::empty(),
                        summary: Seq::empty(),
                        content: Some(
                            ds.map_values(|t: Seq<char>| crate::items::ReasoningContentView::ReasoningText(t)),
                        ),
                        encrypted_content: None,
                    },
                ),
            ),
            ev(EventView::Completed { response_id: Seq::empty(), token_usage: None }),
        ],
        data_step(reasoning_run(initial_sse(), ds).0, "[DONE]"@).2,
{
    lemma_reasoning_run(ds);
    let st = SseView { reasoning: Some(ds), ..initial_sse() };
    reveal_strlit("[DONE]");
    let d = "[DONE]"@;
    assert(d.len() == 6);
    assert(d[0] == '[');
    assert(d[5] == ']');
    assert(crate::text::leading_ws_from(d, 0) == 0);
    assert(crate::text::trailing_ws_to(d, 0, 6) == 6);
    assert(d.subrange(0, 6) =~= d);
    assert(crate::text::trim(d) == d);
    assert(is_done_sentinel(d));
    assert(!has_named_slot(st.slots));
}

} // verus!
