//! Merges the token deltas of a response stream into whole items: one
//! assistant message (and one reasoning item) per turn.
use vstd::prelude::*;
use crate::items::{
    assistant_message_with_text, assistant_text_item, reasoning_item_with_text,
    reasoning_text_item, ContentItem, ContentView, EventView, ItemView, ResponseEvent,
    ResponseItem,
};
use crate::text::push_str;

verus! {

/// Whether deltas are passed on as they come or only merged items are.
#[derive(Debug, Clone, Copy, PartialEq, Eq)]
pub enum AggregateMode {
    AggregatedOnly,
    Streaming,
}

/// The text buffered so far in a turn.
pub struct AggView {
    pub cumulative: Seq<char>,
    pub cumulative_reasoning: Seq<char>,
    pub mode: AggregateMode,
}

pub open spec fn is_assistant_message(it: ItemView) -> bool {
    match it {
        ItemView::Message { role, .. } => role == "assistant"@,
        _ => false,
    }
}

pub open spec fn is_tool_call(it: ItemView) -> bool {
    it is FunctionCall || it is LocalShellCall || it is CustomToolCall
}

/// The first output text of a message's content.
pub open spec fn first_output_text_from(c: Seq<ContentView>, i: int) -> Option<Seq<char>>
    decreases c.len() - i,
{
    if i < 0 || i >= c.len() {
        None
    } else {
        match c[i] {
            ContentView::OutputText(t) => Some(t),
            _ => first_output_text_from(c, i + 1),
        }
    }
}

pub open spec fn first_output_text(it: ItemView) -> Option<Seq<char>> {
    match it {
        ItemView::Message { content, .. } => first_output_text_from(content, 0),
        _ => None,
    }
}

/// One event of the inner stream: the new buffers and the events passed on,
/// in order.
pub open spec fn agg_step(st: AggView, ev: EventView) -> (AggView, Seq<EventView>) {
    match ev {
        EventView::OutputItemDone(item) => if is_assistant_message(item) {
            match st.mode {
                AggregateMode::AggregatedOnly => {
                    if st.cumulative.len() == 0 && first_output_text(item) is Some {
                        (AggView { cumulative: st.cumulative + first_output_text(item)->0, ..st }, Seq::empty())
                    } else {
                        (st, Seq::empty())
                    }
                },
                AggregateMode::Streaming => if st.cumulative.len() == 0 {
                    (st, seq![ev])
                } else {
                    (st, Seq::empty())
                },
            }
        } else if st.mode == AggregateMode::AggregatedOnly && st.cumulative.len() > 0 && is_tool_call(item) {
            (
                AggView { cumulative: Seq::empty(), ..st },
                seq![EventView::OutputItemDone(assistant_text_item(st.cumulative)), ev],
            )
        } else {
            (st, seq![ev])
        },
        EventView::Completed { .. } => {
            let r = if st.cumulative_reasoning.len() > 0 {
                seq![EventView::OutputItemDone(reasoning_text_item(st.cumulative_reasoning))]
            } else {
                Seq::empty()
            };
            let a = if st.cumulative.len() > 0 {
                seq![EventView::OutputItemDone(assistant_text_item(st.cumulative))]
            } else {
                Seq::empty()
            };
            (AggView { cumulative: Seq::empty(), cumulative_reasoning: Seq::empty(), ..st }, r + a + seq![ev])
        },
        EventView::Created => (st, Seq::empty()),
        EventView::OutputTextDelta(d) => {
            let s = AggView { cumulative: st.cumulative + d, ..st };
            if st.mode == AggregateMode::Streaming {
                (s, seq![ev])
            } else {
                (s, Seq::empty())
            }
        },
        EventView::ReasoningContentDelta { delta, .. } => {
            let s = AggView { cumulative_reasoning: st.cumulative_reasoning + delta, ..st };
            if st.mode == AggregateMode::Streaming {
                (s, seq![ev])
            } else {
                (s, Seq::empty())
            }
        },
        EventView::ReasoningSummaryDelta { .. } => (st, Seq::empty()),
        EventView::ReasoningSummaryPartAdded { .. } => (st, Seq::empty()),
        _ => (st, seq![ev]),
    }
}

/// The merging state of a response stream.
pub struct AggregatedStream {
    cumulative: String,
    cumulative_reasoning: String,
    mode: AggregateMode,
}

impl View for AggregatedStream {
    type V = AggView;

    closed spec fn view(&self) -> AggView {
        AggView {
            cumulative: self.cumulative@,
            cumulative_reasoning: self.cumulative_reasoning@,
            mode: self.mode,
        }
    }
}

pub open spec fn events_view(v: Seq<ResponseEvent>) -> Seq<EventView> {
    v.map_values(|e: ResponseEvent| e@)
}

fn first_output_text_exec(content: &Vec<ContentItem>) -> (r: Option<&String>)
    ensures
        match r {
            Some(t) => first_output_text_from(content@.map_values(|c: ContentItem| c@), 0) == Some(t@),
            None => first_output_text_from(content@.map_values(|c: ContentItem| c@), 0) is None,
        },
{
    let ghost cv = content@.map_values(|c: ContentItem| c@);
    let mut i: usize = 0;
    while i < content.len()
        invariant
            i <= content.len(),
            cv == content@.map_values(|c: ContentItem| c@),
            first_output_text_from(cv, 0) == first_output_text_from(cv, i as int),
        decreases content.len() - i,
    {
        match &content[i] {
            ContentItem::OutputText { text } => {
                return Some(text);
            },
            _ => {},
        }
        i += 1;
    }
    None
}

fn one(e: ResponseEvent) -> (r: Vec<ResponseEvent>)
    ensures
        events_view(r@) == seq![e@],
{
    let ghost ev = e@;
    let r = vec![e];
    assert(events_view(r@) =~= seq![ev]);
    r
}

fn none() -> (r: Vec<ResponseEvent>)
    ensures
        events_view(r@) == Seq::<EventView>::empty(),
{
    let r: Vec<ResponseEvent> = Vec::new();
    assert(events_view(r@) =~= Seq::<EventView>::empty());
    r
}

fn push_ev(v: &mut Vec<ResponseEvent>, e: ResponseEvent)
    ensures
        events_view(final(v)@) == events_view(old(v)@).push(e@),
{
    let ghost o = v@;
    let ghost ev = e@;
    v.push(e);
    assert(events_view(v@) =~= events_view(o).push(ev));
}

/// What to do with a finished item.
enum ItemAction {
    Absorb(Option<String>),
    Drop,
    PassOn,
    FlushFirst,
}

fn classify(cumulative: &String, mode: AggregateMode, item: &ResponseItem) -> (a: ItemAction)
    ensures
        ({
            let st = AggView { cumulative: cumulative@, cumulative_reasoning: Seq::empty(), mode: mode };
            let iv = item@;
            match a {
                ItemAction::Absorb(t) => is_assistant_message(iv) && mode == AggregateMode::AggregatedOnly && (match t {
                    Some(t) => cumulative@.len() == 0 && first_output_text(iv) == Some(t@),
                    None => !(cumulative@.len() == 0 && first_output_text(iv) is Some),
                }),
                ItemAction::Drop => is_assistant_message(iv) && mode == AggregateMode::Streaming && cumulative@.len() > 0,
                ItemAction::PassOn => (is_assistant_message(iv) && mode == AggregateMode::Streaming && cumulative@.len() == 0)
                    || (!is_assistant_message(iv) && !(mode == AggregateMode::AggregatedOnly && cumulative@.len() > 0 && is_tool_call(iv))),
                ItemAction::FlushFirst => !is_assistant_message(iv) && mode == AggregateMode::AggregatedOnly
                    && cumulative@.len() > 0 && is_tool_call(iv),
            }
        }),
{
    proof {
        reveal_strlit("assistant");
    }
    let is_asst = match item {
        ResponseItem::Message { role, .. } => {
            let a = crate::text::chars_of(role.as_str());
            let b = crate::text::chars_of("assistant");
            crate::text::chars_eq(&a, &b)
        },
        _ => false,
    };
    assert(is_asst == is_assistant_message(item@));
    if is_asst {
        match mode {
            AggregateMode::AggregatedOnly => {
                if cumulative.as_str().is_empty() {
                    match item {
                        ResponseItem::Message { content, .. } => {
                            assert(first_output_text(item@) == first_output_text_from(
                                content@.map_values(|c: ContentItem| c@),
                                0,
                            ));
                            match first_output_text_exec(content) {
                                Some(t) => ItemAction::Absorb(Some(t.clone())),
                                None => ItemAction::Absorb(None),
                            }
                        },
                        _ => ItemAction::Absorb(None),
                    }
                } else {
                    ItemAction::Absorb(None)
                }
            },
            AggregateMode::Streaming => {
                if cumulative.as_str().is_empty() {
                    ItemAction::PassOn
                } else {
                    ItemAction::Drop
                }
            },
        }
    } else {
        let is_call = match item {
            ResponseItem::FunctionCall { .. } => true,
            ResponseItem::LocalShellCall { .. } => true,
            ResponseItem::CustomToolCall { .. } => true,
            _ => false,
        };
        assert(is_call == is_tool_call(item@));
        let aggregated = match mode {
            AggregateMode::AggregatedOnly => true,
            AggregateMode::Streaming => false,
        };
        if aggregated && !cumulative.as_str().is_empty() && is_call {
            ItemAction::FlushFirst
        } else {
            ItemAction::PassOn
        }
    }
}

impl AggregatedStream {
    /// Nothing buffered yet.
    pub fn new(mode: AggregateMode) -> (r: Self)
        ensures
            r@ == (AggView { cumulative: Seq::empty(), cumulative_reasoning: Seq::empty(), mode: mode }),
    {
        AggregatedStream { cumulative: String::new(), cumulative_reasoning: String::new(), mode }
    }

    /// Takes one event of the inner stream and returns the events to pass
    /// on, in order (`agg_step`).
    pub fn on_event(&mut self, ev: ResponseEvent) -> (r: Vec<ResponseEvent>)
        ensures
            final(self)@ == agg_step(old(self)@, ev@).0,
            events_view(r@) == agg_step(old(self)@, ev@).1,
    {
        let mut cur = AggregatedStream::new(self.mode);
        std::mem::swap(&mut cur, self);
        let (next, out) = Self::step(cur, ev);
        *self = next;
        out
    }

    fn step(this: Self, ev: ResponseEvent) -> (r: (Self, Vec<ResponseEvent>))
        ensures
            r.0@ == agg_step(this@, ev@).0,
            events_view(r.1@) == agg_step(this@, ev@).1,
    {
        let mut this = this;
        let ghost st = this@;
        let ghost evv = ev@;
        proof {
            reveal_strlit("assistant");
        }
        let out = match ev {
            ResponseEvent::OutputItemDone(item) => {
                match classify(&this.cumulative, this.mode, &item) {
                    ItemAction::Absorb(Some(t)) => {
                        push_str(&mut this.cumulative, t.as_str());
                        assert(this@ == agg_step(st, evv).0);
                        none()
                    },
                    ItemAction::Absorb(None) => {
                        assert(this@ == agg_step(st, evv).0);
                        none()
                    },
                    ItemAction::Drop => {
                        assert(this@ == agg_step(st, evv).0);
                        none()
                    },
                    ItemAction::PassOn => {
                        assert(this@ == agg_step(st, evv).0);
                        one(ResponseEvent::OutputItemDone(item))
                    },
                    ItemAction::FlushFirst => {
                        let mut text = String::new();
                        std::mem::swap(&mut text, &mut this.cumulative);
                        let msg = assistant_message_with_text(text);
                        let mut out = one(ResponseEvent::OutputItemDone(msg));
                        push_ev(&mut out, ResponseEvent::OutputItemDone(item));
                        assert(events_view(out@) =~= seq![
                            EventView::OutputItemDone(assistant_text_item(st.cumulative)),
                            evv,
                        ]);
                        assert(this@ == agg_step(st, evv).0);
                        out
                    },
                }
            },
            ResponseEvent::Completed { response_id, token_usage } => {
                let mut out = none();
                if !this.cumulative_reasoning.as_str().is_empty() {
                    let mut text = String::new();
                    std::mem::swap(&mut text, &mut this.cumulative_reasoning);
                    push_ev(&mut out, ResponseEvent::OutputItemDone(reasoning_item_with_text(text)));
                }
                let ghost o1 = events_view(out@);
                if !this.cumulative.as_str().is_empty() {
                    let mut text = String::new();
                        std::mem::swap(&mut text, &mut this.cumulative);
                    push_ev(&mut out, ResponseEvent::OutputItemDone(assistant_message_with_text(text)));
                }
                let ghost o2 = events_view(out@);
                push_ev(&mut out, ResponseEvent::Completed { response_id, token_usage });
                proof {
                    let r = if st.cumulative_reasoning.len() > 0 {
                        seq![EventView::OutputItemDone(reasoning_text_item(st.cumulative_reasoning))]
                    } else {
                        Seq::empty()
                    };
                    let a = if st.cumulative.len() > 0 {
                        seq![EventView::OutputItemDone(assistant_text_item(st.cumulative))]
                    } else {
                        Seq::empty()
                    };
                    assert(o1 =~= r);
                    assert(o2 =~= r + a);
                    assert(events_view(out@) =~= r + a + seq![evv]);
                    assert(this.cumulative@ =~= Seq::<char>::empty());
                    assert(this.cumulative_reasoning@ =~= Seq::<char>::empty());
                }
                out
            },
            ResponseEvent::Created => none(),
            ResponseEvent::OutputTextDelta(d) => {
                push_str(&mut this.cumulative, d.as_str());
                match this.mode {
                    AggregateMode::Streaming => one(ResponseEvent::OutputTextDelta(d)),
                    AggregateMode::AggregatedOnly => none(),
                }
            },
            ResponseEvent::ReasoningContentDelta { delta, content_index } => {
                push_str(&mut this.cumulative_reasoning, delta.as_str());
                match this.mode {
                    AggregateMode::Streaming => one(ResponseEvent::ReasoningContentDelta { delta, content_index }),
                    AggregateMode::AggregatedOnly => none(),
                }
            },
            ResponseEvent::ReasoningSummaryDelta { .. } => none(),
            ResponseEvent::ReasoningSummaryPartAdded { .. } => none(),
            other => one(other),
        };
        (this, out)
    }
}

/// In the merged mode, a tool call is never passed on ahead of the text
/// buffered before it: the text goes out first, as its own assistant
/// message, and nothing stays buffered.
pub proof fn law_text_precedes_tool_calls(st: AggView, item: ItemView)
    requires
        st.mode == AggregateMode::AggregatedOnly,
        is_tool_call(item),
        st.cumulative.len() > 0,
    ensures
        agg_step(st, EventView::OutputItemDone(item)).1 == seq![
            EventView::OutputItemDone(assistant_text_item(st.cumulative)),
            EventView::OutputItemDone(item),
        ],
        agg_step(st, EventView::OutputItemDone(item)).0.cumulative.len() == 0,
{
}

/// Completion flushes every buffer: after it nothing stays buffered, and the
/// completion event is the last one passed on.
pub proof fn law_completed_flushes(st: AggView, response_id: Seq<char>, usage: Option<crate::items::TokenUsage>)
    ensures
        ({
            let ev = EventView::Completed { response_id: response_id, token_usage: usage };
            let (s, out) = agg_step(st, ev);
            &&& s.cumulative.len() == 0
            &&& s.cumulative_reasoning.len() == 0
            &&& out.len() > 0
            &&& out.last() == ev
        }),
{
}


/// The merged stream's state and output after the events in order.
pub open spec fn agg_run(st: AggView, evs: Seq<EventView>) -> (AggView, Seq<EventView>)
    decreases evs.len(),
{
    if evs.len() == 0 {
        (st, Seq::empty())
    } else {
        let (s, o) = agg_run(st, evs.drop_last());
        let (s2, o2) = agg_step(s, evs.last());
        (s2, o + o2)
    }
}

/// The texts one after another.
pub open spec fn joined(ds: Seq<Seq<char>>) -> Seq<char>
    decreases ds.len(),
{
    if ds.len() == 0 {
        Seq::empty()
    } else {
        joined(ds.drop_last()) + ds.last()
    }
}

/// A text delta for each text.
pub open spec fn text_deltas(ds: Seq<Seq<char>>) -> Seq<EventView> {
    ds.map_values(|d: Seq<char>| EventView::OutputTextDelta(d))
}

proof fn lemma_deltas_accumulate(st: AggView, ds: Seq<Seq<char>>)
    requires
        st.mode == AggregateMode::AggregatedOnly,
    ensures
        agg_run(st, text_deltas(ds)) == (AggView { cumulative: st.cumulative + joined(ds), ..st }, Seq::<EventView>::empty()),
    decreases ds.len(),
{
    if ds.len() == 0 {
        assert(st.cumulative + joined(ds) =~= st.cumulative);
        assert(text_deltas(ds) =~= Seq::<EventView>::empty());
    } else {
        lemma_deltas_accumulate(st, ds.drop_last());
        assert(text_deltas(ds).drop_last() =~= text_deltas(ds.drop_last()));
        assert(text_deltas(ds).last() == EventView::OutputTextDelta(ds.last()));
        assert(st.cumulative + joined(ds.drop_last()) + ds.last() =~= st.cumulative + joined(ds));
        assert(Seq::<EventView>::empty() + Seq::<EventView>::empty() =~= Seq::<EventView>::empty());
    }
}

/// In aggregated mode, a turn of text deltas followed by completion comes
/// out as exactly one assistant message holding all the text, then the
/// completion; no delta is passed on, and the stream is left as a new one.
/// `agg_run` is what `AggregatedStream::on_event` returns over the events in
/// turn, starting from `AggregatedStream::new(AggregateMode::AggregatedOnly)`.
pub proof fn law_deltas_then_completion(
    ds: Seq<Seq<char>>,
    response_id: Seq<char>,
    usage: Option<crate::items::TokenUsage>,
)
    requires
        joined(ds).len() > 0,
    ensures
        agg_run(
            AggView { cumulative: Seq::empty(), cumulative_reasoning: Seq::empty(), mode: AggregateMode::AggregatedOnly },
            text_deltas(ds).push(EventView::Completed { response_id, token_usage: usage }),
        ).1 == seq![
            EventView::OutputItemDone(assistant_text_item(joined(ds))),
            EventView::Completed { response_id, token_usage: usage },
        ],
        agg_run(
            AggView { cumulative: Seq::empty(), cumulative_reasoning: Seq::empty(), mode: AggregateMode::AggregatedOnly },
            text_deltas(ds).push(EventView::Completed { response_id, token_usage: usage }),
        ).0 == (AggView { cumulative: Seq::empty(), cumulative_reasoning: Seq::empty(), mode: AggregateMode::AggregatedOnly }),
{
    let st = AggView { cumulative: Seq::empty(), cumulative_reasoning: Seq::empty(), mode: AggregateMode::AggregatedOnly };
    let done = EventView::Completed { response_id, token_usage: usage };
    let evs = text_deltas(ds).push(done);
    lemma_deltas_accumulate(st, ds);
    assert(evs.drop_last() =~= text_deltas(ds));
    assert(st.cumulative + joined(ds) =~= joined(ds));
    let (s, o) = agg_run(st, evs.drop_last());
    let (s2, o2) = agg_step(s, done);
    assert(o2 =~= seq![EventView::OutputItemDone(assistant_text_item(joined(ds))), done]);
    assert(o + o2 =~= o2);
    assert(s2.cumulative =~= Seq::<char>::empty());
    assert(s2.cumulative_reasoning =~= Seq::<char>::empty());
}

/// A text or reasoning delta.
pub open spec fn is_delta(e: EventView) -> bool {
    e is OutputTextDelta || e is ReasoningContentDelta
}

/// The texts of the text deltas among `evs`, one after another.
pub open spec fn text_of_deltas(evs: Seq<EventView>) -> Seq<char>
    decreases evs.len(),
{
    if evs.len() == 0 {
        Seq::empty()
    } else {
        text_of_deltas(evs.drop_last()) + match evs.last() {
            EventView::OutputTextDelta(d) => d,
            _ => Seq::empty(),
        }
    }
}

/// The texts of the reasoning deltas among `evs`, one after another.
pub open spec fn reasoning_of_deltas(evs: Seq<EventView>) -> Seq<char>
    decreases evs.len(),
{
    if evs.len() == 0 {
        Seq::empty()
    } else {
        reasoning_of_deltas(evs.drop_last()) + match evs.last() {
            EventView::ReasoningContentDelta { delta, .. } => delta,
            _ => Seq::empty(),
        }
    }
}

proof fn lemma_mixed_deltas_accumulate(mode_st: AggView, evs: Seq<EventView>)
    requires
        mode_st.mode == AggregateMode::AggregatedOnly,
        forall|i: int| 0 <= i < evs.len() ==> is_delta(#[trigger] evs[i]),
    ensures
        agg_run(mode_st, evs) == (
            AggView {
                cumulative: mode_st.cumulative + text_of_deltas(evs),
                cumulative_reasoning: mode_st.cumulative_reasoning + reasoning_of_deltas(evs),
                ..mode_st
            },
            Seq::<EventView>::empty(),
        ),
    decreases evs.len(),
{
    if evs.len() == 0 {
        assert(mode_st.cumulative + text_of_deltas(evs) =~= mode_st.cumulative);
        assert(mode_st.cumulative_reasoning + reasoning_of_deltas(evs) =~= mode_st.cumulative_reasoning);
    } else {
        let init = evs.drop_last();
        assert forall|i: int| 0 <= i < init.len() implies is_delta(#[trigger] init[i]) by {
            assert(init[i] == evs[i]);
        }
        lemma_mixed_deltas_accumulate(mode_st, init);
        assert(is_delta(evs[evs.len() - 1]));
        let t0 = mode_st.cumulative + text_of_deltas(init);
        let r0 = mode_st.cumulative_reasoning + reasoning_of_deltas(init);
        match evs.last() {
            EventView::OutputTextDelta(d) => {
                assert(t0 + d =~= mode_st.cumulative + text_of_deltas(evs));
                assert(r0 =~= mode_st.cumulative_reasoning + reasoning_of_deltas(evs));
            },
            EventView::ReasoningContentDelta { delta, .. } => {
                assert(t0 =~= mode_st.cumulative + text_of_deltas(evs));
                assert(r0 + delta =~= mode_st.cumulative_reasoning + reasoning_of_deltas(evs));
            },
            _ => {},
        }
        assert(Seq::<EventView>::empty() + Seq::<EventView>::empty() =~= Seq::<EventView>::empty());
    }
}

/// In aggregated mode, any run of text and reasoning deltas followed by
/// completion comes out as one reasoning item holding the reasoning deltas
/// joined in the order they arrived (when there is any), then one assistant
/// message holding the text deltas joined in order (when there is any), then
/// the completion; no delta is passed on.
pub proof fn law_mixed_deltas_then_completion(
    evs: Seq<EventView>,
    response_id: Seq<char>,
    usage: Option<crate::items::TokenUsage>,
)
    requires
        forall|i: int| 0 <= i < evs.len() ==> is_delta(#[trigger] evs[i]),
    ensures
        ({
            let fresh = AggView {
                cumulative: Seq::empty(),
                cumulative_reasoning: Seq::empty(),
                mode: AggregateMode::AggregatedOnly,
            };
            let done = EventView::Completed { response_id, token_usage: usage };
            let r = reasoning_of_deltas(evs);
            let t = text_of_deltas(evs);
            let reasoning_out = if r.len() > 0 {
                seq![
                    EventView::OutputItemDone(
                        ItemView::Reasoning {
                            id: Seq::empty(),
                            summary: Seq::empty(),
                            content: Some(seq![crate::items::ReasoningContentView::ReasoningText(r)]),
                            encrypted_content: None,
                        },
                    ),
                ]
            } else {
                Seq::empty()
            };
            let text_out = if t.len() > 0 {
                seq![
                    EventView::OutputItemDone(
                        ItemView::Message {
                            id: None,
                            role: "assistant"@,
                            content: seq![ContentView::OutputText(t)],
                            end_turn: None,
                            phase: None,
                        },
                    ),
                ]
            } else {
                Seq::empty()
            };
            agg_run(fresh, evs.push(done)).1 == reasoning_out + text_out + seq![done]
        }),
{
    let fresh = AggView { cumulative: Seq::empty(), cumulative_reasoning: Seq::empty(), mode: AggregateMode::AggregatedOnly };
    let done = EventView::Completed { response_id, token_usage: usage };
    lemma_mixed_deltas_accumulate(fresh, evs);
    assert(evs.push(done).drop_last() =~= evs);
    assert(fresh.cumulative + text_of_deltas(evs) =~= text_of_deltas(evs));
    assert(fresh.cumulative_reasoning + reasoning_of_deltas(evs) =~= reasoning_of_deltas(evs));
    let (s, o) = agg_run(fresh, evs);
    let (s2, o2) = agg_step(s, done);
    assert(o + o2 =~= o2);
}

/// In streaming mode every text and reasoning delta is passed on as it
/// came, in order, and nothing else is emitted for them.
pub proof fn law_streaming_passes_deltas_on(evs: Seq<EventView>)
    requires
        forall|i: int| 0 <= i < evs.len() ==> is_delta(#[trigger] evs[i]),
    ensures
        agg_run(
            AggView { cumulative: Seq::empty(), cumulative_reasoning: Seq::empty(), mode: AggregateMode::Streaming },
            evs,
        ).1 == evs,
    decreases evs.len(),
{
    let fresh = AggView { cumulative: Seq::empty(), cumulative_reasoning: Seq::empty(), mode: AggregateMode::Streaming };
    lemma_streaming_mode_stays(fresh, evs);
    if evs.len() > 0 {
        let init = evs.drop_last();
        assert forall|i: int| 0 <= i < init.len() implies is_delta(#[trigger] init[i]) by {
            assert(init[i] == evs[i]);
        }
        law_streaming_passes_deltas_on(init);
        assert(is_delta(evs[evs.len() - 1]));
        assert(init.push(evs.last()) =~= evs);
    }
}

proof fn lemma_streaming_mode_stays(st: AggView, evs: Seq<EventView>)
    requires
        st.mode == AggregateMode::Streaming,
        forall|i: int| 0 <= i < evs.len() ==> is_delta(#[trigger] evs[i]),
    ensures
        agg_run(st, evs).0.mode == AggregateMode::Streaming,
    decreases evs.len(),
{
    if evs.len() > 0 {
        let init = evs.drop_last();
        assert forall|i: int| 0 <= i < init.len() implies is_delta(#[trigger] init[i]) by {
            assert(init[i] == evs[i]);
        }
        lemma_streaming_mode_stays(st, init);
        assert(is_delta(evs[evs.len() - 1]));
    }
}

} // verus!
