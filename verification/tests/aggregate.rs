use nidex::aggregate::{AggregateMode, AggregatedStream};
use nidex::items::{ContentItem, ResponseEvent, ResponseItem};

fn run(mode: AggregateMode, events: Vec<ResponseEvent>) -> Vec<ResponseEvent> {
    let mut agg = AggregatedStream::new(mode);
    let mut out = Vec::new();
    for ev in events {
        out.extend(agg.on_event(ev));
    }
    out
}

fn assistant(text: &str) -> ResponseItem {
    ResponseItem::Message {
        id: None,
        role: "assistant".to_string(),
        content: vec![ContentItem::OutputText { text: text.to_string() }],
        end_turn: None,
        phase: None,
    }
}

fn fn_call() -> ResponseItem {
    ResponseItem::FunctionCall {
        id: None,
        name: "search".to_string(),
        arguments: "{}".to_string(),
        call_id: "call-1".to_string(),
    }
}

#[test]
fn aggregated_stream_emits_assistant_text_before_function_calls() {
    let events = run(
        AggregateMode::AggregatedOnly,
        vec![
            ResponseEvent::OutputItemDone(assistant("let me check")),
            ResponseEvent::OutputItemDone(fn_call()),
            ResponseEvent::Completed { response_id: String::new(), token_usage: None },
        ],
    );
    let positions: Vec<_> = events
        .iter()
        .enumerate()
        .filter_map(|(i, ev)| match ev {
            ResponseEvent::OutputItemDone(ResponseItem::Message { role, .. }) if role == "assistant" => {
                Some(("assistant", i))
            }
            ResponseEvent::OutputItemDone(ResponseItem::FunctionCall { .. }) => Some(("fn_call", i)),
            _ => None,
        })
        .collect();
    assert_eq!(positions.len(), 2);
    assert_eq!(positions[0].0, "assistant", "assistant message must come first");
    assert_eq!(positions[1].0, "fn_call", "function call must come second");
}

#[test]
fn deltas_are_merged_into_one_message_at_completion() {
    let events = run(
        AggregateMode::AggregatedOnly,
        vec![
            ResponseEvent::Created,
            ResponseEvent::ReasoningContentDelta { delta: "th".to_string(), content_index: 0 },
            ResponseEvent::OutputTextDelta("Hel".to_string()),
            ResponseEvent::OutputTextDelta("lo".to_string()),
            ResponseEvent::Completed { response_id: "r".to_string(), token_usage: None },
        ],
    );
    assert_eq!(events.len(), 3);
    assert!(matches!(&events[0], ResponseEvent::OutputItemDone(ResponseItem::Reasoning { .. })));
    assert_eq!(events[1], ResponseEvent::OutputItemDone(assistant("Hello")));
    assert!(matches!(&events[2], ResponseEvent::Completed { response_id, .. } if response_id == "r"));
}

#[test]
fn streaming_mode_passes_deltas_and_drops_late_assistant_items() {
    let events = run(
        AggregateMode::Streaming,
        vec![
            ResponseEvent::OutputTextDelta("Hi".to_string()),
            ResponseEvent::OutputItemDone(assistant("Hi")),
            ResponseEvent::Completed { response_id: String::new(), token_usage: None },
        ],
    );
    assert_eq!(events.len(), 3);
    assert_eq!(events[0], ResponseEvent::OutputTextDelta("Hi".to_string()));
    assert_eq!(events[1], ResponseEvent::OutputItemDone(assistant("Hi")));
    assert!(matches!(&events[2], ResponseEvent::Completed { .. }));
}

#[test]
fn text_deltas_then_completion_become_one_message() {
    let out = run(
        AggregateMode::AggregatedOnly,
        vec![
            ResponseEvent::OutputTextDelta("Hel".to_string()),
            ResponseEvent::OutputTextDelta(String::new()),
            ResponseEvent::OutputTextDelta("lo".to_string()),
            ResponseEvent::Completed { response_id: "r1".to_string(), token_usage: None },
        ],
    );
    assert_eq!(
        out,
        vec![
            ResponseEvent::OutputItemDone(assistant("Hello")),
            ResponseEvent::Completed { response_id: "r1".to_string(), token_usage: None },
        ]
    );
}
