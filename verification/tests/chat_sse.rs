use nidex::chat_sse::ChatSseState;
use nidex::items::{ApiError, ResponseEvent, ResponseItem, TokenUsage};

/// Runs the stream decisions over the data of each server-sent event, as
/// the reader loop does: stop when a step says so, otherwise flush at the
/// end of the stream.
fn collect_results(datas: &[&str]) -> Vec<Result<ResponseEvent, ApiError>> {
    let mut state = ChatSseState::new();
    let mut out = Vec::new();
    for data in datas {
        let step = state.on_data(data);
        out.extend(step.outputs);
        if step.stop {
            return out;
        }
    }
    out.extend(state.on_stream_end());
    out
}

fn collect_events(datas: &[&str]) -> Vec<ResponseEvent> {
    collect_results(datas).into_iter().map(|r| r.expect("stream error")).collect()
}

fn is_function_call(ev: &ResponseEvent, id: &str, fname: &str, args: Option<&str>) -> bool {
    match ev {
        ResponseEvent::OutputItemDone(ResponseItem::FunctionCall { call_id, name, arguments, .. }) => {
            call_id == id && name == fname && args.map_or(true, |a| arguments == a)
        }
        _ => false,
    }
}

#[test]
fn completes_on_done_sentinel_without_json() {
    let events = collect_events(&["[DONE]"]);
    assert_eq!(events.len(), 1);
    assert!(matches!(events[0], ResponseEvent::Completed { .. }));
}

#[test]
fn concatenates_tool_call_arguments_across_deltas() {
    let delta_name = r#"{"choices":[{"delta":{"tool_calls":[{"id":"call_a","index":0,"function":{"name":"do_a"}}]}}]}"#;
    let delta_args_1 = r#"{"choices":[{"delta":{"tool_calls":[{"index":0,"function":{"arguments":"{ \"foo\":"}}]}}]}"#;
    let delta_args_2 = r#"{"choices":[{"delta":{"tool_calls":[{"index":0,"function":{"arguments":"1}"}}]}}]}"#;
    let finish = r#"{"choices":[{"finish_reason":"tool_calls"}]}"#;
    let events = collect_events(&[delta_name, delta_args_1, delta_args_2, finish]);
    assert_eq!(events.len(), 2);
    assert!(is_function_call(&events[0], "call_a", "do_a", Some("{ \"foo\":1}")));
    assert!(matches!(events[1], ResponseEvent::Completed { .. }));
}

#[test]
fn emits_multiple_tool_calls() {
    let delta_a = r#"{"choices":[{"delta":{"tool_calls":[{"id":"call_a","function":{"name":"do_a","arguments":"{\"foo\":1}"}}]}}]}"#;
    let delta_b = r#"{"choices":[{"delta":{"tool_calls":[{"id":"call_b","function":{"name":"do_b","arguments":"{\"bar\":2}"}}]}}]}"#;
    let finish = r#"{"choices":[{"finish_reason":"tool_calls"}]}"#;
    let events = collect_events(&[delta_a, delta_b, finish]);
    assert_eq!(events.len(), 3);
    assert!(is_function_call(&events[0], "call_a", "do_a", Some("{\"foo\":1}")));
    assert!(is_function_call(&events[1], "call_b", "do_b", Some("{\"bar\":2}")));
    assert!(matches!(events[2], ResponseEvent::Completed { .. }));
}

#[test]
fn emits_tool_calls_for_multiple_choices() {
    let payload = r#"{"choices":[
        {"delta":{"tool_calls":[{"id":"call_a","index":0,"function":{"name":"do_a","arguments":"{}"}}]},"finish_reason":"tool_calls"},
        {"delta":{"tool_calls":[{"id":"call_b","index":0,"function":{"name":"do_b","arguments":"{}"}}]},"finish_reason":"tool_calls"}
    ]}"#;
    let events = collect_events(&[payload]);
    assert_eq!(events.len(), 3);
    assert!(is_function_call(&events[0], "call_a", "do_a", Some("{}")));
    assert!(is_function_call(&events[1], "call_b", "do_b", Some("{}")));
    assert!(matches!(events[2], ResponseEvent::Completed { .. }));
}

#[test]
fn merges_tool_calls_by_index_when_id_missing_on_subsequent_deltas() {
    let delta_with_id = r#"{"choices":[{"delta":{"tool_calls":[{"index":0,"id":"call_a","function":{"name":"do_a","arguments":"{ \"foo\":"}}]}}]}"#;
    let delta_without_id = r#"{"choices":[{"delta":{"tool_calls":[{"index":0,"function":{"arguments":"1}"}}]}}]}"#;
    let finish = r#"{"choices":[{"finish_reason":"tool_calls"}]}"#;
    let events = collect_events(&[delta_with_id, delta_without_id, finish]);
    assert_eq!(events.len(), 2);
    assert!(is_function_call(&events[0], "call_a", "do_a", Some("{ \"foo\":1}")));
    assert!(matches!(events[1], ResponseEvent::Completed { .. }));
}

#[test]
fn preserves_tool_call_name_when_empty_deltas_arrive() {
    let delta_with_name = r#"{"choices":[{"delta":{"tool_calls":[{"id":"call_a","function":{"name":"do_a"}}]}}]}"#;
    let delta_with_empty_name = r#"{"choices":[{"delta":{"tool_calls":[{"id":"call_a","function":{"name":"","arguments":"{}"}}]}}]}"#;
    let finish = r#"{"choices":[{"finish_reason":"tool_calls"}]}"#;
    let events = collect_events(&[delta_with_name, delta_with_empty_name, finish]);
    assert_eq!(events.len(), 2);
    match &events[0] {
        ResponseEvent::OutputItemDone(ResponseItem::FunctionCall { name, arguments, .. }) => {
            assert_eq!(name, "do_a");
            assert_eq!(arguments, "{}");
        }
        other => panic!("unexpected event: {other:?}"),
    }
    assert!(matches!(events[1], ResponseEvent::Completed { .. }));
}

#[test]
fn emits_tool_calls_even_when_content_and_reasoning_present() {
    let delta_content_and_tools = r#"{"choices":[{"delta":{"content":[{"text":"hi"}],"reasoning":"because","tool_calls":[{"id":"call_a","function":{"name":"do_a","arguments":"{}"}}]}}]}"#;
    let finish = r#"{"choices":[{"finish_reason":"tool_calls"}]}"#;
    let events = collect_events(&[delta_content_and_tools, finish]);
    assert_eq!(events.len(), 8);
    assert!(matches!(events[0], ResponseEvent::OutputItemAdded(ResponseItem::Reasoning { .. })));
    assert!(matches!(events[1], ResponseEvent::ReasoningContentDelta { .. }));
    assert!(matches!(events[2], ResponseEvent::OutputItemAdded(ResponseItem::Message { .. })));
    assert!(matches!(&events[3], ResponseEvent::OutputTextDelta(delta) if delta == "hi"));
    assert!(matches!(events[4], ResponseEvent::OutputItemDone(ResponseItem::Reasoning { .. })));
    assert!(matches!(events[5], ResponseEvent::OutputItemDone(ResponseItem::Message { .. })));
    assert!(is_function_call(&events[6], "call_a", "do_a", None));
    assert!(matches!(events[7], ResponseEvent::Completed { .. }));
}

#[test]
fn drops_partial_tool_calls_on_stop_finish_reason() {
    let delta_tool = r#"{"choices":[{"delta":{"tool_calls":[{"id":"call_a","function":{"name":"do_a","arguments":"{}"}}]}}]}"#;
    let finish_stop = r#"{"choices":[{"finish_reason":"stop"}]}"#;
    let events = collect_events(&[delta_tool, finish_stop]);
    assert!(!events.iter().any(|ev| matches!(ev, ResponseEvent::OutputItemDone(ResponseItem::FunctionCall { .. }))));
    assert!(matches!(events.last(), Some(ResponseEvent::Completed { .. })));
}

#[test]
fn empty_content_string_does_not_create_phantom_assistant_message() {
    let delta_empty_content_with_tool = r#"{"choices":[{"delta":{"content":"","tool_calls":[{"id":"call_a","function":{"name":"do_a","arguments":"{}"}}]}}]}"#;
    let finish = r#"{"choices":[{"finish_reason":"tool_calls"}]}"#;
    let events = collect_events(&[delta_empty_content_with_tool, finish]);
    assert!(
        !events.iter().any(|ev| matches!(ev, ResponseEvent::OutputItemDone(ResponseItem::Message { .. }))),
        "phantom empty assistant message was emitted: {events:?}"
    );
    assert_eq!(events.len(), 2);
    assert!(is_function_call(&events[0], "call_a", "do_a", None));
    assert!(matches!(events[1], ResponseEvent::Completed { .. }));
}

#[test]
fn flushes_pending_tool_calls_when_stream_ends_without_done() {
    let delta_tool = r#"{"choices":[{"delta":{"tool_calls":[{"id":"call_a","function":{"name":"do_a","arguments":"{}"}}]}}]}"#;
    let events = collect_events(&[delta_tool]);
    assert_eq!(events.len(), 2);
    assert!(is_function_call(&events[0], "call_a", "do_a", Some("{}")));
    assert!(matches!(events[1], ResponseEvent::Completed { .. }));
}

#[test]
fn propagates_sse_provider_error_event() {
    let error_event = r#"{"error":{"message":"Error from provider: Provider returned error","code":400,"metadata":{"raw":"{\"type\":\"error\",\"error\":{\"type\":\"bad_request_error\",\"message\":\"invalid params, tool call result does not follow tool call (2013)\"}}","provider_name":"Minimax","is_byok":true}}}"#;
    let results = collect_results(&[error_event]);
    assert_eq!(results.len(), 1);
    assert!(matches!(&results[0], Err(ApiError::Stream(msg)) if msg.contains("Provider error")));
}

#[test]
fn errors_when_stream_ends_without_done_and_no_content() {
    let results = collect_results(&[]);
    assert_eq!(results.len(), 1);
    assert!(matches!(&results[0], Err(ApiError::Stream(msg)) if msg.contains("without [DONE]")));
}

#[test]
fn length_finish_reason_fails_with_context_window_error() {
    let delta = r#"{"choices":[{"delta":{"content":"partial"}}]}"#;
    let finish = r#"{"choices":[{"finish_reason":"length"}]}"#;
    let results = collect_results(&[delta, finish]);
    assert!(matches!(results.last(), Some(Err(ApiError::ContextWindowExceeded))));
}

#[test]
fn stop_reports_usage_once() {
    let body = r#"{"choices":[{"delta":{"content":"hi"},"finish_reason":"stop"}],"usage":{"prompt_tokens":3,"completion_tokens":2,"total_tokens":5,"prompt_tokens_details":{"cached_tokens":1}}}"#;
    let events = collect_events(&[body, "[DONE]"]);
    let completed: Vec<_> = events
        .iter()
        .filter_map(|e| match e {
            ResponseEvent::Completed { token_usage, .. } => Some(*token_usage),
            _ => None,
        })
        .collect();
    assert_eq!(
        completed,
        vec![Some(TokenUsage {
            input_tokens: 3,
            cached_input_tokens: 1,
            output_tokens: 2,
            reasoning_output_tokens: 0,
            total_tokens: 5,
        })]
    );
}

#[test]
fn blank_and_unparsable_data_are_skipped() {
    let events = collect_events(&["   ", "not json", "DONE"]);
    assert_eq!(events.len(), 1);
    assert!(matches!(events[0], ResponseEvent::Completed { .. }));
}

#[test]
fn tool_call_without_id_gets_index_based_call_id() {
    let delta = r#"{"choices":[{"delta":{"tool_calls":[{"index":3,"function":{"name":"do_x","arguments":"{}"}}]}}]}"#;
    let finish = r#"{"choices":[{"finish_reason":"tool_calls"}]}"#;
    let events = collect_events(&[delta, finish]);
    assert!(is_function_call(&events[0], "tool-call-3", "do_x", Some("{}")));
}

#[test]
fn reasoning_content_field_and_nested_text_are_read() {
    let a = r#"{"choices":[{"delta":{"reasoning_content":"one"}}]}"#;
    let b = r#"{"choices":[{"delta":{"reasoning":{"text":"two"}}}]}"#;
    let events = collect_events(&[a, b, "[DONE]"]);
    let deltas: Vec<(String, i64)> = events
        .iter()
        .filter_map(|e| match e {
            ResponseEvent::ReasoningContentDelta { delta, content_index } => Some((delta.clone(), *content_index)),
            _ => None,
        })
        .collect();
    assert_eq!(deltas, vec![("one".to_string(), 0), ("two".to_string(), 1)]);
}

#[test]
fn completion_is_reported_once_whatever_follows() {
    let stop = r#"{"choices":[{"delta":{"content":"a"},"finish_reason":"stop"}]}"#;
    let tool = r#"{"choices":[{"delta":{"tool_calls":[{"id":"c1","function":{"name":"f","arguments":"{}"}}]}}]}"#;
    let tools_done = r#"{"choices":[{"finish_reason":"tool_calls"}]}"#;
    for datas in [vec![stop, stop, tool, tools_done], vec![stop, tool, tools_done, "[DONE]"], vec![tool, tools_done, stop]] {
        let n = collect_results(&datas)
            .iter()
            .filter(|r| matches!(r, Ok(ResponseEvent::Completed { .. })))
            .count();
        assert_eq!(n, 1, "for {datas:?}");
    }
}
