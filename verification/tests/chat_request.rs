use nidex::chat_request::{
    ChatClient, get_fallback_role, is_deepseek_variant, provider_explicitly_unsupports_role, ChatRequestBuilder, Provider,
    SessionSource, SubAgentSource, WireApi,
};
use nidex::items::{
    ContentItem, FunctionCallOutputPayload, LocalShellStatus, ReasoningItemContent, ResponseItem,
};
use serde_json::Value;

fn provider() -> Provider {
    Provider {
        name: "openai".to_string(),
        base_url: "https://api.openai.com/v1".to_string(),
        wire: WireApi::Chat,
    }
}

fn header<'a>(headers: &'a [(String, String)], name: &str) -> Option<&'a str> {
    headers.iter().find(|(n, _)| n == name).map(|(_, v)| v.as_str())
}

fn body_of(req: &nidex::chat_request::ChatRequest) -> Value {
    req.body.clone()
}

fn user(text: &str) -> ResponseItem {
    ResponseItem::Message {
        id: None,
        role: "user".to_string(),
        content: vec![ContentItem::InputText { text: text.to_string() }],
        end_turn: None,
        phase: None,
    }
}

fn assistant(text: &str) -> ResponseItem {
    ResponseItem::Message {
        id: None,
        role: "assistant".to_string(),
        content: vec![ContentItem::OutputText { text: text.to_string() }],
        end_turn: None,
        phase: None,
    }
}

fn call(id: &str, path: &str) -> ResponseItem {
    ResponseItem::FunctionCall {
        id: None,
        name: "read_file".to_string(),
        arguments: format!("{{\"path\":\"{path}\"}}"),
        call_id: id.to_string(),
    }
}

fn output(id: &str, content: &str) -> ResponseItem {
    ResponseItem::FunctionCallOutput {
        call_id: id.to_string(),
        output: FunctionCallOutputPayload { content: content.to_string(), ..Default::default() },
    }
}

#[test]
fn attaches_conversation_and_subagent_headers() {
    let prompt_input = vec![user("hi")];
    let req = ChatRequestBuilder::new("gpt-test", "inst", &prompt_input, &[])
        .conversation_id(Some("conv-1".into()))
        .session_source(Some(SessionSource::SubAgent(SubAgentSource::Review)))
        .build(&provider())
        .expect("request");
    assert_eq!(header(&req.headers, "session_id"), Some("conv-1"));
    assert_eq!(header(&req.headers, "x-openai-subagent"), Some("review"));
}

#[test]
fn groups_consecutive_tool_calls_into_a_single_assistant_message() {
    let prompt_input = vec![
        user("read these"),
        call("call-a", "a.txt"),
        call("call-b", "b.txt"),
        call("call-c", "c.txt"),
        output("call-a", "A"),
        output("call-b", "B"),
        output("call-c", "C"),
    ];
    let req = ChatRequestBuilder::new("gpt-test", "inst", &prompt_input, &[])
        .build(&provider())
        .expect("request");
    let body = body_of(&req);
    let messages = body.get("messages").and_then(|v| v.as_array()).expect("messages array");
    assert_eq!(messages.len(), 6);
    assert_eq!(messages[0]["role"], "system");
    assert_eq!(messages[1]["role"], "user");
    let tool_calls_msg = &messages[2];
    assert_eq!(tool_calls_msg["role"], "assistant");
    assert_eq!(tool_calls_msg["content"], Value::Null);
    let tool_calls = tool_calls_msg["tool_calls"].as_array().expect("tool_calls array");
    assert_eq!(tool_calls.len(), 3);
    assert_eq!(tool_calls[0]["id"], "call-a");
    assert_eq!(tool_calls[1]["id"], "call-b");
    assert_eq!(tool_calls[2]["id"], "call-c");
    assert_eq!(messages[3]["role"], "tool");
    assert_eq!(messages[3]["tool_call_id"], "call-a");
    assert_eq!(messages[4]["role"], "tool");
    assert_eq!(messages[4]["tool_call_id"], "call-b");
    assert_eq!(messages[5]["role"], "tool");
    assert_eq!(messages[5]["tool_call_id"], "call-c");
}

#[test]
fn folds_multiple_tool_calls_into_text_assistant_message() {
    let prompt_input = vec![
        user("go"),
        assistant("sure, let me read both files"),
        call("call-a", "a.txt"),
        call("call-b", "b.txt"),
        output("call-a", "A"),
        output("call-b", "B"),
    ];
    let req = ChatRequestBuilder::new("gpt-test", "inst", &prompt_input, &[])
        .build(&provider())
        .expect("request");
    let body = body_of(&req);
    let messages = body.get("messages").and_then(|v| v.as_array()).expect("messages array");
    assert_eq!(messages.len(), 5, "expected exactly 5 messages, got: {messages:?}");
    assert_eq!(messages[0]["role"], "system");
    assert_eq!(messages[1]["role"], "user");
    let asst = &messages[2];
    assert_eq!(asst["role"], "assistant");
    assert_eq!(asst["content"], "sure, let me read both files");
    let tool_calls = asst["tool_calls"].as_array().expect("tool_calls array");
    assert_eq!(tool_calls.len(), 2);
    assert_eq!(tool_calls[0]["id"], "call-a");
    assert_eq!(tool_calls[1]["id"], "call-b");
    assert_eq!(messages[3]["role"], "tool");
    assert_eq!(messages[3]["tool_call_id"], "call-a");
    assert_eq!(messages[4]["role"], "tool");
    assert_eq!(messages[4]["tool_call_id"], "call-b");
}

#[test]
fn deepseek_always_includes_reasoning_content_on_assistant_messages() {
    let prompt_input = vec![user("hi"), assistant("hello"), user("second turn")];
    let builder = ChatRequestBuilder::new("big-pickle", "sys", &prompt_input, &[])
        .reasoning_field_name(Some("reasoning_content"));
    let request = builder.build(&provider()).unwrap();
    let body = body_of(&request);
    let messages = body["messages"].as_array().unwrap();
    let assistant_msg = messages.iter().find(|m| m["role"] == "assistant").unwrap();
    assert!(
        assistant_msg.get("reasoning_content").is_some(),
        "DeepSeek assistant message must include reasoning_content (got: {})",
        assistant_msg
    );
    assert_eq!(assistant_msg["reasoning_content"], "", "reasoning_content must be empty string when no reasoning");
}

#[test]
fn deepseek_includes_reasoning_text_when_present() {
    let prompt_input = vec![
        user("hi"),
        ResponseItem::Reasoning {
            id: String::new(),
            summary: vec![],
            content: Some(vec![ReasoningItemContent::ReasoningText { text: "let me think".to_string() }]),
            encrypted_content: None,
        },
        assistant("done"),
        user("next"),
    ];
    let builder = ChatRequestBuilder::new("big-pickle", "sys", &prompt_input, &[])
        .reasoning_field_name(Some("reasoning_content"));
    let request = builder.build(&provider()).unwrap();
    let body = body_of(&request);
    let messages = body["messages"].as_array().unwrap();
    let assistant_msg = messages.iter().find(|m| m["role"] == "assistant").unwrap();
    assert_eq!(assistant_msg["reasoning_content"], "let me think");
}

#[test]
fn deepseek_model_slug_triggers_reasoning_content_even_with_non_deepseek_provider() {
    let prompt_input = vec![user("hi"), assistant("hello"), user("second turn")];
    let builder = ChatRequestBuilder::new("deepseek-r1", "sys", &prompt_input, &[]).model_slug("deepseek-r1");
    let request = builder.build(&provider()).unwrap();
    let body = body_of(&request);
    let messages = body["messages"].as_array().unwrap();
    let assistant_msg = messages.iter().find(|m| m["role"] == "assistant").unwrap();
    assert!(
        assistant_msg.get("reasoning_content").is_some(),
        "DeepSeek model slug must trigger reasoning_content inclusion (got: {})",
        assistant_msg
    );
    assert_eq!(assistant_msg["reasoning_content"], "");
}

#[test]
fn body_streams_with_usage_and_passes_tools_through() {
    let prompt_input = vec![user("hi")];
    let tools: Vec<Value> = vec![serde_json::from_str(r#"{"type":"function","function":{"name":"f"}}"#).unwrap()];
    let req = ChatRequestBuilder::new("gpt-test", "inst", &prompt_input, &tools).build(&provider()).unwrap();
    let body = body_of(&req);
    assert_eq!(body["model"], "gpt-test");
    assert_eq!(body["stream"], true);
    assert_eq!(body["stream_options"]["include_usage"], true);
    assert_eq!(body["tools"], Value::Array(tools.clone()));
    assert_eq!(body["messages"][0]["content"], "inst");
    assert!(req.headers.is_empty());
}

#[test]
fn repeated_assistant_text_is_sent_once() {
    let prompt_input = vec![user("hi"), assistant("same"), assistant("same")];
    let req = ChatRequestBuilder::new("gpt-test", "inst", &prompt_input, &[]).build(&provider()).unwrap();
    let body = body_of(&req);
    assert_eq!(body["messages"].as_array().unwrap().len(), 3);
}

#[test]
fn developer_role_falls_back_to_system_when_unsupported() {
    let prompt_input = vec![ResponseItem::Message {
        id: None,
        role: "developer".to_string(),
        content: vec![ContentItem::InputText { text: "rules".to_string() }],
        end_turn: None,
        phase: None,
    }];
    let req = ChatRequestBuilder::new("gpt-test", "inst", &prompt_input, &[]).build(&provider()).unwrap();
    let body = body_of(&req);
    assert_eq!(body["messages"][1]["role"], "system");

    let roles = vec!["system".to_string(), "user".to_string(), "assistant".to_string(), "developer".to_string()];
    let req = ChatRequestBuilder::new("deepseek-chat", "inst", &prompt_input, &[])
        .supported_message_roles(roles.clone())
        .model_slug("deepseek-chat")
        .build(&provider())
        .unwrap();
    assert_eq!(body_of(&req)["messages"][1]["role"], "system");

    let req = ChatRequestBuilder::new("gpt-test", "inst", &prompt_input, &[])
        .supported_message_roles(roles)
        .build(&provider())
        .unwrap();
    assert_eq!(body_of(&req)["messages"][1]["role"], "developer");
}

#[test]
fn images_make_user_content_an_array() {
    let prompt_input = vec![ResponseItem::Message {
        id: None,
        role: "user".to_string(),
        content: vec![
            ContentItem::InputText { text: "look".to_string() },
            ContentItem::InputImage { image_url: "data:x".to_string() },
        ],
        end_turn: None,
        phase: None,
    }];
    let req = ChatRequestBuilder::new("gpt-test", "inst", &prompt_input, &[]).build(&provider()).unwrap();
    let body = body_of(&req);
    let content = body["messages"][1]["content"].as_array().unwrap();
    assert_eq!(content[0]["type"], "text");
    assert_eq!(content[0]["text"], "look");
    assert_eq!(content[1]["type"], "image_url");
    assert_eq!(content[1]["image_url"]["url"], "data:x");
}

#[test]
fn reasoning_before_a_call_is_attached_to_the_call_message() {
    let prompt_input = vec![
        user("hi"),
        ResponseItem::Reasoning {
            id: String::new(),
            summary: vec![],
            content: Some(vec![ReasoningItemContent::Text { text: "plan".to_string() }]),
            encrypted_content: None,
        },
        call("call-a", "a.txt"),
    ];
    let req = ChatRequestBuilder::new("gpt-test", "inst", &prompt_input, &[]).build(&provider()).unwrap();
    let body = body_of(&req);
    assert_eq!(body["messages"][2]["reasoning"], "plan");
    assert_eq!(body["messages"][2]["tool_calls"][0]["function"]["name"], "read_file");
    assert_eq!(body["messages"][2]["tool_calls"][0]["type"], "function");
}

#[test]
fn shell_and_custom_calls_are_sent_as_tool_calls() {
    let prompt_input = vec![
        ResponseItem::LocalShellCall {
            id: Some("sh-1".to_string()),
            call_id: None,
            status: LocalShellStatus::Completed,
            action: serde_json::from_str(r#"{"type":"exec","command":["ls"]}"#).unwrap(),
        },
        ResponseItem::CustomToolCall {
            id: None,
            status: None,
            call_id: "c-1".to_string(),
            name: "apply".to_string(),
            input: "patch".to_string(),
        },
        ResponseItem::CustomToolCallOutput { call_id: "c-1".to_string(), output: "ok".to_string() },
    ];
    let req = ChatRequestBuilder::new("gpt-test", "inst", &prompt_input, &[]).build(&provider()).unwrap();
    let body = body_of(&req);
    let calls = body["messages"][1]["tool_calls"].as_array().unwrap();
    assert_eq!(calls.len(), 2);
    assert_eq!(calls[0]["type"], "local_shell_call");
    assert_eq!(calls[0]["status"], "completed");
    assert_eq!(calls[0]["action"]["command"][0], "ls");
    assert_eq!(calls[1]["type"], "custom");
    assert_eq!(calls[1]["id"], Value::Null);
    assert_eq!(calls[1]["custom"]["input"], "patch");
    assert_eq!(body["messages"][2]["role"], "tool");
    assert_eq!(body["messages"][2]["content"], "ok");
}

#[test]
fn deepseek_variants_are_recognised() {
    assert!(is_deepseek_variant("DeepSeek-Chat"));
    assert!(is_deepseek_variant("big-pickle"));
    assert!(is_deepseek_variant("my-deep-r1"));
    assert!(!is_deepseek_variant("gpt-4o"));
    assert!(provider_explicitly_unsupports_role("deepseek-r1", "developer"));
    assert!(!provider_explicitly_unsupports_role("deepseek-r1", "user"));
    assert_eq!(get_fallback_role("developer"), "system");
    assert_eq!(get_fallback_role("user"), "user");
}

#[test]
fn client_paths_follow_the_wire_api() {
    assert_eq!(ChatClient::new(provider()).path(), "chat/completions");
    let responses = Provider { wire: WireApi::Responses, ..provider() };
    assert_eq!(ChatClient::new(responses).path(), "responses");
}

#[test]
fn prompt_requests_use_the_model_as_slug() {
    let client = ChatClient::new(provider());
    let input = vec![user("hi"), assistant("hello"), user("more")];
    let req = client
        .prompt_request(
            "deepseek-r1",
            "sys",
            &input,
            &[],
            Some("conv-9".to_string()),
            None,
            None,
            None,
        )
        .unwrap();
    let body = body_of(&req);
    assert_eq!(body["model"], "deepseek-r1");
    let messages = body["messages"].as_array().unwrap();
    assert_eq!(messages.len(), 4);
    assert_eq!(messages[2]["reasoning_content"], "");
    assert_eq!(header(&req.headers, "session_id"), Some("conv-9"));
    assert_eq!(client.provider().name, "openai");
}

#[test]
fn prompt_requests_honour_the_reasoning_field_name() {
    let client = ChatClient::new(provider());
    let input = vec![user("hi"), assistant("hello")];
    let req = client
        .prompt_request("gpt-test", "sys", &input, &[], None, None, None, Some("thinking"))
        .unwrap();
    let body = body_of(&req);
    let messages = body["messages"].as_array().unwrap();
    assert!(messages[2].get("thinking").is_none());
    assert!(messages[2].get("reasoning").is_none());
    assert!(req.headers.is_empty());
}

#[test]
fn body_text_is_compact_with_sorted_keys() {
    let input = vec![user("hi \"there\"")];
    let tool: Value = serde_json::from_str(r#"{"type": "function", "name": "t"}"#).expect("tool");
    let req = ChatRequestBuilder::new("m", "sys", &input, &[tool])
        .build(&provider())
        .expect("request");
    let text = serde_json::to_string(&req.body).expect("text");
    assert_eq!(
        text,
        r#"{"messages":[{"content":"sys","role":"system"},{"content":"hi \"there\"","role":"user"}],"model":"m","stream":true,"stream_options":{"include_usage":true},"tools":[{"name":"t","type":"function"}]}"#
    );
}
