use nidex::app_server::{
    agent_capabilities, agent_info, default_protocol_version, echoed_protocol_version, on_notification,
    ClientNotificationKind, Connection, InitAction, NotificationAction, OriginatorOutcome, RequestAction,
    RequestKind, Route, INVALID_REQUEST_ERROR_CODE,
};
use nidex::protocol::InitializeCapabilities;

fn initialize(name: &str, caps: Option<InitializeCapabilities>) -> RequestKind {
    RequestKind::Initialize { client_name: name.to_string(), client_version: "1.0".to_string(), capabilities: caps }
}

#[test]
fn requests_before_initialize_are_rejected() {
    let mut c = Connection::new();
    assert_eq!(c.on_request(&RequestKind::ConfigRead, None), RequestAction::Reject("Not initialized".to_string()));
    assert_eq!(c, Connection::new());
    assert!(!c.may_attach_thread_listener());
}

#[test]
fn initialize_once_then_dispatch() {
    let mut c = Connection::new();
    let caps = InitializeCapabilities { experimental_api: true, terminal: false };
    assert_eq!(c.on_request(&initialize("zed", Some(caps)), None), RequestAction::SetOriginator("zed".to_string()));
    assert!(c.experimental_api_enabled);
    assert_eq!(
        c.after_originator(OriginatorOutcome::Accepted, "zed", "1.0"),
        InitAction::Respond { user_agent_suffix: "zed; 1.0".to_string() }
    );
    assert!(c.initialized);
    assert!(c.may_attach_thread_listener());
    assert_eq!(
        c.on_request(&initialize("zed", None), None),
        RequestAction::Reject("Already initialized".to_string())
    );
    assert_eq!(c.on_request(&RequestKind::ConfigBatchWrite, None), RequestAction::Dispatch(Route::ConfigBatchWrite));
    assert_eq!(c.on_request(&RequestKind::Other, Some("thread/fork")), RequestAction::Dispatch(Route::Conversation));
}

#[test]
fn experimental_methods_need_the_capability() {
    let mut c = Connection::new();
    c.on_request(&initialize("cli", None), None);
    c.after_originator(OriginatorOutcome::AlreadyInitialized, "cli", "2");
    assert!(c.initialized);
    assert_eq!(
        c.on_request(&RequestKind::Other, Some("thread/fork")),
        RequestAction::Reject("thread/fork requires experimentalApi capability".to_string())
    );
    assert_eq!(c.on_request(&RequestKind::ConfigRead, None), RequestAction::Dispatch(Route::ConfigRead));
}

#[test]
fn invalid_client_names_are_rejected() {
    let mut c = Connection::new();
    c.on_request(&initialize("bad\nname", None), None);
    assert_eq!(
        c.after_originator(OriginatorOutcome::InvalidHeaderValue, "bad\nname", "1"),
        InitAction::Reject("Invalid clientInfo.name: 'bad\nname'. Must be a valid HTTP header value.".to_string())
    );
    assert!(!c.initialized);
}

#[test]
fn initialize_answer_parts() {
    assert_eq!(INVALID_REQUEST_ERROR_CODE, -32600);
    assert_eq!(default_protocol_version(), "2025-05-12");
    assert_eq!(echoed_protocol_version(None), serde_json::Value::String("2025-05-12".to_string()));
    let v = serde_json::Value::from(3);
    assert_eq!(echoed_protocol_version(Some(v.clone())), v);
    let caps = agent_capabilities();
    assert!(caps.load_session && caps.authenticate);
    assert!(caps.mcp_capabilities.is_none());
    let info = agent_info("0.9.1");
    assert_eq!((info.name.as_str(), info.title.as_str(), info.version.as_str()), ("codex", "Codex", "0.9.1"));
}

#[test]
fn notifications() {
    assert_eq!(
        on_notification(ClientNotificationKind::SessionCancel { session_id: "s1".to_string() }),
        NotificationAction::CancelSession("s1".to_string())
    );
    assert_eq!(on_notification(ClientNotificationKind::Initialized), NotificationAction::Nothing);
    assert_eq!(on_notification(ClientNotificationKind::Unrecognized), NotificationAction::Log);
}
