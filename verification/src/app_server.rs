//! Request admission in the app server: a client must initialize once before
//! anything else, and experimental methods need the experimental API.
//!
//! Sending responses and running handlers is the caller's work; the connection
//! decides what each request leads to.
use vstd::prelude::*;
use crate::json::{json_model, json_string, JsonModel};
use crate::protocol::{AgentCapabilities, AgentInfo, InitializeCapabilities, PromptCapabilities};
use crate::text::push_str;

verus! {

/// The JSON-RPC error code for an invalid request.
pub const INVALID_REQUEST_ERROR_CODE: i64 = -32600;

/// The protocol version answered when the client names none.
pub fn default_protocol_version() -> (r: &'static str)
    ensures
        r@ == "2025-05-12"@,
{
    "2025-05-12"
}

/// What a client asks to do, as far as admission is concerned.
#[derive(Debug, Clone, PartialEq, Eq)]
pub enum RequestKind {
    /// `initialize`, with the client's name, version and capabilities.
    Initialize { client_name: String, client_version: String, capabilities: Option<InitializeCapabilities> },
    ConfigRead,
    ConfigValueWrite,
    ConfigBatchWrite,
    ConfigRequirementsRead,
    /// Any other method, handled by the conversation processor.
    Other,
}

/// Where an accepted request goes.
#[derive(Debug, Clone, Copy, PartialEq, Eq)]
pub enum Route {
    ConfigRead,
    ConfigValueWrite,
    ConfigBatchWrite,
    ConfigRequirementsRead,
    Conversation,
}

/// What the server does with a request.
#[derive(Debug, Clone, PartialEq, Eq)]
pub enum RequestAction {
    /// Answer with an invalid-request error carrying this message.
    Reject(String),
    /// Set the default originator to the client's name, then report how
    /// that went (`after_originator`).
    SetOriginator(String),
    /// Hand the request to its handler.
    Dispatch(Route),
}

/// How setting the default originator went.
#[derive(Debug, Clone, Copy, PartialEq, Eq)]
pub enum OriginatorOutcome {
    Accepted,
    InvalidHeaderValue,
    AlreadyInitialized,
}

/// What the server does after trying to set the originator.
#[derive(Debug, Clone, PartialEq, Eq)]
pub enum InitAction {
    Reject(String),
    /// Answer the initialization, with the user-agent suffix to record, and
    /// send the pending configuration warnings.
    Respond { user_agent_suffix: String },
}

/// The connection's admission state.
#[derive(Debug, Clone, Copy, PartialEq, Eq)]
pub struct Connection {
    pub initialized: bool,
    pub experimental_api_enabled: bool,
    pub client_terminal_capable: bool,
}

pub open spec fn already_initialized_message() -> Seq<char> {
    "Already initialized"@
}

pub open spec fn not_initialized_message() -> Seq<char> {
    "Not initialized"@
}

/// The message for an experimental method used without the experimental
/// API.
pub open spec fn experimental_message(reason: Seq<char>) -> Seq<char> {
    reason + " requires experimentalApi capability"@
}

/// The message for a client name that is not a valid header value.
pub open spec fn invalid_name_message(name: Seq<char>) -> Seq<char> {
    "Invalid clientInfo.name: '"@ + name + "'. Must be a valid HTTP header value."@
}

pub open spec fn route_of(kind: RequestKind) -> Route {
    match kind {
        RequestKind::ConfigRead => Route::ConfigRead,
        RequestKind::ConfigValueWrite => Route::ConfigValueWrite,
        RequestKind::ConfigBatchWrite => Route::ConfigBatchWrite,
        RequestKind::ConfigRequirementsRead => Route::ConfigRequirementsRead,
        _ => Route::Conversation,
    }
}

pub enum RequestActionView {
    Reject(Seq<char>),
    SetOriginator(Seq<char>),
    Dispatch(Route),
}

impl View for RequestAction {
    type V = RequestActionView;

    open spec fn view(&self) -> RequestActionView {
        match self {
            RequestAction::Reject(m) => RequestActionView::Reject(m@),
            RequestAction::SetOriginator(n) => RequestActionView::SetOriginator(n@),
            RequestAction::Dispatch(r) => RequestActionView::Dispatch(*r),
        }
    }
}

/// A request's outcome, and the connection afterwards.
pub open spec fn request_step(g: Connection, kind: RequestKind, experimental_reason: Option<Seq<char>>) -> (Connection, RequestActionView) {
    match kind {
        RequestKind::Initialize { client_name, capabilities, .. } => if g.initialized {
            (g, RequestActionView::Reject(already_initialized_message()))
        } else {
            (
                Connection {
                    experimental_api_enabled: capabilities matches Some(c) && c.experimental_api,
                    client_terminal_capable: capabilities matches Some(c) && c.terminal,
                    ..g
                },
                RequestActionView::SetOriginator(client_name@),
            )
        },
        _ => if !g.initialized {
            (g, RequestActionView::Reject(not_initialized_message()))
        } else if experimental_reason is Some && !g.experimental_api_enabled {
            (g, RequestActionView::Reject(experimental_message(experimental_reason->0)))
        } else {
            (g, RequestActionView::Dispatch(route_of(kind)))
        },
    }
}

impl Connection {
    /// A connection before initialization.
    pub fn new() -> (r: Self)
        ensures
            !r.initialized && !r.experimental_api_enabled && !r.client_terminal_capable,
    {
        Connection { initialized: false, experimental_api_enabled: false, client_terminal_capable: false }
    }

    /// Decides a request: a second `initialize` and anything before the
    /// first are rejected; `initialize` records the client's capabilities
    /// and asks to set the originator; an experimental method without the
    /// experimental API is rejected; everything else goes to its handler.
    pub fn on_request(&mut self, kind: &RequestKind, experimental_reason: Option<&str>) -> (r: RequestAction)
        ensures
            (*final(self), r@) == request_step(
                *old(self),
                *kind,
                match experimental_reason {
                    Some(s) => Some(s@),
                    None => None,
                },
            ),
    {
        match kind {
            RequestKind::Initialize { client_name, capabilities, .. } => {
                if self.initialized {
                    RequestAction::Reject("Already initialized".to_string())
                } else {
                    self.experimental_api_enabled = match capabilities {
                        Some(c) => c.experimental_api,
                        None => false,
                    };
                    self.client_terminal_capable = match capabilities {
                        Some(c) => c.terminal,
                        None => false,
                    };
                    RequestAction::SetOriginator(client_name.clone())
                }
            },
            _ => {
                if !self.initialized {
                    return RequestAction::Reject("Not initialized".to_string());
                }
                match experimental_reason {
                    Some(reason) => {
                        if !self.experimental_api_enabled {
                            let mut m = reason.to_string();
                            push_str(&mut m, " requires experimentalApi capability");
                            return RequestAction::Reject(m);
                        }
                    },
                    None => {},
                }
                let route = match kind {
                    RequestKind::ConfigRead => Route::ConfigRead,
                    RequestKind::ConfigValueWrite => Route::ConfigValueWrite,
                    RequestKind::ConfigBatchWrite => Route::ConfigBatchWrite,
                    RequestKind::ConfigRequirementsRead => Route::ConfigRequirementsRead,
                    _ => Route::Conversation,
                };
                RequestAction::Dispatch(route)
            },
        }
    }

    /// After setting the originator for `initialize`: an invalid name is
    /// rejected and the client stays uninitialized; otherwise the connection is initialized
    /// and the answer records `<name>; <version>` as user-agent suffix.
    pub fn after_originator(&mut self, outcome: OriginatorOutcome, client_name: &str, client_version: &str) -> (r: InitAction)
        ensures
            outcome == OriginatorOutcome::InvalidHeaderValue ==> *final(self) == *old(self) && (r matches InitAction::Reject(m)
                && m@ == invalid_name_message(client_name@)),
            outcome != OriginatorOutcome::InvalidHeaderValue ==> *final(self) == (Connection { initialized: true, ..*old(self) })
                && (r matches InitAction::Respond { user_agent_suffix } && user_agent_suffix@ == client_name@ + "; "@
                + client_version@),
    {
        match outcome {
            OriginatorOutcome::InvalidHeaderValue => {
                let mut m = "Invalid clientInfo.name: '".to_string();
                push_str(&mut m, client_name);
                push_str(&mut m, "'. Must be a valid HTTP header value.");
                InitAction::Reject(m)
            },
            _ => {
                let mut s = client_name.to_string();
                push_str(&mut s, "; ");
                push_str(&mut s, client_version);
                self.initialized = true;
                InitAction::Respond { user_agent_suffix: s }
            },
        }
    }

    /// Listeners attach to new threads only once the client initialized.
    pub fn may_attach_thread_listener(&self) -> (r: bool)
        ensures
            r == self.initialized,
    {
        self.initialized
    }
}

/// The capabilities the agent announces: every session method,
/// authentication, and image prompts.
pub fn agent_capabilities() -> (r: AgentCapabilities)
    ensures
        r.load_session && r.close_session && r.list_sessions && r.resume_session && r.authenticate,
        r.prompt_capabilities == Some(PromptCapabilities { image: true, audio: false, embedded_context: false }),
        r.mcp_capabilities is None,
{
    AgentCapabilities {
        load_session: true,
        close_session: true,
        list_sessions: true,
        resume_session: true,
        authenticate: true,
        prompt_capabilities: Some(PromptCapabilities { image: true, audio: false, embedded_context: false }),
        mcp_capabilities: None,
    }
}

/// What the agent tells about itself, with its package version.
pub fn agent_info(version: &str) -> (r: AgentInfo)
    ensures
        r.name@ == "codex"@,
        r.title@ == "Codex"@,
        r.version@ == version@,
{
    AgentInfo { name: "codex".to_string(), title: "Codex".to_string(), version: version.to_string() }
}

/// The protocol version to echo: the client's, or `2025-05-12`.
pub fn echoed_protocol_version(requested: Option<serde_json::Value>) -> (r: serde_json::Value)
    ensures
        match requested {
            Some(v) => r == v,
            None => json_model(r) == JsonModel::Str("2025-05-12"@),
        },
{
    match requested {
        Some(v) => v,
        None => json_string(default_protocol_version().to_string()),
    }
}

/// A client initializes once: a second `initialize` is rejected and
/// changes nothing.
pub proof fn law_initialize_once(g: Connection, kind: RequestKind, reason: Option<Seq<char>>)
    requires
        g.initialized,
        kind is Initialize,
    ensures
        request_step(g, kind, reason) == (g, RequestActionView::Reject(already_initialized_message())),
{
}

/// Before initialization every other request is rejected and changes
/// nothing.
pub proof fn law_nothing_before_initialize(g: Connection, kind: RequestKind, reason: Option<Seq<char>>)
    requires
        !g.initialized,
        !(kind is Initialize),
    ensures
        request_step(g, kind, reason) == (g, RequestActionView::Reject(not_initialized_message())),
{
}

/// An experimental method is dispatched only to a client that enabled the
/// experimental API at initialization.
pub proof fn law_experimental_needs_capability(g: Connection, kind: RequestKind, reason: Seq<char>)
    requires
        !(kind is Initialize),
        !g.experimental_api_enabled,
    ensures
        request_step(g, kind, Some(reason)).0 == g,
        request_step(g, kind, Some(reason)).1 is Reject,
{
}

/// A notification from the client, as far as the server cares.
#[derive(Debug, Clone, PartialEq, Eq)]
pub enum ClientNotificationKind {
    SessionCancel { session_id: String },
    Initialized,
    /// One that does not parse as a known notification.
    Unrecognized,
}

/// What the server does with a notification.
#[derive(Debug, Clone, PartialEq, Eq)]
pub enum NotificationAction {
    CancelSession(String),
    Nothing,
    /// Log it and go on.
    Log,
}

/// A session cancellation cancels that session, `initialized` needs
/// nothing, and anything else is only logged.
pub fn on_notification(n: ClientNotificationKind) -> (r: NotificationAction)
    ensures
        match n {
            ClientNotificationKind::SessionCancel { session_id } => r == NotificationAction::CancelSession(session_id),
            ClientNotificationKind::Initialized => r == NotificationAction::Nothing,
            ClientNotificationKind::Unrecognized => r == NotificationAction::Log,
        },
{
    match n {
        ClientNotificationKind::SessionCancel { session_id } => NotificationAction::CancelSession(session_id),
        ClientNotificationKind::Initialized => NotificationAction::Nothing,
        ClientNotificationKind::Unrecognized => NotificationAction::Log,
    }
}

} // verus!
