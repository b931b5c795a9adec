//! Messages of the app-server protocol: JSON-RPC envelopes and the ACP
//! session, permission and terminal payloads.
use vstd::prelude::*;
use crate::json::{json_model, model_i64, model_str, model_u64, json_as_i64, json_as_str, json_as_u64};

verus! {

/// A JSON-RPC request identifier: a string or an integer.
#[derive(Debug, Clone, PartialEq, Eq)]
pub enum RequestId {
    String(String),
    Integer(i64),
}

pub enum RequestIdView {
    String(Seq<char>),
    Integer(i64),
}

impl View for RequestId {
    type V = RequestIdView;

    open spec fn view(&self) -> RequestIdView {
        match self {
            RequestId::String(s) => RequestIdView::String(s@),
            RequestId::Integer(i) => RequestIdView::Integer(*i),
        }
    }
}

/// The request id a JSON value denotes: a string, or an integer (one
/// above `i64::MAX` is taken modulo 2^64, as `as i64` does); anything else
/// is not an id.
pub open spec fn request_id_of(v: crate::json::JsonModel) -> Option<RequestIdView> {
    match model_str(v) {
        Some(s) => Some(RequestIdView::String(s)),
        None => match model_u64(v) {
            Some(u) => Some(RequestIdView::Integer(u as i64)),
            None => match model_i64(v) {
                Some(i) => Some(RequestIdView::Integer(i)),
                None => None,
            },
        },
    }
}

impl RequestId {
    /// Reads a request id from a JSON value (`request_id_of`).
    pub fn from_json(v: &serde_json::Value) -> (r: Option<RequestId>)
        ensures
            match r {
                Some(id) => request_id_of(json_model(*v)) == Some(id@),
                None => request_id_of(json_model(*v)) is None,
            },
    {
        match json_as_str(v) {
            Some(s) => Some(RequestId::String(s.to_string())),
            None => match json_as_u64(v) {
                Some(u) => Some(RequestId::Integer(u as i64)),
                None => match json_as_i64(v) {
                    Some(i) => Some(RequestId::Integer(i)),
                    None => None,
                },
            },
        }
    }
}

/// The protocol version tag of JSON-RPC.
pub fn jsonrpc_version() -> (r: &'static str)
    ensures
        r@ == "2.0"@,
{
    "2.0"
}

/// A request that expects a response.
#[derive(Debug, PartialEq)]
pub struct JSONRPCRequest {
    pub id: RequestId,
    pub method: String,
    pub params: Option<serde_json::Value>,
}

/// A notification, which expects no response.
#[derive(Debug, PartialEq)]
pub struct JSONRPCNotification {
    pub method: String,
    pub params: Option<serde_json::Value>,
}

/// A successful response to a request.
#[derive(Debug, PartialEq)]
pub struct JSONRPCResponse {
    pub id: RequestId,
    pub result: serde_json::Value,
}

/// The error object of an error response.
#[derive(Debug, PartialEq)]
pub struct JSONRPCErrorError {
    pub code: i64,
    pub data: Option<serde_json::Value>,
    pub message: String,
}

/// A response reporting an error; the id is absent for notifications.
#[derive(Debug, PartialEq)]
pub struct JSONRPCError {
    pub error: JSONRPCErrorError,
    pub id: Option<RequestId>,
}

/// Any JSON-RPC message.
#[derive(Debug, PartialEq)]
pub enum JSONRPCMessage {
    Request(JSONRPCRequest),
    Notification(JSONRPCNotification),
    Response(JSONRPCResponse),
    Error(JSONRPCError),
}

/// How a client authenticates.
#[derive(Debug, Clone, Copy, PartialEq, Eq)]
pub enum AuthMode {
    ApiKey,
    ChatGPT,
}

/// What a client tells about itself.
#[derive(Debug, Clone, PartialEq, Eq, Default)]
pub struct ClientInfo {
    pub name: String,
    pub title: Option<String>,
    pub version: String,
}

/// Capabilities a client declares at initialization.
#[derive(Debug, Clone, Copy, PartialEq, Eq, Default)]
pub struct InitializeCapabilities {
    pub experimental_api: bool,
    pub terminal: bool,
}

/// Prompt content kinds the agent accepts.
#[derive(Debug, Clone, Copy, PartialEq, Eq, Default)]
pub struct PromptCapabilities {
    pub image: bool,
    pub audio: bool,
    pub embedded_context: bool,
}

/// MCP transports the agent supports.
#[derive(Debug, Clone, Copy, PartialEq, Eq, Default)]
pub struct McpCapabilities {
    pub http: bool,
    pub sse: bool,
}

/// Capabilities the agent announces.
#[derive(Debug, Clone, Copy, PartialEq, Eq, Default)]
pub struct AgentCapabilities {
    pub load_session: bool,
    pub close_session: bool,
    pub list_sessions: bool,
    pub resume_session: bool,
    pub authenticate: bool,
    pub prompt_capabilities: Option<PromptCapabilities>,
    pub mcp_capabilities: Option<McpCapabilities>,
}

/// What the agent tells about itself.
#[derive(Debug, Clone, PartialEq, Eq, Default)]
pub struct AgentInfo {
    pub name: String,
    pub title: String,
    pub version: String,
}

/// Response to `session/new`.
#[derive(Debug, Clone, PartialEq, Eq)]
pub struct SessionNewResponse {
    pub session_id: String,
}

/// An embedded resource in a prompt.
#[derive(Debug, Clone, PartialEq, Eq, Default)]
pub struct SessionPromptResource {
    pub uri: String,
    pub mime_type: Option<String>,
    pub text: Option<String>,
}

/// One content block of a prompt.
#[derive(Debug, Clone, PartialEq, Eq)]
pub enum SessionPromptContent {
    Text { text: String },
    Resource { resource: SessionPromptResource },
    Unknown,
}

/// Parameters of `session/prompt`.
#[derive(Debug, Clone, PartialEq, Eq, Default)]
pub struct SessionPromptParams {
    pub session_id: String,
    pub prompt: Vec<SessionPromptContent>,
}

/// Response to `session/prompt`, sent when the turn is over.
#[derive(Debug, Clone, PartialEq, Eq)]
pub struct SessionPromptResponse {
    pub stop_reason: String,
    pub output: Option<String>,
}

/// Parameters of the `session/cancel` notification.
#[derive(Debug, Clone, PartialEq, Eq, Default)]
pub struct SessionCancelParams {
    pub session_id: String,
}

/// A tool call a permission is asked for.
#[derive(Debug, PartialEq)]
pub struct AcpToolCall {
    pub id: String,
    pub name: String,
    pub input: serde_json::Value,
}

/// The outcomes a permission request offers.
#[derive(Debug, Clone, Copy, PartialEq, Eq)]
pub enum AcpPermissionOptionKind {
    AllowOnce,
    AllowAlways,
    RejectOnce,
    RejectAlways,
}

/// The decision taken on a proposed action.
#[derive(Debug, Clone, Copy, PartialEq, Eq)]
pub enum ReviewDecision {
    Approved,
    ApprovedForSession,
    Denied,
    Abort,
}

impl AcpPermissionOptionKind {
    /// The review decision an option stands for: allow once approves,
    /// allow always approves for the session, reject once denies, reject
    /// always aborts.
    pub fn to_review_decision(self) -> (r: ReviewDecision)
        ensures
            r == (match self {
                AcpPermissionOptionKind::AllowOnce => ReviewDecision::Approved,
                AcpPermissionOptionKind::AllowAlways => ReviewDecision::ApprovedForSession,
                AcpPermissionOptionKind::RejectOnce => ReviewDecision::Denied,
                AcpPermissionOptionKind::RejectAlways => ReviewDecision::Abort,
            }),
    {
        match self {
            AcpPermissionOptionKind::AllowOnce => ReviewDecision::Approved,
            AcpPermissionOptionKind::AllowAlways => ReviewDecision::ApprovedForSession,
            AcpPermissionOptionKind::RejectOnce => ReviewDecision::Denied,
            AcpPermissionOptionKind::RejectAlways => ReviewDecision::Abort,
        }
    }
}

/// One option of a permission request.
#[derive(Debug, Clone, PartialEq, Eq)]
pub struct AcpPermissionOption {
    pub label: String,
    pub kind: AcpPermissionOptionKind,
}

/// The option a client chose.
#[derive(Debug, Clone, PartialEq, Eq)]
pub enum AcpPermissionOutcome {
    Option { kind: AcpPermissionOptionKind },
}

/// Parameters of `session/request_permission`.
#[derive(Debug, PartialEq)]
pub struct AcpRequestPermissionParams {
    pub session_id: String,
    pub tool_call: AcpToolCall,
    pub options: Vec<AcpPermissionOption>,
}

/// Response to `session/request_permission`.
#[derive(Debug, Clone, PartialEq, Eq)]
pub struct AcpRequestPermissionResponse {
    pub outcome: AcpPermissionOutcome,
}

/// Parameters of `session/close`.
#[derive(Debug, Clone, PartialEq, Eq, Default)]
pub struct SessionCloseParams {
    pub session_id: String,
}

/// Response to `session/close`.
#[derive(Debug, Clone, PartialEq, Eq, Default)]
pub struct SessionCloseResponse {}

/// One session listed by `session/list`.
#[derive(Debug, Clone, PartialEq, Eq)]
pub struct AcpSessionInfo {
    pub session_id: String,
    pub cwd: Option<String>,
}

/// Parameters of `session/list`.
#[derive(Debug, Clone, PartialEq, Eq, Default)]
pub struct SessionListParams {}

/// Response to `session/list`.
#[derive(Debug, Clone, PartialEq, Eq)]
pub struct SessionListResponse {
    pub sessions: Vec<AcpSessionInfo>,
}

/// Parameters of `session/load`.
#[derive(Debug, Clone, PartialEq, Eq, Default)]
pub struct SessionLoadParams {
    pub session_id: String,
}

/// Response to `session/load`.
#[derive(Debug, Clone, PartialEq, Eq)]
pub struct SessionLoadResponse {
    pub session_id: String,
}

/// Parameters of `session/resume`.
#[derive(Debug, Clone, PartialEq, Eq, Default)]
pub struct SessionResumeParams {
    pub session_id: String,
}

/// Response to `session/resume`.
#[derive(Debug, Clone, PartialEq, Eq)]
pub struct SessionResumeResponse {
    pub session_id: String,
}

/// Parameters of `session/setConfigOption`.
#[derive(Debug, PartialEq)]
pub struct SessionSetConfigOptionParams {
    pub session_id: String,
    pub key: String,
    pub value: serde_json::Value,
}

/// Response to `session/setConfigOption`.
#[derive(Debug, Clone, PartialEq, Eq, Default)]
pub struct SessionSetConfigOptionResponse {}

/// Parameters of `session/setMode`.
#[derive(Debug, Clone, PartialEq, Eq, Default)]
pub struct SessionSetModeParams {
    pub session_id: String,
    pub mode: String,
}

/// Response to `session/setMode`.
#[derive(Debug, Clone, PartialEq, Eq, Default)]
pub struct SessionSetModeResponse {}

/// Parameters of `authenticate`.
#[derive(Debug, PartialEq)]
pub struct AcpAuthenticateParams {
    pub method: String,
    pub credentials: serde_json::Value,
}

/// Response to `authenticate`.
#[derive(Debug, Clone, PartialEq, Eq, Default)]
pub struct AcpAuthenticateResponse {
    pub authenticated: bool,
}

/// Parameters of `terminal/create`.
#[derive(Debug, Clone, PartialEq, Eq, Default)]
pub struct AcpTerminalCreateParams {
    pub session_id: String,
}

/// Response to `terminal/create`.
#[derive(Debug, Clone, PartialEq, Eq)]
pub struct AcpTerminalCreateResponse {
    pub terminal_id: String,
}

/// Parameters of `terminal/output`.
#[derive(Debug, Clone, PartialEq, Eq, Default)]
pub struct AcpTerminalOutputParams {
    pub terminal_id: String,
    pub data: String,
}

/// Response to `terminal/output`.
#[derive(Debug, Clone, PartialEq, Eq, Default)]
pub struct AcpTerminalOutputResponse {}

/// Parameters of `terminal/kill`.
#[derive(Debug, Clone, PartialEq, Eq, Default)]
pub struct AcpTerminalKillParams {
    pub terminal_id: String,
}

/// Response to `terminal/kill`.
#[derive(Debug, Clone, PartialEq, Eq, Default)]
pub struct AcpTerminalKillResponse {}

/// Parameters of `terminal/waitForExit`.
#[derive(Debug, Clone, PartialEq, Eq, Default)]
pub struct AcpTerminalWaitForExitParams {
    pub terminal_id: String,
}

/// Response to `terminal/waitForExit`.
#[derive(Debug, Clone, PartialEq, Eq, Default)]
pub struct AcpTerminalWaitForExitResponse {
    pub exit_code: i32,
}

/// Parameters of `terminal/release`.
#[derive(Debug, Clone, PartialEq, Eq, Default)]
pub struct AcpTerminalReleaseParams {
    pub terminal_id: String,
}

/// Response to `terminal/release`.
#[derive(Debug, Clone, PartialEq, Eq, Default)]
pub struct AcpTerminalReleaseResponse {}

/// A content block of a session update.
#[derive(Debug, Clone, PartialEq, Eq)]
pub enum AcpContentBlock {
    Text { text: String },
}

/// What a session update carries.
#[derive(Debug, Clone, PartialEq, Eq)]
pub enum SessionUpdatePayload {
    AgentMessageChunk { content: AcpContentBlock },
    Error { error: String },
}

/// A `session/update` notification.
#[derive(Debug, Clone, PartialEq, Eq)]
pub struct SessionUpdateNotification {
    pub session_id: String,
    pub update: SessionUpdatePayload,
}

/// Parameters of `listConversations`.
#[derive(Debug, Clone, PartialEq, Eq, Default)]
pub struct ListConversationsParams {
    pub page_size: Option<usize>,
    pub cursor: Option<String>,
    pub model_providers: Option<Vec<String>>,
}

/// Git metadata of a conversation.
#[derive(Debug, Clone, PartialEq, Eq, Default)]
pub struct ConversationGitInfo {
    pub sha: Option<String>,
    pub branch: Option<String>,
    pub origin_url: Option<String>,
}

/// Response to `archiveConversation`.
#[derive(Debug, Clone, PartialEq, Eq, Default)]
pub struct ArchiveConversationResponse {}

/// Response to `removeConversationListener`.
#[derive(Debug, Clone, PartialEq, Eq, Default)]
pub struct RemoveConversationSubscriptionResponse {}

/// Parameters of `loginApiKey`.
#[derive(Debug, Clone, PartialEq, Eq, Default)]
pub struct LoginApiKeyParams {
    pub api_key: String,
}

/// Response to `loginApiKey`.
#[derive(Debug, Clone, PartialEq, Eq, Default)]
pub struct LoginApiKeyResponse {}

/// A git commit id.
#[derive(Debug, Clone, PartialEq, Eq, Default)]
pub struct GitSha(pub String);

/// Response to `gitDiffToRemote`.
#[derive(Debug, Clone, PartialEq, Eq)]
pub struct GitDiffToRemoteResponse {
    pub sha: GitSha,
    pub diff: String,
}

/// Parameters of `gitDiffToRemote`.
#[derive(Debug, Clone, PartialEq, Eq, Default)]
pub struct GitDiffToRemoteParams {
    pub cwd: String,
}

/// Parameters of `getAuthStatus`.
#[derive(Debug, Clone, PartialEq, Eq, Default)]
pub struct GetAuthStatusParams {
    pub include_token: Option<bool>,
    pub refresh_token: Option<bool>,
}

/// Response to `execOneOffCommand`.
#[derive(Debug, Clone, PartialEq, Eq, Default)]
pub struct ExecOneOffCommandResponse {
    pub exit_code: i32,
    pub stdout: String,
    pub stderr: String,
}

/// Response to `getAuthStatus`.
#[derive(Debug, Clone, PartialEq, Eq, Default)]
pub struct GetAuthStatusResponse {
    pub auth_method: Option<AuthMode>,
    pub auth_token: Option<String>,
    pub requires_openai_auth: Option<bool>,
}

/// Response to `getUserAgent`.
#[derive(Debug, Clone, PartialEq, Eq, Default)]
pub struct GetUserAgentResponse {
    pub user_agent: String,
}

/// Response to `userInfo`.
#[derive(Debug, Clone, PartialEq, Eq, Default)]
pub struct UserInfoResponse {
    pub alleged_user_email: Option<String>,
}

/// Response to `setDefaultModel`.
#[derive(Debug, Clone, PartialEq, Eq, Default)]
pub struct SetDefaultModelResponse {}

/// Tool settings of a saved configuration.
#[derive(Debug, Clone, PartialEq, Eq, Default)]
pub struct Tools {
    pub web_search: Option<bool>,
    pub view_image: Option<bool>,
}

/// Response to `sendUserTurn`.
#[derive(Debug, Clone, PartialEq, Eq, Default)]
pub struct SendUserTurnResponse {}

/// Response to `sendUserMessage`.
#[derive(Debug, Clone, PartialEq, Eq, Default)]
pub struct SendUserMessageResponse {}

/// A byte range inside a text.
#[derive(Debug, Clone, Copy, PartialEq, Eq, Default)]
pub struct V1ByteRange {
    pub start: usize,
    pub end: usize,
}

/// An element placed over a byte range of a text.
#[derive(Debug, Clone, PartialEq, Eq, Default)]
pub struct V1TextElement {
    pub byte_range: V1ByteRange,
    pub placeholder: Option<String>,
}

/// One item of user input.
#[derive(Debug, Clone, PartialEq, Eq)]
pub enum InputItem {
    Text { text: String, text_elements: Vec<V1TextElement> },
    Image { image_url: String },
    LocalImage { path: String },
}

/// Notification that the authentication method changed.
#[derive(Debug, Clone, PartialEq, Eq, Default)]
pub struct AuthStatusChangeNotification {
    pub auth_method: Option<AuthMode>,
}

} // verus!
