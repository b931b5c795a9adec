//! Conversation items and stream events exchanged with a model provider, and
//! their plain-data views.
use vstd::prelude::*;
use crate::connectors::opt_view;
use crate::json::{json_model, JsonModel};

verus! {

/// One part of a message.
#[derive(Debug, Clone, PartialEq, Eq)]
pub enum ContentItem {
    InputText { text: String },
    InputImage { image_url: String },
    OutputText { text: String },
}

pub enum ContentView {
    InputText(Seq<char>),
    InputImage(Seq<char>),
    OutputText(Seq<char>),
}

impl View for ContentItem {
    type V = ContentView;

    open spec fn view(&self) -> ContentView {
        match self {
            ContentItem::InputText { text } => ContentView::InputText(text@),
            ContentItem::InputImage { image_url } => ContentView::InputImage(image_url@),
            ContentItem::OutputText { text } => ContentView::OutputText(text@),
        }
    }
}

/// One part of a reasoning item's content.
#[derive(Debug, Clone, PartialEq, Eq)]
pub enum ReasoningItemContent {
    ReasoningText { text: String },
    Text { text: String },
}

pub enum ReasoningContentView {
    ReasoningText(Seq<char>),
    Text(Seq<char>),
}

impl View for ReasoningItemContent {
    type V = ReasoningContentView;

    open spec fn view(&self) -> ReasoningContentView {
        match self {
            ReasoningItemContent::ReasoningText { text } => ReasoningContentView::ReasoningText(text@),
            ReasoningItemContent::Text { text } => ReasoningContentView::Text(text@),
        }
    }
}

/// One summary part of a reasoning item.
#[derive(Debug, Clone, PartialEq, Eq)]
pub enum ReasoningItemReasoningSummary {
    SummaryText { text: String },
}

/// One part of a structured tool result.
#[derive(Debug, Clone, PartialEq, Eq)]
pub enum FunctionCallOutputContentItem {
    InputText { text: String },
    InputImage { image_url: String },
}

pub enum OutputPartView {
    InputText(Seq<char>),
    InputImage(Seq<char>),
}

impl View for FunctionCallOutputContentItem {
    type V = OutputPartView;

    open spec fn view(&self) -> OutputPartView {
        match self {
            FunctionCallOutputContentItem::InputText { text } => OutputPartView::InputText(text@),
            FunctionCallOutputContentItem::InputImage { image_url } => OutputPartView::InputImage(image_url@),
        }
    }
}

/// The result of a tool call: plain text, or structured parts when present.
#[derive(Debug, Clone, PartialEq, Eq)]
pub struct FunctionCallOutputPayload {
    pub content: String,
    pub content_items: Option<Vec<FunctionCallOutputContentItem>>,
    pub success: Option<bool>,
}

impl Default for FunctionCallOutputPayload {
    fn default() -> (r: Self)
        ensures
            r.content@ == Seq::<char>::empty(),
            r.content_items is None,
            r.success is None,
    {
        FunctionCallOutputPayload { content: String::new(), content_items: None, success: None }
    }
}

pub struct PayloadView {
    pub content: Seq<char>,
    pub content_items: Option<Seq<OutputPartView>>,
    pub success: Option<bool>,
}

impl View for FunctionCallOutputPayload {
    type V = PayloadView;

    open spec fn view(&self) -> PayloadView {
        PayloadView {
            content: self.content@,
            content_items: match self.content_items {
                Some(v) => Some(v@.map_values(|x: FunctionCallOutputContentItem| x@)),
                None => None,
            },
            success: self.success,
        }
    }
}

/// Status of a local shell call.
#[derive(Debug, Clone, Copy, PartialEq, Eq)]
pub enum LocalShellStatus {
    Completed,
    InProgress,
    Incomplete,
}

/// An item of a conversation.
#[derive(Debug, PartialEq)]
pub enum ResponseItem {
    Message {
        id: Option<String>,
        role: String,
        content: Vec<ContentItem>,
        end_turn: Option<bool>,
        phase: Option<String>,
    },
    Reasoning {
        id: String,
        summary: Vec<ReasoningItemReasoningSummary>,
        content: Option<Vec<ReasoningItemContent>>,
        encrypted_content: Option<String>,
    },
    LocalShellCall {
        id: Option<String>,
        call_id: Option<String>,
        status: LocalShellStatus,
        action: serde_json::Value,
    },
    FunctionCall { id: Option<String>, name: String, arguments: String, call_id: String },
    FunctionCallOutput { call_id: String, output: FunctionCallOutputPayload },
    CustomToolCall {
        id: Option<String>,
        status: Option<String>,
        call_id: String,
        name: String,
        input: String,
    },
    CustomToolCallOutput { call_id: String, output: String },
    WebSearchCall { id: Option<String>, status: Option<String> },
    GhostSnapshot { ghost_commit: String },
    Compaction { encrypted_content: String },
    Other,
}

#[allow(inconsistent_fields)]
pub enum ItemView {
    Message {
        id: Option<Seq<char>>,
        role: Seq<char>,
        content: Seq<ContentView>,
        end_turn: Option<bool>,
        phase: Option<Seq<char>>,
    },
    Reasoning {
        id: Seq<char>,
        summary: Seq<Seq<char>>,
        content: Option<Seq<ReasoningContentView>>,
        encrypted_content: Option<Seq<char>>,
    },
    LocalShellCall {
        id: Option<Seq<char>>,
        call_id: Option<Seq<char>>,
        status: LocalShellStatus,
        action: JsonModel,
    },
    FunctionCall { id: Option<Seq<char>>, name: Seq<char>, arguments: Seq<char>, call_id: Seq<char> },
    FunctionCallOutput { call_id: Seq<char>, output: PayloadView },
    CustomToolCall {
        id: Option<Seq<char>>,
        status: Option<Seq<char>>,
        call_id: Seq<char>,
        name: Seq<char>,
        input: Seq<char>,
    },
    CustomToolCallOutput { call_id: Seq<char>, output: Seq<char> },
    WebSearchCall { id: Option<Seq<char>>, status: Option<Seq<char>> },
    GhostSnapshot { ghost_commit: Seq<char> },
    Compaction { encrypted_content: Seq<char> },
    Other,
}

pub open spec fn summary_view(s: Seq<ReasoningItemReasoningSummary>) -> Seq<Seq<char>> {
    s.map_values(|x: ReasoningItemReasoningSummary| match x {
        ReasoningItemReasoningSummary::SummaryText { text } => text@,
    })
}

impl View for ResponseItem {
    type V = ItemView;

    open spec fn view(&self) -> ItemView {
        match self {
            ResponseItem::Message { id, role, content, end_turn, phase } => ItemView::Message {
                id: opt_view(*id),
                role: role@,
                content: content@.map_values(|c: ContentItem| c@),
                end_turn: *end_turn,
                phase: opt_view(*phase),
            },
            ResponseItem::Reasoning { id, summary, content, encrypted_content } => ItemView::Reasoning {
                id: id@,
                summary: summary_view(summary@),
                content: match content {
                    Some(v) => Some(v@.map_values(|c: ReasoningItemContent| c@)),
                    None => None,
                },
                encrypted_content: opt_view(*encrypted_content),
            },
            ResponseItem::LocalShellCall { id, call_id, status, action } => ItemView::LocalShellCall {
                id: opt_view(*id),
                call_id: opt_view(*call_id),
                status: *status,
                action: json_model(*action),
            },
            ResponseItem::FunctionCall { id, name, arguments, call_id } => ItemView::FunctionCall {
                id: opt_view(*id),
                name: name@,
                arguments: arguments@,
                call_id: call_id@,
            },
            ResponseItem::FunctionCallOutput { call_id, output } => ItemView::FunctionCallOutput {
                call_id: call_id@,
                output: output@,
            },
            ResponseItem::CustomToolCall { id, status, call_id, name, input } => ItemView::CustomToolCall {
                id: opt_view(*id),
                status: opt_view(*status),
                call_id: call_id@,
                name: name@,
                input: input@,
            },
            ResponseItem::CustomToolCallOutput { call_id, output } => ItemView::CustomToolCallOutput {
                call_id: call_id@,
                output: output@,
            },
            ResponseItem::WebSearchCall { id, status } => ItemView::WebSearchCall {
                id: opt_view(*id),
                status: opt_view(*status),
            },
            ResponseItem::GhostSnapshot { ghost_commit } => ItemView::GhostSnapshot {
                ghost_commit: ghost_commit@,
            },
            ResponseItem::Compaction { encrypted_content } => ItemView::Compaction {
                encrypted_content: encrypted_content@,
            },
            ResponseItem::Other => ItemView::Other,
        }
    }
}

pub open spec fn items_view(v: Seq<ResponseItem>) -> Seq<ItemView> {
    v.map_values(|x: ResponseItem| x@)
}

/// Token counts reported for a response.
#[derive(Debug, Clone, Copy, PartialEq, Eq)]
pub struct TokenUsage {
    pub input_tokens: i64,
    pub cached_input_tokens: i64,
    pub output_tokens: i64,
    pub reasoning_output_tokens: i64,
    pub total_tokens: i64,
}

/// The rate-limit windows a provider reported, as the text it sent.
#[derive(Debug, Clone, PartialEq, Eq)]
pub struct RateLimitSnapshot {
    pub raw: String,
}

/// An event of a response stream.
#[derive(Debug, PartialEq)]
pub enum ResponseEvent {
    Created,
    OutputItemDone(ResponseItem),
    OutputItemAdded(ResponseItem),
    ServerReasoningIncluded(bool),
    Completed { response_id: String, token_usage: Option<TokenUsage> },
    OutputTextDelta(String),
    ReasoningSummaryDelta { delta: String, summary_index: i64 },
    ReasoningContentDelta { delta: String, content_index: i64 },
    ReasoningSummaryPartAdded { summary_index: i64 },
    RateLimits(RateLimitSnapshot),
    ModelsEtag(String),
}

pub enum EventView {
    Created,
    OutputItemDone(ItemView),
    OutputItemAdded(ItemView),
    ServerReasoningIncluded(bool),
    Completed { response_id: Seq<char>, token_usage: Option<TokenUsage> },
    OutputTextDelta(Seq<char>),
    ReasoningSummaryDelta { delta: Seq<char>, summary_index: i64 },
    ReasoningContentDelta { delta: Seq<char>, content_index: i64 },
    ReasoningSummaryPartAdded { summary_index: i64 },
    RateLimits(Seq<char>),
    ModelsEtag(Seq<char>),
}

impl View for ResponseEvent {
    type V = EventView;

    open spec fn view(&self) -> EventView {
        match self {
            ResponseEvent::Created => EventView::Created,
            ResponseEvent::OutputItemDone(i) => EventView::OutputItemDone(i@),
            ResponseEvent::OutputItemAdded(i) => EventView::OutputItemAdded(i@),
            ResponseEvent::ServerReasoningIncluded(b) => EventView::ServerReasoningIncluded(*b),
            ResponseEvent::Completed { response_id, token_usage } => EventView::Completed {
                response_id: response_id@,
                token_usage: *token_usage,
            },
            ResponseEvent::OutputTextDelta(d) => EventView::OutputTextDelta(d@),
            ResponseEvent::ReasoningSummaryDelta { delta, summary_index } => EventView::ReasoningSummaryDelta {
                delta: delta@,
                summary_index: *summary_index,
            },
            ResponseEvent::ReasoningContentDelta { delta, content_index } => EventView::ReasoningContentDelta {
                delta: delta@,
                content_index: *content_index,
            },
            ResponseEvent::ReasoningSummaryPartAdded { summary_index } => EventView::ReasoningSummaryPartAdded {
                summary_index: *summary_index,
            },
            ResponseEvent::RateLimits(s) => EventView::RateLimits(s.raw@),
            ResponseEvent::ModelsEtag(e) => EventView::ModelsEtag(e@),
        }
    }
}

/// Errors of a provider call.
#[derive(Debug, Clone, PartialEq, Eq)]
pub enum ApiError {
    Stream(String),
    ContextWindowExceeded,
}

pub enum ApiErrorView {
    Stream(Seq<char>),
    ContextWindowExceeded,
}

impl View for ApiError {
    type V = ApiErrorView;

    open spec fn view(&self) -> ApiErrorView {
        match self {
            ApiError::Stream(m) => ApiErrorView::Stream(m@),
            ApiError::ContextWindowExceeded => ApiErrorView::ContextWindowExceeded,
        }
    }
}

/// An event, or the error that ends the stream.
pub enum OutView {
    Event(EventView),
    Error(ApiErrorView),
}

pub open spec fn out_view(r: Result<ResponseEvent, ApiError>) -> OutView {
    match r {
        Ok(e) => OutView::Event(e@),
        Err(e) => OutView::Error(e@),
    }
}

pub open spec fn outs_view(v: Seq<Result<ResponseEvent, ApiError>>) -> Seq<OutView> {
    v.map_values(|r: Result<ResponseEvent, ApiError>| out_view(r))
}

/// An empty assistant message.
pub open spec fn empty_assistant() -> ItemView {
    ItemView::Message {
        id: None,
        role: "assistant"@,
        content: Seq::empty(),
        end_turn: None,
        phase: None,
    }
}

/// An assistant message holding one output text.
pub open spec fn assistant_text_item(t: Seq<char>) -> ItemView {
    ItemView::Message {
        id: None,
        role: "assistant"@,
        content: seq![ContentView::OutputText(t)],
        end_turn: None,
        phase: None,
    }
}

/// An empty reasoning item.
pub open spec fn empty_reasoning() -> ItemView {
    ItemView::Reasoning {
        id: Seq::empty(),
        summary: Seq::empty(),
        content: Some(Seq::empty()),
        encrypted_content: None,
    }
}

/// A reasoning item holding one reasoning text.
pub open spec fn reasoning_text_item(t: Seq<char>) -> ItemView {
    ItemView::Reasoning {
        id: Seq::empty(),
        summary: Seq::empty(),
        content: Some(seq![ReasoningContentView::ReasoningText(t)]),
        encrypted_content: None,
    }
}

/// Builds `empty_assistant()`.
pub fn new_assistant_message() -> (r: ResponseItem)
    ensures
        r@ == empty_assistant(),
{
    let r = ResponseItem::Message {
        id: None,
        role: "assistant".to_string(),
        content: Vec::new(),
        end_turn: None,
        phase: None,
    };
    proof {
        reveal_strlit("assistant");
    }
    assert(r@ =~= empty_assistant()) by {
        if let ItemView::Message { content, .. } = r@ {
            assert(content =~= Seq::<ContentView>::empty());
        }
    }
    r
}

/// Builds `assistant_text_item(text)`.
pub fn assistant_message_with_text(text: String) -> (r: ResponseItem)
    ensures
        r@ == assistant_text_item(text@),
{
    let ghost t = text@;
    let r = ResponseItem::Message {
        id: None,
        role: "assistant".to_string(),
        content: vec![ContentItem::OutputText { text }],
        end_turn: None,
        phase: None,
    };
    proof {
        reveal_strlit("assistant");
    }
    assert(r@ =~= assistant_text_item(t)) by {
        if let ItemView::Message { content, .. } = r@ {
            assert(content =~= seq![ContentView::OutputText(t)]);
        }
    }
    r
}

/// Builds `empty_reasoning()`.
pub fn new_reasoning_item() -> (r: ResponseItem)
    ensures
        r@ == empty_reasoning(),
{
    let r = ResponseItem::Reasoning {
        id: String::new(),
        summary: Vec::new(),
        content: Some(Vec::new()),
        encrypted_content: None,
    };
    assert(r@ =~= empty_reasoning()) by {
        if let ItemView::Reasoning { summary, content, .. } = r@ {
            assert(summary =~= Seq::<Seq<char>>::empty());
            assert(content->0 =~= Seq::<ReasoningContentView>::empty());
        }
    }
    r
}

/// Builds `reasoning_text_item(text)`.
pub fn reasoning_item_with_text(text: String) -> (r: ResponseItem)
    ensures
        r@ == reasoning_text_item(text@),
{
    let ghost t = text@;
    let r = ResponseItem::Reasoning {
        id: String::new(),
        summary: Vec::new(),
        content: Some(vec![ReasoningItemContent::ReasoningText { text }]),
        encrypted_content: None,
    };
    assert(r@ =~= reasoning_text_item(t)) by {
        if let ItemView::Reasoning { summary, content, .. } = r@ {
            assert(summary =~= Seq::<Seq<char>>::empty());
            assert(content->0 =~= seq![ReasoningContentView::ReasoningText(t)]);
        }
    }
    r
}

} // verus!
