//! Verified core logic of the Nidex coding agent: the DSML tool-call stream
//! parser, the chat-completions request assembler and stream state machines,
//! connector merging, authentication decisions, code-navigation helpers and
//! the protocol types they exchange.
use vstd::prelude::*;

pub mod text;
pub mod json;
pub mod dsml;
pub mod dsml_laws;
pub mod connectors;
pub mod items;
pub mod chat_sse;
pub mod chat_sse_laws;
pub mod chat_request;
pub mod aggregate;
pub mod models;
pub mod protocol;
pub mod auth;
pub mod code_nav;
pub mod code_nav_laws;
pub mod code_query;
pub mod app_server;
pub mod onboarding;
pub mod tool_handlers;

verus! {

} // verus!
