//! The chat message model: roles, tool invocations and tool responses.
//!
//! Messages are append-only once added to a session's history. Each tool
//! invocation carries a provider-assigned call id and has exactly one tool
//! response sharing that id; the pair must never be split across a session
//! boundary.

use vstd::prelude::*;

verus! {

/// The speaker of a chat message.
#[derive(Debug, Clone, Copy, PartialEq, Eq, Structural)]
pub enum ChatRole {
    System,
    User,
    Assistant,
    Tool,
}

/// A tool invocation requested by the model: a provider-assigned call id,
/// the function name, and the raw JSON argument text.
pub struct ToolCall {
    pub call_id: String,
    pub fn_name: String,
    pub fn_arguments: String,
}

/// The response to a tool invocation, paired with it by call id.
pub struct ToolResponse {
    pub call_id: String,
    pub content: String,
}

/// The payload of a chat message: plain text, a batch of tool invocations
/// (assistant), or one tool response (tool role).
pub enum MessageContent {
    Text(String),
    ToolCalls(Vec<ToolCall>),
    ToolResponse(ToolResponse),
}

/// One message of a conversation history.
pub struct ChatMessage {
    pub role: ChatRole,
    pub content: MessageContent,
}

impl ChatMessage {
    /// Whether this message carries tool invocations.
    pub open spec fn has_tool_calls(self) -> bool {
        self.role == ChatRole::Assistant && (self.content matches MessageContent::ToolCalls(
            calls,
        ) && calls.len() > 0)
    }

    /// Whether this message is a tool response.
    pub open spec fn is_tool_response(self) -> bool {
        self.role == ChatRole::Tool && self.content matches MessageContent::ToolResponse(_)
    }

    /// Whether this is a text-only assistant message, which ends a turn.
    pub open spec fn ends_turn(self) -> bool {
        self.role == ChatRole::Assistant && !(self.content matches MessageContent::ToolCalls(
            calls,
        ) && calls.len() > 0)
    }

    /// A system-role message with the given text.
    pub fn system(text: String) -> (r: ChatMessage)
        ensures
            r.role == ChatRole::System,
            r.content matches MessageContent::Text(t) && t@ == text@,
    {
        ChatMessage { role: ChatRole::System, content: MessageContent::Text(text) }
    }

    /// A user-role message with the given text.
    pub fn user(text: String) -> (r: ChatMessage)
        ensures
            r.role == ChatRole::User,
            r.content matches MessageContent::Text(t) && t@ == text@,
    {
        ChatMessage { role: ChatRole::User, content: MessageContent::Text(text) }
    }

    /// A text-only assistant message.
    pub fn assistant(text: String) -> (r: ChatMessage)
        ensures
            r.role == ChatRole::Assistant,
            r.content matches MessageContent::Text(t) && t@ == text@,
            !r.has_tool_calls(),
            r.ends_turn(),
    {
        ChatMessage { role: ChatRole::Assistant, content: MessageContent::Text(text) }
    }

    /// An assistant message carrying tool invocations.
    pub fn from_tool_calls(calls: Vec<ToolCall>) -> (r: ChatMessage)
        ensures
            r.role == ChatRole::Assistant,
            r.content matches MessageContent::ToolCalls(c) && c == calls,
    {
        ChatMessage { role: ChatRole::Assistant, content: MessageContent::ToolCalls(calls) }
    }

    /// A tool-role message carrying one tool response.
    pub fn from_tool_response(response: ToolResponse) -> (r: ChatMessage)
        ensures
            r.role == ChatRole::Tool,
            r.content matches MessageContent::ToolResponse(t) && t == response,
            r.is_tool_response(),
    {
        ChatMessage { role: ChatRole::Tool, content: MessageContent::ToolResponse(response) }
    }
}

} // verus!
