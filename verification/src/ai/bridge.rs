//! The messages exchanged with the task that talks to the AI service.
use vstd::prelude::*;

use crate::ai::conversation::ChatMessage;

verus! {

/// A request to the AI task.
pub enum AiRequest {
    Chat { messages: Vec<ChatMessage> },
    Cancel,
}

/// What the AI task reports back, in order: text as it streams, tool
/// calls, the end of a reply, or an error.
pub enum AiResponse {
    Token(String),
    ToolCall { id: String, name: String, arguments: String },
    Done,
    Error(String),
}

/// The plain content of a report from the AI task.
pub enum ResponseView {
    Token(Seq<char>),
    ToolCall { id: Seq<char>, name: Seq<char>, arguments: Seq<char> },
    Done,
    Error(Seq<char>),
}

impl View for AiResponse {
    type V = ResponseView;

    open spec fn view(&self) -> ResponseView {
        match self {
            AiResponse::Token(t) => ResponseView::Token(t@),
            AiResponse::ToolCall { id, name, arguments } => ResponseView::ToolCall {
                id: id@,
                name: name@,
                arguments: arguments@,
            },
            AiResponse::Done => ResponseView::Done,
            AiResponse::Error(e) => ResponseView::Error(e@),
        }
    }
}

} // verus!
