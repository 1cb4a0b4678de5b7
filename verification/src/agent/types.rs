//! What an agent, its language model and its tools exchange.
use vstd::prelude::*;
use crate::json::{Json, JsonNumber, JsonView};

verus! {

/// One part of a message.
pub enum ContentPart {
    Text { text: String },
    ToolUse { id: String, name: String, input: Json },
    ToolResult { tool_use_id: String, content: String },
}

/// The content of a message.
pub enum MessageContent {
    Text(String),
    Parts(Vec<ContentPart>),
}

/// A message of a conversation.
pub struct ChatMessage {
    pub role: String,
    pub content: MessageContent,
}

/// A call of a tool that the model asks for. The arguments are JSON text.
pub struct ToolCall {
    pub id: String,
    pub name: String,
    pub arguments: String,
}

/// The model's answer.
pub struct ChatResponse {
    pub text: Option<String>,
    pub tool_calls: Vec<ToolCall>,
    pub input_tokens: u32,
    pub output_tokens: u32,
}

/// What the model is told of a tool.
pub struct ToolSpec {
    pub name: String,
    pub description: String,
    pub parameters: Json,
}

/// What a tool reports.
pub struct ToolResult {
    pub success: bool,
    pub output: String,
}

/// The settings of an agent.
pub struct AgentConfig {
    pub model: String,
    pub max_iterations: u32,
    pub temperature: JsonNumber,
}

/// The view of a [`ContentPart`].
pub enum PartView {
    Text { text: Seq<char> },
    ToolUse { id: Seq<char>, name: Seq<char>, input: JsonView },
    ToolResult { tool_use_id: Seq<char>, content: Seq<char> },
}

/// The view of a [`MessageContent`].
pub enum ContentView {
    Text(Seq<char>),
    Parts(Seq<PartView>),
}

/// The view of a [`ChatMessage`].
pub struct MessageView {
    pub role: Seq<char>,
    pub content: ContentView,
}

/// The view of a [`ToolCall`].
pub struct CallView {
    pub id: Seq<char>,
    pub name: Seq<char>,
    pub arguments: Seq<char>,
}

/// The view of a [`ToolResult`].
pub struct ResultView {
    pub success: bool,
    pub output: Seq<char>,
}

impl View for ContentPart {
    type V = PartView;

    open spec fn view(&self) -> PartView {
        match self {
            ContentPart::Text { text } => PartView::Text { text: text@ },
            ContentPart::ToolUse { id, name, input } => PartView::ToolUse {
                id: id@,
                name: name@,
                input: input@,
            },
            ContentPart::ToolResult { tool_use_id, content } => PartView::ToolResult {
                tool_use_id: tool_use_id@,
                content: content@,
            },
        }
    }
}

/// The views of a sequence of parts.
pub open spec fn parts_view(parts: Seq<ContentPart>) -> Seq<PartView> {
    parts.map_values(|p: ContentPart| p@)
}

impl View for MessageContent {
    type V = ContentView;

    open spec fn view(&self) -> ContentView {
        match self {
            MessageContent::Text(text) => ContentView::Text(text@),
            MessageContent::Parts(parts) => ContentView::Parts(parts_view(parts@)),
        }
    }
}

impl View for ChatMessage {
    type V = MessageView;

    open spec fn view(&self) -> MessageView {
        MessageView { role: self.role@, content: self.content@ }
    }
}

/// The views of a sequence of messages.
pub open spec fn messages_view(messages: Seq<ChatMessage>) -> Seq<MessageView> {
    messages.map_values(|m: ChatMessage| m@)
}

impl View for ToolCall {
    type V = CallView;

    open spec fn view(&self) -> CallView {
        CallView { id: self.id@, name: self.name@, arguments: self.arguments@ }
    }
}

/// The views of a sequence of calls.
pub open spec fn calls_view(calls: Seq<ToolCall>) -> Seq<CallView> {
    calls.map_values(|c: ToolCall| c@)
}

impl View for ToolResult {
    type V = ResultView;

    open spec fn view(&self) -> ResultView {
        ResultView { success: self.success, output: self.output@ }
    }
}

/// The names of a sequence of tools.
pub open spec fn tool_names(tools: Seq<ToolSpec>) -> Seq<Seq<char>> {
    tools.map_values(|t: ToolSpec| t.name@)
}

impl ChatMessage {
    /// A message of the user that is plain text.
    pub fn user_text(text: String) -> (r: ChatMessage)
        ensures
            r@ == (MessageView { role: "user"@, content: ContentView::Text(text@) }),
    {
        ChatMessage { role: "user".to_string(), content: MessageContent::Text(text) }
    }
}

impl ToolResult {
    /// The report of a success.
    pub fn success(output: String) -> (r: ToolResult)
        ensures
            r.success,
            r.output@ == output@,
    {
        ToolResult { success: true, output }
    }

    /// The report of a failure.
    pub fn failure(output: String) -> (r: ToolResult)
        ensures
            !r.success,
            r.output@ == output@,
    {
        ToolResult { success: false, output }
    }
}

/// The views leave nothing out: what a message, a call or a report holds can be read off its view.
pub proof fn lemma_views_hold_the_fields(
    part: ContentPart,
    message: ChatMessage,
    messages: Seq<ChatMessage>,
    call: ToolCall,
    calls: Seq<ToolCall>,
    report: ToolResult,
    i: int,
)
    ensures
        part matches ContentPart::Text { text } ==> (part@ matches PartView::Text { text: t } && t
            == text@),
        part matches ContentPart::ToolUse { id, name, input } ==> (part@ matches PartView::ToolUse {
            id: a,
            name: b,
            input: c,
        } && a == id@ && b == name@ && c == input@),
        part matches ContentPart::ToolResult { tool_use_id, content } ==> (
        part@ matches PartView::ToolResult { tool_use_id: a, content: b } && a == tool_use_id@ && b
            == content@),
        message@.role == message.role@,
        message.content matches MessageContent::Text(t) ==> message@.content == ContentView::Text(
            t@,
        ),
        message.content matches MessageContent::Parts(parts) ==> (
        message@.content matches ContentView::Parts(views) && views.len() == parts@.len() && (0
            <= i < parts@.len() ==> views[i] == parts@[i]@)),
        messages_view(messages).len() == messages.len(),
        0 <= i < messages.len() ==> messages_view(messages)[i] == messages[i]@,
        call@.id == call.id@ && call@.name == call.name@ && call@.arguments == call.arguments@,
        calls_view(calls).len() == calls.len(),
        0 <= i < calls.len() ==> calls_view(calls)[i] == calls[i]@,
        report@.success == report.success && report@.output == report.output@,
{
}

} // verus!
