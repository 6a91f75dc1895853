//! The Responses items, requests and events that the Chat Completions adapter
//! reads and writes, each with its mathematical view.
use vstd::prelude::*;

verus! {

/// One piece of the content of a message.
#[derive(Debug)]
pub enum ContentItem {
    InputText { text: String },
    InputImage { image_url: String },
    OutputText { text: String },
}

pub enum ContentItemView {
    InputText { text: Seq<char> },
    InputImage { image_url: Seq<char> },
    OutputText { text: Seq<char> },
}

impl View for ContentItem {
    type V = ContentItemView;

    open spec fn view(&self) -> ContentItemView {
        match self {
            ContentItem::InputText { text } => ContentItemView::InputText { text: text@ },
            ContentItem::InputImage { image_url } => ContentItemView::InputImage {
                image_url: image_url@,
            },
            ContentItem::OutputText { text } => ContentItemView::OutputText { text: text@ },
        }
    }
}

impl DeepView for ContentItem {
    type V = ContentItemView;

    open spec fn deep_view(&self) -> ContentItemView {
        self@
    }
}

/// The output of a function or custom tool call, as far as the adapter reads
/// it: the text of its body, where the body has a text form.
#[derive(Debug)]
pub struct FunctionCallOutputPayload {
    pub text: Option<String>,
}

/// An item of a Responses conversation. The variants that the Chat
/// Completions adapter drops carry nothing here.
#[derive(Debug)]
pub enum ResponseItem {
    Message { id: Option<String>, role: String, content: Vec<ContentItem> },
    Reasoning,
    LocalShellCall,
    FunctionCall {
        id: Option<String>,
        name: String,
        namespace: Option<String>,
        arguments: String,
        call_id: String,
    },
    ToolSearchCall,
    FunctionCallOutput { call_id: String, output: FunctionCallOutputPayload },
    CustomToolCall { id: Option<String>, call_id: String, name: String, input: String },
    CustomToolCallOutput { call_id: String, output: FunctionCallOutputPayload },
    ToolSearchOutput,
    WebSearchCall,
    ImageGenerationCall,
    Compaction,
    CompactionTrigger,
    ContextCompaction,
    Other,
}

pub enum ResponseItemView {
    Message { id: Option<Seq<char>>, role: Seq<char>, content: Seq<ContentItemView> },
    FunctionCall {
        id: Option<Seq<char>>,
        name: Seq<char>,
        namespace: Option<Seq<char>>,
        arguments: Seq<char>,
        call_id: Seq<char>,
    },
    FunctionCallOutput { call_id: Seq<char>, output: Option<Seq<char>> },
    CustomToolCall { id: Option<Seq<char>>, call_id: Seq<char>, name: Seq<char>, input: Seq<char> },
    CustomToolCallOutput { call_id: Seq<char>, output: Option<Seq<char>> },
    /// One of the items that the adapter drops.
    Dropped,
}

impl View for ResponseItem {
    type V = ResponseItemView;

    open spec fn view(&self) -> ResponseItemView {
        match self {
            ResponseItem::Message { id, role, content } => ResponseItemView::Message {
                id: id.deep_view(),
                role: role@,
                content: content.deep_view(),
            },
            ResponseItem::FunctionCall { id, name, namespace, arguments, call_id } =>
                ResponseItemView::FunctionCall {
                id: id.deep_view(),
                name: name@,
                namespace: namespace.deep_view(),
                arguments: arguments@,
                call_id: call_id@,
            },
            ResponseItem::FunctionCallOutput { call_id, output } =>
                ResponseItemView::FunctionCallOutput {
                call_id: call_id@,
                output: output.text.deep_view(),
            },
            ResponseItem::CustomToolCall { id, call_id, name, input } =>
                ResponseItemView::CustomToolCall {
                id: id.deep_view(),
                call_id: call_id@,
                name: name@,
                input: input@,
            },
            ResponseItem::CustomToolCallOutput { call_id, output } =>
                ResponseItemView::CustomToolCallOutput {
                call_id: call_id@,
                output: output.text.deep_view(),
            },
            _ => ResponseItemView::Dropped,
        }
    }
}

impl DeepView for ResponseItem {
    type V = ResponseItemView;

    open spec fn deep_view(&self) -> ResponseItemView {
        self@
    }
}

/// Token counts of a response.
#[derive(Debug, Clone, Copy, PartialEq, Eq, Structural)]
pub struct TokenUsage {
    pub input_tokens: i64,
    pub cached_input_tokens: i64,
    pub output_tokens: i64,
    pub reasoning_output_tokens: i64,
    pub total_tokens: i64,
}

/// An event of a response stream.
#[derive(Debug)]
pub enum ResponseEvent {
    Created,
    OutputItemAdded(ResponseItem),
    OutputItemDone(ResponseItem),
    OutputTextDelta(String),
    Completed { response_id: String, token_usage: Option<TokenUsage>, end_turn: Option<bool> },
}

pub enum ResponseEventView {
    Created,
    OutputItemAdded(ResponseItemView),
    OutputItemDone(ResponseItemView),
    OutputTextDelta(Seq<char>),
    Completed { response_id: Seq<char>, token_usage: Option<TokenUsage>, end_turn: Option<bool> },
}

impl View for ResponseEvent {
    type V = ResponseEventView;

    open spec fn view(&self) -> ResponseEventView {
        match self {
            ResponseEvent::Created => ResponseEventView::Created,
            ResponseEvent::OutputItemAdded(item) => ResponseEventView::OutputItemAdded(item@),
            ResponseEvent::OutputItemDone(item) => ResponseEventView::OutputItemDone(item@),
            ResponseEvent::OutputTextDelta(text) => ResponseEventView::OutputTextDelta(text@),
            ResponseEvent::Completed { response_id, token_usage, end_turn } =>
                ResponseEventView::Completed {
                response_id: response_id@,
                token_usage: *token_usage,
                end_turn: *end_turn,
            },
        }
    }
}

impl DeepView for ResponseEvent {
    type V = ResponseEventView;

    open spec fn deep_view(&self) -> ResponseEventView {
        self@
    }
}

/// A tool of a Responses request, as far as the adapter reads it: the string
/// values of its fields `type`, `name` and `description` (`None` where the
/// field is missing or is not a string), and the JSON text of its field
/// `parameters` (`None` where it is missing).
#[derive(Debug)]
pub struct ResponsesTool {
    pub kind: Option<String>,
    pub name: Option<String>,
    pub description: Option<String>,
    pub parameters: Option<String>,
}

pub struct ResponsesToolView {
    pub kind: Option<Seq<char>>,
    pub name: Option<Seq<char>>,
    pub description: Option<Seq<char>>,
    pub parameters: Option<Seq<char>>,
}

impl View for ResponsesTool {
    type V = ResponsesToolView;

    open spec fn view(&self) -> ResponsesToolView {
        ResponsesToolView {
            kind: self.kind.deep_view(),
            name: self.name.deep_view(),
            description: self.description.deep_view(),
            parameters: self.parameters.deep_view(),
        }
    }
}

impl DeepView for ResponsesTool {
    type V = ResponsesToolView;

    open spec fn deep_view(&self) -> ResponsesToolView {
        self@
    }
}

/// A Responses API request, as far as the adapter reads it.
#[derive(Debug)]
pub struct ResponsesApiRequest {
    pub model: String,
    pub instructions: String,
    pub input: Vec<ResponseItem>,
    pub tools: Vec<ResponsesTool>,
    pub tool_choice: String,
}

pub struct ResponsesApiRequestView {
    pub model: Seq<char>,
    pub instructions: Seq<char>,
    pub input: Seq<ResponseItemView>,
    pub tools: Seq<ResponsesToolView>,
    pub tool_choice: Seq<char>,
}

impl View for ResponsesApiRequest {
    type V = ResponsesApiRequestView;

    open spec fn view(&self) -> ResponsesApiRequestView {
        ResponsesApiRequestView {
            model: self.model@,
            instructions: self.instructions@,
            input: self.input.deep_view(),
            tools: self.tools.deep_view(),
            tool_choice: self.tool_choice@,
        }
    }
}

/// A copy of a text.
pub fn clone_string(s: &String) -> (res: String)
    ensures
        res@ == s@,
{
    s.clone()
}

/// A copy of an optional text.
pub fn clone_opt_string(s: &Option<String>) -> (res: Option<String>)
    ensures
        res.deep_view() == s.deep_view(),
{
    match s {
        Some(t) => Some(t.clone()),
        None => None,
    }
}

} // verus!
