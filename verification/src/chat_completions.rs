//! The Chat Completions request that stands in for a Responses request.
use vstd::prelude::*;

use crate::error::ApiError;
use crate::models::ContentItem;
use crate::models::ContentItemView;
use crate::models::FunctionCallOutputPayload;
use crate::models::ResponseItem;
use crate::models::ResponseItemView;
use crate::models::ResponsesApiRequest;
use crate::models::ResponsesApiRequestView;
use crate::models::ResponsesTool;
use crate::models::ResponsesToolView;

verus! {

broadcast use vstd::string::group_string_axioms;

/// The function that a tool call of an assistant message calls.
#[derive(Debug)]
pub struct ChatToolCallFunction {
    pub name: String,
    pub arguments: String,
}

/// A tool call of an assistant message; `kind` is serialized as `type`.
#[derive(Debug)]
pub struct ChatToolCall {
    pub id: String,
    pub kind: String,
    pub function: ChatToolCallFunction,
}

/// One message of a Chat Completions request.
#[derive(Debug)]
pub struct ChatMessage {
    pub role: String,
    pub content: Option<String>,
    pub tool_call_id: Option<String>,
    pub tool_calls: Option<Vec<ChatToolCall>>,
}

/// The function that a tool offers; `parameters` is the JSON text of its
/// parameter schema.
#[derive(Debug)]
pub struct ChatToolFunction {
    pub name: String,
    pub description: Option<String>,
    pub parameters: String,
}

/// A tool offered to the model; `kind` is serialized as `type`.
#[derive(Debug)]
pub struct ChatTool {
    pub kind: String,
    pub function: ChatToolFunction,
}

/// A Chat Completions request.
#[derive(Debug)]
pub struct ChatCompletionsRequest {
    pub model: String,
    pub messages: Vec<ChatMessage>,
    pub tools: Vec<ChatTool>,
    pub tool_choice: Option<String>,
    pub stream: bool,
}

pub struct ChatToolCallView {
    pub id: Seq<char>,
    pub kind: Seq<char>,
    pub name: Seq<char>,
    pub arguments: Seq<char>,
}

pub struct ChatMessageView {
    pub role: Seq<char>,
    pub content: Option<Seq<char>>,
    pub tool_call_id: Option<Seq<char>>,
    pub tool_calls: Option<Seq<ChatToolCallView>>,
}

pub struct ChatToolView {
    pub kind: Seq<char>,
    pub name: Seq<char>,
    pub description: Option<Seq<char>>,
    pub parameters: Seq<char>,
}

pub struct ChatCompletionsRequestView {
    pub model: Seq<char>,
    pub messages: Seq<ChatMessageView>,
    pub tools: Seq<ChatToolView>,
    pub tool_choice: Option<Seq<char>>,
    pub stream: bool,
}

impl DeepView for ChatToolCall {
    type V = ChatToolCallView;

    open spec fn deep_view(&self) -> ChatToolCallView {
        ChatToolCallView {
            id: self.id@,
            kind: self.kind@,
            name: self.function.name@,
            arguments: self.function.arguments@,
        }
    }
}

impl View for ChatMessage {
    type V = ChatMessageView;

    open spec fn view(&self) -> ChatMessageView {
        ChatMessageView {
            role: self.role@,
            content: self.content.deep_view(),
            tool_call_id: self.tool_call_id.deep_view(),
            tool_calls: self.tool_calls.deep_view(),
        }
    }
}

impl DeepView for ChatMessage {
    type V = ChatMessageView;

    open spec fn deep_view(&self) -> ChatMessageView {
        self@
    }
}

impl View for ChatTool {
    type V = ChatToolView;

    open spec fn view(&self) -> ChatToolView {
        ChatToolView {
            kind: self.kind@,
            name: self.function.name@,
            description: self.function.description.deep_view(),
            parameters: self.function.parameters@,
        }
    }
}

impl DeepView for ChatTool {
    type V = ChatToolView;

    open spec fn deep_view(&self) -> ChatToolView {
        self@
    }
}

impl View for ChatCompletionsRequest {
    type V = ChatCompletionsRequestView;

    open spec fn view(&self) -> ChatCompletionsRequestView {
        ChatCompletionsRequestView {
            model: self.model@,
            messages: self.messages.deep_view(),
            tools: self.tools.deep_view(),
            tool_choice: self.tool_choice.deep_view(),
            stream: self.stream,
        }
    }
}

// ---------------------------------------------------------------------------
// The mathematical model of the conversion.

/// The role a Responses message takes in a Chat Completions request.
pub open spec fn spec_chat_message_role(role: Seq<char>) -> Seq<char> {
    if role == "developer"@ {
        "system"@
    } else {
        role
    }
}

/// The text of a content item; images have none.
pub open spec fn content_text(c: ContentItemView) -> Option<Seq<char>> {
    match c {
        ContentItemView::InputText { text } => Some(text),
        ContentItemView::OutputText { text } => Some(text),
        ContentItemView::InputImage { .. } => None,
    }
}

/// The texts joined by line breaks.
pub open spec fn join_lines(parts: Seq<Seq<char>>) -> Seq<char>
    decreases parts.len(),
{
    if parts.len() == 0 {
        Seq::empty()
    } else if parts.len() == 1 {
        parts[0]
    } else {
        join_lines(parts.drop_last()) + "\n"@ + parts.last()
    }
}

/// The texts of the content, joined by line breaks; `None` where that is
/// empty.
pub open spec fn spec_content_items_to_text(content: Seq<ContentItemView>) -> Option<Seq<char>> {
    let text = join_lines(content.filter_map(|c: ContentItemView| content_text(c)));
    if text.len() == 0 {
        None
    } else {
        Some(text)
    }
}

/// The text of a tool output; empty where the output has none.
pub open spec fn spec_output_to_text(output: Option<Seq<char>>) -> Seq<char> {
    match output {
        Some(text) => text,
        None => Seq::empty(),
    }
}

/// An assistant message that calls one tool.
pub open spec fn tool_call_message(call_id: Seq<char>, name: Seq<char>, arguments: Seq<char>) -> ChatMessageView {
    ChatMessageView {
        role: "assistant"@,
        content: None,
        tool_call_id: None,
        tool_calls: Some(
            seq![ChatToolCallView { id: call_id, kind: "function"@, name, arguments }],
        ),
    }
}

/// A tool message that answers one tool call.
pub open spec fn tool_output_message(call_id: Seq<char>, output: Option<Seq<char>>) -> ChatMessageView {
    ChatMessageView {
        role: "tool"@,
        content: Some(spec_output_to_text(output)),
        tool_call_id: Some(call_id),
        tool_calls: None,
    }
}

/// The Chat Completions message of a Responses item: messages with text keep
/// it under their role, function and custom tool calls become assistant tool
/// calls, their outputs become tool messages, and everything else is dropped.
pub open spec fn spec_chat_message_of(item: ResponseItemView) -> Option<ChatMessageView> {
    match item {
        ResponseItemView::Message { role, content, .. } => match spec_content_items_to_text(content) {
            Some(text) => Some(
                ChatMessageView {
                    role: spec_chat_message_role(role),
                    content: Some(text),
                    tool_call_id: None,
                    tool_calls: None,
                },
            ),
            None => None,
        },
        ResponseItemView::FunctionCall { name, arguments, call_id, .. } => Some(
            tool_call_message(call_id, name, arguments),
        ),
        ResponseItemView::FunctionCallOutput { call_id, output } => Some(
            tool_output_message(call_id, output),
        ),
        ResponseItemView::CustomToolCall { call_id, name, input, .. } => Some(
            tool_call_message(call_id, name, input),
        ),
        ResponseItemView::CustomToolCallOutput { call_id, output } => Some(
            tool_output_message(call_id, output),
        ),
        ResponseItemView::Dropped => None,
    }
}

/// The Chat Completions tool of a Responses tool: only function tools with a
/// name are kept; the parameters default to the empty JSON object.
pub open spec fn spec_chat_tool(tool: ResponsesToolView) -> Option<ChatToolView> {
    if tool.kind == Some("function"@) && tool.name is Some {
        Some(
            ChatToolView {
                kind: "function"@,
                name: tool.name->0,
                description: tool.description,
                parameters: match tool.parameters {
                    Some(p) => p,
                    None => "{}"@,
                },
            },
        )
    } else {
        None
    }
}

/// The system message of the instructions, where there are any.
pub open spec fn instructions_messages(instructions: Seq<char>) -> Seq<ChatMessageView> {
    if instructions.len() == 0 {
        Seq::empty()
    } else {
        seq![
            ChatMessageView {
                role: "system"@,
                content: Some(instructions),
                tool_call_id: None,
                tool_calls: None,
            },
        ]
    }
}

/// The Chat Completions request of a Responses request.
pub open spec fn spec_convert_request(req: ResponsesApiRequestView) -> ChatCompletionsRequestView {
    let tools = req.tools.filter_map(|t: ResponsesToolView| spec_chat_tool(t));
    ChatCompletionsRequestView {
        model: req.model,
        messages: instructions_messages(req.instructions) + req.input.filter_map(
            |i: ResponseItemView| spec_chat_message_of(i),
        ),
        tools,
        tool_choice: if tools.len() == 0 {
            None
        } else {
            Some(req.tool_choice)
        },
        stream: true,
    }
}


/// Law: mapping a role twice maps it as once.
pub proof fn lemma_chat_message_role_idempotent(role: Seq<char>)
    ensures
        spec_chat_message_role(spec_chat_message_role(role)) == spec_chat_message_role(role),
{
    reveal_strlit("developer");
    reveal_strlit("system");
    if role == "developer"@ {
        assert("system"@[0] != "developer"@[0]);
    }
}

proof fn lemma_filter_map_len<A, B>(s: Seq<A>, f: spec_fn(A) -> Option<B>)
    ensures
        s.filter_map(f).len() <= s.len(),
    decreases s.len(),
{
    if s.len() > 0 {
        lemma_filter_map_len(s.drop_last(), f);
    }
}

/// Law: the request has at most one message more than the input has items
/// (the system message of the instructions), and at most as many tools as the
/// input request; a tool choice is sent exactly when a tool is.
pub proof fn lemma_convert_request_sizes(req: ResponsesApiRequestView)
    ensures
        spec_convert_request(req).messages.len() <= req.input.len() + 1,
        spec_convert_request(req).tools.len() <= req.tools.len(),
        spec_convert_request(req).tool_choice is Some <==> spec_convert_request(req).tools.len() > 0,
        spec_convert_request(req).stream,
{
    lemma_filter_map_len(req.input, |i: ResponseItemView| spec_chat_message_of(i));
    lemma_filter_map_len(req.tools, |t: ResponsesToolView| spec_chat_tool(t));
}


/// The total length of the texts.
pub open spec fn total_len(parts: Seq<Seq<char>>) -> nat
    decreases parts.len(),
{
    if parts.len() == 0 {
        0
    } else {
        total_len(parts.drop_last()) + parts.last().len()
    }
}

/// Law of joining: one more text is joined to the texts before it by exactly
/// one line break.
pub proof fn lemma_join_lines_push(parts: Seq<Seq<char>>, t: Seq<char>)
    requires
        parts.len() > 0,
    ensures
        join_lines(parts.push(t)) == join_lines(parts) + "\n"@ + t,
{
    assert(parts.push(t).drop_last() =~= parts);
    assert(parts.push(t).last() == t);
}

/// Law of joining: the joined text of a single text is that text, and the
/// joined text of texts is as long as the texts together, plus one line break
/// between each two of them.
pub proof fn lemma_join_lines_len(parts: Seq<Seq<char>>)
    ensures
        parts.len() == 1 ==> join_lines(parts) == parts[0],
        parts.len() > 0 ==> join_lines(parts).len() + 1 == total_len(parts) + parts.len(),
        parts.len() == 0 ==> join_lines(parts).len() == 0,
    decreases parts.len(),
{
    reveal_strlit("\n");
    if parts.len() > 1 {
        lemma_join_lines_len(parts.drop_last());
        assert("\n"@.len() == 1);
        assert(join_lines(parts).len() == join_lines(parts.drop_last()).len() + 1 + parts.last().len());
    } else if parts.len() == 1 {
        assert(parts.drop_last().len() == 0);
        assert(total_len(parts.drop_last()) == 0);
        assert(parts.last() == parts[0]);
    }
}

/// Law of the conversion of tool items: a function or custom tool call
/// becomes an assistant message that calls that one tool with its call id,
/// name and arguments (the input of a custom tool); the output of either
/// becomes a tool message that answers the call id with the output's text, or
/// with an empty text where the output has none.
pub proof fn lemma_tool_items_become_messages(
    id: Option<Seq<char>>,
    namespace: Option<Seq<char>>,
    call_id: Seq<char>,
    name: Seq<char>,
    arguments: Seq<char>,
    output: Option<Seq<char>>,
)
    ensures
        ({
            let answer = ChatMessageView {
                role: "tool"@,
                content: Some(
                    match output {
                        Some(t) => t,
                        None => Seq::empty(),
                    },
                ),
                tool_call_id: Some(call_id),
                tool_calls: None,
            };
            let call = ChatMessageView {
                role: "assistant"@,
                content: None,
                tool_call_id: None,
                tool_calls: Some(
                    seq![ChatToolCallView { id: call_id, kind: "function"@, name, arguments }],
                ),
            };
            &&& spec_chat_message_of(ResponseItemView::FunctionCallOutput { call_id, output })
                == Some(answer)
            &&& spec_chat_message_of(ResponseItemView::CustomToolCallOutput { call_id, output })
                == Some(answer)
            &&& spec_chat_message_of(
                ResponseItemView::FunctionCall { id, name, namespace, arguments, call_id },
            ) == Some(call)
            &&& spec_chat_message_of(
                ResponseItemView::CustomToolCall { id, call_id, name, input: arguments },
            ) == Some(call)
            &&& spec_chat_message_of(ResponseItemView::Dropped) is None
        }),
{
}

/// Law of the conversion of messages: a message whose content has text keeps
/// it, under its role (`developer` read as `system`); its text is the texts of
/// its content items, joined by line breaks, and a message without any such
/// text is dropped.
pub proof fn lemma_message_items_become_messages(
    id: Option<Seq<char>>,
    role: Seq<char>,
    content: Seq<ContentItemView>,
)
    ensures
        ({
            let texts = content.filter_map(|c: ContentItemView| content_text(c));
            let text = join_lines(texts);
            let res = spec_chat_message_of(ResponseItemView::Message { id, role, content });
            &&& res is Some <==> text.len() > 0
            &&& res is Some ==> res->0 == ChatMessageView {
                role: if role == "developer"@ {
                    "system"@
                } else {
                    role
                },
                content: Some(text),
                tool_call_id: None,
                tool_calls: None,
            }
        }),
{
}


/// Law of content texts: a text item, input or output, adds its text after
/// the texts before it; an image adds nothing.
pub proof fn lemma_content_texts_push(content: Seq<ContentItemView>, item: ContentItemView)
    ensures
        ({
            let f = |c: ContentItemView| content_text(c);
            match item {
                ContentItemView::InputText { text } => content.push(item).filter_map(f)
                    == content.filter_map(f).push(text),
                ContentItemView::OutputText { text } => content.push(item).filter_map(f)
                    == content.filter_map(f).push(text),
                ContentItemView::InputImage { .. } => content.push(item).filter_map(f)
                    == content.filter_map(f),
            }
        }),
{
    let f = |c: ContentItemView| content_text(c);
    assert(content.push(item).drop_last() =~= content);
    assert(content.push(item).last() == item);
}

/// Law of tools: a tool is kept exactly when it is a function tool with a
/// name; it keeps its name and description, is sent as a function, and has
/// its parameters, or the empty JSON object where it has none.
pub proof fn lemma_chat_tool_fields(tool: ResponsesToolView)
    ensures
        spec_chat_tool(tool) is Some <==> (tool.kind == Some("function"@) && tool.name is Some),
        spec_chat_tool(tool) is Some ==> {
            let t = spec_chat_tool(tool)->0;
            &&& t.kind == "function"@
            &&& Some(t.name) == tool.name
            &&& t.description == tool.description
            &&& t.parameters == (match tool.parameters {
                Some(p) => p,
                None => "{}"@,
            })
        },
{
}

/// Law of the conversion: one more input item adds its message, if it has
/// one, after the messages of the items before it; one more tool adds its
/// Chat Completions tool, if it has one, after the tools before it; the model
/// is kept and the response is streamed.
pub proof fn lemma_convert_request_push(
    req: ResponsesApiRequestView,
    item: ResponseItemView,
    tool: ResponsesToolView,
)
    ensures
        ({
            let more = ResponsesApiRequestView {
                input: req.input.push(item),
                tools: req.tools.push(tool),
                ..req
            };
            let before = spec_convert_request(req);
            let after = spec_convert_request(more);
            &&& after.messages == before.messages + match spec_chat_message_of(item) {
                Some(m) => seq![m],
                None => Seq::empty(),
            }
            &&& after.tools == before.tools + match spec_chat_tool(tool) {
                Some(t) => seq![t],
                None => Seq::empty(),
            }
            &&& after.model == req.model
            &&& after.stream
        }),
{
    let fm = |i: ResponseItemView| spec_chat_message_of(i);
    let ft = |t: ResponsesToolView| spec_chat_tool(t);
    assert(req.input.push(item).drop_last() =~= req.input);
    assert(req.tools.push(tool).drop_last() =~= req.tools);
    let ms = instructions_messages(req.instructions);
    assert(ms + req.input.push(item).filter_map(fm) =~= ms + req.input.filter_map(fm) + match spec_chat_message_of(item) {
        Some(m) => seq![m],
        None => Seq::empty(),
    });
}

/// Law of the conversion: a request without input items has exactly one
/// message, the system message with the instructions, where there are
/// instructions, and none otherwise; a tool choice is sent, unchanged,
/// exactly when a tool is.
pub proof fn lemma_convert_request_instructions(req: ResponsesApiRequestView)
    requires
        req.input.len() == 0,
    ensures
        ({
            let out = spec_convert_request(req);
            &&& req.instructions.len() == 0 ==> out.messages.len() == 0
            &&& req.instructions.len() > 0 ==> out.messages == seq![
                ChatMessageView {
                    role: "system"@,
                    content: Some(req.instructions),
                    tool_call_id: None,
                    tool_calls: None,
                },
            ]
            &&& out.tools.len() > 0 ==> out.tool_choice == Some(req.tool_choice)
            &&& out.tools.len() == 0 ==> out.tool_choice is None
        }),
{
    let fm = |i: ResponseItemView| spec_chat_message_of(i);
    assert(req.input.filter_map(fm) =~= Seq::<ChatMessageView>::empty());
    assert(instructions_messages(req.instructions) + Seq::<ChatMessageView>::empty()
        =~= instructions_messages(req.instructions));
}

// ---------------------------------------------------------------------------
// The executable conversion.

/// Maps a Responses message role to its Chat Completions role: `developer`
/// becomes `system`, every other role is kept as it is.
pub fn chat_message_role(role: String) -> (res: String)
    ensures
        res@ == spec_chat_message_role(role@),
{
    let developer = "developer".to_owned();
    if role == developer {
        "system".to_owned()
    } else {
        role
    }
}

/// The texts of the content, joined by line breaks; `None` where that is
/// empty.
pub fn content_items_to_text(content: &Vec<ContentItem>) -> (res: Option<String>)
    ensures
        res.deep_view() == spec_content_items_to_text(content.deep_view()),
{
    let ghost items = content.deep_view();
    let ghost f = |c: ContentItemView| content_text(c);
    let mut text = String::new();
    let mut any: bool = false;
    let n = content.len();
    let mut i: usize = 0;
    assert(items.take(0).filter_map(f) =~= Seq::<Seq<char>>::empty());
    while i < n
        invariant
            n == content@.len(),
            i <= n,
            items == content.deep_view(),
            f == (|c: ContentItemView| content_text(c)),
            text@ == join_lines(items.take(i as int).filter_map(f)),
            any == (items.take(i as int).filter_map(f).len() > 0),
        decreases n - i,
    {
        proof {
            items.lemma_filter_map_take_succ(f, i as int);
        }
        let ghost parts = items.take(i as int).filter_map(f);
        match &content[i] {
            ContentItem::InputText { text: t } | ContentItem::OutputText { text: t } => {
                assert(f(items[i as int]) == Some(t@));
                if any {
                    text.append("\n");
                }
                text.append(t.as_str());
                proof {
                    let next = parts.push(t@);
                    assert(next.drop_last() =~= parts);
                    assert(items.take(i + 1).filter_map(f) =~= next);
                }
                any = true;
            },
            ContentItem::InputImage { .. } => {
                assert(f(items[i as int]) is None);
                assert(items.take(i + 1).filter_map(f) =~= parts);
            },
        }
        i = i + 1;
    }
    assert(items.take(n as int) =~= items);
    if text.as_str().is_empty() {
        None
    } else {
        Some(text)
    }
}

/// The text of a tool output; empty where the output has none.
pub fn output_to_text(output: FunctionCallOutputPayload) -> (res: String)
    ensures
        res@ == spec_output_to_text(output.text.deep_view()),
{
    match output.text {
        Some(text) => text,
        None => String::new(),
    }
}

/// The Chat Completions tool of a Responses tool: only function tools with a
/// name are kept; the parameters default to the empty JSON object.
pub fn chat_tool_from_responses_tool(tool: ResponsesTool) -> (res: Option<ChatTool>)
    ensures
        res.deep_view() == spec_chat_tool(tool@),
{
    let ResponsesTool { kind, name, description, parameters } = tool;
    let is_function = match &kind {
        Some(k) => {
            let function = "function".to_owned();
            *k == function
        },
        None => false,
    };
    if !is_function {
        return None;
    }
    let name = match name {
        Some(n) => n,
        None => {
            return None;
        },
    };
    let parameters = match parameters {
        Some(p) => p,
        None => "{}".to_owned(),
    };
    Some(
        ChatTool {
            kind: "function".to_owned(),
            function: ChatToolFunction { name, description, parameters },
        },
    )
}

/// The Chat Completions message of a Responses item, if it has one.
fn chat_message_of(item: ResponseItem) -> (res: Option<ChatMessage>)
    ensures
        res.deep_view() == spec_chat_message_of(item@),
{
    match item {
        ResponseItem::Message { role, content, .. } => match content_items_to_text(&content) {
            Some(text) => Some(
                ChatMessage {
                    role: chat_message_role(role),
                    content: Some(text),
                    tool_call_id: None,
                    tool_calls: None,
                },
            ),
            None => None,
        },
        ResponseItem::FunctionCall { name, arguments, call_id, .. } => Some(
            tool_call_chat_message(call_id, name, arguments),
        ),
        ResponseItem::FunctionCallOutput { call_id, output } => Some(
            ChatMessage {
                role: "tool".to_owned(),
                content: Some(output_to_text(output)),
                tool_call_id: Some(call_id),
                tool_calls: None,
            },
        ),
        ResponseItem::CustomToolCall { call_id, name, input, .. } => Some(
            tool_call_chat_message(call_id, name, input),
        ),
        ResponseItem::CustomToolCallOutput { call_id, output } => Some(
            ChatMessage {
                role: "tool".to_owned(),
                content: Some(output_to_text(output)),
                tool_call_id: Some(call_id),
                tool_calls: None,
            },
        ),
        ResponseItem::Reasoning
        | ResponseItem::LocalShellCall
        | ResponseItem::ToolSearchCall
        | ResponseItem::ToolSearchOutput
        | ResponseItem::WebSearchCall
        | ResponseItem::ImageGenerationCall
        | ResponseItem::Compaction
        | ResponseItem::CompactionTrigger
        | ResponseItem::ContextCompaction
        | ResponseItem::Other => None,
    }
}

/// An assistant message that calls one tool.
fn tool_call_chat_message(call_id: String, name: String, arguments: String) -> (res: ChatMessage)
    ensures
        res@ == tool_call_message(call_id@, name@, arguments@),
{
    let mut calls: Vec<ChatToolCall> = Vec::new();
    calls.push(
        ChatToolCall {
            id: call_id,
            kind: "function".to_owned(),
            function: ChatToolCallFunction { name, arguments },
        },
    );
    let res = ChatMessage {
        role: "assistant".to_owned(),
        content: None,
        tool_call_id: None,
        tool_calls: Some(calls),
    };
    assert(res@.tool_calls =~= tool_call_message(call_id@, name@, arguments@).tool_calls);
    res
}

/// Converts a Responses request into the Chat Completions request that stands
/// in for it: the instructions become a leading system message, the input
/// items become messages (see `spec_chat_message_of`), the function tools are
/// kept, a tool choice is sent only with tools, and the response is streamed.
pub fn convert_request(request: ResponsesApiRequest) -> (res: Result<ChatCompletionsRequest, ApiError>)
    ensures
        res is Ok,
        res matches Ok(req) ==> req@ == spec_convert_request(request@),
{
    let ghost r = request@;
    let ResponsesApiRequest { model, instructions, input, tools, tool_choice } = request;
    let mut messages: Vec<ChatMessage> = Vec::new();
    if !instructions.as_str().is_empty() {
        messages.push(
            ChatMessage {
                role: "system".to_owned(),
                content: Some(instructions),
                tool_call_id: None,
                tool_calls: None,
            },
        );
    }
    let ghost head = messages.deep_view();
    assert(head =~= instructions_messages(r.instructions));
    let ghost fm = |i: ResponseItemView| spec_chat_message_of(i);
    for item in it: input
        invariant
            r.input == it.seq().map_values(|x: ResponseItem| x.deep_view()),
            fm == (|i: ResponseItemView| spec_chat_message_of(i)),
            messages.deep_view() == head + r.input.take(it.index() as int).filter_map(fm),
    {
        proof {
            r.input.lemma_filter_map_take_succ(fm, it.index() as int);
        }
        let ghost before = messages.deep_view();
        let ghost k = it.index() as int;
        assert(item@ == r.input[k]);
        match chat_message_of(item) {
            Some(message) => {
                let ghost mv = message.deep_view();
                assert(fm(r.input[k]) == Some(mv));
                messages.push(message);
                assert(messages.deep_view() =~= before.push(mv));
                assert(messages.deep_view() =~= head + r.input.take(k + 1).filter_map(fm));
            },
            None => {
                assert(messages.deep_view() =~= head + r.input.take(k + 1).filter_map(fm));
            },
        }
    }
    assert(r.input.take(r.input.len() as int) =~= r.input);
    let ghost ft = |t: ResponsesToolView| spec_chat_tool(t);
    let mut chat_tools: Vec<ChatTool> = Vec::new();
    for tool in it: tools
        invariant
            r.tools == it.seq().map_values(|x: ResponsesTool| x.deep_view()),
            ft == (|t: ResponsesToolView| spec_chat_tool(t)),
            chat_tools.deep_view() == r.tools.take(it.index() as int).filter_map(ft),
    {
        proof {
            r.tools.lemma_filter_map_take_succ(ft, it.index() as int);
        }
        let ghost k = it.index() as int;
        assert(tool@ == r.tools[k]);
        match chat_tool_from_responses_tool(tool) {
            Some(t) => {
                chat_tools.push(t);
                assert(chat_tools.deep_view() =~= r.tools.take(k + 1).filter_map(ft));
            },
            None => {
                assert(chat_tools.deep_view() =~= r.tools.take(k + 1).filter_map(ft));
            },
        }
    }
    assert(r.tools.take(r.tools.len() as int) =~= r.tools);
    let tool_choice = if chat_tools.len() == 0 {
        None
    } else {
        Some(tool_choice)
    };
    Ok(
        ChatCompletionsRequest {
            model,
            messages,
            tools: chat_tools,
            tool_choice,
            stream: true,
        },
    )
}

} // verus!
