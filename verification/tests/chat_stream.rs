use codex_chat_fallback::chat_stream::chunk_indices_fit;
use codex_chat_fallback::chat_stream::is_done_marker;
use codex_chat_fallback::chat_stream::ChatChoice;
use codex_chat_fallback::chat_stream::ChatCompletionChunk;
use codex_chat_fallback::chat_stream::ChatDelta;
use codex_chat_fallback::chat_stream::ChatDeltaToolCall;
use codex_chat_fallback::chat_stream::ChatDeltaToolCallFunction;
use codex_chat_fallback::chat_stream::ChatStreamState;
use codex_chat_fallback::chat_stream::ChatUsage;
use codex_chat_fallback::models::ContentItem;
use codex_chat_fallback::models::ResponseEvent;
use codex_chat_fallback::models::ResponseItem;
use codex_chat_fallback::models::TokenUsage;

fn content_chunk(id: Option<&str>, text: &str) -> ChatCompletionChunk {
    ChatCompletionChunk {
        id: id.map(str::to_string),
        choices: vec![ChatChoice {
            delta: ChatDelta { content: Some(text.to_string()), tool_calls: None },
            finish_reason: None,
        }],
        usage: None,
    }
}

fn tool_fragment(index: usize, id: Option<&str>, name: Option<&str>, args: Option<&str>) -> ChatDeltaToolCall {
    ChatDeltaToolCall {
        index,
        id: id.map(str::to_string),
        function: Some(ChatDeltaToolCallFunction {
            name: name.map(str::to_string),
            arguments: args.map(str::to_string),
        }),
    }
}

fn tool_chunk(fragments: Vec<ChatDeltaToolCall>, finish: Option<&str>) -> ChatCompletionChunk {
    ChatCompletionChunk {
        id: None,
        choices: vec![ChatChoice {
            delta: ChatDelta { content: None, tool_calls: Some(fragments) },
            finish_reason: finish.map(str::to_string),
        }],
        usage: None,
    }
}

fn function_call(event: &ResponseEvent) -> (String, String, String) {
    match event {
        ResponseEvent::OutputItemDone(ResponseItem::FunctionCall { id, name, namespace, arguments, call_id }) => {
            assert!(id.is_none());
            assert!(namespace.is_none());
            (call_id.clone(), name.clone(), arguments.clone())
        }
        other => panic!("expected a function call, got {other:?}"),
    }
}

#[test]
fn done_marker_is_exact() {
    assert!(is_done_marker("[DONE]"));
    assert!(!is_done_marker("[DONE] "));
    assert!(!is_done_marker("[done]"));
    assert!(!is_done_marker(""));
}

#[test]
fn empty_stream_completes_with_the_adapter_id() {
    let (state, created) = ChatStreamState::start();
    assert!(matches!(created, ResponseEvent::Created));
    let events = state.finish();
    assert_eq!(events.len(), 1);
    match &events[0] {
        ResponseEvent::Completed { response_id, token_usage, end_turn } => {
            assert_eq!(response_id, "chatcmpl-adapter");
            assert!(token_usage.is_none());
            assert!(end_turn.is_none());
        }
        other => panic!("unexpected event {other:?}"),
    }
}

#[test]
fn text_deltas_build_one_assistant_message() {
    let (mut state, _) = ChatStreamState::start();
    let first = state.process_chunk(content_chunk(Some("chatcmpl-1"), "Hel"));
    assert_eq!(first.len(), 2);
    match &first[0] {
        ResponseEvent::OutputItemAdded(ResponseItem::Message { id, role, content }) => {
            assert!(id.is_none());
            assert_eq!(role, "assistant");
            assert!(content.is_empty());
        }
        other => panic!("unexpected event {other:?}"),
    }
    assert!(matches!(&first[1], ResponseEvent::OutputTextDelta(t) if t == "Hel"));

    let second = state.process_chunk(content_chunk(Some("chatcmpl-2"), "lo"));
    assert_eq!(second.len(), 1);
    assert!(matches!(&second[0], ResponseEvent::OutputTextDelta(t) if t == "lo"));

    let last = state.finish();
    assert_eq!(last.len(), 2);
    match &last[0] {
        ResponseEvent::OutputItemDone(ResponseItem::Message { role, content, .. }) => {
            assert_eq!(role, "assistant");
            assert_eq!(content.len(), 1);
            assert!(matches!(&content[0], ContentItem::OutputText { text } if text == "Hello"));
        }
        other => panic!("unexpected event {other:?}"),
    }
    assert!(matches!(&last[1], ResponseEvent::Completed { response_id, .. } if response_id == "chatcmpl-1"));
}

#[test]
fn last_usage_is_reported_as_token_usage() {
    let (mut state, _) = ChatStreamState::start();
    let mut chunk = content_chunk(None, "x");
    chunk.usage = Some(ChatUsage { prompt_tokens: 1, completion_tokens: 2, total_tokens: 3 });
    state.process_chunk(chunk);
    let chunk = ChatCompletionChunk {
        id: Some("late-id".to_string()),
        choices: vec![],
        usage: Some(ChatUsage { prompt_tokens: 10, completion_tokens: 20, total_tokens: 30 }),
    };
    assert!(state.process_chunk(chunk).is_empty());
    let last = state.finish();
    match last.last().unwrap() {
        ResponseEvent::Completed { response_id, token_usage, .. } => {
            assert_eq!(response_id, "late-id");
            assert_eq!(
                *token_usage,
                Some(TokenUsage {
                    input_tokens: 10,
                    cached_input_tokens: 0,
                    output_tokens: 20,
                    reasoning_output_tokens: 0,
                    total_tokens: 30,
                })
            );
        }
        other => panic!("unexpected event {other:?}"),
    }
}

#[test]
fn tool_call_fragments_are_gathered_and_flushed_on_finish_reason() {
    let (mut state, _) = ChatStreamState::start();
    let events = state.process_chunk(tool_chunk(
        vec![tool_fragment(0, Some("call_a"), Some("shell"), Some("{\"cmd\":"))],
        None,
    ));
    assert!(events.is_empty());
    let events = state.process_chunk(tool_chunk(
        vec![
            tool_fragment(1, Some("call_b"), Some("read"), Some("{}")),
            tool_fragment(0, None, None, Some("\"ls\"}")),
        ],
        Some("tool_calls"),
    ));
    assert_eq!(events.len(), 2);
    assert_eq!(
        function_call(&events[0]),
        ("call_a".to_string(), "shell".to_string(), "{\"cmd\":\"ls\"}".to_string())
    );
    assert_eq!(
        function_call(&events[1]),
        ("call_b".to_string(), "read".to_string(), "{}".to_string())
    );
    let last = state.finish();
    assert_eq!(last.len(), 1);
    assert!(matches!(&last[0], ResponseEvent::Completed { .. }));
}

#[test]
fn incomplete_tool_calls_are_dropped_and_gaps_filled() {
    let (mut state, _) = ChatStreamState::start();
    state.process_chunk(tool_chunk(
        vec![
            tool_fragment(2, Some("call_c"), Some("grep"), Some("x")),
            tool_fragment(0, Some("call_no_name"), None, Some("y")),
        ],
        None,
    ));
    let last = state.finish();
    assert_eq!(last.len(), 2);
    assert_eq!(
        function_call(&last[0]),
        ("call_c".to_string(), "grep".to_string(), "x".to_string())
    );
    assert!(matches!(&last[1], ResponseEvent::Completed { .. }));
}

#[test]
fn later_id_and_name_replace_earlier_ones() {
    let (mut state, _) = ChatStreamState::start();
    state.process_chunk(tool_chunk(vec![tool_fragment(0, Some("old"), Some("a"), None)], None));
    state.process_chunk(tool_chunk(vec![tool_fragment(0, Some("new"), Some("b"), Some("1"))], None));
    let no_function = ChatDeltaToolCall { index: 0, id: None, function: None };
    state.process_chunk(tool_chunk(vec![no_function], None));
    let last = state.finish();
    assert_eq!(function_call(&last[0]), ("new".to_string(), "b".to_string(), "1".to_string()));
}

#[test]
fn text_and_tool_calls_in_one_stream() {
    let (mut state, _) = ChatStreamState::start();
    let chunk = ChatCompletionChunk {
        id: Some("chatcmpl-9".to_string()),
        choices: vec![ChatChoice {
            delta: ChatDelta {
                content: Some("Running.".to_string()),
                tool_calls: Some(vec![tool_fragment(0, Some("call_1"), Some("shell"), Some("{}"))]),
            },
            finish_reason: Some("tool_calls".to_string()),
        }],
        usage: None,
    };
    let events = state.process_chunk(chunk);
    assert_eq!(events.len(), 3);
    assert!(matches!(&events[0], ResponseEvent::OutputItemAdded(_)));
    assert!(matches!(&events[1], ResponseEvent::OutputTextDelta(t) if t == "Running."));
    assert_eq!(function_call(&events[2]).0, "call_1");
    let last = state.finish();
    assert_eq!(last.len(), 2);
    assert!(matches!(&last[0], ResponseEvent::OutputItemDone(ResponseItem::Message { .. })));
    assert!(matches!(&last[1], ResponseEvent::Completed { response_id, .. } if response_id == "chatcmpl-9"));
}

#[test]
fn other_finish_reasons_do_not_flush() {
    let (mut state, _) = ChatStreamState::start();
    let events = state.process_chunk(tool_chunk(
        vec![tool_fragment(0, Some("call_1"), Some("shell"), None)],
        Some("stop"),
    ));
    assert!(events.is_empty());
    let last = state.finish();
    assert_eq!(last.len(), 2);
    assert_eq!(function_call(&last[0]), ("call_1".to_string(), "shell".to_string(), String::new()));
}

#[test]
fn overflowing_tool_call_index_is_detected() {
    let fits = tool_chunk(vec![tool_fragment(3, None, None, None)], None);
    assert!(chunk_indices_fit(&fits));
    let overflows = tool_chunk(
        vec![tool_fragment(0, None, None, None), tool_fragment(usize::MAX, None, None, None)],
        None,
    );
    assert!(!chunk_indices_fit(&overflows));
    assert!(chunk_indices_fit(&content_chunk(None, "x")));
}
