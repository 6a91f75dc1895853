use codex_chat_fallback::chat_completions::chat_message_role;
use codex_chat_fallback::chat_completions::chat_tool_from_responses_tool;
use codex_chat_fallback::chat_completions::content_items_to_text;
use codex_chat_fallback::chat_completions::convert_request;
use codex_chat_fallback::chat_completions::output_to_text;
use codex_chat_fallback::models::ContentItem;
use codex_chat_fallback::models::FunctionCallOutputPayload;
use codex_chat_fallback::models::ResponseItem;
use codex_chat_fallback::models::ResponsesApiRequest;
use codex_chat_fallback::models::ResponsesTool;

fn text(t: &str) -> ContentItem {
    ContentItem::InputText { text: t.to_string() }
}

fn function_tool(name: Option<&str>, parameters: Option<&str>) -> ResponsesTool {
    ResponsesTool {
        kind: Some("function".to_string()),
        name: name.map(str::to_string),
        description: Some("does things".to_string()),
        parameters: parameters.map(str::to_string),
    }
}

#[test]
fn developer_role_becomes_system() {
    assert_eq!(chat_message_role("developer".to_string()), "system");
    assert_eq!(chat_message_role("user".to_string()), "user");
    assert_eq!(chat_message_role("assistant".to_string()), "assistant");
    assert_eq!(chat_message_role("system".to_string()), "system");
    assert_eq!(chat_message_role("Developer".to_string()), "Developer");
}

#[test]
fn content_texts_are_joined_by_line_breaks() {
    let content = vec![
        text("first"),
        ContentItem::InputImage { image_url: "data:image/png;base64,AAAA".to_string() },
        ContentItem::OutputText { text: "second".to_string() },
    ];
    assert_eq!(content_items_to_text(&content).as_deref(), Some("first\nsecond"));
}

#[test]
fn content_without_text_has_none() {
    assert_eq!(content_items_to_text(&vec![]), None);
    let images = vec![ContentItem::InputImage { image_url: "x".to_string() }];
    assert_eq!(content_items_to_text(&images), None);
    assert_eq!(content_items_to_text(&vec![text("")]), None);
}

#[test]
fn two_empty_texts_still_make_a_line_break() {
    assert_eq!(content_items_to_text(&vec![text(""), text("")]).as_deref(), Some("\n"));
}

#[test]
fn output_without_text_is_empty() {
    assert_eq!(output_to_text(FunctionCallOutputPayload { text: None }), "");
    assert_eq!(
        output_to_text(FunctionCallOutputPayload { text: Some("ok".to_string()) }),
        "ok"
    );
}

#[test]
fn only_named_function_tools_are_kept() {
    let tool = chat_tool_from_responses_tool(function_tool(Some("shell"), Some(r#"{"type":"object"}"#)))
        .expect("a named function tool is kept");
    assert_eq!(tool.kind, "function");
    assert_eq!(tool.function.name, "shell");
    assert_eq!(tool.function.description.as_deref(), Some("does things"));
    assert_eq!(tool.function.parameters, r#"{"type":"object"}"#);

    assert!(chat_tool_from_responses_tool(function_tool(None, None)).is_none());
    let web = ResponsesTool {
        kind: Some("web_search".to_string()),
        name: Some("search".to_string()),
        description: None,
        parameters: None,
    };
    assert!(chat_tool_from_responses_tool(web).is_none());
    let untyped = ResponsesTool { kind: None, name: Some("x".to_string()), description: None, parameters: None };
    assert!(chat_tool_from_responses_tool(untyped).is_none());
}

#[test]
fn missing_parameters_default_to_an_empty_object() {
    let tool = chat_tool_from_responses_tool(function_tool(Some("noop"), None)).unwrap();
    assert_eq!(tool.function.parameters, "{}");
}

#[test]
fn request_conversion_keeps_order_and_maps_items() {
    let request = ResponsesApiRequest {
        model: "deepseek-v4-pro".to_string(),
        instructions: "be brief".to_string(),
        input: vec![
            ResponseItem::Message {
                id: None,
                role: "developer".to_string(),
                content: vec![text("rules")],
            },
            ResponseItem::Reasoning,
            ResponseItem::Message { id: None, role: "user".to_string(), content: vec![] },
            ResponseItem::FunctionCall {
                id: Some("fc_1".to_string()),
                name: "shell".to_string(),
                namespace: None,
                arguments: r#"{"cmd":"ls"}"#.to_string(),
                call_id: "call_1".to_string(),
            },
            ResponseItem::FunctionCallOutput {
                call_id: "call_1".to_string(),
                output: FunctionCallOutputPayload { text: Some("a b".to_string()) },
            },
            ResponseItem::CustomToolCall {
                id: None,
                call_id: "call_2".to_string(),
                name: "apply_patch".to_string(),
                input: "*** Begin Patch".to_string(),
            },
            ResponseItem::CustomToolCallOutput {
                call_id: "call_2".to_string(),
                output: FunctionCallOutputPayload { text: None },
            },
            ResponseItem::Other,
        ],
        tools: vec![function_tool(Some("shell"), None)],
        tool_choice: "auto".to_string(),
    };
    let chat = convert_request(request).expect("conversion never fails");
    assert_eq!(chat.model, "deepseek-v4-pro");
    assert!(chat.stream);
    assert_eq!(chat.tool_choice.as_deref(), Some("auto"));
    assert_eq!(chat.tools.len(), 1);

    let roles: Vec<&str> = chat.messages.iter().map(|m| m.role.as_str()).collect();
    assert_eq!(roles, vec!["system", "system", "assistant", "tool", "assistant", "tool"]);
    assert_eq!(chat.messages[0].content.as_deref(), Some("be brief"));
    assert_eq!(chat.messages[1].content.as_deref(), Some("rules"));

    let call = &chat.messages[2];
    assert!(call.content.is_none());
    let calls = call.tool_calls.as_ref().unwrap();
    assert_eq!(calls.len(), 1);
    assert_eq!(calls[0].id, "call_1");
    assert_eq!(calls[0].kind, "function");
    assert_eq!(calls[0].function.name, "shell");
    assert_eq!(calls[0].function.arguments, r#"{"cmd":"ls"}"#);

    assert_eq!(chat.messages[3].tool_call_id.as_deref(), Some("call_1"));
    assert_eq!(chat.messages[3].content.as_deref(), Some("a b"));

    let custom = chat.messages[4].tool_calls.as_ref().unwrap();
    assert_eq!(custom[0].function.name, "apply_patch");
    assert_eq!(custom[0].function.arguments, "*** Begin Patch");
    assert_eq!(chat.messages[5].tool_call_id.as_deref(), Some("call_2"));
    assert_eq!(chat.messages[5].content.as_deref(), Some(""));
}

#[test]
fn no_instructions_and_no_tools_send_no_system_message_and_no_tool_choice() {
    let request = ResponsesApiRequest {
        model: "m".to_string(),
        instructions: String::new(),
        input: vec![ResponseItem::Message { id: None, role: "user".to_string(), content: vec![text("hi")] }],
        tools: vec![ResponsesTool {
            kind: Some("local_shell".to_string()),
            name: None,
            description: None,
            parameters: None,
        }],
        tool_choice: "auto".to_string(),
    };
    let chat = convert_request(request).unwrap();
    assert_eq!(chat.messages.len(), 1);
    assert_eq!(chat.messages[0].role, "user");
    assert_eq!(chat.messages[0].content.as_deref(), Some("hi"));
    assert!(chat.tools.is_empty());
    assert!(chat.tool_choice.is_none());
}

#[test]
fn mapping_a_role_twice_maps_it_once() {
    for role in ["developer", "system", "user", "assistant", "tool", ""] {
        let once = chat_message_role(role.to_string());
        assert_eq!(chat_message_role(once.clone()), once);
    }
}

#[test]
fn at_most_one_message_more_than_items() {
    let request = ResponsesApiRequest {
        model: "m".to_string(),
        instructions: "sys".to_string(),
        input: vec![
            ResponseItem::Message { id: None, role: "user".to_string(), content: vec![text("a")] },
            ResponseItem::WebSearchCall,
        ],
        tools: vec![],
        tool_choice: "required".to_string(),
    };
    let chat = convert_request(request).unwrap();
    assert!(chat.messages.len() <= 3);
    assert_eq!(chat.messages.len(), 2);
    assert!(chat.tool_choice.is_none());
}
