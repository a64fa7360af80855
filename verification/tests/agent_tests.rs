use codey::agent::{
    chat_endpoint, chat_request, failure_text, AgentEvent, ApiFailure, ChatMessage, FunctionCall,
    ModelReply, ReplyMessage, ToolCall, Turn, TurnAction, TurnPhase, SYSTEM_PROMPT,
};
use codey::app::Line;
use codey::tools::{ArgEntry, ArgValue, ToolArgs, ToolRegistry};

fn reply(content: Option<&str>, calls: Option<Vec<ToolCall>>, text: &str) -> ModelReply {
    ModelReply {
        message: Some(ReplyMessage { content: content.map(|c| c.to_string()), tool_calls: calls }),
        text: text.to_string(),
    }
}

fn call(name: Option<&str>, arguments: Option<ToolArgs>, text: &str) -> ToolCall {
    ToolCall {
        function: Some(FunctionCall { name: name.map(|n| n.to_string()), arguments }),
        text: text.to_string(),
    }
}

#[test]
fn system_prompt_non_empty() {
    assert!(!SYSTEM_PROMPT.is_empty());
}

#[test]
fn run_turn_sends_text_and_done() {
    let mut turn = Turn::new(vec![]);
    assert_eq!(turn.phase(), TurnPhase::AwaitingModel);
    let (events, action) = turn.on_reply(Ok(reply(
        Some("Hello, world!"),
        None,
        r#"{"message":{"content":"Hello, world!","role":"assistant"}}"#,
    )));
    assert!(matches!(action, TurnAction::Stop));
    assert_eq!(events.len(), 2);
    match &events[0] {
        AgentEvent::Line(Line::Assistant(text)) => assert_eq!(text, "Hello, world!"),
        other => panic!("expected Assistant line, got {other:?}"),
    }
    match &events[1] {
        AgentEvent::Done(history) => {
            assert_eq!(history.len(), 1);
            match &history[0] {
                ChatMessage::Assistant { content, tool_calls } => {
                    assert_eq!(content, "Hello, world!");
                    assert!(tool_calls.is_empty());
                }
                other => panic!("expected assistant message, got {other:?}"),
            }
        }
        other => panic!("expected Done, got {other:?}"),
    }
    assert_eq!(turn.phase(), TurnPhase::Finished);
}

#[test]
fn run_turn_sends_failed_on_api_error() {
    let mut turn = Turn::new(vec![]);
    let (events, action) = turn.on_reply(Err("network error".to_string()));
    assert!(matches!(action, TurnAction::Stop));
    match &events[0] {
        AgentEvent::Failed(msg) => assert!(msg.contains("network error")),
        other => panic!("expected Failed, got {other:?}"),
    }
}

#[test]
fn run_turn_sends_failed_on_bad_response() {
    let mut turn = Turn::new(vec![]);
    let (events, _) = turn.on_reply(Ok(ModelReply { message: None, text: r#"{"no_message":"here"}"#.to_string() }));
    match &events[0] {
        AgentEvent::Failed(msg) => {
            assert!(msg.contains("unexpected response"));
            assert_eq!(msg, r#"unexpected response from Ollama: {"no_message":"here"}"#);
        }
        other => panic!("expected Failed, got {other:?}"),
    }
    assert_eq!(events.len(), 1);
}

#[test]
fn run_turn_executes_tool_and_loops() {
    let mut turn = Turn::new(vec![]);
    let list_call = call(Some("list_files"), Some(ToolArgs::empty()), r#"{"function":{"arguments":{},"name":"list_files"}}"#);
    let (mut events, action) = turn.on_reply(Ok(reply(Some("Let me list files."), Some(vec![list_call]), "{}")));
    let (name, args) = match action {
        TurnAction::RunTool { name, args } => (name, args),
        other => panic!("expected RunTool, got {other:?}"),
    };
    assert_eq!(name, "list_files");
    assert_eq!(args.text, "{}");
    assert_eq!(turn.phase(), TurnPhase::AwaitingTool);

    let (more, action) = turn.on_tool_result(1, Ok("a.txt\nb.txt".to_string()));
    events.extend(more);
    assert!(matches!(action, TurnAction::AskModel));
    assert_eq!(turn.history().len(), 2);

    let (more, action) = turn.on_reply(Ok(reply(Some("Here are the files."), None, "{}")));
    events.extend(more);
    assert!(matches!(action, TurnAction::Stop));

    assert!(events.len() >= 4);
    match &events[0] {
        AgentEvent::Line(Line::Assistant(text)) => assert_eq!(text, "Let me list files."),
        other => panic!("expected Assistant, got {other:?}"),
    }
    match &events[1] {
        AgentEvent::Line(Line::Tool(msg)) => {
            assert!(msg.contains("-> calling `list_files`"));
            assert_eq!(msg, "-> calling `list_files` with {}");
        }
        other => panic!("expected Tool, got {other:?}"),
    }
    match &events[2] {
        AgentEvent::Line(Line::Tool(msg)) => {
            assert!(msg.contains("<- `list_files`"));
            assert_eq!(msg, "<- `list_files` returned (11 bytes)");
        }
        other => panic!("expected Tool, got {other:?}"),
    }
    match &events[3] {
        AgentEvent::Line(Line::Assistant(text)) => assert_eq!(text, "Here are the files."),
        other => panic!("expected Assistant, got {other:?}"),
    }
    match events.last().unwrap() {
        AgentEvent::Done(history) => {
            assert_eq!(history.len(), 3); // assistant + tool_result + final assistant
            match &history[1] {
                ChatMessage::Tool { content, tool_call_id } => {
                    assert_eq!(content, "a.txt\nb.txt");
                    assert_eq!(tool_call_id, "call_1");
                }
                other => panic!("expected tool message, got {other:?}"),
            }
        }
        other => panic!("expected Done, got {other:?}"),
    }
}

#[test]
fn run_turn_sends_failed_on_bad_tool_call() {
    let mut turn = Turn::new(vec![]);
    let bad = ToolCall { function: None, text: r#"{"no_function":"here"}"#.to_string() };
    let (events, action) = turn.on_reply(Ok(reply(Some(""), Some(vec![bad]), "{}")));
    assert!(matches!(action, TurnAction::Stop));
    assert_eq!(events.len(), 1);
    match &events[0] {
        AgentEvent::Failed(msg) => {
            assert!(msg.contains("tool_call missing 'function'"));
            assert_eq!(msg, r#"tool_call missing 'function': {"no_function":"here"}"#);
        }
        other => panic!("expected Failed, got {other:?}"),
    }
}

#[test]
fn tool_errors_are_reported_and_filed() {
    let mut turn = Turn::new(vec![ChatMessage::User { content: "hi".to_string() }]);
    let c1 = call(None, None, r#"{"function":{}}"#);
    let args = ToolArgs {
        entries: vec![ArgEntry { key: "path".to_string(), value: ArgValue::Text("x".to_string()) }],
        text: r#"{"path":"x"}"#.to_string(),
    };
    let c2 = call(Some("read_file"), Some(args), r#"{"function":{"arguments":{"path":"x"},"name":"read_file"}}"#);
    let (events, action) = turn.on_reply(Ok(reply(None, Some(vec![c1, c2]), "{}")));
    // blank text is not shown; the first call is announced with defaults
    assert_eq!(events.len(), 1);
    match &events[0] {
        AgentEvent::Line(Line::Tool(msg)) => assert_eq!(msg, "-> calling `unknown` with {}"),
        other => panic!("expected Tool, got {other:?}"),
    }
    match action {
        TurnAction::RunTool { name, .. } => assert_eq!(name, "unknown"),
        other => panic!("expected RunTool, got {other:?}"),
    }
    let (events, action) = turn.on_tool_result(41, Err("unknown tool: unknown".to_string()));
    assert_eq!(events.len(), 2);
    match &events[0] {
        AgentEvent::Line(Line::Tool(msg)) => assert_eq!(msg, "<- `unknown` errored (21 bytes)"),
        other => panic!("expected Tool, got {other:?}"),
    }
    match &events[1] {
        AgentEvent::Line(Line::Tool(msg)) => assert_eq!(msg, r#"-> calling `read_file` with {"path":"x"}"#),
        other => panic!("expected Tool, got {other:?}"),
    }
    match action {
        TurnAction::RunTool { name, args } => {
            assert_eq!(name, "read_file");
            assert_eq!(args.text("path"), Some("x".to_string()));
        }
        other => panic!("expected RunTool, got {other:?}"),
    }
    let (_, action) = turn.on_tool_result(42, Ok("data".to_string()));
    assert!(matches!(action, TurnAction::AskModel));
    let h = turn.history();
    assert_eq!(h.len(), 4);
    match (&h[2], &h[3]) {
        (
            ChatMessage::Tool { content: c1, tool_call_id: id1 },
            ChatMessage::Tool { content: c2, tool_call_id: id2 },
        ) => {
            assert_eq!(c1, "unknown tool: unknown");
            assert_eq!(id1, "call_41");
            assert_eq!(c2, "data");
            assert_eq!(id2, "call_42");
        }
        other => panic!("expected tool messages, got {other:?}"),
    }
}

#[test]
fn chat_request_and_failures() {
    let history = vec![ChatMessage::User { content: "hi".to_string() }];
    let tools = ToolRegistry::new().to_ai_tools();
    let req = chat_request("qwen2.5", &history, &tools);
    assert_eq!(req.model, "qwen2.5");
    assert_eq!(req.max_tokens, 4096);
    assert!(!req.stream);
    assert_eq!(req.system, SYSTEM_PROMPT);
    assert_eq!(req.messages.len(), 1);
    assert_eq!(req.tools.len(), 5);
    assert_eq!(chat_endpoint("http://localhost:11434"), "http://localhost:11434/api/chat");
    assert_eq!(failure_text(&ApiFailure::Unreachable), "request to Ollama API failed");
    assert_eq!(failure_text(&ApiFailure::Unparsable), "failed to parse Ollama response");
    assert_eq!(
        failure_text(&ApiFailure::Status { status: "500 Internal Server Error".to_string(), body: "boom".to_string() }),
        "Ollama API error (500 Internal Server Error): boom"
    );
}

#[test]
fn requests_carry_the_growing_history() {
    let h0 = vec![ChatMessage::User { content: "list".to_string() }];
    let mut turn = Turn::new(h0);
    // first request: the starting history
    let first: Vec<String> = turn.history().iter().map(|m| format!("{m:?}")).collect();
    assert_eq!(first.len(), 1);
    let c = call(Some("list_files"), Some(ToolArgs::empty()), "{}");
    let (_, action) = turn.on_reply(Ok(reply(Some("listing"), Some(vec![c]), "{}")));
    assert!(matches!(action, TurnAction::RunTool { .. }));
    let (_, action) = turn.on_tool_result(1, Err("boom".to_string()));
    // a tool error does not fail the turn: the model is asked again
    assert!(matches!(action, TurnAction::AskModel));
    let second: Vec<String> = turn.history().iter().map(|m| format!("{m:?}")).collect();
    assert_eq!(second.len(), 3);
    assert_eq!(second[..1], first[..]);
    let (events, action) = turn.on_reply(Ok(reply(Some("done"), Some(vec![]), "{}")));
    assert!(matches!(action, TurnAction::Stop));
    assert!(matches!(events.last(), Some(AgentEvent::Done(h)) if h.len() == 4));
    assert_eq!(turn.phase(), TurnPhase::Finished);
}
