use codey::agent::{AgentEvent, ChatMessage};
use codey::app::{App, Key, Line, Settings};
use codey::tools::ToolRegistry;
use codey::ui::{clamp_scroll, header_status, history_scroll, header_text, header_tools, inner_width, input_text, input_title, transcript_rows, RowStyle};

fn new_app() -> App {
    let settings = Settings::from_values(None, None, None, None);
    App::new(&settings, ToolRegistry::new().to_ai_tools())
}

#[test]
fn settings_defaults_and_values() {
    let s = Settings::from_values(None, None, None, None);
    assert_eq!(s.ollama_host, "http://localhost:11434");
    assert_eq!(s.ollama_model, "qwen2.5");
    assert_eq!(s.mcp_command, "npx");
    assert_eq!(s.mcp_args, vec!["-y".to_string(), "@awesome-ai/elasticsearch-mcp".to_string()]);
    let t = Settings::from_values(Some("h".into()), Some("m".into()), Some("c".into()), Some("  a \t b\n".into()));
    assert_eq!(t.ollama_host, "h");
    assert_eq!(t.ollama_model, "m");
    assert_eq!(t.mcp_command, "c");
    assert_eq!(t.mcp_args, vec!["a".to_string(), "b".to_string()]);
}

#[test]
fn new_app_reports_server_and_tools() {
    let app = new_app();
    assert_eq!(app.tool_count, 5);
    assert_eq!(app.transcript.len(), 1);
    match &app.transcript[0] {
        Line::System(t) => assert_eq!(
            t,
            "Connected to MCP server `npx -y @awesome-ai/elasticsearch-mcp` -- 5 tool(s) available."
        ),
        other => panic!("expected System line, got {other:?}"),
    }
    assert!(!app.processing);
    assert!(app.history().is_empty());
    assert_eq!(app.tools().len(), 5);
}

#[test]
fn typing_and_submitting_starts_a_turn() {
    let mut app = new_app();
    for c in "  hi there ".chars() {
        assert!(app.handle_key(Key::Char(c)).is_none());
    }
    assert!(app.handle_key(Key::Backspace).is_none());
    assert_eq!(app.input, "  hi there");
    let history = app.handle_key(Key::Enter).expect("a turn starts");
    assert_eq!(history.len(), 1);
    match &history[0] {
        ChatMessage::User { content } => assert_eq!(content, "hi there"),
        other => panic!("expected user message, got {other:?}"),
    }
    assert!(app.processing);
    assert_eq!(app.input, "");
    match app.transcript.last().unwrap() {
        Line::User(t) => assert_eq!(t, "hi there"),
        other => panic!("expected User line, got {other:?}"),
    }
    // while the turn runs, Enter does not start another
    app.handle_key(Key::Char('x'));
    assert!(app.handle_key(Key::Enter).is_none());
    assert_eq!(app.input, "x");
}

#[test]
fn blank_input_is_not_submitted() {
    let mut app = new_app();
    app.handle_key(Key::Char(' '));
    assert!(app.handle_key(Key::Enter).is_none());
    assert!(!app.processing);
    assert_eq!(app.input, " ");
    assert!(app.handle_key(Key::Backspace).is_none());
    assert!(app.handle_key(Key::Backspace).is_none());
    assert_eq!(app.input, "");
}

#[test]
fn keys_scroll_and_quit() {
    let mut app = new_app();
    app.handle_key(Key::Up);
    assert_eq!(app.scroll, 0);
    app.handle_key(Key::Down);
    app.handle_key(Key::Down);
    assert_eq!(app.scroll, 2);
    app.handle_key(Key::Up);
    assert_eq!(app.scroll, 1);
    app.handle_key(Key::Other);
    assert!(!app.should_quit);
    app.handle_key(Key::Esc);
    assert!(app.should_quit);
}

#[test]
fn agent_events_update_the_app() {
    let mut app = new_app();
    app.handle_key(Key::Char('q'));
    let h = app.handle_key(Key::Enter).unwrap();
    app.handle_agent_event(AgentEvent::Line(Line::Assistant("hello".into())));
    assert_eq!(app.scroll, u16::MAX);
    assert!(app.processing);
    let mut done = h;
    done.push(ChatMessage::Assistant { content: "hello".into(), tool_calls: vec![] });
    app.handle_agent_event(AgentEvent::Done(done));
    assert!(!app.processing);
    assert_eq!(app.history().len(), 2);
    app.handle_key(Key::Char('r'));
    app.handle_key(Key::Enter).unwrap();
    app.handle_agent_event(AgentEvent::Failed("boom".into()));
    assert!(!app.processing);
    match app.transcript.last().unwrap() {
        Line::Error(t) => assert_eq!(t, "boom"),
        other => panic!("expected Error line, got {other:?}"),
    }
}

#[test]
fn transcript_is_laid_out_in_rows() {
    let transcript = vec![
        Line::User("a\nb".into()),
        Line::Assistant("c".into()),
        Line::Tool("t".into()),
        Line::Error("e".into()),
        Line::System("s".into()),
    ];
    let rows = transcript_rows(&transcript);
    let texts: Vec<&str> = rows.iter().map(|r| r.text.as_str()).collect();
    assert_eq!(
        texts,
        vec!["you  ", "  a", "  b", "", "agent", "  c", "", "  t", "", "  error: e", "", "  s", ""]
    );
    assert_eq!(rows[0].style, RowStyle::UserLabel);
    assert_eq!(rows[1].style, RowStyle::Body);
    assert_eq!(rows[3].style, RowStyle::Separator);
    assert_eq!(rows[9].style, RowStyle::Error);
}

#[test]
fn screen_texts() {
    assert_eq!(clamp_scroll(u16::MAX, 30, 12), 20);
    assert_eq!(clamp_scroll(3, 30, 12), 3);
    assert_eq!(clamp_scroll(5, 4, 12), 0);
    assert_eq!(clamp_scroll(u16::MAX, 70000, 1), u16::MAX);
    assert_eq!(clamp_scroll(u16::MAX, 65537, 12), 65527);
    assert_eq!(clamp_scroll(100, 65537, 12), 100);
    assert_eq!(inner_width(10), 8);
    assert_eq!(inner_width(2), 1);
    assert_eq!(header_status(true), " thinking... ");
    assert_eq!(header_status(false), "  ready  ");
    assert_eq!(header_tools(5), "· 5 tool(s) · ");
    assert_eq!(header_text(8, false), " Codey AI Agent · 8 tool(s) ·   ready  ");
    assert_eq!(header_text(0, true), " Codey AI Agent · 0 tool(s) ·  thinking... ");
    assert_eq!(input_title(false), " Message (Enter to send, Esc to quit) ");
    assert_eq!(input_text("ab"), "ab\u{258f}");
}

#[test]
fn history_scroll_counts_wrapped_rows_with_borders() {
    let one = vec![Line::System("s".into())];
    assert_eq!(history_scroll(&one, u16::MAX, 10, 12), 0);
    let many: Vec<Line> = (0..10).map(|i| Line::Tool(format!("t{i}"))).collect();
    // 20 rows, 2 border rows, 10 rows visible
    assert_eq!(history_scroll(&many, u16::MAX, 10, 12), 12);
    assert_eq!(history_scroll(&many, 3, 10, 12), 3);
    // a long line wraps into several rows at a narrow width
    let long = vec![Line::Tool("aaaa bbbb cccc dddd".into())];
    assert!(history_scroll(&long, u16::MAX, 8, 3) > history_scroll(&long, u16::MAX, 40, 3));
}
