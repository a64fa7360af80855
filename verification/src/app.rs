//! The chat application's state: the input line, the transcript, scrolling,
//! the conversation history kept across turns, and how keys and agent
//! events change them.

use vstd::prelude::*;
use crate::agent::{
    AgentEvent, AgentEventView, ChatMessage, ChatMessageView, message_views, copy_history,
};
use crate::seqs::lemma_map_push;
use crate::text::{
    chars_of, decimal, join, join_strings, owned, push_char, push_decimal, push_str,
    split_whitespace, string_of_range, trim, trimmed, views, words,
};
use crate::tools::{ToolSpec, ToolSpecView};

verus! {

/// One entry in the chat transcript.
#[derive(Debug)]
pub enum Line {
    User(String),
    Assistant(String),
    /// Status / tool-call information, rendered dimmed.
    Tool(String),
    Error(String),
    System(String),
}

/// A transcript entry as text.
pub enum LineView {
    User(Seq<char>),
    Assistant(Seq<char>),
    Tool(Seq<char>),
    Error(Seq<char>),
    System(Seq<char>),
}

impl View for Line {
    type V = LineView;

    open spec fn view(&self) -> LineView {
        match self {
            Line::User(t) => LineView::User(t@),
            Line::Assistant(t) => LineView::Assistant(t@),
            Line::Tool(t) => LineView::Tool(t@),
            Line::Error(t) => LineView::Error(t@),
            Line::System(t) => LineView::System(t@),
        }
    }
}

impl Clone for Line {
    fn clone(&self) -> (r: Self)
        ensures
            r == *self,
    {
        match self {
            Line::User(t) => Line::User(t.clone()),
            Line::Assistant(t) => Line::Assistant(t.clone()),
            Line::Tool(t) => Line::Tool(t.clone()),
            Line::Error(t) => Line::Error(t.clone()),
            Line::System(t) => Line::System(t.clone()),
        }
    }
}


/// The views of a transcript.
pub open spec fn line_views(v: Seq<Line>) -> Seq<LineView> {
    v.map_values(|l: Line| l@)
}

/// A key press, as far as the application tells keys apart.
#[derive(Debug, PartialEq, Eq, Structural, Clone, Copy)]
pub enum Key {
    Esc,
    Enter,
    Backspace,
    Char(char),
    Up,
    Down,
    /// Any other key.
    Other,
}

/// Where the application finds the model and what it reports of its tool
/// server, as read from the environment.
#[derive(Debug)]
pub struct Settings {
    pub ollama_host: String,
    pub ollama_model: String,
    pub mcp_command: String,
    pub mcp_args: Vec<String>,
}

/// The value of a setting: the one given, or the default.
pub open spec fn or_default(given: Option<Seq<char>>, default: Seq<char>) -> Seq<char> {
    match given {
        Some(g) => g,
        None => default,
    }
}

fn given_or(given: Option<String>, default: &str) -> (r: String)
    ensures
        r@ == or_default(
            match given {
                Some(g) => Some(g@),
                None => None,
            },
            default@,
        ),
{
    match given {
        Some(g) => g,
        None => owned(default),
    }
}

impl Settings {
    /// The settings from the values of `OLLAMA_HOST`, `OLLAMA_MODEL`,
    /// `MCP_SERVER_COMMAND` and `MCP_SERVER_ARGS` (`None` for one that is not
    /// set): defaults `http://localhost:11434`, `qwen2.5`, `npx` and
    /// `-y @awesome-ai/elasticsearch-mcp`; the arguments are split at white
    /// space.
    pub fn from_values(
        ollama_host: Option<String>,
        ollama_model: Option<String>,
        mcp_command: Option<String>,
        mcp_args: Option<String>,
    ) -> (r: Settings)
        ensures
            r.ollama_host@ == or_default(
                match ollama_host {
                    Some(g) => Some(g@),
                    None => None,
                },
                "http://localhost:11434"@,
            ),
            r.ollama_model@ == or_default(
                match ollama_model {
                    Some(g) => Some(g@),
                    None => None,
                },
                "qwen2.5"@,
            ),
            r.mcp_command@ == or_default(
                match mcp_command {
                    Some(g) => Some(g@),
                    None => None,
                },
                "npx"@,
            ),
            views(r.mcp_args@) == words(
                or_default(
                    match mcp_args {
                        Some(g) => Some(g@),
                        None => None,
                    },
                    "-y @awesome-ai/elasticsearch-mcp"@,
                ),
            ),
    {
        let args_text = given_or(mcp_args, "-y @awesome-ai/elasticsearch-mcp");
        Settings {
            ollama_host: given_or(ollama_host, "http://localhost:11434"),
            ollama_model: given_or(ollama_model, "qwen2.5"),
            mcp_command: given_or(mcp_command, "npx"),
            mcp_args: split_whitespace(args_text.as_str()),
        }
    }
}

/// The line the transcript opens with.
pub open spec fn connected_line(command: Seq<char>, args: Seq<Seq<char>>, tool_count: nat) -> Seq<
    char,
> {
    "Connected to MCP server `"@ + command + " "@ + join(args, " "@) + "` -- "@ + decimal(
        tool_count,
    ) + " tool(s) available."@
}

/// The application's state as plain data.
pub struct AppView {
    pub input: Seq<char>,
    pub transcript: Seq<LineView>,
    pub scroll: u16,
    pub processing: bool,
    pub should_quit: bool,
    pub tool_count: usize,
    pub history: Seq<ChatMessageView>,
    pub tools: Seq<ToolSpecView>,
}

/// The state after a key press, and the history to run a turn with when
/// the key starts one.
pub open spec fn key_step(a: AppView, key: Key) -> (AppView, Option<Seq<ChatMessageView>>) {
    match key {
        Key::Esc => (AppView { should_quit: true, ..a }, None),
        Key::Enter => submit_step(a),
        Key::Backspace => (
            AppView {
                input: if a.input.len() > 0 {
                    a.input.drop_last()
                } else {
                    a.input
                },
                ..a
            },
            None,
        ),
        Key::Char(c) => (AppView { input: a.input.push(c), ..a }, None),
        Key::Up => (
            AppView {
                scroll: if a.scroll > 0 {
                    (a.scroll - 1) as u16
                } else {
                    0
                },
                ..a
            },
            None,
        ),
        Key::Down => (
            AppView {
                scroll: if a.scroll < u16::MAX {
                    (a.scroll + 1) as u16
                } else {
                    u16::MAX
                },
                ..a
            },
            None,
        ),
        Key::Other => (a, None),
    }
}

/// Submitting the input: ignored while a turn runs or when the input is
/// blank; otherwise the trimmed input becomes a user line and a user
/// message, the input is cleared, and a turn starts with the history.
pub open spec fn submit_step(a: AppView) -> (AppView, Option<Seq<ChatMessageView>>) {
    let text = trim(a.input);
    if a.processing || text.len() == 0 {
        (a, None)
    } else {
        let h = a.history.push(ChatMessageView::User { content: text });
        (
            AppView {
                input: seq![],
                transcript: a.transcript.push(LineView::User(text)),
                processing: true,
                history: h,
                ..a
            },
            Some(h),
        )
    }
}

/// The state after an event of the running turn: lines are appended, `Done`
/// stores the turn's history, `Failed` appends an error line, and both end
/// the processing; the view scrolls to the bottom.
pub open spec fn event_step(a: AppView, e: AgentEventView) -> AppView {
    match e {
        AgentEventView::Line(l) => AppView {
            transcript: a.transcript.push(l),
            scroll: u16::MAX,
            ..a
        },
        AgentEventView::Done(h) => AppView {
            history: h,
            processing: false,
            scroll: u16::MAX,
            ..a
        },
        AgentEventView::Failed(err) => AppView {
            transcript: a.transcript.push(LineView::Error(err)),
            processing: false,
            scroll: u16::MAX,
            ..a
        },
    }
}

/// The chat application's state.
#[derive(Debug)]
pub struct App {
    /// The line being typed.
    pub input: String,
    /// The chat transcript.
    pub transcript: Vec<Line>,
    /// How far the transcript is scrolled; `u16::MAX` means the bottom.
    pub scroll: u16,
    /// Whether a turn is running.
    pub processing: bool,
    /// Whether the application is to exit.
    pub should_quit: bool,
    /// How many tools the model is offered.
    pub tool_count: usize,
    /// The conversation history, kept across turns.
    history: Vec<ChatMessage>,
    /// The tool definitions sent with each request.
    tools: Vec<ToolSpec>,
}

impl View for App {
    type V = AppView;

    closed spec fn view(&self) -> AppView {
        AppView {
            input: self.input@,
            transcript: line_views(self.transcript@),
            scroll: self.scroll,
            processing: self.processing,
            should_quit: self.should_quit,
            tool_count: self.tool_count,
            history: message_views(self.history@),
            tools: self.tools@.map_values(|t: ToolSpec| t@),
        }
    }
}

impl App {
    /// A new application offering the model `tools`; its transcript opens
    /// with the line that reports the tool server and the number of tools.
    pub fn new(settings: &Settings, tools: Vec<ToolSpec>) -> (r: App)
        ensures
            r@ == (AppView {
                input: seq![],
                transcript: seq![
                    LineView::System(
                        connected_line(
                            settings.mcp_command@,
                            views(settings.mcp_args@),
                            tools.len() as nat,
                        ),
                    ),
                ],
                scroll: 0,
                processing: false,
                should_quit: false,
                tool_count: tools.len(),
                history: seq![],
                tools: tools@.map_values(|t: ToolSpec| t@),
            }),
    {
        let tool_count = tools.len();
        let mut line = owned("Connected to MCP server `");
        push_str(&mut line, settings.mcp_command.as_str());
        push_str(&mut line, " ");
        let args = join_strings(&settings.mcp_args, " ");
        push_str(&mut line, args.as_str());
        push_str(&mut line, "` -- ");
        push_decimal(&mut line, tool_count as u64);
        push_str(&mut line, " tool(s) available.");
        let transcript = vec![Line::System(line)];
        let r = App {
            input: String::new(),
            transcript,
            scroll: 0,
            processing: false,
            should_quit: false,
            tool_count,
            history: Vec::new(),
            tools,
        };
        assert(r@.transcript =~= seq![LineView::System(line@)]);
        assert(r@.history =~= seq![]);
        r
    }

    /// The conversation history.
    pub fn history(&self) -> (h: &Vec<ChatMessage>)
        ensures
            message_views(h@) == self@.history,
    {
        &self.history
    }

    /// The tool definitions sent with each request.
    pub fn tools(&self) -> (t: &Vec<ToolSpec>)
        ensures
            t@.map_values(|t: ToolSpec| t@) == self@.tools,
    {
        &self.tools
    }

    /// Handles a key press. Returns the history to run a turn with when the
    /// key submits a message.
    pub fn handle_key(&mut self, key: Key) -> (r: Option<Vec<ChatMessage>>)
        ensures
            final(self)@ == key_step(old(self)@, key).0,
            match key_step(old(self)@, key).1 {
                Some(h) => r is Some && message_views(r->0@) == h,
                None => r is None,
            },
    {
        match key {
            Key::Esc => {
                self.should_quit = true;
                None
            },
            Key::Enter => self.submit(),
            Key::Backspace => {
                let chars = chars_of(self.input.as_str());
                if chars.len() > 0 {
                    self.input = string_of_range(&chars, 0, chars.len() - 1);
                    assert(chars@.subrange(0, chars@.len() - 1) == chars@.drop_last());
                }
                None
            },
            Key::Char(c) => {
                push_char(&mut self.input, c);
                None
            },
            Key::Up => {
                self.scroll = self.scroll.saturating_sub(1);
                None
            },
            Key::Down => {
                self.scroll = self.scroll.saturating_add(1);
                None
            },
            Key::Other => None,
        }
    }

    fn submit(&mut self) -> (r: Option<Vec<ChatMessage>>)
        ensures
            final(self)@ == submit_step(old(self)@).0,
            match submit_step(old(self)@).1 {
                Some(h) => r is Some && message_views(r->0@) == h,
                None => r is None,
            },
    {
        if self.processing {
            return None;
        }
        let text = trimmed(self.input.as_str());
        if text.as_str().is_empty() {
            return None;
        }
        self.input = String::new();
        let ghost old_transcript = self.transcript@;
        let line = Line::User(text.clone());
        self.transcript.push(line);
        proof {
            lemma_map_push(old_transcript, line, |l: Line| l@);
        }
        let ghost old_history = self.history@;
        let msg = ChatMessage::User { content: text };
        self.history.push(msg);
        proof {
            lemma_map_push(old_history, msg, |m: ChatMessage| m@);
        }
        self.processing = true;
        Some(copy_history(&self.history))
    }

    /// Applies an event of the running turn.
    pub fn handle_agent_event(&mut self, event: AgentEvent)
        ensures
            final(self)@ == event_step(old(self)@, event@),
    {
        match event {
            AgentEvent::Line(line) => {
                let ghost before = self.transcript@;
                self.transcript.push(line);
                proof {
                    lemma_map_push(before, line, |l: Line| l@);
                }
            },
            AgentEvent::Done(history) => {
                self.history = history;
                self.processing = false;
            },
            AgentEvent::Failed(err) => {
                let ghost before = self.transcript@;
                let line = Line::Error(err);
                self.transcript.push(line);
                proof {
                    lemma_map_push(before, line, |l: Line| l@);
                }
                self.processing = false;
            },
        }
        self.scroll = u16::MAX;
    }
}

/// Law: only one turn runs at a time: while one runs, no key starts another
/// and the application stays busy.
pub proof fn lemma_one_turn_at_a_time(a: AppView, key: Key)
    requires
        a.processing,
    ensures
        key_step(a, key).1 is None,
        key_step(a, key).0.processing,
        key_step(a, key).0.history == a.history,
{
}

/// Law: a turn starts with the history so far followed by the user's
/// trimmed message, which is never blank, and the application is then busy.
pub proof fn lemma_turn_starts_with_user_message(a: AppView, key: Key)
    ensures
        key_step(a, key).1 matches Some(h) ==> {
            &&& key == Key::Enter
            &&& !a.processing
            &&& h == a.history.push(ChatMessageView::User { content: trim(a.input) })
            &&& trim(a.input).len() > 0
            &&& key_step(a, key).0.processing
            &&& key_step(a, key).0.history == h
        },
{
}

/// Law: an agent event shows in the chat what it carries and touches
/// nothing else the user sees or typed: a line is appended to the
/// transcript as it is; a failure appends its error line and ends the
/// turn; `Done` leaves the transcript and hands over the history; in every
/// case the view jumps to the bottom and the typed input, the quit flag and
/// the tools stay as they were.
pub proof fn lemma_event_shows_what_it_carries(a: AppView, e: AgentEventView)
    ensures
        ({
            let b = event_step(a, e);
            &&& e matches AgentEventView::Line(l) ==> {
                &&& b.transcript.len() == a.transcript.len() + 1
                &&& b.transcript.last() == l
                &&& b.transcript.subrange(0, a.transcript.len() as int) == a.transcript
                &&& b.processing == a.processing
                &&& b.history == a.history
            }
            &&& e matches AgentEventView::Failed(err) ==> {
                &&& b.transcript.len() == a.transcript.len() + 1
                &&& b.transcript.last() == LineView::Error(err)
                &&& b.transcript.subrange(0, a.transcript.len() as int) == a.transcript
                &&& !b.processing
                &&& b.history == a.history
            }
            &&& e matches AgentEventView::Done(h) ==> {
                &&& b.transcript == a.transcript
                &&& !b.processing
                &&& b.history == h
            }
            &&& b.scroll == u16::MAX
            &&& b.input == a.input
            &&& b.should_quit == a.should_quit
            &&& b.tool_count == a.tool_count
            &&& b.tools == a.tools
        }),
{
    let b = event_step(a, e);
    assert(b.transcript.subrange(0, a.transcript.len() as int) =~= a.transcript) by {
        if !(e is Done) {
            assert(b.transcript.subrange(0, a.transcript.len() as int) =~= a.transcript);
        }
    }
}

/// Law: a turn's end (`Done` or `Failed`) makes the application ready again,
/// and `Done` hands it the turn's history for the next turn.
pub proof fn lemma_turn_end_makes_ready(a: AppView, e: AgentEventView)
    ensures
        (e is Done || e is Failed) ==> !event_step(a, e).processing,
        e matches AgentEventView::Done(h) ==> event_step(a, e).history == h,
        e is Line ==> event_step(a, e).processing == a.processing && event_step(a, e).history
            == a.history,
{
}

} // verus!
