//! The agent's turn protocol: one turn sends the conversation to the model,
//! runs the tool calls of its reply one after another, feeds their results
//! back, and repeats until the model answers without calling a tool.
//!
//! A [`Turn`] is a state machine. The program around it performs what each
//! [`TurnAction`] asks (a model request, a tool run) and hands the outcome
//! back; the turn decides what is shown, what enters the history and what
//! comes next.

use vstd::prelude::*;
use crate::app::{Line, LineView};
use crate::text::{
    blank, is_blank, push_decimal, push_signed_decimal, push_str, decimal, signed_decimal,
    str_len, owned, byte_len,
};
use crate::seqs::lemma_map_push;
use crate::tools::{ToolArgs, ToolArgsView, ToolSpec, empty_args};

verus! {

/// The system prompt sent with every model request.
pub const SYSTEM_PROMPT: &'static str = "Your name is Codey.  You are a senior software engineer embedded in a terminal application. You have access to file system tools (list_files, read_file, write_file). Use them whenever they would help answer the user's question, and explain findings concisely in plain language suitable for a terminal UI (avoid heavy markdown). You occasionally be conversational, but you should not respond with a question";

/// A request to the model's chat endpoint: the JSON body
/// `{"model", "max_tokens", "stream", "system", "messages", "tools"}`.
#[derive(Debug)]
pub struct ChatRequest<'a> {
    pub model: &'a str,
    pub max_tokens: u32,
    pub stream: bool,
    pub system: &'a str,
    pub messages: &'a Vec<ChatMessage>,
    pub tools: &'a Vec<ToolSpec>,
}

/// The request that sends `messages` and `tools` to `model`: at most 4096
/// tokens, no streaming, with the system prompt.
pub fn chat_request<'a>(
    model: &'a str,
    messages: &'a Vec<ChatMessage>,
    tools: &'a Vec<ToolSpec>,
) -> (r: ChatRequest<'a>)
    ensures
        r.model@ == model@,
        r.max_tokens == 4096,
        r.stream == false,
        r.system@ == SYSTEM_PROMPT@,
        r.messages == messages,
        r.tools == tools,
{
    ChatRequest { model, max_tokens: 4096, stream: false, system: SYSTEM_PROMPT, messages, tools }
}

/// The URL of the chat endpoint of the model server at `host`.
pub fn chat_endpoint(host: &str) -> (r: String)
    ensures
        r@ == host@ + "/api/chat"@,
{
    let mut r = owned(host);
    push_str(&mut r, "/api/chat");
    r
}

/// How a request to the model failed.
#[derive(Debug)]
pub enum ApiFailure {
    /// The request could not be sent or answered.
    Unreachable,
    /// The server answered with a status that is not a success: its status
    /// line and its body.
    Status { status: String, body: String },
    /// The answer's body is not JSON.
    Unparsable,
}

/// The text a failed request is reported with.
pub open spec fn failure_message(f: ApiFailure) -> Seq<char> {
    match f {
        ApiFailure::Unreachable => "request to Ollama API failed"@,
        ApiFailure::Status { status, body } => "Ollama API error ("@ + status@ + "): "@ + body@,
        ApiFailure::Unparsable => "failed to parse Ollama response"@,
    }
}

/// The text a failed request is reported with.
pub fn failure_text(f: &ApiFailure) -> (r: String)
    ensures
        r@ == failure_message(*f),
{
    match f {
        ApiFailure::Unreachable => owned("request to Ollama API failed"),
        ApiFailure::Status { status, body } => {
            let mut r = owned("Ollama API error (");
            push_str(&mut r, status.as_str());
            push_str(&mut r, "): ");
            push_str(&mut r, body.as_str());
            r
        },
        ApiFailure::Unparsable => owned("failed to parse Ollama response"),
    }
}

/// The `function` member of a tool call in a model reply.
#[derive(Debug)]
pub struct FunctionCall {
    /// `function.name`, when it is a JSON string.
    pub name: Option<String>,
    /// `function.arguments`, when present.
    pub arguments: Option<ToolArgs>,
}

/// A function member as plain data.
pub struct FunctionCallView {
    pub name: Option<Seq<char>>,
    pub arguments: Option<ToolArgsView>,
}

/// The view of an optional string.
pub open spec fn opt_view(o: Option<String>) -> Option<Seq<char>> {
    match o {
        Some(s) => Some(s@),
        None => None,
    }
}

impl View for FunctionCall {
    type V = FunctionCallView;

    open spec fn view(&self) -> FunctionCallView {
        FunctionCallView {
            name: opt_view(self.name),
            arguments: match self.arguments {
                Some(a) => Some(a@),
                None => None,
            },
        }
    }
}

impl Clone for FunctionCall {
    fn clone(&self) -> (r: Self)
        ensures
            r@ == self@,
    {
        let name = match &self.name {
            Some(n) => Some(n.clone()),
            None => None,
        };
        let arguments = match &self.arguments {
            Some(a) => Some(a.clone()),
            None => None,
        };
        FunctionCall { name, arguments }
    }
}

/// One element of the `tool_calls` array of a model reply.
#[derive(Debug)]
pub struct ToolCall {
    /// Its `function` member, when present.
    pub function: Option<FunctionCall>,
    /// Its compact JSON text.
    pub text: String,
}

/// A tool call as plain data.
pub struct ToolCallView {
    pub function: Option<FunctionCallView>,
    pub text: Seq<char>,
}

impl View for ToolCall {
    type V = ToolCallView;

    open spec fn view(&self) -> ToolCallView {
        ToolCallView {
            function: match self.function {
                Some(f) => Some(f@),
                None => None,
            },
            text: self.text@,
        }
    }
}

impl Clone for ToolCall {
    fn clone(&self) -> (r: Self)
        ensures
            r@ == self@,
    {
        let function = match &self.function {
            Some(f) => Some(f.clone()),
            None => None,
        };
        ToolCall { function, text: self.text.clone() }
    }
}

/// The views of a sequence of tool calls.
pub open spec fn call_views(v: Seq<ToolCall>) -> Seq<ToolCallView> {
    v.map_values(|c: ToolCall| c@)
}

/// A copy of a list of tool calls.
pub fn copy_calls(v: &Vec<ToolCall>) -> (r: Vec<ToolCall>)
    ensures
        call_views(r@) == call_views(v@),
{
    let mut r: Vec<ToolCall> = Vec::new();
    let mut i: usize = 0;
    while i < v.len()
        invariant
            i <= v.len(),
            r.len() == i,
            call_views(r@) == call_views(v@).subrange(0, i as int),
        decreases v.len() - i,
    {
        let c = v[i].clone();
        let ghost before = r@;
        r.push(c);
        proof {
            lemma_map_push(before, c, |x: ToolCall| x@);
            assert(call_views(v@).subrange(0, i + 1) == call_views(v@).subrange(0, i as int).push(call_views(v@)[i as int]));
        }
        i = i + 1;
    }
    assert(call_views(v@).subrange(0, v.len() as int) =~= call_views(v@));
    r
}

/// The `message` member of a model reply.
#[derive(Debug)]
pub struct ReplyMessage {
    /// `message.content`, when it is a JSON string.
    pub content: Option<String>,
    /// `message.tool_calls`, when it is a JSON array.
    pub tool_calls: Option<Vec<ToolCall>>,
}

/// A reply message as plain data.
pub struct ReplyMessageView {
    pub content: Option<Seq<char>>,
    pub tool_calls: Option<Seq<ToolCallView>>,
}

impl View for ReplyMessage {
    type V = ReplyMessageView;

    open spec fn view(&self) -> ReplyMessageView {
        ReplyMessageView {
            content: opt_view(self.content),
            tool_calls: match self.tool_calls {
                Some(c) => Some(call_views(c@)),
                None => None,
            },
        }
    }
}

/// The body of a model reply.
#[derive(Debug)]
pub struct ModelReply {
    /// Its `message` member, when present.
    pub message: Option<ReplyMessage>,
    /// Its compact JSON text.
    pub text: String,
}

/// A model reply as plain data.
pub struct ModelReplyView {
    pub message: Option<ReplyMessageView>,
    pub text: Seq<char>,
}

impl View for ModelReply {
    type V = ModelReplyView;

    open spec fn view(&self) -> ModelReplyView {
        ModelReplyView {
            message: match self.message {
                Some(m) => Some(m@),
                None => None,
            },
            text: self.text@,
        }
    }
}

/// One entry of the conversation history sent to the model.
#[derive(Debug)]
pub enum ChatMessage {
    /// `{"role": "user", "content": ...}`
    User { content: String },
    /// `{"role": "assistant", "content": ..., "tool_calls": [...]}`, the
    /// `tool_calls` member present only when there are some.
    Assistant { content: String, tool_calls: Vec<ToolCall> },
    /// `{"role": "tool", "content": ..., "tool_call_id": ...}`
    Tool { content: String, tool_call_id: String },
}

/// A history entry as plain data.
pub enum ChatMessageView {
    User { content: Seq<char> },
    Assistant { content: Seq<char>, tool_calls: Seq<ToolCallView> },
    Tool { content: Seq<char>, tool_call_id: Seq<char> },
}

impl View for ChatMessage {
    type V = ChatMessageView;

    open spec fn view(&self) -> ChatMessageView {
        match self {
            ChatMessage::User { content } => ChatMessageView::User { content: content@ },
            ChatMessage::Assistant { content, tool_calls } => ChatMessageView::Assistant {
                content: content@,
                tool_calls: call_views(tool_calls@),
            },
            ChatMessage::Tool { content, tool_call_id } => ChatMessageView::Tool {
                content: content@,
                tool_call_id: tool_call_id@,
            },
        }
    }
}

impl Clone for ChatMessage {
    fn clone(&self) -> (r: Self)
        ensures
            r@ == self@,
    {
        match self {
            ChatMessage::User { content } => ChatMessage::User { content: content.clone() },
            ChatMessage::Assistant { content, tool_calls } => ChatMessage::Assistant {
                content: content.clone(),
                tool_calls: copy_calls(tool_calls),
            },
            ChatMessage::Tool { content, tool_call_id } => ChatMessage::Tool {
                content: content.clone(),
                tool_call_id: tool_call_id.clone(),
            },
        }
    }
}

/// The `role` member of a history entry.
pub open spec fn message_role(m: ChatMessageView) -> Seq<char> {
    match m {
        ChatMessageView::User { .. } => "user"@,
        ChatMessageView::Assistant { .. } => "assistant"@,
        ChatMessageView::Tool { .. } => "tool"@,
    }
}

impl ChatMessage {
    /// The entry's `role` member.
    pub fn role(&self) -> (r: &'static str)
        ensures
            r@ == message_role(self@),
    {
        match self {
            ChatMessage::User { .. } => "user",
            ChatMessage::Assistant { .. } => "assistant",
            ChatMessage::Tool { .. } => "tool",
        }
    }

    /// The entry's `tool_calls` member: only an assistant message that calls
    /// at least one tool has one.
    pub fn tool_calls_member(&self) -> (r: Option<&Vec<ToolCall>>)
        ensures
            match self@ {
                ChatMessageView::Assistant { tool_calls, .. } => if tool_calls.len() > 0 {
                    r is Some && call_views(r->0@) == tool_calls
                } else {
                    r is None
                },
                _ => r is None,
            },
    {
        match self {
            ChatMessage::Assistant { tool_calls, .. } => {
                if tool_calls.len() > 0 {
                    Some(tool_calls)
                } else {
                    None
                }
            },
            _ => None,
        }
    }
}

/// The views of a history.
pub open spec fn message_views(v: Seq<ChatMessage>) -> Seq<ChatMessageView> {
    v.map_values(|m: ChatMessage| m@)
}

/// A copy of a history.
pub fn copy_history(v: &Vec<ChatMessage>) -> (r: Vec<ChatMessage>)
    ensures
        message_views(r@) == message_views(v@),
{
    let mut r: Vec<ChatMessage> = Vec::new();
    let mut i: usize = 0;
    while i < v.len()
        invariant
            i <= v.len(),
            r.len() == i,
            message_views(r@) == message_views(v@).subrange(0, i as int),
        decreases v.len() - i,
    {
        let m = v[i].clone();
        let ghost before = r@;
        r.push(m);
        proof {
            lemma_map_push(before, m, |x: ChatMessage| x@);
            assert(message_views(v@).subrange(0, i + 1) == message_views(v@).subrange(0, i as int).push(message_views(v@)[i as int]));
        }
        i = i + 1;
    }
    assert(message_views(v@).subrange(0, v.len() as int) =~= message_views(v@));
    r
}

/// What a running turn tells the user interface.
#[derive(Debug)]
pub enum AgentEvent {
    /// A line of output to append to the chat transcript.
    Line(Line),
    /// The turn finished; carries the updated conversation history for the
    /// next turn.
    Done(Vec<ChatMessage>),
    /// The turn failed irrecoverably.
    Failed(String),
}

/// An agent event as plain data.
pub enum AgentEventView {
    Line(LineView),
    Done(Seq<ChatMessageView>),
    Failed(Seq<char>),
}

impl View for AgentEvent {
    type V = AgentEventView;

    open spec fn view(&self) -> AgentEventView {
        match self {
            AgentEvent::Line(l) => AgentEventView::Line(l@),
            AgentEvent::Done(h) => AgentEventView::Done(message_views(h@)),
            AgentEvent::Failed(e) => AgentEventView::Failed(e@),
        }
    }
}

/// The views of a list of events.
pub open spec fn event_views(v: Seq<AgentEvent>) -> Seq<AgentEventView> {
    v.map_values(|e: AgentEvent| e@)
}


/// Where a turn stands.
#[derive(Debug, PartialEq, Eq, Structural, Clone, Copy)]
pub enum TurnPhase {
    /// The history is to be sent to the model; its reply is awaited.
    AwaitingModel,
    /// A tool call of the latest reply is running; its result is awaited.
    AwaitingTool,
    /// The turn is over: it has reported `Done` or `Failed`.
    Finished,
}

/// What the program around a turn is to do next.
#[derive(Debug)]
pub enum TurnAction {
    /// Send the turn's history, with the tool definitions, to the model.
    AskModel,
    /// Run the named tool with these arguments.
    RunTool { name: String, args: ToolArgs },
    /// Nothing more: the turn is over.
    Stop,
}

/// A turn action as plain data.
pub enum TurnActionView {
    AskModel,
    RunTool { name: Seq<char>, args: ToolArgsView },
    Stop,
}

impl View for TurnAction {
    type V = TurnActionView;

    open spec fn view(&self) -> TurnActionView {
        match self {
            TurnAction::AskModel => TurnActionView::AskModel,
            TurnAction::RunTool { name, args } => TurnActionView::RunTool {
                name: name@,
                args: args@,
            },
            TurnAction::Stop => TurnActionView::Stop,
        }
    }
}

/// A turn as plain data: the history so far, the tool calls of the latest
/// reply with the index of the one being run, and the phase.
pub struct TurnView {
    pub history: Seq<ChatMessageView>,
    pub calls: Seq<ToolCallView>,
    pub next: int,
    pub phase: TurnPhase,
}

/// A turn's invariant: while a tool runs, it is a call of the latest reply
/// that has a `function` member.
pub open spec fn turn_wf(t: TurnView) -> bool {
    t.phase == TurnPhase::AwaitingTool ==> {
        &&& 0 <= t.next < t.calls.len()
        &&& t.calls[t.next].function is Some
    }
}

/// The text of a reply message: its `content`, or nothing.
pub open spec fn reply_content(m: ReplyMessageView) -> Seq<char> {
    match m.content {
        Some(t) => t,
        None => seq![],
    }
}

/// The tool calls of a reply message: its `tool_calls`, or none.
pub open spec fn reply_calls(m: ReplyMessageView) -> Seq<ToolCallView> {
    match m.tool_calls {
        Some(c) => c,
        None => seq![],
    }
}

/// The name a tool call asks for: `function.name`, or `unknown`.
pub open spec fn function_name(f: FunctionCallView) -> Seq<char> {
    match f.name {
        Some(n) => n,
        None => "unknown"@,
    }
}

/// The arguments a tool call passes: `function.arguments`, or `{}`.
pub open spec fn function_args(f: FunctionCallView) -> ToolArgsView {
    match f.arguments {
        Some(a) => a,
        None => empty_args(),
    }
}

/// The failure reported for a reply without a `message`.
pub open spec fn unexpected_reply_message(reply_text: Seq<char>) -> Seq<char> {
    "unexpected response from Ollama: "@ + reply_text
}

/// The failure reported for a tool call without a `function`.
pub open spec fn missing_function_message(call_text: Seq<char>) -> Seq<char> {
    "tool_call missing 'function': "@ + call_text
}

/// The transcript line announcing a tool call.
pub open spec fn calling_line(name: Seq<char>, args_text: Seq<char>) -> Seq<char> {
    "-> calling `"@ + name + "` with "@ + args_text
}

/// The transcript line reporting how a tool call ended.
pub open spec fn finished_line(name: Seq<char>, content: Seq<char>, is_error: bool) -> Seq<char> {
    "<- `"@ + name + "` "@ + (if is_error {
        "errored"@
    } else {
        "returned"@
    }) + " ("@ + decimal(str_len(content) as nat) + " bytes)"@
}

/// The id of the tool result that the `number`-th tool call produced.
pub open spec fn call_id(number: int) -> Seq<char> {
    "call_"@ + signed_decimal(number)
}

/// Starting the tool call at `t.next`: a call without `function` fails the
/// turn; any other is announced and run.
pub open spec fn begin_call(t: TurnView) -> (TurnView, Seq<AgentEventView>, TurnActionView) {
    let call = t.calls[t.next];
    match call.function {
        None => (
            TurnView { phase: TurnPhase::Finished, ..t },
            seq![AgentEventView::Failed(missing_function_message(call.text))],
            TurnActionView::Stop,
        ),
        Some(f) => (
            TurnView { phase: TurnPhase::AwaitingTool, ..t },
            seq![
                AgentEventView::Line(
                    LineView::Tool(calling_line(function_name(f), function_args(f).text)),
                ),
            ],
            TurnActionView::RunTool { name: function_name(f), args: function_args(f) },
        ),
    }
}

/// The step a turn takes on the model's reply (or on the failure of the
/// request): the next turn, the events it reports, and the next action.
pub open spec fn reply_step(t: TurnView, reply: Result<ModelReplyView, Seq<char>>) -> (
    TurnView,
    Seq<AgentEventView>,
    TurnActionView,
) {
    match reply {
        Err(e) => (
            TurnView { phase: TurnPhase::Finished, ..t },
            seq![AgentEventView::Failed(e)],
            TurnActionView::Stop,
        ),
        Ok(r) => match r.message {
            None => (
                TurnView { phase: TurnPhase::Finished, ..t },
                seq![AgentEventView::Failed(unexpected_reply_message(r.text))],
                TurnActionView::Stop,
            ),
            Some(m) => {
                let text = reply_content(m);
                let calls = reply_calls(m);
                let h = t.history.push(
                    ChatMessageView::Assistant { content: text, tool_calls: calls },
                );
                let shown: Seq<AgentEventView> = if is_blank(text) {
                    seq![]
                } else {
                    seq![AgentEventView::Line(LineView::Assistant(text))]
                };
                if calls.len() == 0 {
                    (
                        TurnView { history: h, calls, next: 0, phase: TurnPhase::Finished },
                        shown.push(AgentEventView::Done(h)),
                        TurnActionView::Stop,
                    )
                } else {
                    let s = begin_call(
                        TurnView { history: h, calls, next: 0, phase: TurnPhase::AwaitingTool },
                    );
                    (s.0, shown + s.1, s.2)
                }
            },
        },
    }
}

/// The step a turn takes when the running tool call ends, numbered
/// `number`, with its output or its error text.
pub open spec fn tool_step(t: TurnView, number: int, result: Result<Seq<char>, Seq<char>>) -> (
    TurnView,
    Seq<AgentEventView>,
    TurnActionView,
) {
    let name = function_name(t.calls[t.next].function->0);
    let content = match result {
        Ok(c) => c,
        Err(e) => e,
    };
    let line = AgentEventView::Line(
        LineView::Tool(finished_line(name, content, result is Err)),
    );
    let h = t.history.push(ChatMessageView::Tool { content, tool_call_id: call_id(number) });
    if t.next + 1 < t.calls.len() {
        let s = begin_call(TurnView { history: h, next: t.next + 1, ..t });
        (s.0, seq![line] + s.1, s.2)
    } else {
        (
            TurnView { history: h, calls: seq![], next: 0, phase: TurnPhase::AwaitingModel },
            seq![line],
            TurnActionView::AskModel,
        )
    }
}

/// A reply, or the failure text of its request, as plain data.
pub open spec fn reply_view(reply: Result<ModelReply, String>) -> Result<ModelReplyView, Seq<char>> {
    match reply {
        Ok(r) => Ok(r@),
        Err(e) => Err(e@),
    }
}

/// A tool's output, or its error text, as plain data.
pub open spec fn result_view(result: Result<String, String>) -> Result<Seq<char>, Seq<char>> {
    match result {
        Ok(c) => Ok(c@),
        Err(e) => Err(e@),
    }
}

/// One turn of the conversation.
#[derive(Debug)]
pub struct Turn {
    history: Vec<ChatMessage>,
    calls: Vec<ToolCall>,
    next: usize,
    phase: TurnPhase,
}

impl View for Turn {
    type V = TurnView;

    closed spec fn view(&self) -> TurnView {
        TurnView {
            history: message_views(self.history@),
            calls: call_views(self.calls@),
            next: self.next as int,
            phase: self.phase,
        }
    }
}

impl Turn {
    /// The turn's invariant.
    pub open spec fn wf(&self) -> bool {
        turn_wf(self@)
    }

    /// A turn that continues the conversation `history`; its first action
    /// is to ask the model.
    pub fn new(history: Vec<ChatMessage>) -> (t: Turn)
        ensures
            t.wf(),
            t@ == (TurnView {
                history: message_views(history@),
                calls: seq![],
                next: 0,
                phase: TurnPhase::AwaitingModel,
            }),
    {
        let t = Turn { history, calls: Vec::new(), next: 0, phase: TurnPhase::AwaitingModel };
        assert(t@.calls =~= seq![]);
        t
    }

    /// The conversation so far.
    pub fn history(&self) -> (h: &Vec<ChatMessage>)
        ensures
            message_views(h@) == self@.history,
    {
        &self.history
    }

    /// Where the turn stands.
    pub fn phase(&self) -> (p: TurnPhase)
        ensures
            p == self@.phase,
    {
        self.phase
    }

    fn begin_call(&mut self, events: &mut Vec<AgentEvent>) -> (action: TurnAction)
        requires
            0 <= old(self)@.next < old(self)@.calls.len(),
        ensures
            final(self)@ == begin_call(old(self)@).0,
            event_views(final(events)@) == event_views(old(events)@) + begin_call(old(self)@).1,
            action@ == begin_call(old(self)@).2,
    {
        let ghost t = self@;
        let ghost before = events@;
        let call = &self.calls[self.next];
        assert(call@ == t.calls[t.next]);
        match &call.function {
            None => {
                let mut msg = owned("tool_call missing 'function': ");
                push_str(&mut msg, call.text.as_str());
                let e = AgentEvent::Failed(msg);
                self.phase = TurnPhase::Finished;
                events.push(e);
                proof {
                    lemma_map_push(before, e, |e: AgentEvent| e@);
                    assert(self@ == begin_call(t).0);
                    assert(seq![e@] == begin_call(t).1);
                }
                TurnAction::Stop
            },
            Some(f) => {
                let name = match &f.name {
                    Some(n) => n.clone(),
                    None => owned("unknown"),
                };
                let args = match &f.arguments {
                    Some(a) => a.clone(),
                    None => ToolArgs::empty(),
                };
                let mut line = owned("-> calling `");
                push_str(&mut line, name.as_str());
                push_str(&mut line, "` with ");
                push_str(&mut line, args.text.as_str());
                let e = AgentEvent::Line(Line::Tool(line));
                self.phase = TurnPhase::AwaitingTool;
                events.push(e);
                proof {
                    lemma_map_push(before, e, |e: AgentEvent| e@);
                    assert(self@ == begin_call(t).0);
                    assert(seq![e@] == begin_call(t).1);
                }
                TurnAction::RunTool { name, args }
            },
        }
    }

    /// The model replied (`Ok`) or its request failed (`Err`, with the
    /// failure's text): returns the events to report and what to do next.
    pub fn on_reply(&mut self, reply: Result<ModelReply, String>) -> (out: (
        Vec<AgentEvent>,
        TurnAction,
    ))
        requires
            old(self).wf(),
            old(self)@.phase == TurnPhase::AwaitingModel,
        ensures
            final(self).wf(),
            final(self)@ == reply_step(old(self)@, reply_view(reply)).0,
            event_views(out.0@) == reply_step(old(self)@, reply_view(reply)).1,
            out.1@ == reply_step(old(self)@, reply_view(reply)).2,
    {
        let ghost t = self@;
        let ghost rv = reply_view(reply);
        let mut events: Vec<AgentEvent> = Vec::new();
        assert(event_views(events@) =~= seq![]);
        match reply {
            Err(e) => {
                self.phase = TurnPhase::Finished;
                let ev = AgentEvent::Failed(e);
                events.push(ev);
                proof {
                    lemma_map_push(seq![], ev, |e: AgentEvent| e@);
                    assert(events@ == seq![].push(ev));
                }
                (events, TurnAction::Stop)
            },
            Ok(r) => match r.message {
                None => {
                    self.phase = TurnPhase::Finished;
                    let mut msg = owned("unexpected response from Ollama: ");
                    push_str(&mut msg, r.text.as_str());
                    let ev = AgentEvent::Failed(msg);
                    events.push(ev);
                    proof {
                        lemma_map_push(seq![], ev, |e: AgentEvent| e@);
                        assert(events@ == seq![].push(ev));
                    }
                    (events, TurnAction::Stop)
                },
                Some(m) => {
                    let ghost mv = m@;
                    let text = match m.content {
                        Some(c) => c,
                        None => String::new(),
                    };
                    let calls = match m.tool_calls {
                        Some(c) => c,
                        None => Vec::new(),
                    };
                    assert(text@ == reply_content(mv));
                    assert(call_views(calls@) =~= reply_calls(mv));
                    let shown = !blank(text.as_str());
                    let msg = ChatMessage::Assistant {
                        content: text.clone(),
                        tool_calls: copy_calls(&calls),
                    };
                    let ghost old_history = self.history@;
                    self.history.push(msg);
                    proof {
                        lemma_map_push(old_history, msg, |m: ChatMessage| m@);
                    }
                    let ghost h = message_views(self.history@);
                    if shown {
                        let ev = AgentEvent::Line(Line::Assistant(text));
                        events.push(ev);
                        proof {
                            lemma_map_push(seq![], ev, |e: AgentEvent| e@);
                            assert(events@ == seq![].push(ev));
                        }
                    }
                    let ghost shown_views = event_views(events@);
                    self.calls = calls;
                    self.next = 0;
                    if self.calls.len() == 0 {
                        self.phase = TurnPhase::Finished;
                        let ev = AgentEvent::Done(copy_history(&self.history));
                        let ghost before = events@;
                        events.push(ev);
                        proof {
                            lemma_map_push(before, ev, |e: AgentEvent| e@);
                        }
                        return (events, TurnAction::Stop);
                    }
                    self.phase = TurnPhase::AwaitingTool;
                    let action = self.begin_call(&mut events);
                    (events, action)
                },
            },
        }
    }

    /// The running tool call ended: `number` is the call's number (its
    /// result is filed under the id `call_<number>`), `result` its output or
    /// its error text. Returns the events to report and what to do next.
    pub fn on_tool_result(&mut self, number: i64, result: Result<String, String>) -> (out: (
        Vec<AgentEvent>,
        TurnAction,
    ))
        requires
            old(self).wf(),
            old(self)@.phase == TurnPhase::AwaitingTool,
        ensures
            final(self).wf(),
            final(self)@ == tool_step(old(self)@, number as int, result_view(result)).0,
            event_views(out.0@) == tool_step(old(self)@, number as int, result_view(result)).1,
            out.1@ == tool_step(old(self)@, number as int, result_view(result)).2,
    {
        let ghost t = self@;
        let ghost rv = result_view(result);
        let mut events: Vec<AgentEvent> = Vec::new();
        assert(call_views(self.calls@).len() == self.calls@.len());
        assert(self.calls@[self.next as int]@ == t.calls[t.next]);
        let name = match &self.calls[self.next].function {
            Some(f) => match &f.name {
                Some(n) => n.clone(),
                None => owned("unknown"),
            },
            None => owned("unknown"),
        };
        let is_error = result.is_err();
        let content = match result {
            Ok(c) => c,
            Err(e) => e,
        };
        let mut line = owned("<- `");
        push_str(&mut line, name.as_str());
        push_str(&mut line, "` ");
        if is_error {
            push_str(&mut line, "errored");
        } else {
            push_str(&mut line, "returned");
        }
        push_str(&mut line, " (");
        push_decimal(&mut line, byte_len(content.as_str()) as u64);
        push_str(&mut line, " bytes)");
        let ev = AgentEvent::Line(Line::Tool(line));
        events.push(ev);
        proof {
            lemma_map_push(seq![], ev, |e: AgentEvent| e@);
            assert(events@ == seq![].push(ev));
        }
        let mut id = owned("call_");
        push_signed_decimal(&mut id, number);
        let msg = ChatMessage::Tool { content, tool_call_id: id };
        let ghost old_history = self.history@;
        self.history.push(msg);
        proof {
            lemma_map_push(old_history, msg, |m: ChatMessage| m@);
        }
        let count = self.calls.len();
        assert(self.next < count);
        self.next = self.next + 1;
        if self.next < count {
            let action = self.begin_call(&mut events);
            (events, action)
        } else {
            self.calls = Vec::new();
            self.next = 0;
            self.phase = TurnPhase::AwaitingModel;
            assert(self@.calls =~= seq![]);
            (events, TurnAction::AskModel)
        }
    }
}


/// Whether an event ends a turn.
pub open spec fn is_terminal(e: AgentEventView) -> bool {
    e is Done || e is Failed
}

/// What a step of a turn must look like: only its last event may end the
/// turn; it ends the turn exactly when the next action is `Stop` and the
/// turn is then finished; a `Done` carries the turn's history; a tool run is
/// announced by the last event; and the invariant holds.
pub open spec fn well_behaved_step(s: (TurnView, Seq<AgentEventView>, TurnActionView)) -> bool {
    let (t, ev, a) = s;
    &&& turn_wf(t)
    &&& forall|i: int| 0 <= i < ev.len() - 1 ==> !is_terminal(#[trigger] ev[i])
    &&& (ev.len() > 0 && is_terminal(ev.last())) <==> a is Stop
    &&& a is Stop <==> t.phase == TurnPhase::Finished
    &&& a is AskModel ==> t.phase == TurnPhase::AwaitingModel
    &&& (ev.len() > 0 && ev.last() is Done) ==> ev.last()->Done_0 == t.history
    &&& a matches TurnActionView::RunTool { name, args } ==> {
        &&& t.phase == TurnPhase::AwaitingTool
        &&& ev.len() > 0
        &&& ev.last() == AgentEventView::Line(LineView::Tool(calling_line(name, args.text)))
    }
}

proof fn lemma_begin_call_well_behaved(t: TurnView, shown: Seq<AgentEventView>)
    requires
        0 <= t.next < t.calls.len(),
        forall|i: int| 0 <= i < shown.len() ==> !is_terminal(#[trigger] shown[i]),
    ensures
        well_behaved_step((begin_call(t).0, shown + begin_call(t).1, begin_call(t).2)),
{
    let s = begin_call(t);
    let ev = shown + s.1;
    assert(s.1.len() == 1);
    assert(ev.last() == s.1[0]);
    assert forall|i: int| 0 <= i < ev.len() - 1 implies !is_terminal(#[trigger] ev[i]) by {
        assert(ev[i] == shown[i]);
    }
}

/// Law: every step a turn takes on the model's reply is well behaved.
pub proof fn lemma_reply_step_well_behaved(t: TurnView, reply: Result<ModelReplyView, Seq<char>>)
    requires
        turn_wf(t),
        t.phase == TurnPhase::AwaitingModel,
    ensures
        well_behaved_step(reply_step(t, reply)),
{
    if let Ok(r) = reply {
        if let Some(m) = r.message {
            let text = reply_content(m);
            let calls = reply_calls(m);
            let shown: Seq<AgentEventView> = if is_blank(text) {
                seq![]
            } else {
                seq![AgentEventView::Line(LineView::Assistant(text))]
            };
            if calls.len() != 0 {
                let h = t.history.push(
                    ChatMessageView::Assistant { content: text, tool_calls: calls },
                );
                lemma_begin_call_well_behaved(
                    TurnView { history: h, calls, next: 0, phase: TurnPhase::AwaitingTool },
                    shown,
                );
            } else {
                let ev = reply_step(t, reply).1;
                assert forall|i: int| 0 <= i < ev.len() - 1 implies !is_terminal(#[trigger] ev[i]) by {
                    assert(ev[i] == shown[i]);
                }
            }
        }
    }
}

/// Law: every step a turn takes when a tool call ends is well behaved, and
/// never ends the turn with `Done`: a turn is done only when the model
/// answers without calling a tool.
pub proof fn lemma_tool_step_well_behaved(t: TurnView, number: int, result: Result<Seq<char>, Seq<char>>)
    requires
        turn_wf(t),
        t.phase == TurnPhase::AwaitingTool,
    ensures
        well_behaved_step(tool_step(t, number, result)),
        forall|i: int|
            0 <= i < tool_step(t, number, result).1.len() ==> !((
            #[trigger] tool_step(t, number, result).1[i]) is Done),
{
    let name = function_name(t.calls[t.next].function->0);
    let content = match result {
        Ok(c) => c,
        Err(e) => e,
    };
    let line = AgentEventView::Line(
        LineView::Tool(finished_line(name, content, result is Err)),
    );
    let h = t.history.push(ChatMessageView::Tool { content, tool_call_id: call_id(number) });
    if t.next + 1 < t.calls.len() {
        let t2 = TurnView { history: h, next: t.next + 1, ..t };
        lemma_begin_call_well_behaved(t2, seq![line]);
        let ev = seq![line] + begin_call(t2).1;
        assert forall|i: int| 0 <= i < ev.len() implies !(#[trigger] ev[i] is Done) by {
            if i > 0 {
                assert(ev[i] == begin_call(t2).1[i - 1]);
            }
        }
    }
}

/// Law: a turn never rewrites the history it has: a reply adds at most the
/// assistant's message, and the end of a tool call adds exactly its result,
/// filed under `call_<number>`.
pub proof fn lemma_history_only_grows(
    t: TurnView,
    reply: Result<ModelReplyView, Seq<char>>,
    number: int,
    result: Result<Seq<char>, Seq<char>>,
)
    requires
        turn_wf(t),
    ensures
        t.phase == TurnPhase::AwaitingModel ==> {
            let h = reply_step(t, reply).0.history;
            &&& t.history.len() <= h.len() <= t.history.len() + 1
            &&& h.subrange(0, t.history.len() as int) == t.history
        },
        t.phase == TurnPhase::AwaitingTool ==> tool_step(t, number, result).0.history
            == t.history.push(
            ChatMessageView::Tool {
                content: match result {
                    Ok(c) => c,
                    Err(e) => e,
                },
                tool_call_id: call_id(number),
            },
        ),
{
    if t.phase == TurnPhase::AwaitingModel {
        let h = reply_step(t, reply).0.history;
        assert(h.subrange(0, t.history.len() as int) =~= t.history);
    }
}

/// Law: a reply with a `message` enters the history as one assistant
/// message carrying the reply's own text (its `content`, or nothing) and
/// its own tool calls (its `tool_calls`, or none), whether or not it calls
/// tools; a failed request or a reply without `message` leaves the history
/// as it was.
pub proof fn lemma_reply_files_its_message(t: TurnView, reply: Result<ModelReplyView, Seq<char>>)
    requires
        t.phase == TurnPhase::AwaitingModel,
    ensures
        reply matches Ok(r) ==> r.message matches Some(m) ==> reply_step(t, reply).0.history
            == t.history.push(
            ChatMessageView::Assistant {
                content: match m.content {
                    Some(c) => c,
                    None => Seq::<char>::empty(),
                },
                tool_calls: match m.tool_calls {
                    Some(c) => c,
                    None => Seq::<ToolCallView>::empty(),
                },
            },
        ),
        (reply is Err || reply->Ok_0.message is None) ==> reply_step(t, reply).0.history
            == t.history,
{
}

/// Law: a reply that calls no tool ends the turn with `Done`, carrying the
/// history with the assistant's message appended; one that calls tools does
/// not end it with `Done`.
pub proof fn lemma_reply_without_tools_is_done(t: TurnView, r: ModelReplyView)
    requires
        turn_wf(t),
        t.phase == TurnPhase::AwaitingModel,
        r.message is Some,
    ensures
        ({
            let m = r.message->0;
            let s = reply_step(t, Ok(r));
            let h = t.history.push(
                ChatMessageView::Assistant { content: reply_content(m), tool_calls: reply_calls(m) },
            );
            &&& reply_calls(m).len() == 0 ==> s.1.last() == AgentEventView::Done(h) && s.2
                is Stop
            &&& reply_calls(m).len() > 0 ==> !(s.1.last() is Done)
        }),
{
}


/// What a running turn is handed: the model's reply (or the failure of the
/// request), or the end of a tool call with its number and its result.
pub enum TurnInput {
    Reply(Result<ModelReplyView, Seq<char>>),
    ToolResult(int, Result<Seq<char>, Seq<char>>),
}

/// Whether an input is the one a turn awaits.
pub open spec fn input_fits(t: TurnView, input: TurnInput) -> bool {
    match input {
        TurnInput::Reply(_) => t.phase == TurnPhase::AwaitingModel,
        TurnInput::ToolResult(_, _) => t.phase == TurnPhase::AwaitingTool,
    }
}

/// The step a turn takes on one input.
pub open spec fn input_step(t: TurnView, input: TurnInput) -> (
    TurnView,
    Seq<AgentEventView>,
    TurnActionView,
) {
    match input {
        TurnInput::Reply(r) => reply_step(t, r),
        TurnInput::ToolResult(n, res) => tool_step(t, n, res),
    }
}

/// A turn handed a sequence of inputs, for as long as each is the one it
/// awaits: the turn after them and all the events it reported, in order.
pub open spec fn turn_run(t: TurnView, inputs: Seq<TurnInput>) -> (TurnView, Seq<AgentEventView>)
    decreases inputs.len(),
{
    if inputs.len() == 0 || !input_fits(t, inputs[0]) {
        (t, seq![])
    } else {
        let s = input_step(t, inputs[0]);
        let rest = turn_run(s.0, inputs.drop_first());
        (rest.0, s.1 + rest.1)
    }
}

/// Law over a whole turn: whatever replies and tool results it is handed,
/// the history it started with stays its prefix; only the last event it
/// reports can end it, and one does exactly when the turn has finished; a
/// `Done` carries the final history, whose last entry is a reply of the
/// model that calls no tool.
pub proof fn lemma_turn_run(t: TurnView, inputs: Seq<TurnInput>)
    requires
        turn_wf(t),
        t.phase != TurnPhase::Finished,
    ensures
        ({
            let (t2, ev) = turn_run(t, inputs);
            &&& turn_wf(t2)
            &&& t.history.len() <= t2.history.len()
            &&& t2.history.subrange(0, t.history.len() as int) == t.history
            &&& forall|i: int| 0 <= i < ev.len() - 1 ==> !is_terminal(#[trigger] ev[i])
            &&& (ev.len() > 0 && is_terminal(ev.last())) <==> t2.phase == TurnPhase::Finished
            &&& (ev.len() > 0 && ev.last() is Done) ==> {
                &&& ev.last()->Done_0 == t2.history
                &&& t2.history.last() matches ChatMessageView::Assistant { tool_calls, .. }
                &&& tool_calls.len() == 0
            }
        }),
    decreases inputs.len(),
{
    let (t2, ev) = turn_run(t, inputs);
    if inputs.len() == 0 || !input_fits(t, inputs[0]) {
        assert(t.history.subrange(0, t.history.len() as int) =~= t.history);
    } else {
        let s = match inputs[0] {
            TurnInput::Reply(r) => reply_step(t, r),
            TurnInput::ToolResult(n, res) => tool_step(t, n, res),
        };
        match inputs[0] {
            TurnInput::Reply(r) => {
                lemma_reply_step_well_behaved(t, r);
                lemma_history_only_grows(t, r, 0, Ok(seq![]));
            },
            TurnInput::ToolResult(n, res) => {
                lemma_tool_step_well_behaved(t, n, res);
                lemma_history_only_grows(t, Ok(ModelReplyView { message: None, text: seq![] }), n, res);
                assert(tool_step(t, n, res).0.history.subrange(0, t.history.len() as int)
                    =~= t.history);
            },
        }
        let rest = turn_run(s.0, inputs.drop_first());
        if s.0.phase == TurnPhase::Finished {
            assert(!input_fits(s.0, inputs.drop_first()[0]) || inputs.drop_first().len() == 0);
            assert(rest.1 =~= Seq::<AgentEventView>::empty());
            assert(ev =~= s.1);
            assert(s.0.history.subrange(0, s.0.history.len() as int) =~= s.0.history);
            if ev.len() > 0 && ev.last() is Done {
                if let TurnInput::Reply(r) = inputs[0] {
                    lemma_reply_without_tools_is_done(t, r->Ok_0);
                }
            }
        } else {
            lemma_turn_run(s.0, inputs.drop_first());
            assert(ev == s.1 + rest.1);
            assert(t2.history.subrange(0, t.history.len() as int) =~= s.0.history.subrange(
                0,
                t.history.len() as int,
            ));
            assert forall|i: int| 0 <= i < ev.len() - 1 implies !is_terminal(#[trigger] ev[i]) by {
                if i < s.1.len() {
                    assert(ev[i] == s.1[i]);
                    if i == s.1.len() - 1 {
                        assert(s.1.last() == s.1[i]);
                    }
                } else {
                    assert(ev[i] == rest.1[i - s.1.len()]);
                }
            }
            if rest.1.len() > 0 {
                assert(ev.last() == rest.1.last());
            } else {
                assert(ev =~= s.1);
                if s.1.len() > 0 {
                    assert(!is_terminal(s.1.last()));
                }
            }
        }
    }
}

/// Law: a turn fails only when the request fails, the reply has no
/// `message`, or the tool call about to run has no `function`; a tool that
/// returns an error never fails the turn.
pub proof fn lemma_failure_causes(
    t: TurnView,
    reply: Result<ModelReplyView, Seq<char>>,
    number: int,
    result: Result<Seq<char>, Seq<char>>,
)
    requires
        turn_wf(t),
    ensures
        t.phase == TurnPhase::AwaitingModel && reply_step(t, reply).1.len() > 0 && reply_step(
            t,
            reply,
        ).1.last() is Failed ==> (reply is Err || reply->Ok_0.message is None || reply_calls(
            reply->Ok_0.message->0,
        )[0].function is None),
        t.phase == TurnPhase::AwaitingTool && tool_step(t, number, result).1.len() > 0
            && tool_step(t, number, result).1.last() is Failed ==> t.next + 1 < t.calls.len()
            && t.calls[t.next + 1].function is None,
{
}

/// Law: a finished turn takes nothing more: whatever it is handed, it asks
/// the model nothing, runs no tool and reports no event.
pub proof fn lemma_finished_turn_is_still(t: TurnView, inputs: Seq<TurnInput>)
    requires
        t.phase == TurnPhase::Finished,
    ensures
        turn_run(t, inputs) == (t, Seq::<AgentEventView>::empty()),
{
}

/// Whether an input, handed to a turn that awaits it, fails the turn: the
/// request failed, the reply has no `message`, or the tool call about to
/// start has no `function`. A tool's own error is no such cause.
pub open spec fn failure_cause(t: TurnView, input: TurnInput) -> bool {
    match input {
        TurnInput::Reply(r) => t.phase == TurnPhase::AwaitingModel && match r {
            Err(_) => true,
            Ok(reply) => match reply.message {
                None => true,
                Some(m) => reply_calls(m).len() > 0 && reply_calls(m)[0].function is None,
            },
        },
        TurnInput::ToolResult(_, _) => {
            &&& t.phase == TurnPhase::AwaitingTool
            &&& t.next + 1 < t.calls.len()
            &&& t.calls[t.next + 1].function is None
        },
    }
}

/// Whether one of the inputs that a turn takes meets a failure cause.
pub open spec fn fails_within(t: TurnView, inputs: Seq<TurnInput>) -> bool
    decreases inputs.len(),
{
    if inputs.len() == 0 || !input_fits(t, inputs[0]) {
        false
    } else if failure_cause(t, inputs[0]) {
        true
    } else {
        fails_within(input_step(t, inputs[0]).0, inputs.drop_first())
    }
}

proof fn lemma_step_failure(t: TurnView, input: TurnInput)
    requires
        turn_wf(t),
        input_fits(t, input),
    ensures
        failure_cause(t, input) ==> {
            let ev = input_step(t, input).1;
            ev.len() > 0 && ev.last() is Failed
        },
        !failure_cause(t, input) ==> forall|i: int|
            0 <= i < input_step(t, input).1.len() ==> !(#[trigger] input_step(t, input).1[i] is Failed),
{
    let s = input_step(t, input);
    match input {
        TurnInput::Reply(r) => {
            if let Ok(reply) = r {
                if let Some(m) = reply.message {
                    let text = reply_content(m);
                    let calls = reply_calls(m);
                    let shown: Seq<AgentEventView> = if is_blank(text) {
                        seq![]
                    } else {
                        seq![AgentEventView::Line(LineView::Assistant(text))]
                    };
                    let h = t.history.push(
                        ChatMessageView::Assistant { content: text, tool_calls: calls },
                    );
                    if calls.len() == 0 {
                        assert(s.1 == shown.push(AgentEventView::Done(h)));
                        assert forall|i: int| 0 <= i < s.1.len() implies !(#[trigger] s.1[i] is Failed) by {
                            if i < shown.len() {
                                assert(s.1[i] == shown[i]);
                            }
                        }
                    } else {
                        let b = begin_call(
                            TurnView { history: h, calls, next: 0, phase: TurnPhase::AwaitingTool },
                        );
                        assert(s.1 == shown + b.1);
                        assert(b.1.len() == 1);
                        assert(s.1.last() == b.1[0]);
                        assert forall|i: int| 0 <= i < s.1.len() && !failure_cause(t, input) implies !(
                        #[trigger] s.1[i] is Failed) by {
                            if i < shown.len() {
                                assert(s.1[i] == shown[i]);
                            } else {
                                assert(s.1[i] == b.1[i - shown.len()]);
                            }
                        }
                    }
                }
            }
        },
        TurnInput::ToolResult(n, res) => {
            let name = function_name(t.calls[t.next].function->0);
            let content = match res {
                Ok(c) => c,
                Err(e) => e,
            };
            let line = AgentEventView::Line(
                LineView::Tool(finished_line(name, content, res is Err)),
            );
            let h = t.history.push(ChatMessageView::Tool { content, tool_call_id: call_id(n) });
            if t.next + 1 < t.calls.len() {
                let b = begin_call(TurnView { history: h, next: t.next + 1, ..t });
                assert(s.1 == seq![line] + b.1);
                assert(b.1.len() == 1);
                assert(s.1.last() == b.1[0]);
                assert forall|i: int| 0 <= i < s.1.len() && !failure_cause(t, input) implies !(
                #[trigger] s.1[i] is Failed) by {
                    if i > 0 {
                        assert(s.1[i] == b.1[i - 1]);
                    }
                }
            }
        },
    }
}

/// Law over a whole turn: whatever replies and tool results it is handed,
/// it ends in `Failed` exactly when one of the inputs it takes fails it: a
/// failed request, a reply without `message`, or a tool call without
/// `function` about to start. A tool that returns an error never fails it.
pub proof fn lemma_turn_fails_iff(t: TurnView, inputs: Seq<TurnInput>)
    requires
        turn_wf(t),
        t.phase != TurnPhase::Finished,
    ensures
        ({
            let ev = turn_run(t, inputs).1;
            (ev.len() > 0 && ev.last() is Failed) <==> fails_within(t, inputs)
        }),
    decreases inputs.len(),
{
    if inputs.len() > 0 && input_fits(t, inputs[0]) {
        let s = input_step(t, inputs[0]);
        let rest = inputs.drop_first();
        let r = turn_run(s.0, rest);
        let ev = turn_run(t, inputs).1;
        assert(ev == s.1 + r.1);
        assert(fails_within(t, inputs) == (failure_cause(t, inputs[0]) || fails_within(s.0, rest)));
        lemma_step_failure(t, inputs[0]);
        match inputs[0] {
            TurnInput::Reply(rp) => lemma_reply_step_well_behaved(t, rp),
            TurnInput::ToolResult(n, res) => lemma_tool_step_well_behaved(t, n, res),
        }
        if s.0.phase == TurnPhase::Finished {
            assert(rest.len() == 0 || !input_fits(s.0, rest[0]));
            assert(r.1 =~= Seq::<AgentEventView>::empty());
            assert(ev =~= s.1);
            assert(!fails_within(s.0, rest));
            if !failure_cause(t, inputs[0]) && s.1.len() > 0 {
                assert(!(s.1[s.1.len() - 1] is Failed));
            }
        } else {
            lemma_turn_fails_iff(s.0, rest);
            if r.1.len() > 0 {
                assert(ev.last() == r.1.last());
            } else {
                assert(ev =~= s.1);
                if s.1.len() > 0 {
                    assert(!is_terminal(s.1.last()));
                }
            }
            if failure_cause(t, inputs[0]) {
                assert(s.1.last() is Failed);
                assert(is_terminal(s.1.last()));
            }
        }
    }
}

/// The histories that a turn asks the model with while it takes the inputs,
/// in order: each time a step's action is `AskModel`, the history then.
pub open spec fn asks(t: TurnView, inputs: Seq<TurnInput>) -> Seq<Seq<ChatMessageView>>
    decreases inputs.len(),
{
    if inputs.len() == 0 || !input_fits(t, inputs[0]) {
        seq![]
    } else {
        let s = input_step(t, inputs[0]);
        let here: Seq<Seq<ChatMessageView>> = if s.2 is AskModel {
            seq![s.0.history]
        } else {
            seq![]
        };
        here + asks(s.0, inputs.drop_first())
    }
}

/// How many of the inputs that a turn takes are replies of the model.
pub open spec fn replies_taken(t: TurnView, inputs: Seq<TurnInput>) -> nat
    decreases inputs.len(),
{
    if inputs.len() == 0 || !input_fits(t, inputs[0]) {
        0
    } else {
        (if inputs[0] is Reply {
            1nat
        } else {
            0nat
        }) + replies_taken(input_step(t, inputs[0]).0, inputs.drop_first())
    }
}

/// The requests of a turn that starts by asking the model: its history
/// first, then each one it asks with later.
pub open spec fn requests(t: TurnView, inputs: Seq<TurnInput>) -> Seq<Seq<ChatMessageView>> {
    seq![t.history] + asks(t, inputs)
}

/// Whether `b` holds all of `a` and more after it.
pub open spec fn extends(a: Seq<ChatMessageView>, b: Seq<ChatMessageView>) -> bool {
    a.len() < b.len() && a.is_prefix_of(b)
}

proof fn lemma_asks_grow(t: TurnView, inputs: Seq<TurnInput>)
    requires
        turn_wf(t),
        t.phase != TurnPhase::Finished,
    ensures
        ({
            let a = asks(t, inputs);
            let t2 = turn_run(t, inputs).0;
            let pending = |p: TurnPhase| if p == TurnPhase::AwaitingModel {
                1int
            } else {
                0int
            };
            &&& forall|k: int| 0 < k < a.len() ==> extends(a[k - 1], #[trigger] a[k])
            &&& a.len() > 0 ==> extends(t.history, a[0])
            &&& t2.phase == TurnPhase::AwaitingModel ==> t2.history == (if a.len() > 0 {
                a.last()
            } else {
                t.history
            })
            &&& replies_taken(t, inputs) + pending(t2.phase) == a.len() + pending(t.phase)
        }),
    decreases inputs.len(),
{
    if inputs.len() > 0 && input_fits(t, inputs[0]) {
        let s = input_step(t, inputs[0]);
        let rest = inputs.drop_first();
        let a = asks(t, inputs);
        let a2 = asks(s.0, rest);
        match inputs[0] {
            TurnInput::Reply(rp) => {
                lemma_reply_step_well_behaved(t, rp);
                lemma_history_only_grows(t, rp, 0, Ok(seq![]));
            },
            TurnInput::ToolResult(n, res) => {
                lemma_tool_step_well_behaved(t, n, res);
                lemma_history_only_grows(t, Ok(ModelReplyView { message: None, text: seq![] }), n, res);
            },
        }
        if s.0.phase == TurnPhase::Finished {
            assert(rest.len() == 0 || !input_fits(s.0, rest[0]));
            assert(a2 =~= Seq::<Seq<ChatMessageView>>::empty());
            assert(a =~= Seq::<Seq<ChatMessageView>>::empty());
            assert(replies_taken(s.0, rest) == 0);
        } else {
            lemma_asks_grow(s.0, rest);
            if s.2 is AskModel {
                assert(inputs[0] is ToolResult);
                assert(a == seq![s.0.history] + a2);
                assert(extends(t.history, s.0.history)) by {
                    assert(t.history =~= s.0.history.subrange(0, t.history.len() as int));
                }
                assert forall|k: int| 0 < k < a.len() implies extends(a[k - 1], #[trigger] a[k]) by {
                    assert(a[k] == a2[k - 1]);
                    if k > 1 {
                        assert(a[k - 1] == a2[k - 2]);
                    }
                }
            } else {
                assert(a =~= a2);
                if a2.len() > 0 {
                    let h0 = t.history;
                    let h1 = s.0.history;
                    let h2 = a2[0];
                    assert(extends(h0, h1)) by {
                        match inputs[0] {
                            TurnInput::Reply(rp) => {
                                assert(h1.len() == h0.len() + 1);
                            },
                            TurnInput::ToolResult(n, res) => {
                                assert(h0 =~= h1.subrange(0, h0.len() as int));
                            },
                        }
                    }
                    assert(h0 =~= h2.subrange(0, h0.len() as int)) by {
                        assert(h2.subrange(0, h0.len() as int) =~= h2.subrange(
                            0,
                            h1.len() as int,
                        ).subrange(0, h0.len() as int));
                    }
                }
            }
        }
    }
}

/// Law over the requests of a turn: the first carries the history the turn
/// started with, each later one carries the one before and what the turn
/// added since; while the model's answer is awaited, the last one carries
/// the turn's whole history; and every reply taken answers one request, so
/// that once the turn has finished no request is left and none follows.
pub proof fn lemma_turn_requests(t: TurnView, inputs: Seq<TurnInput>)
    requires
        turn_wf(t),
        t.phase == TurnPhase::AwaitingModel,
    ensures
        ({
            let q = requests(t, inputs);
            let t2 = turn_run(t, inputs).0;
            &&& q[0] == t.history
            &&& forall|k: int| 0 < k < q.len() ==> extends(q[k - 1], #[trigger] q[k])
            &&& t2.phase == TurnPhase::AwaitingModel ==> q.last() == t2.history
            &&& t2.phase == TurnPhase::AwaitingModel ==> replies_taken(t, inputs) + 1 == q.len()
            &&& t2.phase != TurnPhase::AwaitingModel ==> replies_taken(t, inputs) == q.len()
        }),
{
    lemma_asks_grow(t, inputs);
    let a = asks(t, inputs);
    let q = requests(t, inputs);
    assert forall|k: int| 0 < k < q.len() implies extends(q[k - 1], #[trigger] q[k]) by {
        assert(q[k] == a[k - 1]);
        if k > 1 {
            assert(q[k - 1] == a[k - 2]);
        }
    }
}

} // verus!
