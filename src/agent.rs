//! The conversation engine. An [`Agent`] owns the message history and
//! decides, turn by turn, what happens next: send the history to the chat
//! backend, dispatch a requested tool, finish with the backend's answer, or
//! fail. Whoever drives it performs each [`Action`] and hands back what came
//! of it.

use crate::text::{trim_text, trimmed};
use crate::tool::{ToolError, ToolErrorView};
use vstd::prelude::*;

verus! {

/// The number of model turns a run may take when the caller gives no bound.
pub const DEFAULT_ITERATION: u32 = 5;

/// A tool invocation that the backend requested.
pub struct ToolCall {
    /// The backend's token that ties the result to the request.
    pub call_id: String,
    /// The name of the requested tool.
    pub fn_name: String,
    /// The arguments, as JSON text.
    pub fn_arguments: String,
}

pub struct ToolCallView {
    pub call_id: Seq<char>,
    pub fn_name: Seq<char>,
    pub fn_arguments: Seq<char>,
}

impl View for ToolCall {
    type V = ToolCallView;

    open spec fn view(&self) -> ToolCallView {
        ToolCallView {
            call_id: self.call_id@,
            fn_name: self.fn_name@,
            fn_arguments: self.fn_arguments@,
        }
    }
}

pub open spec fn calls_view(v: Seq<ToolCall>) -> Seq<ToolCallView> {
    v.map_values(|c: ToolCall| c@)
}

impl ToolCall {
    /// A copy of the call.
    pub fn duplicate(&self) -> (r: ToolCall)
        ensures
            r@ == self@,
    {
        ToolCall {
            call_id: self.call_id.clone(),
            fn_name: self.fn_name.clone(),
            fn_arguments: self.fn_arguments.clone(),
        }
    }
}

fn duplicate_calls(v: &Vec<ToolCall>) -> (r: Vec<ToolCall>)
    ensures
        calls_view(r@) == calls_view(v@),
{
    let mut r: Vec<ToolCall> = Vec::new();
    let mut i: usize = 0;
    while i < v.len()
        invariant
            0 <= i <= v.len(),
            calls_view(r@) == calls_view(v@).take(i as int),
        decreases v.len() - i,
    {
        let c = v[i].duplicate();
        let ghost r0 = r@;
        r.push(c);
        assert(calls_view(r@) =~= calls_view(r0).push(c@));
        i = i + 1;
        assert(calls_view(v@).take(i as int) =~= calls_view(v@).take(i - 1).push(v@[i - 1]@));
    }
    assert(calls_view(v@).take(i as int) =~= calls_view(v@));
    r
}

/// One entry of the conversation.
pub enum ChatMessage {
    System(String),
    User(String),
    Assistant(String),
    /// All tool calls that the backend requested in one turn, in its order.
    ToolCalls(Vec<ToolCall>),
    /// The result of one tool call.
    ToolResponse { call_id: String, content: String },
}

pub enum MessageView {
    System(Seq<char>),
    User(Seq<char>),
    Assistant(Seq<char>),
    ToolCalls(Seq<ToolCallView>),
    ToolResponse { call_id: Seq<char>, content: Seq<char> },
}

impl View for ChatMessage {
    type V = MessageView;

    open spec fn view(&self) -> MessageView {
        match self {
            ChatMessage::System(t) => MessageView::System(t@),
            ChatMessage::User(t) => MessageView::User(t@),
            ChatMessage::Assistant(t) => MessageView::Assistant(t@),
            ChatMessage::ToolCalls(cs) => MessageView::ToolCalls(calls_view(cs@)),
            ChatMessage::ToolResponse { call_id, content } => MessageView::ToolResponse {
                call_id: call_id@,
                content: content@,
            },
        }
    }
}

pub open spec fn messages_view(v: Seq<ChatMessage>) -> Seq<MessageView> {
    v.map_values(|m: ChatMessage| m@)
}

/// What the chat backend answered in one turn.
pub enum Reply {
    /// A text answer.
    Text(String),
    /// Requests to run tools.
    ToolCalls(Vec<ToolCall>),
    /// No content at all.
    Empty,
    /// Content of a kind the engine does not handle, described.
    Unsupported(String),
}

pub enum ReplyView {
    Text(Seq<char>),
    ToolCalls(Seq<ToolCallView>),
    Empty,
    Unsupported(Seq<char>),
}

impl View for Reply {
    type V = ReplyView;

    open spec fn view(&self) -> ReplyView {
        match self {
            Reply::Text(t) => ReplyView::Text(t@),
            Reply::ToolCalls(cs) => ReplyView::ToolCalls(calls_view(cs@)),
            Reply::Empty => ReplyView::Empty,
            Reply::Unsupported(d) => ReplyView::Unsupported(d@),
        }
    }
}

/// Why a run failed.
pub enum RunError {
    /// The backend requested a tool, but the run has no tools.
    NoToolbox(String),
    /// The requested tool does not exist.
    ToolNotFound(String),
    /// The backend answered with neither text nor tool calls.
    EmptyReply,
    /// The backend answered with content the engine does not handle.
    UnsupportedReply(String),
    /// The bound on model turns, given here, was reached without an answer.
    Exhausted(u32),
    /// An event came that the run was not waiting for.
    OutOfOrder,
    /// The chat backend or a tool session failed.
    Transport(String),
    /// The answer could not be read as the requested shape.
    Decode(String),
}

pub enum RunErrorView {
    NoToolbox(Seq<char>),
    ToolNotFound(Seq<char>),
    EmptyReply,
    UnsupportedReply(Seq<char>),
    Exhausted(nat),
    OutOfOrder,
    Transport(Seq<char>),
    Decode(Seq<char>),
}

impl View for RunError {
    type V = RunErrorView;

    open spec fn view(&self) -> RunErrorView {
        match self {
            RunError::NoToolbox(n) => RunErrorView::NoToolbox(n@),
            RunError::ToolNotFound(n) => RunErrorView::ToolNotFound(n@),
            RunError::EmptyReply => RunErrorView::EmptyReply,
            RunError::UnsupportedReply(d) => RunErrorView::UnsupportedReply(d@),
            RunError::Exhausted(b) => RunErrorView::Exhausted(*b as nat),
            RunError::OutOfOrder => RunErrorView::OutOfOrder,
            RunError::Transport(m) => RunErrorView::Transport(m@),
            RunError::Decode(m) => RunErrorView::Decode(m@),
        }
    }
}

/// What the driver of a run does next.
pub enum Action {
    /// Send the whole history, with the tools if any, to the backend.
    Request { iteration: u32 },
    /// Run this tool and hand its result to [`Agent::on_tool_result`].
    CallTool(ToolCall),
    /// The run is over: decode `answer` into the requested shape.
    Finish { answer: String, iteration: u32 },
    /// The run is over and failed.
    Fail(RunError),
}

pub enum ActionView {
    Request { iteration: nat },
    CallTool(ToolCallView),
    Finish { answer: Seq<char>, iteration: nat },
    Fail(RunErrorView),
}

impl View for Action {
    type V = ActionView;

    open spec fn view(&self) -> ActionView {
        match self {
            Action::Request { iteration } => ActionView::Request { iteration: *iteration as nat },
            Action::CallTool(c) => ActionView::CallTool(c@),
            Action::Finish { answer, iteration } => ActionView::Finish {
                answer: answer@,
                iteration: *iteration as nat,
            },
            Action::Fail(e) => ActionView::Fail(e@),
        }
    }
}

/// Where a run stands.
pub enum Phase {
    /// No run is going on.
    Idle,
    /// A request is out; the backend's reply is awaited.
    AwaitingReply,
    /// A tool call is out; `queue` holds the turn's later calls.
    AwaitingTool { call_id: String, queue: Vec<ToolCall> },
}

pub enum PhaseView {
    Idle,
    AwaitingReply,
    AwaitingTool { call_id: Seq<char>, queue: Seq<ToolCallView> },
}

impl View for Phase {
    type V = PhaseView;

    open spec fn view(&self) -> PhaseView {
        match self {
            Phase::Idle => PhaseView::Idle,
            Phase::AwaitingReply => PhaseView::AwaitingReply,
            Phase::AwaitingTool { call_id, queue } => PhaseView::AwaitingTool {
                call_id: call_id@,
                queue: calls_view(queue@),
            },
        }
    }
}

/// A conversation with a chat backend, and the run going on in it.
pub struct Agent {
    history: Vec<ChatMessage>,
    phase: Phase,
    iteration: u32,
    max_iterations: u32,
    has_toolbox: bool,
}

pub struct AgentView {
    pub history: Seq<MessageView>,
    pub phase: PhaseView,
    pub iteration: nat,
    pub max_iterations: nat,
    pub has_toolbox: bool,
}

impl View for Agent {
    type V = AgentView;

    closed spec fn view(&self) -> AgentView {
        AgentView {
            history: messages_view(self.history@),
            phase: self.phase@,
            iteration: self.iteration as nat,
            max_iterations: self.max_iterations as nat,
            has_toolbox: self.has_toolbox,
        }
    }
}

/// A run in progress has turns left.
pub open spec fn agent_wf(s: AgentView) -> bool {
    &&& s.max_iterations <= u32::MAX
    &&& !(s.phase is Idle) ==> s.iteration < s.max_iterations
}

/// Ends the run with a failure; the history stays.
pub open spec fn fail_with(s: AgentView, e: RunErrorView) -> (AgentView, ActionView) {
    (AgentView { phase: PhaseView::Idle, ..s }, ActionView::Fail(e))
}

/// Starting a run: the prompt joins the history and the first request goes
/// out, unless the bound allows no turn at all.
pub open spec fn start_step(s: AgentView, prompt: Seq<char>, bound: nat, has_toolbox: bool) -> (
    AgentView,
    ActionView,
) {
    let h = s.history.push(MessageView::User(prompt));
    if bound == 0 {
        (
            AgentView {
                history: h,
                phase: PhaseView::Idle,
                iteration: 0,
                max_iterations: 0,
                has_toolbox,
            },
            ActionView::Fail(RunErrorView::Exhausted(0)),
        )
    } else {
        (
            AgentView {
                history: h,
                phase: PhaseView::AwaitingReply,
                iteration: 0,
                max_iterations: bound,
                has_toolbox,
            },
            ActionView::Request { iteration: 0 },
        )
    }
}

/// The backend's reply: text finishes the run, tool calls are recorded as
/// one message and the first goes out, anything else fails the run.
pub open spec fn reply_step(s: AgentView, reply: ReplyView) -> (AgentView, ActionView) {
    if !(s.phase is AwaitingReply) {
        (s, ActionView::Fail(RunErrorView::OutOfOrder))
    } else {
        match reply {
            ReplyView::Text(t) => (
                AgentView {
                    history: s.history.push(MessageView::Assistant(t)),
                    phase: PhaseView::Idle,
                    ..s
                },
                ActionView::Finish { answer: t, iteration: s.iteration },
            ),
            ReplyView::ToolCalls(cs) => if cs.len() == 0 {
                fail_with(s, RunErrorView::EmptyReply)
            } else {
                let h = s.history.push(MessageView::ToolCalls(cs));
                if !s.has_toolbox {
                    fail_with(
                        AgentView { history: h, ..s },
                        RunErrorView::NoToolbox(cs[0].fn_name),
                    )
                } else {
                    (
                        AgentView {
                            history: h,
                            phase: PhaseView::AwaitingTool {
                                call_id: cs[0].call_id,
                                queue: cs.drop_first(),
                            },
                            ..s
                        },
                        ActionView::CallTool(cs[0]),
                    )
                }
            },
            ReplyView::Empty => fail_with(s, RunErrorView::EmptyReply),
            ReplyView::Unsupported(d) => fail_with(s, RunErrorView::UnsupportedReply(d)),
        }
    }
}

/// The text recorded for a tool call that did not fail fatally.
pub open spec fn response_text(result: Result<Seq<char>, ToolErrorView>) -> Seq<char> {
    match result {
        Ok(t) => t,
        Err(e) => error_view_message(e),
    }
}

pub open spec fn error_view_message(e: ToolErrorView) -> Seq<char> {
    match e {
        ToolErrorView::ToolsDefinitionNotReady => ToolError::ToolsDefinitionNotReady.spec_message(),
        ToolErrorView::NoToolFound(n) => crate::tool::not_found_message(n),
        ToolErrorView::ExecutionError => ToolError::ExecutionError.spec_message(),
        ToolErrorView::Other(m) => m,
    }
}

/// A tool's result that does not end the run, recorded under its call id.
pub open spec fn record_step(
    s: AgentView,
    call_id: Seq<char>,
    queue: Seq<ToolCallView>,
    result: Result<Seq<char>, ToolErrorView>,
) -> (AgentView, ActionView) {
    let h = s.history.push(
        MessageView::ToolResponse { call_id, content: response_text(result) },
    );
    if queue.len() > 0 {
        (
            AgentView {
                history: h,
                phase: PhaseView::AwaitingTool {
                    call_id: queue[0].call_id,
                    queue: queue.drop_first(),
                },
                ..s
            },
            ActionView::CallTool(queue[0]),
        )
    } else if s.iteration + 1 < s.max_iterations {
        (
            AgentView {
                history: h,
                phase: PhaseView::AwaitingReply,
                iteration: s.iteration + 1,
                ..s
            },
            ActionView::Request { iteration: s.iteration + 1 },
        )
    } else {
        fail_with(
            AgentView { history: h, ..s },
            RunErrorView::Exhausted(s.max_iterations),
        )
    }
}

/// A tool's result: a missing tool fails the run; otherwise the result, or
/// the failure's description, is recorded under the call id, and the next
/// call of the turn goes out, or else the next turn begins if the bound
/// allows one.
pub open spec fn tool_step(s: AgentView, result: Result<Seq<char>, ToolErrorView>) -> (
    AgentView,
    ActionView,
) {
    match s.phase {
        PhaseView::AwaitingTool { call_id, queue } => {
            match result {
                Err(ToolErrorView::NoToolFound(n)) => fail_with(s, RunErrorView::ToolNotFound(n)),
                _ => record_step(s, call_id, queue, result),
            }
        },
        _ => (s, ActionView::Fail(RunErrorView::OutOfOrder)),
    }
}

pub open spec fn tool_result_view(r: Result<String, ToolError>) -> Result<Seq<char>, ToolErrorView> {
    match r {
        Ok(t) => Ok(t@),
        Err(e) => Err(e@),
    }
}

impl Agent {
    /// A conversation that begins with the system message, trimmed.
    pub fn new(system: &str) -> (r: Agent)
        ensures
            r@.history == seq![MessageView::System(trimmed(system@))],
            r@.phase is Idle,
            agent_wf(r@),
    {
        let text = trim_text(system);
        let mut history: Vec<ChatMessage> = Vec::new();
        history.push(ChatMessage::System(text));
        let r = Agent {
            history,
            phase: Phase::Idle,
            iteration: 0,
            max_iterations: 0,
            has_toolbox: false,
        };
        assert(r@.history =~= seq![MessageView::System(trimmed(system@))]);
        r
    }

    /// The conversation so far, oldest message first.
    pub fn history(&self) -> (r: &Vec<ChatMessage>)
        ensures
            messages_view(r@) == self@.history,
    {
        &self.history
    }

    /// Whether a run is going on.
    pub fn is_running(&self) -> (r: bool)
        ensures
            r == !(self@.phase is Idle),
    {
        match self.phase {
            Phase::Idle => false,
            _ => true,
        }
    }

    /// Forgets the whole conversation, the system message included.
    pub fn clear_history(&mut self)
        requires
            agent_wf(old(self)@),
        ensures
            final(self)@ == (AgentView { history: Seq::empty(), ..old(self)@ }),
            agent_wf(final(self)@),
    {
        self.history = Vec::new();
        assert(messages_view(self.history@) =~= Seq::<MessageView>::empty());
    }

    /// Begins a run: `prompt` joins the history, and at most `iteration`
    /// model turns ([`DEFAULT_ITERATION`] if not given) may follow.
    /// `has_toolbox` says whether tools can be dispatched. The history of
    /// earlier runs is kept; a run still in progress is abandoned.
    pub fn start(&mut self, prompt: String, iteration: Option<u32>, has_toolbox: bool) -> (r: Action)
        ensures
            agent_wf(final(self)@),
            (final(self)@, r@) == start_step(
                old(self)@,
                prompt@,
                match iteration {
                    Some(b) => b as nat,
                    None => DEFAULT_ITERATION as nat,
                },
                has_toolbox,
            ),
    {
        let bound = match iteration {
            Some(b) => b,
            None => DEFAULT_ITERATION,
        };
        let ghost h0 = self.history@;
        self.history.push(ChatMessage::User(prompt));
        assert(messages_view(self.history@) =~= messages_view(h0).push(MessageView::User(prompt@)));
        self.iteration = 0;
        self.max_iterations = bound;
        self.has_toolbox = has_toolbox;
        if bound == 0 {
            self.phase = Phase::Idle;
            Action::Fail(RunError::Exhausted(0))
        } else {
            self.phase = Phase::AwaitingReply;
            Action::Request { iteration: 0 }
        }
    }

    /// Takes the backend's reply to the last request.
    pub fn on_reply(&mut self, reply: Reply) -> (r: Action)
        requires
            agent_wf(old(self)@),
        ensures
            agent_wf(final(self)@),
            (final(self)@, r@) == reply_step(old(self)@, reply@),
    {
        match self.phase {
            Phase::AwaitingReply => {},
            _ => {
                return Action::Fail(RunError::OutOfOrder);
            },
        }
        let ghost h0 = self.history@;
        match reply {
            Reply::Text(t) => {
                let answer = t.clone();
                self.history.push(ChatMessage::Assistant(t));
                assert(messages_view(self.history@) =~= messages_view(h0).push(
                    MessageView::Assistant(answer@),
                ));
                self.phase = Phase::Idle;
                Action::Finish { answer, iteration: self.iteration }
            },
            Reply::ToolCalls(calls) => {
                if calls.len() == 0 {
                    self.phase = Phase::Idle;
                    return Action::Fail(RunError::EmptyReply);
                }
                let mut queue = duplicate_calls(&calls);
                let ghost cs = calls_view(calls@);
                self.history.push(ChatMessage::ToolCalls(calls));
                assert(messages_view(self.history@) =~= messages_view(h0).push(
                    MessageView::ToolCalls(cs),
                ));
                assert(calls_view(queue@)[0] == cs[0]);
                let first = queue.remove(0);
                assert(calls_view(queue@) =~= cs.drop_first());
                if !self.has_toolbox {
                    self.phase = Phase::Idle;
                    return Action::Fail(RunError::NoToolbox(first.fn_name));
                }
                self.phase = Phase::AwaitingTool { call_id: first.call_id.clone(), queue };
                Action::CallTool(first)
            },
            Reply::Empty => {
                self.phase = Phase::Idle;
                Action::Fail(RunError::EmptyReply)
            },
            Reply::Unsupported(d) => {
                self.phase = Phase::Idle;
                Action::Fail(RunError::UnsupportedReply(d))
            },
        }
    }

    /// Takes the result of the tool call that is out.
    pub fn on_tool_result(&mut self, result: Result<String, ToolError>) -> (r: Action)
        requires
            agent_wf(old(self)@),
        ensures
            agent_wf(final(self)@),
            (final(self)@, r@) == tool_step(old(self)@, tool_result_view(result)),
    {
        let ghost s0 = self@;
        let mut phase = Phase::Idle;
        std::mem::swap(&mut self.phase, &mut phase);
        match phase {
            Phase::AwaitingTool { call_id, queue } => {
                let ghost q = calls_view(queue@);
                let content = match result {
                    Ok(t) => t,
                    Err(ToolError::NoToolFound(n)) => {
                        return Action::Fail(RunError::ToolNotFound(n));
                    },
                    Err(e) => e.message(),
                };
                assert(content@ == response_text(tool_result_view(result)));
                let ghost h0 = self.history@;
                let ghost id = call_id@;
                self.history.push(ChatMessage::ToolResponse { call_id, content });
                assert(messages_view(self.history@) =~= messages_view(h0).push(
                    MessageView::ToolResponse { call_id: id, content: content@ },
                ));
                let mut queue = queue;
                if queue.len() > 0 {
                    assert(calls_view(queue@)[0] == q[0]);
                    let next = queue.remove(0);
                    assert(calls_view(queue@) =~= q.drop_first());
                    self.phase = Phase::AwaitingTool { call_id: next.call_id.clone(), queue };
                    Action::CallTool(next)
                } else if self.iteration + 1 < self.max_iterations {
                    self.iteration = self.iteration + 1;
                    self.phase = Phase::AwaitingReply;
                    Action::Request { iteration: self.iteration }
                } else {
                    Action::Fail(RunError::Exhausted(self.max_iterations))
                }
            },
            other => {
                self.phase = other;
                Action::Fail(RunError::OutOfOrder)
            },
        }
    }

    /// Ends the run with `error`, for a failure met outside the engine (the
    /// transport, a tool session, decoding). The history stays.
    pub fn abort(&mut self, error: RunError) -> (r: Action)
        requires
            agent_wf(old(self)@),
        ensures
            agent_wf(final(self)@),
            (final(self)@, r@) == fail_with(old(self)@, error@),
    {
        self.phase = Phase::Idle;
        Action::Fail(error)
    }
}


/// A run whose first reply is text ends on turn 0 with that text as its
/// answer, after one request; the history gains the prompt and the answer.
pub proof fn lemma_immediate_answer(
    s: AgentView,
    prompt: Seq<char>,
    bound: nat,
    has_toolbox: bool,
    text: Seq<char>,
)
    requires
        bound >= 1,
    ensures
        start_step(s, prompt, bound, has_toolbox).1 == (ActionView::Request { iteration: 0 }),
        reply_step(start_step(s, prompt, bound, has_toolbox).0, ReplyView::Text(text)).1 == (
        ActionView::Finish { answer: text, iteration: 0 }),
        reply_step(start_step(s, prompt, bound, has_toolbox).0, ReplyView::Text(text)).0.history
            == s.history + seq![MessageView::User(prompt), MessageView::Assistant(text)],
        reply_step(
            start_step(s, prompt, bound, has_toolbox).0,
            ReplyView::Text(text),
        ).0.phase is Idle,
{
    assert(s.history.push(MessageView::User(prompt)).push(MessageView::Assistant(text))
        =~= s.history + seq![MessageView::User(prompt), MessageView::Assistant(text)]);
}

/// The tool results of one turn, fed to the engine in the order of the calls.
pub open spec fn feed_results(s: AgentView, outs: Seq<Result<Seq<char>, ToolErrorView>>) -> (
    AgentView,
    ActionView,
)
    decreases outs.len(),
{
    if outs.len() <= 1 {
        tool_step(s, outs[0])
    } else {
        feed_results(tool_step(s, outs[0]).0, outs.drop_first())
    }
}

/// The messages that record the results of `cs`, call by call.
pub open spec fn responses(cs: Seq<ToolCallView>, outs: Seq<Result<Seq<char>, ToolErrorView>>) -> Seq<
    MessageView,
> {
    Seq::new(
        cs.len(),
        |i: int| MessageView::ToolResponse { call_id: cs[i].call_id, content: response_text(outs[i]) },
    )
}

/// A result that does not end the run.
pub open spec fn recoverable(out: Result<Seq<char>, ToolErrorView>) -> bool {
    !(out matches Err(ToolErrorView::NoToolFound(_)))
}

proof fn lemma_feed_results(
    s: AgentView,
    cs: Seq<ToolCallView>,
    outs: Seq<Result<Seq<char>, ToolErrorView>>,
)
    requires
        cs.len() >= 1,
        outs.len() == cs.len(),
        forall|i: int| 0 <= i < outs.len() ==> recoverable(#[trigger] outs[i]),
        s.phase == (PhaseView::AwaitingTool { call_id: cs[0].call_id, queue: cs.drop_first() }),
        s.iteration + 1 < s.max_iterations,
    ensures
        feed_results(s, outs) == (
        AgentView {
            history: s.history + responses(cs, outs),
            phase: PhaseView::AwaitingReply,
            iteration: s.iteration + 1,
            ..s
        },
        ActionView::Request { iteration: s.iteration + 1 },
        ),
    decreases cs.len(),
{
    assert(recoverable(outs[0]));
    let h = s.history.push(
        MessageView::ToolResponse { call_id: cs[0].call_id, content: response_text(outs[0]) },
    );
    if cs.len() == 1 {
        assert(h =~= s.history + responses(cs, outs));
    } else {
        let s1 = tool_step(s, outs[0]).0;
        let rest = outs.drop_first();
        assert forall|i: int| 0 <= i < rest.len() implies recoverable(#[trigger] rest[i]) by {
            assert(rest[i] == outs[i + 1]);
        }
        lemma_feed_results(s1, cs.drop_first(), rest);
        assert(h + responses(cs.drop_first(), rest) =~= s.history + responses(cs, outs));
    }
}

/// A turn on which the backend requests tools, followed by a turn on which it
/// answers with text: the history gains, in order, the calls as one message,
/// one result per call under the call's id, and the answer, which finishes
/// the run on the next turn.
pub proof fn lemma_tool_turn_then_answer(
    s: AgentView,
    cs: Seq<ToolCallView>,
    outs: Seq<Result<Seq<char>, ToolErrorView>>,
    text: Seq<char>,
)
    requires
        s.phase is AwaitingReply,
        s.has_toolbox,
        s.iteration + 1 < s.max_iterations,
        cs.len() >= 1,
        outs.len() == cs.len(),
        forall|i: int| 0 <= i < outs.len() ==> recoverable(#[trigger] outs[i]),
    ensures
        reply_step(s, ReplyView::ToolCalls(cs)).1 == ActionView::CallTool(cs[0]),
        feed_results(reply_step(s, ReplyView::ToolCalls(cs)).0, outs).1 == (ActionView::Request {
            iteration: s.iteration + 1,
        }),
        reply_step(
            feed_results(reply_step(s, ReplyView::ToolCalls(cs)).0, outs).0,
            ReplyView::Text(text),
        ).1 == (ActionView::Finish { answer: text, iteration: s.iteration + 1 }),
        reply_step(
            feed_results(reply_step(s, ReplyView::ToolCalls(cs)).0, outs).0,
            ReplyView::Text(text),
        ).0.history == s.history + seq![MessageView::ToolCalls(cs)] + responses(cs, outs) + seq![
            MessageView::Assistant(text),
        ],
{
    let s1 = reply_step(s, ReplyView::ToolCalls(cs)).0;
    lemma_feed_results(s1, cs, outs);
    let s2 = feed_results(s1, outs).0;
    assert(s2.history.push(MessageView::Assistant(text)) =~= s.history + seq![
        MessageView::ToolCalls(cs),
    ] + responses(cs, outs) + seq![MessageView::Assistant(text)]);
}

/// From a conversation that holds only its system message: the prompt, the
/// first turn's calls, their results, and the answer of the second turn
/// follow the system message in that order.
pub proof fn lemma_first_tool_turn_history(
    system: Seq<char>,
    s: AgentView,
    prompt: Seq<char>,
    bound: nat,
    cs: Seq<ToolCallView>,
    outs: Seq<Result<Seq<char>, ToolErrorView>>,
    text: Seq<char>,
)
    requires
        s.history == seq![MessageView::System(system)],
        bound >= 2,
        cs.len() >= 1,
        outs.len() == cs.len(),
        forall|i: int| 0 <= i < outs.len() ==> recoverable(#[trigger] outs[i]),
    ensures
        ({
            let s1 = start_step(s, prompt, bound, true).0;
            let s2 = feed_results(reply_step(s1, ReplyView::ToolCalls(cs)).0, outs).0;
            let (s3, a3) = reply_step(s2, ReplyView::Text(text));
            &&& a3 == (ActionView::Finish { answer: text, iteration: 1 })
            &&& s3.history == seq![
                MessageView::System(system),
                MessageView::User(prompt),
                MessageView::ToolCalls(cs),
            ] + responses(cs, outs) + seq![MessageView::Assistant(text)]
        }),
{
    let s1 = start_step(s, prompt, bound, true).0;
    lemma_tool_turn_then_answer(s1, cs, outs, text);
    assert(s1.history + seq![MessageView::ToolCalls(cs)] =~= seq![
        MessageView::System(system),
        MessageView::User(prompt),
        MessageView::ToolCalls(cs),
    ]);
}

/// A requested tool that cannot be dispatched ends the run: without tools
/// the reply that requests one fails the run, and a tool that is not found
/// fails it too. Nothing that comes afterwards starts another turn.
pub proof fn lemma_missing_tool_is_fatal(
    s: AgentView,
    cs: Seq<ToolCallView>,
    name: Seq<char>,
    later: ReplyView,
    later_result: Result<Seq<char>, ToolErrorView>,
)
    requires
        cs.len() >= 1,
    ensures
        s.phase is AwaitingReply && !s.has_toolbox ==> {
            let (s1, a1) = reply_step(s, ReplyView::ToolCalls(cs));
            &&& a1 == ActionView::Fail(RunErrorView::NoToolbox(cs[0].fn_name))
            &&& s1.phase is Idle
            &&& reply_step(s1, later) == (s1, ActionView::Fail(RunErrorView::OutOfOrder))
            &&& tool_step(s1, later_result) == (s1, ActionView::Fail(RunErrorView::OutOfOrder))
        },
        s.phase is AwaitingTool ==> {
            let (s1, a1) = tool_step(s, Err(ToolErrorView::NoToolFound(name)));
            &&& a1 == ActionView::Fail(RunErrorView::ToolNotFound(name))
            &&& s1.phase is Idle
            &&& s1.history == s.history
            &&& reply_step(s1, later) == (s1, ActionView::Fail(RunErrorView::OutOfOrder))
            &&& tool_step(s1, later_result) == (s1, ActionView::Fail(RunErrorView::OutOfOrder))
        },
{
}

/// Drives a run whose backend requests the tool call `c` on every turn and
/// whose tool answers `out`: the number of further requests made, and the
/// action the run ends with.
pub open spec fn tools_forever(
    s: AgentView,
    c: ToolCallView,
    out: Result<Seq<char>, ToolErrorView>,
    fuel: nat,
) -> (nat, ActionView)
    decreases fuel,
{
    if fuel == 0 {
        (0, ActionView::Fail(RunErrorView::OutOfOrder))
    } else {
        let s1 = reply_step(s, ReplyView::ToolCalls(seq![c])).0;
        let (s2, a2) = tool_step(s1, out);
        match a2 {
            ActionView::Request { .. } => {
                let (n, a) = tools_forever(s2, c, out, (fuel - 1) as nat);
                (n + 1, a)
            },
            _ => (0, a2),
        }
    }
}

proof fn lemma_tools_forever(
    s: AgentView,
    c: ToolCallView,
    out: Result<Seq<char>, ToolErrorView>,
    fuel: nat,
)
    requires
        s.phase is AwaitingReply,
        s.has_toolbox,
        s.iteration < s.max_iterations,
        recoverable(out),
        fuel >= s.max_iterations - s.iteration,
    ensures
        tools_forever(s, c, out, fuel) == (
        (s.max_iterations - s.iteration - 1) as nat,
        ActionView::Fail(RunErrorView::Exhausted(s.max_iterations)),
        ),
    decreases fuel,
{
    let s1 = reply_step(s, ReplyView::ToolCalls(seq![c])).0;
    assert(seq![c].drop_first() =~= Seq::<ToolCallView>::empty());
    if s.iteration + 1 < s.max_iterations {
        let s2 = tool_step(s1, out).0;
        lemma_tools_forever(s2, c, out, (fuel - 1) as nat);
    }
}

/// A run whose backend never answers with text, only requesting tools,
/// makes exactly `bound` requests and then fails with the bound exhausted.
pub proof fn lemma_bound_exhausted(
    s: AgentView,
    prompt: Seq<char>,
    bound: nat,
    c: ToolCallView,
    out: Result<Seq<char>, ToolErrorView>,
)
    requires
        recoverable(out),
    ensures
        bound == 0 ==> start_step(s, prompt, bound, true).1 == ActionView::Fail(
            RunErrorView::Exhausted(0),
        ),
        bound >= 1 ==> start_step(s, prompt, bound, true).1 == (ActionView::Request {
            iteration: 0,
        }) && tools_forever(start_step(s, prompt, bound, true).0, c, out, bound) == (
        (bound - 1) as nat,
        ActionView::Fail(RunErrorView::Exhausted(bound)),
        ),
{
    if bound >= 1 {
        lemma_tools_forever(start_step(s, prompt, bound, true).0, c, out, bound);
    }
}

} // verus!
