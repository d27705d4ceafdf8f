//! The agent loop of one chat turn: stream the model's reply, run the tool
//! calls it asks for, feed their results back, and stop after a clean reply,
//! an error, or too many tool rounds. The caller performs the requests and
//! tool runs; this type makes every decision.

use vstd::prelude::*;

use crate::chat::conversation::{ChatRole, MessageId};
use crate::provider::error::ProviderError;
use crate::provider::slots::opt_view;
use crate::provider::types::{
    blocks_view, messages_view, sat_add, BlockView, ChatEvent, ContentBlock, EventView, Message,
    MessageView,
};
use crate::text::decimal;

verus! {

/// Tool-call rounds allowed per turn.
pub const MAX_TOOL_ROUNDS: usize = 15;

/// What the turn reports to the UI.
#[derive(Debug)]
pub enum EngineEvent {
    TextDelta { session_id: u64, message_id: MessageId, delta: String },
    Done { session_id: u64, message_id: MessageId, stop_reason: Option<String>, tokens_out: u32 },
    Error { session_id: u64, message_id: MessageId, message: String },
    /// The model asked for a tool call; the caller runs it and reports the
    /// outcome with [`AgentTurn::tool_result`].
    ToolCall { session_id: u64, call_id: String, name: String, input_json: String },
}

pub enum EngineEventView {
    TextDelta { session_id: u64, message_id: u64, delta: Seq<char> },
    Done { session_id: u64, message_id: u64, stop_reason: Option<Seq<char>>, tokens_out: u32 },
    Error { session_id: u64, message_id: u64, message: Seq<char> },
    ToolCall { session_id: u64, call_id: Seq<char>, name: Seq<char>, input_json: Seq<char> },
}

impl View for EngineEvent {
    type V = EngineEventView;

    open spec fn view(&self) -> EngineEventView {
        match self {
            EngineEvent::TextDelta { session_id, message_id, delta } => EngineEventView::TextDelta {
                session_id: *session_id,
                message_id: message_id.0,
                delta: delta@,
            },
            EngineEvent::Done { session_id, message_id, stop_reason, tokens_out } => EngineEventView::Done {
                session_id: *session_id,
                message_id: message_id.0,
                stop_reason: opt_view(*stop_reason),
                tokens_out: *tokens_out,
            },
            EngineEvent::Error { session_id, message_id, message } => EngineEventView::Error {
                session_id: *session_id,
                message_id: message_id.0,
                message: message@,
            },
            EngineEvent::ToolCall { session_id, call_id, name, input_json } => EngineEventView::ToolCall {
                session_id: *session_id,
                call_id: call_id@,
                name: name@,
                input_json: input_json@,
            },
        }
    }
}

/// How a tool run ended for the turn.
pub enum ToolOutcome {
    /// The caller sent back the tool's output.
    Delivered { content: String, is_error: bool },
    /// The caller dropped the result channel.
    ChannelClosed,
    /// No result arrived within 60 seconds.
    TimedOut,
}

/// The text and error flag a tool outcome is reported to the model with.
pub open spec fn outcome_result(o: ToolOutcome) -> (Seq<char>, bool) {
    match o {
        ToolOutcome::Delivered { content, is_error } => (content@, is_error),
        ToolOutcome::ChannelClosed => ("Tool result channel closed."@, true),
        ToolOutcome::TimedOut => ("Tool execution timed out after 60 seconds."@, true),
    }
}

/// Where the turn stands.
#[derive(Debug, Clone, Copy, PartialEq, Eq, Structural)]
pub enum TurnPhase {
    /// Ready to send the next request.
    Ready,
    /// A reply is streaming in.
    Streaming,
    /// Reading stopped at the reply's `Done`; the stream's end is due.
    Drained,
    /// Tool calls are being run, one at a time.
    RunningTools,
    /// The turn has ended (`Done` or `Error` was reported).
    Finished,
}

/// A tool call requested in the current round.
pub struct CallView {
    pub id: Seq<char>,
    pub name: Seq<char>,
    pub input_json: Seq<char>,
}

pub struct PendingCall {
    pub id: String,
    pub name: String,
    pub input_json: String,
}

impl View for PendingCall {
    type V = CallView;

    open spec fn view(&self) -> CallView {
        CallView { id: self.id@, name: self.name@, input_json: self.input_json@ }
    }
}

pub open spec fn calls_view(v: Seq<PendingCall>) -> Seq<CallView> {
    v.map_values(|c: PendingCall| c@)
}

/// The turn's state.
pub struct TurnView {
    pub session_id: u64,
    pub message_id: u64,
    /// The request history sent with the next request.
    pub messages: Seq<MessageView>,
    /// Requests sent so far.
    pub rounds: nat,
    pub tokens_out: u32,
    pub phase: TurnPhase,
    /// Assistant text of the current round.
    pub text: Seq<char>,
    /// Tool calls of the current round.
    pub calls: Seq<CallView>,
    pub stop_reason: Option<Seq<char>>,
    /// Index of the tool call whose result is awaited.
    pub next_call: nat,
}

/// One chat turn's agent loop.
pub struct AgentTurn {
    session_id: u64,
    message_id: MessageId,
    messages: Vec<Message>,
    rounds: usize,
    tokens_out: u32,
    phase: TurnPhase,
    text: String,
    calls: Vec<PendingCall>,
    stop_reason: Option<String>,
    next_call: usize,
}

impl View for AgentTurn {
    type V = TurnView;

    closed spec fn view(&self) -> TurnView {
        TurnView {
            session_id: self.session_id,
            message_id: self.message_id.0,
            messages: messages_view(self.messages@),
            rounds: self.rounds as nat,
            tokens_out: self.tokens_out,
            phase: self.phase,
            text: self.text@,
            calls: calls_view(self.calls@),
            stop_reason: opt_view(self.stop_reason),
            next_call: self.next_call as nat,
        }
    }
}

/// The request messages for a history of `(role, text)` turns and a new
/// prompt: user and assistant turns become one text block each, tool and
/// note lines are not sent.
pub open spec fn history_messages(history: Seq<(ChatRole, Seq<char>)>) -> Seq<MessageView>
    decreases history.len(),
{
    if history.len() == 0 {
        Seq::empty()
    } else {
        let last = history.last();
        let rest = history_messages(history.drop_last());
        match last.0 {
            ChatRole::User => rest.push(MessageView::User(seq![BlockView::Text(last.1)])),
            ChatRole::Assistant => rest.push(MessageView::Assistant(seq![BlockView::Text(last.1)])),
            _ => rest,
        }
    }
}

pub open spec fn history_view(h: Seq<(ChatRole, String)>) -> Seq<(ChatRole, Seq<char>)> {
    h.map_values(|p: (ChatRole, String)| (p.0, p.1@))
}

/// The assistant message that records a round with tool calls: its text
/// (when any) followed by the calls.
pub open spec fn assistant_record(text: Seq<char>, calls: Seq<CallView>) -> MessageView {
    MessageView::Assistant(
        (if text.len() > 0 {
            seq![BlockView::Text(text)]
        } else {
            Seq::empty()
        }) + calls.map_values(
            |c: CallView| BlockView::ToolUse { id: c.id, name: c.name, input_json: c.input_json },
        ),
    )
}

pub open spec fn turn_wf(t: TurnView) -> bool {
    &&& t.rounds <= MAX_TOOL_ROUNDS
    &&& (t.phase == TurnPhase::RunningTools ==> t.next_call < t.calls.len())
}

pub open spec fn tool_call_event_for(t: TurnView, i: int) -> EngineEventView {
    EngineEventView::ToolCall {
        session_id: t.session_id,
        call_id: t.calls[i].id,
        name: t.calls[i].name,
        input_json: t.calls[i].input_json,
    }
}

/// The text reported when a turn runs out of tool rounds.
pub open spec fn exhausted_text() -> Seq<char> {
    "Exceeded "@ + decimal(MAX_TOOL_ROUNDS as nat) + " tool-call rounds."@
}

impl AgentTurn {
    pub closed spec fn wf(&self) -> bool {
        &&& turn_wf(self@)
        &&& self.rounds <= MAX_TOOL_ROUNDS
    }

    /// A new turn for `prompt` after the given history.
    pub fn new(session_id: u64, message_id: MessageId, history: Vec<(ChatRole, String)>, prompt: String) -> (r: AgentTurn)
        ensures
            r.wf(),
            r@.session_id == session_id,
            r@.message_id == message_id.0,
            r@.messages == history_messages(history_view(history@)).push(
                MessageView::User(seq![BlockView::Text(prompt@)]),
            ),
            r@.rounds == 0,
            r@.tokens_out == 0,
            r@.phase == TurnPhase::Ready,
    {
        let ghost hv = history_view(history@);
        let mut messages: Vec<Message> = Vec::new();
        let mut history = history;
        let mut i: usize = 0;
        let n = history.len();
        while history.len() > 0
            invariant
                0 <= i <= hv.len(),
                n == hv.len(),
                history_view(history@) == hv.subrange(i as int, hv.len() as int),
                messages_view(messages@) == history_messages(hv.subrange(0, i as int)),
            decreases history@.len(),
        {
            let ghost before = messages_view(messages@);
            let ghost hb = history@;
            assert(hb.len() > 0);
            assert(history_view(hb).len() == hb.len());
            assert(history_view(hb)[0] == (hb[0].0, hb[0].1@));
            assert(history_view(hb)[0] == hv[i as int]);
            let (role, text) = history.remove(0);
            assert(history_view(history@) == history_view(hb).drop_first());
            proof {
                assert(hv[i as int] == (role, text@));
                assert(hv.subrange(0, i + 1).drop_last() == hv.subrange(0, i as int));
                assert(hv.subrange(0, i + 1).last() == hv[i as int]);
            }
            match role {
                ChatRole::User => {
                    let mut content = Vec::new();
                    content.push(ContentBlock::Text(text));
                    assert(blocks_view(content@) == seq![BlockView::Text(hv[i as int].1)]);
                    messages.push(Message::User { content });
                },
                ChatRole::Assistant => {
                    let mut content = Vec::new();
                    content.push(ContentBlock::Text(text));
                    assert(blocks_view(content@) == seq![BlockView::Text(hv[i as int].1)]);
                    messages.push(Message::Assistant { content });
                },
                _ => {},
            }
            assert(messages_view(messages@) == history_messages(hv.subrange(0, i + 1)));
            i = i + 1;
        }
        assert(history_view(history@).len() == 0);
        assert(i == hv.len());
        let ghost pv = prompt@;
        let mut content = Vec::new();
        content.push(ContentBlock::Text(prompt));
        assert(blocks_view(content@) == seq![BlockView::Text(pv)]);
        let ghost before = messages_view(messages@);
        messages.push(Message::User { content });
        assert(hv.subrange(0, hv.len() as int) == hv);
        assert(messages_view(messages@) == before.push(MessageView::User(blocks_view(content@))));
        AgentTurn {
            session_id,
            message_id,
            messages,
            rounds: 0,
            tokens_out: 0,
            phase: TurnPhase::Ready,
            text: String::new(),
            calls: Vec::new(),
            stop_reason: None,
            next_call: 0,
        }
    }

    pub fn phase(&self) -> (r: TurnPhase)
        ensures
            r == self@.phase,
    {
        self.phase
    }

    /// The history to send with the next request.
    pub fn request_messages(&self) -> (r: &[Message])
        ensures
            messages_view(r@) == self@.messages,
    {
        self.messages.as_slice()
    }

    /// Starts the next round. Returns `None` when a request is to be sent
    /// now, or the `Error` that ends a turn that has used all its rounds.
    pub fn begin_round(&mut self) -> (r: Option<EngineEvent>)
        requires
            old(self).wf(),
            old(self)@.phase == TurnPhase::Ready,
        ensures
            final(self).wf(),
            old(self)@.rounds < MAX_TOOL_ROUNDS ==> r is None && final(self)@ == (TurnView {
                rounds: old(self)@.rounds + 1,
                phase: TurnPhase::Streaming,
                text: Seq::empty(),
                calls: Seq::empty(),
                stop_reason: None,
                next_call: 0,
                ..old(self)@
            }),
            old(self)@.rounds >= MAX_TOOL_ROUNDS ==> r is Some && r.unwrap()@ == (EngineEventView::Error {
                session_id: old(self)@.session_id,
                message_id: old(self)@.message_id,
                message: exhausted_text(),
            }) && final(self)@ == (TurnView { phase: TurnPhase::Finished, ..old(self)@ }),
    {
        if self.rounds >= MAX_TOOL_ROUNDS {
            self.phase = TurnPhase::Finished;
            let mut message = "Exceeded ".to_owned();
            crate::text::push_decimal(&mut message, MAX_TOOL_ROUNDS as u64);
            message.append(" tool-call rounds.");
            return Some(EngineEvent::Error { session_id: self.session_id, message_id: self.message_id, message });
        }
        self.rounds = self.rounds + 1;
        self.phase = TurnPhase::Streaming;
        self.text = String::new();
        self.calls = Vec::new();
        self.stop_reason = None;
        self.next_call = 0;
        assert(calls_view(self.calls@) == Seq::<CallView>::empty());
        None
    }

    /// The request could not be sent; the turn ends with the error.
    pub fn request_failed(&mut self, e: &ProviderError) -> (r: EngineEvent)
        requires
            old(self).wf(),
            old(self)@.phase == TurnPhase::Streaming,
        ensures
            final(self).wf(),
            final(self)@ == (TurnView { phase: TurnPhase::Finished, ..old(self)@ }),
            r@ == (EngineEventView::Error {
                session_id: old(self)@.session_id,
                message_id: old(self)@.message_id,
                message: crate::provider::error::error_text(e@),
            }),
    {
        self.phase = TurnPhase::Finished;
        EngineEvent::Error { session_id: self.session_id, message_id: self.message_id, message: e.text() }
    }

    /// One item of the reply stream. Returns what to report, if anything.
    pub fn on_item(&mut self, item: Result<ChatEvent, ProviderError>) -> (r: Option<EngineEvent>)
        requires
            old(self).wf(),
            old(self)@.phase == TurnPhase::Streaming,
        ensures
            final(self).wf(),
            match item {
                Ok(ChatEvent::TextDelta(d)) => final(self)@ == (TurnView { text: old(self)@.text + d@, ..old(self)@ })
                    && r is Some && r.unwrap()@ == (EngineEventView::TextDelta {
                        session_id: old(self)@.session_id,
                        message_id: old(self)@.message_id,
                        delta: d@,
                    }),
                Ok(ChatEvent::Done { usage, stop_reason }) => r is None && final(self)@ == (TurnView {
                    tokens_out: sat_add(old(self)@.tokens_out, usage.output_tokens),
                    stop_reason: Some(crate::provider::types::stop_debug_text(stop_reason@)),
                    phase: TurnPhase::Drained,
                    ..old(self)@
                }),
                Ok(ChatEvent::ToolCall { id, name, input_json }) => r is None && final(self)@ == (TurnView {
                    calls: old(self)@.calls.push(CallView { id: id@, name: name@, input_json: input_json@ }),
                    ..old(self)@
                }),
                Ok(ChatEvent::Error(e)) => final(self)@ == (TurnView { phase: TurnPhase::Finished, ..old(self)@ })
                    && r is Some && r.unwrap()@ == (EngineEventView::Error {
                        session_id: old(self)@.session_id,
                        message_id: old(self)@.message_id,
                        message: crate::provider::error::error_text(e@),
                    }),
                Err(e) => final(self)@ == (TurnView { phase: TurnPhase::Finished, ..old(self)@ })
                    && r is Some && r.unwrap()@ == (EngineEventView::Error {
                        session_id: old(self)@.session_id,
                        message_id: old(self)@.message_id,
                        message: crate::provider::error::error_text(e@),
                    }),
            },
    {
        match item {
            Ok(ChatEvent::TextDelta(d)) => {
                self.text.append(d.as_str());
                Some(EngineEvent::TextDelta { session_id: self.session_id, message_id: self.message_id, delta: d })
            },
            Ok(ChatEvent::Done { usage, stop_reason }) => {
                self.tokens_out = self.tokens_out.saturating_add(usage.output_tokens);
                self.stop_reason = Some(stop_reason.debug_name());
                self.phase = TurnPhase::Drained;
                None
            },
            Ok(ChatEvent::ToolCall { id, name, input_json }) => {
                let ghost before = calls_view(self.calls@);
                self.calls.push(PendingCall { id, name, input_json });
                assert(calls_view(self.calls@) == before.push(CallView { id: id@, name: name@, input_json: input_json@ }));
                None
            },
            Ok(ChatEvent::Error(e)) => {
                self.phase = TurnPhase::Finished;
                Some(EngineEvent::Error { session_id: self.session_id, message_id: self.message_id, message: e.text() })
            },
            Err(e) => {
                self.phase = TurnPhase::Finished;
                Some(EngineEvent::Error { session_id: self.session_id, message_id: self.message_id, message: e.text() })
            },
        }
    }

    /// The reply stream has ended (after its `Done`, or without one). With no
    /// tool calls the turn ends with `Done`; otherwise the assistant's round
    /// is recorded and the first tool call is reported.
    pub fn stream_ended(&mut self) -> (r: EngineEvent)
        requires
            old(self).wf(),
            old(self)@.phase == TurnPhase::Streaming || old(self)@.phase == TurnPhase::Drained,
        ensures
            final(self).wf(),
            old(self)@.calls.len() == 0 ==> final(self)@ == (TurnView { phase: TurnPhase::Finished, ..old(self)@ })
                && r@ == (EngineEventView::Done {
                    session_id: old(self)@.session_id,
                    message_id: old(self)@.message_id,
                    stop_reason: old(self)@.stop_reason,
                    tokens_out: old(self)@.tokens_out,
                }),
            old(self)@.calls.len() > 0 ==> final(self)@ == (TurnView {
                messages: old(self)@.messages.push(assistant_record(old(self)@.text, old(self)@.calls)),
                phase: TurnPhase::RunningTools,
                next_call: 0,
                ..old(self)@
            }) && r@ == tool_call_event_for(old(self)@, 0),
    {
        if self.calls.len() == 0 {
            self.phase = TurnPhase::Finished;
            let stop_reason = match &self.stop_reason {
                Some(s) => Some(s.clone()),
                None => None,
            };
            return EngineEvent::Done {
                session_id: self.session_id,
                message_id: self.message_id,
                stop_reason,
                tokens_out: self.tokens_out,
            };
        }
        let ghost t0 = self@;
        let mut content: Vec<ContentBlock> = Vec::new();
        if !self.text.as_str().is_empty() {
            content.push(ContentBlock::Text(self.text.clone()));
        }
        let ghost head = blocks_view(content@);
        assert(head == (if t0.text.len() > 0 { seq![BlockView::Text(t0.text)] } else { Seq::<BlockView>::empty() }));
        let mut i: usize = 0;
        while i < self.calls.len()
            invariant
                0 <= i <= self.calls@.len(),
                self@ == t0,
                blocks_view(content@) == head + calls_view(self.calls@).subrange(0, i as int).map_values(
                    |c: CallView| BlockView::ToolUse { id: c.id, name: c.name, input_json: c.input_json },
                ),
            decreases self.calls@.len() - i,
        {
            let c = &self.calls[i];
            let ghost before = blocks_view(content@);
            content.push(ContentBlock::ToolUse { id: c.id.clone(), name: c.name.clone(), input_json: c.input_json.clone() });
            proof {
                let cv = calls_view(self.calls@);
                let f = |c: CallView| BlockView::ToolUse { id: c.id, name: c.name, input_json: c.input_json };
                assert(cv.subrange(0, i + 1) == cv.subrange(0, i as int).push(cv[i as int]));
                assert(cv.subrange(0, i + 1).map_values(f) == cv.subrange(0, i as int).map_values(f).push(f(cv[i as int])));
                assert(blocks_view(content@) == before.push(f(cv[i as int])));
            }
            i = i + 1;
        }
        proof {
            assert(calls_view(self.calls@).subrange(0, self.calls@.len() as int) == calls_view(self.calls@));
        }
        let ghost before_msgs = messages_view(self.messages@);
        self.messages.push(Message::Assistant { content });
        assert(messages_view(self.messages@) == before_msgs.push(assistant_record(t0.text, t0.calls)));
        self.phase = TurnPhase::RunningTools;
        self.next_call = 0;
        let c = &self.calls[0];
        EngineEvent::ToolCall {
            session_id: self.session_id,
            call_id: c.id.clone(),
            name: c.name.clone(),
            input_json: c.input_json.clone(),
        }
    }

    /// The outcome of the awaited tool call: it is recorded for the model,
    /// then the next call is reported, or the turn is ready for its next
    /// request.
    pub fn tool_result(&mut self, outcome: ToolOutcome) -> (r: Option<EngineEvent>)
        requires
            old(self).wf(),
            old(self)@.phase == TurnPhase::RunningTools,
        ensures
            final(self).wf(),
            ({
                let t = old(self)@;
                let res = outcome_result(outcome);
                let msgs = t.messages.push(MessageView::ToolResult {
                    tool_call_id: t.calls[t.next_call as int].id,
                    content: res.0,
                    is_error: res.1,
                });
                if t.next_call + 1 < t.calls.len() {
                    final(self)@ == (TurnView { messages: msgs, next_call: t.next_call + 1, ..t })
                        && r is Some && r.unwrap()@ == tool_call_event_for(t, t.next_call + 1int)
                } else {
                    final(self)@ == (TurnView { messages: msgs, next_call: t.next_call + 1, phase: TurnPhase::Ready, ..t })
                        && r is None
                }
            }),
    {
        let (content, is_error) = match outcome {
            ToolOutcome::Delivered { content, is_error } => (content, is_error),
            ToolOutcome::ChannelClosed => ("Tool result channel closed.".to_owned(), true),
            ToolOutcome::TimedOut => ("Tool execution timed out after 60 seconds.".to_owned(), true),
        };
        let i = self.next_call;
        let n = self.calls.len();
        let tool_call_id = self.calls[i].id.clone();
        let ghost before = messages_view(self.messages@);
        self.messages.push(Message::ToolResult { tool_call_id, content, is_error });
        assert(messages_view(self.messages@) == before.push(self.messages@.last()@));
        self.next_call = i + 1;
        if i + 1 < n {
            let c = &self.calls[i + 1];
            Some(EngineEvent::ToolCall {
                session_id: self.session_id,
                call_id: c.id.clone(),
                name: c.name.clone(),
                input_json: c.input_json.clone(),
            })
        } else {
            self.phase = TurnPhase::Ready;
            None
        }
    }
}

} // verus!
