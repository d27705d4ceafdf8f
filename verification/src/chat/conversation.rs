//! Conversation data model: messages, roles, streaming state.

use vstd::prelude::*;
use vstd::slice::slice_subrange;

use crate::provider::slots::opt_view;
use crate::text::push_decimal;
use crate::text::decimal;

verus! {

/// Stable handle of a message within a [`Conversation`].
#[derive(Debug, Clone, Copy, PartialEq, Eq, Structural, Hash)]
pub struct MessageId(pub u64);

impl MessageId {
    /// `msg-<n>`, what `Display` shows.
    pub fn label(&self) -> (r: String)
        ensures
            r@ == "msg-"@ + decimal(self.0 as nat),
    {
        let mut r = "msg-".to_owned();
        push_decimal(&mut r, self.0);
        r
    }
}

/// Who authored a message.
#[derive(Debug, Clone, Copy, PartialEq, Eq, Structural)]
pub enum ChatRole {
    User,
    Assistant,
    /// A tool invocation shown inline in the chat log.
    Tool { call_id: u64 },
    /// A non-fatal inline note.
    Note,
}

/// One turn of the conversation.
#[derive(Debug)]
pub struct ChatMessage {
    pub id: MessageId,
    pub role: ChatRole,
    /// Accumulated text; grows while an assistant reply streams in.
    pub text: String,
    /// True while tokens are still streaming into this message.
    pub is_streaming: bool,
    pub stop_reason: Option<String>,
    pub tokens_out: u32,
}

/// Spec-level shadow of a [`ChatMessage`].
pub struct MsgView {
    pub id: u64,
    pub role: ChatRole,
    pub text: Seq<char>,
    pub is_streaming: bool,
    pub stop_reason: Option<Seq<char>>,
    pub tokens_out: u32,
}

impl View for ChatMessage {
    type V = MsgView;

    open spec fn view(&self) -> MsgView {
        MsgView {
            id: self.id.0,
            role: self.role,
            text: self.text@,
            is_streaming: self.is_streaming,
            stop_reason: opt_view(self.stop_reason),
            tokens_out: self.tokens_out,
        }
    }
}

pub open spec fn plain_msg(id: u64, role: ChatRole, text: Seq<char>) -> MsgView {
    MsgView { id, role, text, is_streaming: false, stop_reason: None, tokens_out: 0 }
}

impl ChatMessage {
    pub fn user(id: MessageId, text: String) -> (r: ChatMessage)
        ensures
            r@ == plain_msg(id.0, ChatRole::User, text@),
    {
        ChatMessage { id, role: ChatRole::User, text, is_streaming: false, stop_reason: None, tokens_out: 0 }
    }

    pub fn assistant_streaming(id: MessageId) -> (r: ChatMessage)
        ensures
            r@ == (MsgView { is_streaming: true, ..plain_msg(id.0, ChatRole::Assistant, Seq::empty()) }),
    {
        ChatMessage {
            id,
            role: ChatRole::Assistant,
            text: String::new(),
            is_streaming: true,
            stop_reason: None,
            tokens_out: 0,
        }
    }
}

/// The messages and the next id to hand out.
pub struct ConvView {
    pub messages: Seq<MsgView>,
    pub next_id: u64,
}

/// Ordered messages of one agent session.
#[derive(Debug)]
pub struct Conversation {
    messages: Vec<ChatMessage>,
    next_id: u64,
}

pub open spec fn msgs_view(v: Seq<ChatMessage>) -> Seq<MsgView> {
    v.map_values(|m: ChatMessage| m@)
}

/// Each message's id is its position, and the next id is the count (so ids
/// ascend and stay below the next id).
pub open spec fn conv_wf(c: ConvView) -> bool {
    &&& c.next_id == c.messages.len()
    &&& forall|i: int| 0 <= i < c.messages.len() ==> (#[trigger] c.messages[i]).id == i
}

/// Every message with id `id` has `delta` appended to its text.
pub open spec fn with_appended(ms: Seq<MsgView>, id: u64, delta: Seq<char>) -> Seq<MsgView> {
    ms.map_values(|m: MsgView| if m.id == id { MsgView { text: m.text + delta, ..m } } else { m })
}

/// Every message with id `id` marked finished with the given stop reason and
/// token count.
pub open spec fn with_finished(ms: Seq<MsgView>, id: u64, stop: Option<Seq<char>>, tokens: u32) -> Seq<MsgView> {
    ms.map_values(
        |m: MsgView|
            if m.id == id {
                MsgView { is_streaming: false, stop_reason: stop, tokens_out: tokens, ..m }
            } else {
                m
            },
    )
}

impl View for Conversation {
    type V = ConvView;

    closed spec fn view(&self) -> ConvView {
        ConvView { messages: msgs_view(self.messages@), next_id: self.next_id }
    }
}

impl Conversation {
    pub closed spec fn wf(&self) -> bool {
        conv_wf(self@)
    }

    pub fn new() -> (r: Conversation)
        ensures
            r.wf(),
            r@.messages == Seq::<MsgView>::empty(),
            r@.next_id == 0,
    {
        Conversation { messages: Vec::new(), next_id: 0 }
    }

    fn alloc_id(&mut self) -> (id: MessageId)
        requires
            old(self).wf(),
            old(self)@.next_id < u64::MAX,
        ensures
            id.0 == old(self)@.next_id,
            final(self)@.next_id == old(self)@.next_id + 1,
            final(self)@.messages == old(self)@.messages,
    {
        let id = MessageId(self.next_id);
        self.next_id = self.next_id + 1;
        id
    }

    fn push_message(&mut self, m: ChatMessage)
        requires
            old(self)@.next_id == old(self)@.messages.len() + 1,
            forall|i: int| 0 <= i < old(self)@.messages.len() ==> (#[trigger] old(self)@.messages[i]).id == i,
            m@.id == old(self)@.next_id - 1,
        ensures
            final(self)@.messages == old(self)@.messages.push(m@),
            final(self)@.next_id == old(self)@.next_id,
            final(self).wf(),
    {
        let ghost before = self@.messages;
        self.messages.push(m);
        assert(self@.messages == before.push(m@));
        assert forall|i: int| 0 <= i < self@.messages.len() implies (#[trigger] self@.messages[i]).id == i by {
            if i < before.len() {
                assert(self@.messages[i] == before[i]);
            }
        }
    }

    /// Pushes a user message; returns its id.
    pub fn push_user(&mut self, text: String) -> (id: MessageId)
        requires
            old(self).wf(),
            old(self)@.next_id < u64::MAX,
        ensures
            final(self).wf(),
            id.0 == old(self)@.next_id,
            final(self)@.next_id == old(self)@.next_id + 1,
            final(self)@.messages == old(self)@.messages.push(plain_msg(id.0, ChatRole::User, text@)),
    {
        let id = self.alloc_id();
        self.push_message(ChatMessage::user(id, text));
        id
    }

    /// Pushes an empty assistant message that is still streaming.
    pub fn push_assistant_streaming(&mut self) -> (id: MessageId)
        requires
            old(self).wf(),
            old(self)@.next_id < u64::MAX,
        ensures
            final(self).wf(),
            id.0 == old(self)@.next_id,
            final(self)@.next_id == old(self)@.next_id + 1,
            final(self)@.messages == old(self)@.messages.push(
                MsgView { is_streaming: true, ..plain_msg(id.0, ChatRole::Assistant, Seq::empty()) },
            ),
    {
        let id = self.alloc_id();
        self.push_message(ChatMessage::assistant_streaming(id));
        id
    }

    /// Pushes a tool-call line.
    pub fn push_tool_note(&mut self, text: String) -> (id: MessageId)
        requires
            old(self).wf(),
            old(self)@.next_id < u64::MAX,
        ensures
            final(self).wf(),
            id.0 == old(self)@.next_id,
            final(self)@.next_id == old(self)@.next_id + 1,
            final(self)@.messages == old(self)@.messages.push(
                plain_msg(id.0, ChatRole::Tool { call_id: id.0 }, text@),
            ),
    {
        let id = self.alloc_id();
        self.push_message(
            ChatMessage {
                id,
                role: ChatRole::Tool { call_id: id.0 },
                text,
                is_streaming: false,
                stop_reason: None,
                tokens_out: 0,
            },
        );
        id
    }

    /// Pushes a short inline note.
    pub fn push_note(&mut self, text: String) -> (id: MessageId)
        requires
            old(self).wf(),
            old(self)@.next_id < u64::MAX,
        ensures
            final(self).wf(),
            id.0 == old(self)@.next_id,
            final(self)@.next_id == old(self)@.next_id + 1,
            final(self)@.messages == old(self)@.messages.push(plain_msg(id.0, ChatRole::Note, text@)),
    {
        let id = self.alloc_id();
        self.push_message(
            ChatMessage { id, role: ChatRole::Note, text, is_streaming: false, stop_reason: None, tokens_out: 0 },
        );
        id
    }

    /// Appends `delta` to the text of message `id` (nothing when there is no
    /// such message).
    pub fn append_text(&mut self, id: MessageId, delta: &str)
        requires
            old(self).wf(),
        ensures
            final(self).wf(),
            final(self)@.next_id == old(self)@.next_id,
            final(self)@.messages == with_appended(old(self)@.messages, id.0, delta@),
    {
        let ghost old_ms = self@.messages;
        let mut i: usize = 0;
        while i < self.messages.len()
            invariant
                0 <= i <= self.messages@.len(),
                self@ == old(self)@,
                conv_wf(self@),
                old_ms == self@.messages,
                forall|j: int| 0 <= j < i ==> self@.messages[j].id != id.0,
            decreases self.messages@.len() - i,
        {
            if self.messages[i].id == id {
                let ghost before = self@.messages;
                let mut m = self.messages.remove(i);
                m.text.append(delta);
                self.messages.insert(i, m);
                proof {
                    assert(self@.messages == before.update(i as int, MsgView { text: before[i as int].text + delta@, ..before[i as int] }));
                    assert(conv_wf(self@));
                    assert(self@.messages =~= with_appended(before, id.0, delta@)) by {
                        assert forall|j: int| 0 <= j < before.len() && j != i implies before[j].id != id.0 by {
                            if j < i {
                            } else {
                                assert(before[i as int].id < before[j].id);
                            }
                        }
                    }
                }
                return;
            }
            i = i + 1;
        }
        assert(self@.messages =~= with_appended(old_ms, id.0, delta@));
    }

    /// Marks message `id` as finished streaming.
    pub fn finish_streaming(&mut self, id: MessageId, stop_reason: Option<String>, tokens_out: u32)
        requires
            old(self).wf(),
        ensures
            final(self).wf(),
            final(self)@.next_id == old(self)@.next_id,
            final(self)@.messages == with_finished(
                old(self)@.messages,
                id.0,
                opt_view(stop_reason),
                tokens_out,
            ),
    {
        let ghost old_ms = self@.messages;
        let ghost sv = opt_view(stop_reason);
        let mut i: usize = 0;
        while i < self.messages.len()
            invariant
                0 <= i <= self.messages@.len(),
                self@ == old(self)@,
                conv_wf(self@),
                old_ms == self@.messages,
                sv == opt_view(stop_reason),
                forall|j: int| 0 <= j < i ==> self@.messages[j].id != id.0,
            decreases self.messages@.len() - i,
        {
            if self.messages[i].id == id {
                let ghost before = self@.messages;
                let mut m = self.messages.remove(i);
                m.is_streaming = false;
                m.stop_reason = stop_reason;
                m.tokens_out = tokens_out;
                self.messages.insert(i, m);
                proof {
                    assert(self@.messages == before.update(i as int, MsgView { is_streaming: false, stop_reason: sv, tokens_out, ..before[i as int] }));
                    assert(conv_wf(self@));
                    assert(self@.messages =~= with_finished(before, id.0, sv, tokens_out)) by {
                        assert forall|j: int| 0 <= j < before.len() && j != i implies before[j].id != id.0 by {
                            if j < i {
                            } else {
                                assert(before[i as int].id < before[j].id);
                            }
                        }
                    }
                }
                return;
            }
            i = i + 1;
        }
        assert(self@.messages =~= with_finished(old_ms, id.0, sv, tokens_out));
    }

    /// All messages, in order.
    pub fn messages(&self) -> (r: &[ChatMessage])
        ensures
            msgs_view(r@) == self@.messages,
    {
        self.messages.as_slice()
    }

    /// The most recent `n` messages (all of them when there are fewer).
    pub fn last_n(&self, n: usize) -> (r: &[ChatMessage])
        ensures
            msgs_view(r@) == self@.messages.subrange(
                if n >= self@.messages.len() { 0 } else { self@.messages.len() - n },
                self@.messages.len() as int,
            ),
    {
        let len = self.messages.len();
        let start = len.saturating_sub(n);
        let r = slice_subrange(self.messages.as_slice(), start, len);
        assert(msgs_view(r@) =~= self@.messages.subrange(start as int, len as int));
        r
    }

    pub fn len(&self) -> (r: usize)
        ensures
            r == self@.messages.len(),
    {
        self.messages.len()
    }

    pub fn is_empty(&self) -> (r: bool)
        ensures
            r == (self@.messages.len() == 0),
    {
        self.messages.len() == 0
    }
}

/// Each new message gets a fresh id that is larger than every earlier one,
/// so ids never repeat within a conversation.
pub proof fn law_fresh_ids(c: ConvView, m: MsgView)
    requires
        conv_wf(c),
        m.id == c.next_id,
        c.next_id < u64::MAX,
    ensures
        conv_wf(ConvView { messages: c.messages.push(m), next_id: (c.next_id + 1) as u64 }),
        forall|i: int| 0 <= i < c.messages.len() ==> c.messages[i].id != m.id,
{
}

/// Appending text touches only the addressed message: all others, the
/// order and the count stay as they were.
pub proof fn law_append_touches_only_target(ms: Seq<MsgView>, id: u64, delta: Seq<char>, i: int)
    requires
        0 <= i < ms.len(),
        ms[i].id != id,
    ensures
        with_appended(ms, id, delta).len() == ms.len(),
        with_appended(ms, id, delta)[i] == ms[i],
{
}

} // verus!

verus! {

/// One call that changes a conversation, as its contract describes it.
pub enum ConvOp {
    PushUser(Seq<char>),
    PushAssistantStreaming,
    PushToolNote(Seq<char>),
    PushNote(Seq<char>),
    AppendText(u64, Seq<char>),
    FinishStreaming(u64, Option<Seq<char>>, u32),
}

/// The conversation after `op`, as the method's `ensures` gives it.
pub open spec fn apply_op(c: ConvView, op: ConvOp) -> ConvView {
    let n = c.next_id;
    match op {
        ConvOp::PushUser(t) => ConvView {
            messages: c.messages.push(plain_msg(n, ChatRole::User, t)),
            next_id: (n + 1) as u64,
        },
        ConvOp::PushAssistantStreaming => ConvView {
            messages: c.messages.push(
                MsgView { is_streaming: true, ..plain_msg(n, ChatRole::Assistant, Seq::empty()) },
            ),
            next_id: (n + 1) as u64,
        },
        ConvOp::PushToolNote(t) => ConvView {
            messages: c.messages.push(plain_msg(n, ChatRole::Tool { call_id: n }, t)),
            next_id: (n + 1) as u64,
        },
        ConvOp::PushNote(t) => ConvView {
            messages: c.messages.push(plain_msg(n, ChatRole::Note, t)),
            next_id: (n + 1) as u64,
        },
        ConvOp::AppendText(id, d) => ConvView { messages: with_appended(c.messages, id, d), next_id: n },
        ConvOp::FinishStreaming(id, s, k) => ConvView {
            messages: with_finished(c.messages, id, s, k),
            next_id: n,
        },
    }
}

/// The conversation that `ops` make from a new one.
pub open spec fn replay(ops: Seq<ConvOp>) -> ConvView
    decreases ops.len(),
{
    if ops.len() == 0 {
        ConvView { messages: Seq::empty(), next_id: 0 }
    } else {
        apply_op(replay(ops.drop_last()), ops.last())
    }
}

/// Every message's id is its position, and the next id is the count.
pub open spec fn ids_are_positions(c: ConvView) -> bool {
    &&& c.next_id == c.messages.len()
    &&& forall|i: int| 0 <= i < c.messages.len() ==> (#[trigger] c.messages[i]).id == i
}

/// In every conversation reached from a new one by the conversation's own
/// calls, each message's id equals its position (so ids are unique and
/// ascend in insertion order) and the next id is the number of messages.
pub proof fn law_ids_are_positions(ops: Seq<ConvOp>)
    requires
        ops.len() < u64::MAX,
    ensures
        ids_are_positions(replay(ops)),
    decreases ops.len(),
{
    if ops.len() > 0 {
        law_ids_are_positions(ops.drop_last());
        let c = replay(ops.drop_last());
        let d = replay(ops);
        assert(c.messages.len() <= ops.drop_last().len()) by {
            lemma_replay_len(ops.drop_last());
        }
        assert forall|i: int| 0 <= i < d.messages.len() implies (#[trigger] d.messages[i]).id == i by {
            if i < c.messages.len() {
                assert(c.messages[i].id == i);
            }
        }
    }
}

/// A conversation never holds more messages than calls were made.
proof fn lemma_replay_len(ops: Seq<ConvOp>)
    ensures
        replay(ops).messages.len() <= ops.len(),
    decreases ops.len(),
{
    if ops.len() > 0 {
        lemma_replay_len(ops.drop_last());
    }
}

} // verus!

verus! {

/// Every conversation the library hands out (made by `new` and changed by
/// its methods, which all keep `wf`) numbers its messages by position: the
/// id of message `i` is `i`, and the next id is the count.
pub proof fn law_conversation_ids_are_positions(c: &Conversation)
    requires
        c.wf(),
    ensures
        ids_are_positions(c@),
        c@.next_id == c@.messages.len(),
{
}

} // verus!
