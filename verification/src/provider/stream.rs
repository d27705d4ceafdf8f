//! Decoding of provider chat streams: each decoded SSE payload (a frame)
//! advances a decoder that emits chat events, assembles tool calls and ends
//! the stream with `Done` or an error.

use vstd::prelude::*;

use crate::provider::error::{ErrorKindView, ProviderError};
use crate::provider::frames::{anthropic_frame, anthropic_frame_fits, is_json, openai_frame, openai_frame_fits};
use crate::provider::json::{tool_input_json, tool_input_text};
use crate::provider::slots::{
    lookup, merge_fn, opt_view, remove_key, slots_view, upsert, SlotView, ToolSlot, ToolSlots,
};
use crate::provider::types::{
    anthropic_stop, items_view, openai_stop, str_eq, ChatEvent, EventView, ItemView, StopKind,
    StopReason, Usage,
};

verus! {

/// The fields of one Anthropic stream payload that decoding reads.
pub struct AnthropicFrame {
    /// `type` (empty when absent).
    pub kind: String,
    /// `index` (0 when absent).
    pub index: u64,
    /// Whether a `delta` object is present.
    pub has_delta: bool,
    /// `delta.type` (empty when absent).
    pub delta_type: String,
    /// `delta.text`.
    pub delta_text: Option<String>,
    /// `delta.partial_json`.
    pub partial_json: Option<String>,
    /// `content_block.type` is `tool_use`.
    pub block_is_tool_use: bool,
    /// `content_block.id` (empty when absent).
    pub block_id: String,
    /// `content_block.name` (empty when absent).
    pub block_name: String,
    /// `delta.stop_reason`.
    pub stop_reason: Option<String>,
    /// `usage.input_tokens` and `usage.output_tokens` (0 when absent), when
    /// a `usage` object is present.
    pub usage: Option<(u64, u64)>,
    /// `error.message`.
    pub error_message: Option<String>,
}

/// Decoder state: tool calls under assembly, last usage and stop reason, and
/// whether the stream has ended.
pub struct DecoderState {
    pub slots: Seq<SlotView>,
    pub last_usage: Option<Usage>,
    pub last_stop: Option<StopKind>,
    pub finished: bool,
}

pub open spec fn tool_call_event(s: SlotView) -> ItemView {
    ItemView::Event(
        EventView::ToolCall { id: s.id, name: s.name, input_json: tool_input_text(s.args) },
    )
}

pub open spec fn done_event(last_usage: Option<Usage>, stop: StopKind) -> ItemView {
    ItemView::Event(
        EventView::Done {
            usage: match last_usage {
                Some(u) => u,
                None => Usage { input_tokens: 0, output_tokens: 0 },
            },
            stop_reason: stop,
        },
    )
}

/// One Anthropic frame applied to the decoder state: the new state and the
/// stream items it yields.
pub open spec fn anthropic_step(st: DecoderState, f: AnthropicFrame) -> (DecoderState, Seq<ItemView>) {
    let key = (f.index as usize) as u64;
    if st.finished {
        (st, Seq::empty())
    } else if f.kind@ == "content_block_delta"@ {
        if !f.has_delta {
            (st, Seq::empty())
        } else if f.delta_type@ == "text_delta"@ {
            match f.delta_text {
                Some(t) => if t@.len() > 0 {
                    (st, seq![ItemView::Event(EventView::TextDelta(t@))])
                } else {
                    (st, Seq::empty())
                },
                None => (st, Seq::empty()),
            }
        } else if f.delta_type@ == "input_json_delta"@ {
            let part = match f.partial_json {
                Some(p) => p@,
                None => Seq::empty(),
            };
            (
                DecoderState {
                    slots: upsert(st.slots, key, |x: SlotView| SlotView { args: x.args + part, ..x }),
                    ..st
                },
                Seq::empty(),
            )
        } else {
            (st, Seq::empty())
        }
    } else if f.kind@ == "content_block_start"@ {
        if f.block_is_tool_use {
            (
                DecoderState {
                    slots: upsert(
                        st.slots,
                        key,
                        |x: SlotView|
                            SlotView {
                                key: x.key,
                                id: f.block_id@,
                                name: f.block_name@,
                                args: Seq::empty(),
                            },
                    ),
                    ..st
                },
                Seq::empty(),
            )
        } else {
            (st, Seq::empty())
        }
    } else if f.kind@ == "content_block_stop"@ {
        let rest = DecoderState { slots: remove_key(st.slots, key), ..st };
        match lookup(st.slots, key) {
            Some(s) => if s.name.len() > 0 {
                (rest, seq![tool_call_event(s)])
            } else {
                (rest, Seq::empty())
            },
            None => (st, Seq::empty()),
        }
    } else if f.kind@ == "message_delta"@ {
        let st1 = match f.stop_reason {
            Some(r) => DecoderState { last_stop: Some(anthropic_stop(r@)), ..st },
            None => st,
        };
        let st2 = match f.usage {
            Some(u) => DecoderState {
                last_usage: Some(Usage { input_tokens: u.0 as u32, output_tokens: u.1 as u32 }),
                ..st1
            },
            None => st1,
        };
        (st2, Seq::empty())
    } else if f.kind@ == "message_stop"@ {
        (
            DecoderState { finished: true, ..st },
            seq![
                done_event(
                    st.last_usage,
                    match st.last_stop {
                        Some(k) => k,
                        None => StopKind::EndTurn,
                    },
                ),
            ],
        )
    } else if f.kind@ == "error"@ {
        (
            DecoderState { finished: true, ..st },
            seq![
                ItemView::Fail(
                    ErrorKindView::Message(
                        match f.error_message {
                            Some(m) => m@,
                            None => "Anthropic stream error"@,
                        },
                    ),
                ),
            ],
        )
    } else {
        (st, Seq::empty())
    }
}

/// The end of the payloads: a stream that has not finished reports that it
/// ended early.
pub open spec fn end_step(st: DecoderState) -> (DecoderState, Seq<ItemView>) {
    if st.finished {
        (st, Seq::empty())
    } else {
        (DecoderState { finished: true, ..st }, seq![ItemView::Fail(ErrorKindView::IncompleteStream)])
    }
}

/// A transport failure ends an unfinished stream with that failure.
pub open spec fn fail_step(st: DecoderState, e: ErrorKindView) -> (DecoderState, Seq<ItemView>) {
    if st.finished {
        (st, Seq::empty())
    } else {
        (DecoderState { finished: true, ..st }, seq![ItemView::Fail(e)])
    }
}

/// Turns Anthropic Messages stream payloads into chat events.
pub struct AnthropicDecoder {
    slots: ToolSlots,
    last_usage: Option<Usage>,
    last_stop: Option<StopReason>,
    finished: bool,
}

pub open spec fn stop_opt_view(o: Option<StopReason>) -> Option<StopKind> {
    match o {
        Some(s) => Some(s@),
        None => None,
    }
}

impl View for AnthropicDecoder {
    type V = DecoderState;

    closed spec fn view(&self) -> DecoderState {
        DecoderState {
            slots: self.slots@,
            last_usage: self.last_usage,
            last_stop: stop_opt_view(self.last_stop),
            finished: self.finished,
        }
    }
}

fn single(item: Result<ChatEvent, ProviderError>) -> (r: Vec<Result<ChatEvent, ProviderError>>)
    ensures
        items_view(r@) == seq![crate::provider::types::item_view(item)],
{
    let mut v = Vec::new();
    v.push(item);
    proof {
        assert(items_view(v@) =~= seq![crate::provider::types::item_view(item)]);
    }
    v
}

fn none_items() -> (r: Vec<Result<ChatEvent, ProviderError>>)
    ensures
        items_view(r@) == Seq::<ItemView>::empty(),
{
    let v = Vec::new();
    proof {
        assert(items_view(v@) =~= Seq::<ItemView>::empty());
    }
    v
}

fn tool_call_of(s: ToolSlot) -> (r: Result<ChatEvent, ProviderError>)
    ensures
        crate::provider::types::item_view(r) == tool_call_event(s@),
{
    let input_json = tool_input_json(s.args.as_str());
    Ok(ChatEvent::ToolCall { id: s.id, name: s.name, input_json })
}

fn copy_usage(u: &Option<Usage>) -> (r: Usage)
    ensures
        r == match *u {
            Some(x) => x,
            None => Usage { input_tokens: 0, output_tokens: 0 },
        },
{
    match u {
        Some(x) => *x,
        None => Usage::zero(),
    }
}

impl AnthropicDecoder {
    pub closed spec fn wf(&self) -> bool {
        self.slots.wf()
    }

    pub fn new() -> (r: AnthropicDecoder)
        ensures
            r.wf(),
            r@ == (DecoderState {
                slots: Seq::empty(),
                last_usage: None,
                last_stop: None,
                finished: false,
            }),
    {
        AnthropicDecoder { slots: ToolSlots::new(), last_usage: None, last_stop: None, finished: false }
    }

    /// Whether the stream has ended (after `Done` or an error).
    pub fn is_finished(&self) -> (r: bool)
        ensures
            r == self@.finished,
    {
        self.finished
    }

    /// Applies one stream payload: its fields as [`anthropic_frame`] reads
    /// them; a payload that is not JSON is skipped and changes nothing.
    pub fn push_payload(&mut self, payload: &str) -> (r: Vec<Result<ChatEvent, ProviderError>>)
        requires
            old(self).wf(),
        ensures
            final(self).wf(),
            !is_json(payload@) ==> final(self)@ == old(self)@ && r@.len() == 0,
            is_json(payload@) ==> exists|f: AnthropicFrame|
                anthropic_frame_fits(payload@, f) && (final(self)@, items_view(r@)) == anthropic_step(
                    old(self)@,
                    f,
                ),
    {
        match anthropic_frame(payload) {
            Some(f) => {
                let ghost g = f;
                let r = self.push_frame(f);
                assert(anthropic_frame_fits(payload@, g));
                r
            },
            None => Vec::new(),
        }
    }

    /// Applies one payload frame; returns the items it yields.
    pub fn push_frame(&mut self, f: AnthropicFrame) -> (r: Vec<Result<ChatEvent, ProviderError>>)
        requires
            old(self).wf(),
        ensures
            final(self).wf(),
            (final(self)@, items_view(r@)) == anthropic_step(old(self)@, f),
    {
        let ghost f0 = f;
        let key = (f.index as usize) as u64;
        if self.finished {
            return none_items();
        }
        if str_eq(f.kind.as_str(), "content_block_delta") {
            if !f.has_delta {
                return none_items();
            }
            if str_eq(f.delta_type.as_str(), "text_delta") {
                match f.delta_text {
                    Some(t) => {
                        if !t.as_str().is_empty() {
                            return single(Ok(ChatEvent::TextDelta(t)));
                        }
                        return none_items();
                    },
                    None => {
                        return none_items();
                    },
                }
            } else if str_eq(f.delta_type.as_str(), "input_json_delta") {
                let part: String = match f.partial_json {
                    Some(p) => p,
                    None => String::new(),
                };
                self.slots.append_args(key, part.as_str());
                return none_items();
            }
            return none_items();
        }
        if str_eq(f.kind.as_str(), "content_block_start") {
            if f.block_is_tool_use {
                self.slots.start(key, f.block_id, f.block_name);
            }
            return none_items();
        }
        if str_eq(f.kind.as_str(), "content_block_stop") {
            match self.slots.take(key) {
                Some(s) => {
                    if !s.name.as_str().is_empty() {
                        return single(tool_call_of(s));
                    }
                    return none_items();
                },
                None => {
                    return none_items();
                },
            }
        }
        if str_eq(f.kind.as_str(), "message_delta") {
            match f.stop_reason {
                Some(r) => {
                    self.last_stop = Some(StopReason::from_anthropic(r.as_str()));
                },
                None => {},
            }
            match f.usage {
                Some(u) => {
                    self.last_usage = Some(Usage { input_tokens: u.0 as u32, output_tokens: u.1 as u32 });
                },
                None => {},
            }
            return none_items();
        }
        if str_eq(f.kind.as_str(), "message_stop") {
            let usage = copy_usage(&self.last_usage);
            let stop = match &self.last_stop {
                Some(k) => k.duplicate(),
                None => StopReason::EndTurn,
            };
            self.finished = true;
            return single(Ok(ChatEvent::Done { usage, stop_reason: stop }));
        }
        if str_eq(f.kind.as_str(), "error") {
            let msg: String = match f.error_message {
                Some(m) => m,
                None => "Anthropic stream error".to_owned(),
            };
            self.finished = true;
            return single(Err(ProviderError::message(msg)));
        }
        none_items()
    }

    /// The payloads have run out.
    pub fn finish(&mut self) -> (r: Vec<Result<ChatEvent, ProviderError>>)
        requires
            old(self).wf(),
        ensures
            final(self).wf(),
            (final(self)@, items_view(r@)) == end_step(old(self)@),
    {
        if self.finished {
            return none_items();
        }
        self.finished = true;
        single(Err(ProviderError::incomplete_stream()))
    }

    /// The transport failed with `e`.
    pub fn fail(&mut self, e: ProviderError) -> (r: Vec<Result<ChatEvent, ProviderError>>)
        requires
            old(self).wf(),
        ensures
            final(self).wf(),
            (final(self)@, items_view(r@)) == fail_step(old(self)@, e@),
    {
        if self.finished {
            return none_items();
        }
        self.finished = true;
        single(Err(e))
    }
}

/// One element of a `tool_calls` array in an OpenAI delta.
pub struct OpenAiToolPart {
    /// `index` (0 when absent).
    pub index: u64,
    /// `id`.
    pub id: Option<String>,
    /// Whether a `function` object is present.
    pub has_function: bool,
    /// `function.name`.
    pub name: Option<String>,
    /// `function.arguments`.
    pub arguments: Option<String>,
}

/// The fields of one OpenAI-compatible stream payload that decoding reads.
pub struct OpenAiFrame {
    /// Prompt and completion token counts (`prompt_tokens` or else
    /// `input_tokens`, `completion_tokens` or else `output_tokens`, 0 when
    /// absent), when a `usage` object is present.
    pub usage: Option<(u64, u64)>,
    /// Whether `choices` has a first element.
    pub has_choice: bool,
    /// That choice's `finish_reason`.
    pub finish_reason: Option<String>,
    /// Whether that choice has a `delta`.
    pub has_delta: bool,
    /// `delta.content`.
    pub content: Option<String>,
    /// `delta.tool_calls`, when it is an array.
    pub tool_calls: Option<Vec<OpenAiToolPart>>,
}

/// OpenAI decoder state: the finish reason is kept as text.
pub struct OpenAiState {
    pub slots: Seq<SlotView>,
    pub last_usage: Option<Usage>,
    pub last_finish: Option<Seq<char>>,
    pub finished: bool,
}

pub open spec fn part_key(p: OpenAiToolPart) -> u64 {
    (p.index as u32) as u64
}

pub open spec fn part_fn(p: OpenAiToolPart) -> spec_fn(SlotView) -> SlotView {
    merge_fn(
        opt_view(p.id),
        if p.has_function { opt_view(p.name) } else { None },
        if p.has_function { opt_view(p.arguments) } else { None },
    )
}

/// The fragments `parts[i..]` merged into the slots in order.
pub open spec fn apply_parts(slots: Seq<SlotView>, parts: Seq<OpenAiToolPart>, i: int) -> Seq<SlotView>
    decreases parts.len() - i,
{
    if i < 0 || i >= parts.len() {
        slots
    } else {
        apply_parts(upsert(slots, part_key(parts[i]), part_fn(parts[i])), parts, i + 1)
    }
}

/// The tool calls that complete slots yield, in key order (slots without a
/// name yield nothing).
pub open spec fn tool_calls_of(s: Seq<SlotView>) -> Seq<ItemView>
    decreases s.len(),
{
    if s.len() == 0 {
        Seq::empty()
    } else {
        (if s[0].name.len() > 0 {
            seq![tool_call_event(s[0])]
        } else {
            Seq::empty()
        }) + tool_calls_of(s.drop_first())
    }
}

/// One OpenAI frame applied to the decoder state.
pub open spec fn openai_step(st: OpenAiState, f: OpenAiFrame) -> (OpenAiState, Seq<ItemView>) {
    if st.finished {
        (st, Seq::empty())
    } else {
        let st1 = match f.usage {
            Some(u) => OpenAiState {
                last_usage: Some(Usage { input_tokens: u.0 as u32, output_tokens: u.1 as u32 }),
                ..st
            },
            None => st,
        };
        if !f.has_choice {
            (st1, Seq::empty())
        } else {
            let st2 = match f.finish_reason {
                Some(r) => OpenAiState { last_finish: Some(r@), ..st1 },
                None => st1,
            };
            if !f.has_delta {
                (st2, Seq::empty())
            } else {
                let out = match f.content {
                    Some(c) => if c@.len() > 0 {
                        seq![ItemView::Event(EventView::TextDelta(c@))]
                    } else {
                        Seq::empty()
                    },
                    None => Seq::empty(),
                };
                let st3 = match f.tool_calls {
                    Some(parts) => OpenAiState { slots: apply_parts(st2.slots, parts@, 0), ..st2 },
                    None => st2,
                };
                (st3, out)
            }
        }
    }
}

/// The end of the payloads: the assembled tool calls (when the model
/// finished for tool calls), then `Done` with the last usage and the finish
/// reason.
pub open spec fn openai_end(st: OpenAiState) -> (OpenAiState, Seq<ItemView>) {
    if st.finished {
        (st, Seq::empty())
    } else {
        let fin = match st.last_finish {
            Some(r) => r,
            None => Seq::empty(),
        };
        let calls = if st.last_finish == Some("tool_calls"@) {
            tool_calls_of(st.slots)
        } else {
            Seq::empty()
        };
        (
            OpenAiState { slots: Seq::empty(), finished: true, ..st },
            calls + seq![done_event(st.last_usage, openai_stop(fin))],
        )
    }
}

pub open spec fn openai_fail(st: OpenAiState, e: ErrorKindView) -> (OpenAiState, Seq<ItemView>) {
    if st.finished {
        (st, Seq::empty())
    } else {
        (OpenAiState { finished: true, ..st }, seq![ItemView::Fail(e)])
    }
}

/// Turns OpenAI-compatible `chat/completions` stream payloads into chat
/// events.
pub struct OpenAiDecoder {
    slots: ToolSlots,
    last_usage: Option<Usage>,
    last_finish: Option<String>,
    finished: bool,
}

impl View for OpenAiDecoder {
    type V = OpenAiState;

    closed spec fn view(&self) -> OpenAiState {
        OpenAiState {
            slots: self.slots@,
            last_usage: self.last_usage,
            last_finish: opt_view(self.last_finish),
            finished: self.finished,
        }
    }
}

impl OpenAiDecoder {
    pub closed spec fn wf(&self) -> bool {
        self.slots.wf()
    }

    pub fn new() -> (r: OpenAiDecoder)
        ensures
            r.wf(),
            r@ == (OpenAiState {
                slots: Seq::empty(),
                last_usage: None,
                last_finish: None,
                finished: false,
            }),
    {
        OpenAiDecoder { slots: ToolSlots::new(), last_usage: None, last_finish: None, finished: false }
    }

    pub fn is_finished(&self) -> (r: bool)
        ensures
            r == self@.finished,
    {
        self.finished
    }

    /// Applies one stream payload: its fields as [`openai_frame`] reads
    /// them; a payload that is not JSON is skipped and changes nothing.
    pub fn push_payload(&mut self, payload: &str) -> (r: Vec<Result<ChatEvent, ProviderError>>)
        requires
            old(self).wf(),
        ensures
            final(self).wf(),
            !is_json(payload@) ==> final(self)@ == old(self)@ && r@.len() == 0,
            is_json(payload@) ==> exists|f: OpenAiFrame|
                openai_frame_fits(payload@, f) && (final(self)@, items_view(r@)) == openai_step(
                    old(self)@,
                    f,
                ),
    {
        match openai_frame(payload) {
            Some(f) => {
                let ghost g = f;
                let r = self.push_frame(f);
                assert(openai_frame_fits(payload@, g));
                r
            },
            None => Vec::new(),
        }
    }

    /// Applies one payload frame; returns the items it yields.
    pub fn push_frame(&mut self, f: OpenAiFrame) -> (r: Vec<Result<ChatEvent, ProviderError>>)
        requires
            old(self).wf(),
        ensures
            final(self).wf(),
            (final(self)@, items_view(r@)) == openai_step(old(self)@, f),
    {
        if self.finished {
            return none_items();
        }
        match f.usage {
            Some(u) => {
                self.last_usage = Some(Usage { input_tokens: u.0 as u32, output_tokens: u.1 as u32 });
            },
            None => {},
        }
        if !f.has_choice {
            return none_items();
        }
        match f.finish_reason {
            Some(r) => {
                self.last_finish = Some(r);
            },
            None => {},
        }
        if !f.has_delta {
            return none_items();
        }
        let out = match f.content {
            Some(c) => {
                if !c.as_str().is_empty() {
                    single(Ok(ChatEvent::TextDelta(c)))
                } else {
                    none_items()
                }
            },
            None => none_items(),
        };
        match f.tool_calls {
            Some(parts) => {
                let ghost start = self.slots@;
                let ghost ps = parts@;
                let mut i: usize = 0;
                let mut parts = parts;
                let n = parts.len();
                let ghost lu = self.last_usage;
                let ghost lf = self.last_finish;
                let ghost fi = self.finished;
                while parts.len() > 0
                    invariant
                        self.slots.wf(),
                        n == ps.len(),
                        self.last_usage == lu,
                        self.last_finish == lf,
                        self.finished == fi,
                        parts@ == ps.subrange(i as int, ps.len() as int),
                        0 <= i <= ps.len(),
                        apply_parts(start, ps, 0) == apply_parts(self.slots@, ps, i as int),
                    decreases parts@.len(),
                {
                    let p = parts.remove(0);
                    proof {
                        assert(p == ps[i as int]);
                    }
                    let key = (p.index as u32) as u64;
                    let has_function = p.has_function;
                    let name = if has_function { p.name } else { None };
                    let arguments = if has_function { p.arguments } else { None };
                    self.slots.merge(key, p.id, name, arguments);
                    i = i + 1;
                }
            },
            None => {},
        }
        out
    }

    /// The payloads have run out.
    pub fn finish(&mut self) -> (r: Vec<Result<ChatEvent, ProviderError>>)
        requires
            old(self).wf(),
        ensures
            final(self).wf(),
            (final(self)@, items_view(r@)) == openai_end(old(self)@),
    {
        if self.finished {
            return none_items();
        }
        let is_tools = match &self.last_finish {
            Some(r) => str_eq(r.as_str(), "tool_calls"),
            None => false,
        };
        let slots = self.slots.drain_all();
        let mut out: Vec<Result<ChatEvent, ProviderError>> = Vec::new();
        if is_tools {
            let ghost all = slots_view(slots@);
            let mut rest = slots;
            let n = rest.len();
            let mut i: usize = 0;
            assert(all.subrange(0, all.len() as int) == all);
            assert(items_view(out@) =~= Seq::<ItemView>::empty());
            while rest.len() > 0
                invariant
                    0 <= i <= all.len(),
                    n == all.len(),
                    slots_view(rest@) == all.subrange(i as int, all.len() as int),
                    tool_calls_of(all) == items_view(out@) + tool_calls_of(all.subrange(i as int, all.len() as int)),
                decreases rest@.len(),
            {
                let s = rest.remove(0);
                proof {
                    assert(s@ == all[i as int]);
                    let tail = all.subrange(i as int, all.len() as int);
                    assert(tail.drop_first() == all.subrange(i + 1, all.len() as int));
                }
                let ghost before = items_view(out@);
                if !s.name.as_str().is_empty() {
                    out.push(tool_call_of(s));
                    assert(items_view(out@) == before.push(tool_call_event(all[i as int])));
                }
                i = i + 1;
            }
        }
        let usage = copy_usage(&self.last_usage);
        let stop = match &self.last_finish {
            Some(r) => StopReason::from_openai_finish(None, Some(r.as_str())),
            None => StopReason::from_openai_finish(None, None),
        };
        out.push(Ok(ChatEvent::Done { usage, stop_reason: stop }));
        self.finished = true;
        out
    }

    /// The transport failed with `e`.
    pub fn fail(&mut self, e: ProviderError) -> (r: Vec<Result<ChatEvent, ProviderError>>)
        requires
            old(self).wf(),
        ensures
            final(self).wf(),
            (final(self)@, items_view(r@)) == openai_fail(old(self)@, e@),
    {
        if self.finished {
            return none_items();
        }
        self.finished = true;
        single(Err(e))
    }
}


} // verus!
