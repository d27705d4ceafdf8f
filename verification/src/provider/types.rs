//! Shared usage and stop-reason types.

use vstd::prelude::*;

use crate::provider::error::{ErrorKindView, ProviderError};

verus! {

/// Tokens consumed by one request (or a running total).
#[derive(Debug, Clone, Copy, PartialEq, Eq, Structural, Default)]
pub struct Usage {
    pub input_tokens: u32,
    pub output_tokens: u32,
}

/// `a + b` capped at `u32::MAX`.
pub open spec fn sat_add(a: u32, b: u32) -> u32 {
    if a + b > u32::MAX {
        u32::MAX
    } else {
        (a + b) as u32
    }
}

pub open spec fn usage_sum(a: Usage, b: Usage) -> Usage {
    Usage {
        input_tokens: sat_add(a.input_tokens, b.input_tokens),
        output_tokens: sat_add(a.output_tokens, b.output_tokens),
    }
}

impl Usage {
    /// The zero usage.
    pub fn zero() -> (r: Usage)
        ensures
            r == (Usage { input_tokens: 0, output_tokens: 0 }),
    {
        Usage { input_tokens: 0, output_tokens: 0 }
    }

    /// Field-wise sum, saturating at `u32::MAX`.
    pub fn saturating_add(self, other: Usage) -> (r: Usage)
        ensures
            r == usage_sum(self, other),
    {
        Usage {
            input_tokens: self.input_tokens.saturating_add(other.input_tokens),
            output_tokens: self.output_tokens.saturating_add(other.output_tokens),
        }
    }
}

/// Saturating usage sums do not depend on the order of the terms.
pub proof fn law_usage_sum_commutative(a: Usage, b: Usage)
    ensures
        usage_sum(a, b) == usage_sum(b, a),
{
}

/// Saturating usage sums do not depend on how the terms are grouped.
pub proof fn law_usage_sum_associative(a: Usage, b: Usage, c: Usage)
    ensures
        usage_sum(usage_sum(a, b), c) == usage_sum(a, usage_sum(b, c)),
{
}

/// Zero usage is neutral for the saturating sum.
pub proof fn law_usage_sum_zero(a: Usage)
    ensures
        usage_sum(a, Usage { input_tokens: 0, output_tokens: 0 }) == a,
{
}

/// Why a model stopped producing output.
#[derive(Debug, Clone, PartialEq, Eq)]
pub enum StopReason {
    EndTurn,
    MaxTokens,
    StopSequence,
    ToolUse,
    Other(String),
}

/// Spec-level shadow of [`StopReason`], with the text of `Other` as a view.
pub enum StopKind {
    EndTurn,
    MaxTokens,
    StopSequence,
    ToolUse,
    Other(Seq<char>),
}

impl View for StopReason {
    type V = StopKind;

    open spec fn view(&self) -> StopKind {
        match self {
            StopReason::EndTurn => StopKind::EndTurn,
            StopReason::MaxTokens => StopKind::MaxTokens,
            StopReason::StopSequence => StopKind::StopSequence,
            StopReason::ToolUse => StopKind::ToolUse,
            StopReason::Other(s) => StopKind::Other(s@),
        }
    }
}

/// Anthropic's `stop_reason` strings.
pub open spec fn anthropic_stop(s: Seq<char>) -> StopKind {
    if s == "end_turn"@ {
        StopKind::EndTurn
    } else if s == "max_tokens"@ {
        StopKind::MaxTokens
    } else if s == "stop_sequence"@ {
        StopKind::StopSequence
    } else if s == "tool_use"@ {
        StopKind::ToolUse
    } else {
        StopKind::Other(s)
    }
}

/// OpenAI's `finish_reason` strings (absent or empty means a normal end).
pub open spec fn openai_stop(s: Seq<char>) -> StopKind {
    if s == "stop"@ {
        StopKind::EndTurn
    } else if s == "length"@ {
        StopKind::MaxTokens
    } else if s == "content_filter"@ {
        StopKind::Other("content_filter"@)
    } else if s == "tool_calls"@ {
        StopKind::ToolUse
    } else if s.len() == 0 {
        StopKind::EndTurn
    } else {
        StopKind::Other(s)
    }
}

/// Equality of two string slices.
pub(crate) fn str_eq(a: &str, b: &str) -> (r: bool)
    ensures
        r == (a@ == b@),
{
    a.to_owned() == b.to_owned()
}

/// The `Debug` spelling of a stop reason.
pub open spec fn stop_debug_text(k: StopKind) -> Seq<char> {
    match k {
        StopKind::EndTurn => "EndTurn"@,
        StopKind::MaxTokens => "MaxTokens"@,
        StopKind::StopSequence => "StopSequence"@,
        StopKind::ToolUse => "ToolUse"@,
        StopKind::Other(s) => "Other(\""@ + s + "\")"@,
    }
}

impl StopReason {
    /// Maps an Anthropic `stop_reason`.
    pub fn from_anthropic(s: &str) -> (r: StopReason)
        ensures
            r@ == anthropic_stop(s@),
    {
        if str_eq(s, "end_turn") {
            StopReason::EndTurn
        } else if str_eq(s, "max_tokens") {
            StopReason::MaxTokens
        } else if str_eq(s, "stop_sequence") {
            StopReason::StopSequence
        } else if str_eq(s, "tool_use") {
            StopReason::ToolUse
        } else {
            StopReason::Other(s.to_owned())
        }
    }

    /// Maps an OpenAI `finish_reason`: the choice's reason wins over the
    /// top-level one.
    pub fn from_openai_finish(reason: Option<&str>, choice_reason: Option<&str>) -> (r: StopReason)
        ensures
            r@ == openai_stop(
                match choice_reason {
                    Some(c) => c@,
                    None => match reason {
                        Some(t) => t@,
                        None => Seq::empty(),
                    },
                },
            ),
    {
        let s: &str = match choice_reason {
            Some(c) => c,
            None => match reason {
                Some(t) => t,
                None => "",
            },
        };
        proof {
            reveal_strlit("");
            if choice_reason is None && reason is None {
                assert(s@ =~= Seq::<char>::empty());
            }
        }
        if str_eq(s, "stop") {
            StopReason::EndTurn
        } else if str_eq(s, "length") {
            StopReason::MaxTokens
        } else if str_eq(s, "content_filter") {
            StopReason::Other("content_filter".to_owned())
        } else if str_eq(s, "tool_calls") {
            StopReason::ToolUse
        } else if s.is_empty() {
            StopReason::EndTurn
        } else {
            StopReason::Other(s.to_owned())
        }
    }

    /// A copy of the reason.
    pub fn duplicate(&self) -> (r: StopReason)
        ensures
            r@ == self@,
    {
        match self {
            StopReason::EndTurn => StopReason::EndTurn,
            StopReason::MaxTokens => StopReason::MaxTokens,
            StopReason::StopSequence => StopReason::StopSequence,
            StopReason::ToolUse => StopReason::ToolUse,
            StopReason::Other(s) => StopReason::Other(s.clone()),
        }
    }

    /// The `Debug` spelling (see [`stop_debug_text`]) of the reason (`EndTurn`, `Other("x")`, ...).
    pub fn debug_name(&self) -> (r: String)
        ensures
            r@ == stop_debug_text(self@),
    {
        match self {
            StopReason::EndTurn => "EndTurn".to_owned(),
            StopReason::MaxTokens => "MaxTokens".to_owned(),
            StopReason::StopSequence => "StopSequence".to_owned(),
            StopReason::ToolUse => "ToolUse".to_owned(),
            StopReason::Other(s) => {
                let mut r = "Other(\"".to_owned();
                r.append(s.as_str());
                r.append("\")");
                r
            },
        }
    }
}

/// One entry of a provider's model catalog.
#[derive(Debug, Clone)]
pub struct ModelInfo {
    pub id: String,
    pub label: String,
}

/// One event of a provider's chat stream.
#[derive(Debug)]
pub enum ChatEvent {
    TextDelta(String),
    /// A tool call; `input_json` is the call's arguments as compact JSON.
    ToolCall { id: String, name: String, input_json: String },
    Done { usage: Usage, stop_reason: StopReason },
    Error(ProviderError),
}

/// Spec-level shadow of [`ChatEvent`].
pub enum EventView {
    TextDelta(Seq<char>),
    ToolCall { id: Seq<char>, name: Seq<char>, input_json: Seq<char> },
    Done { usage: Usage, stop_reason: StopKind },
    Error(ErrorKindView),
}

impl View for ChatEvent {
    type V = EventView;

    open spec fn view(&self) -> EventView {
        match self {
            ChatEvent::TextDelta(s) => EventView::TextDelta(s@),
            ChatEvent::ToolCall { id, name, input_json } => EventView::ToolCall {
                id: id@,
                name: name@,
                input_json: input_json@,
            },
            ChatEvent::Done { usage, stop_reason } => EventView::Done {
                usage: *usage,
                stop_reason: stop_reason@,
            },
            ChatEvent::Error(e) => EventView::Error(e@),
        }
    }
}

/// One item of a chat stream: an event, or the error that ends the stream.
pub enum ItemView {
    Event(EventView),
    Fail(ErrorKindView),
}

pub open spec fn item_view(r: Result<ChatEvent, ProviderError>) -> ItemView {
    match r {
        Ok(e) => ItemView::Event(e@),
        Err(e) => ItemView::Fail(e@),
    }
}

pub open spec fn items_view(v: Seq<Result<ChatEvent, ProviderError>>) -> Seq<ItemView> {
    v.map_values(|r: Result<ChatEvent, ProviderError>| item_view(r))
}

/// A piece of message content on the wire.
#[derive(Debug)]
pub enum ContentBlock {
    Text(String),
    /// A tool call the assistant made; `input_json` is its JSON input.
    ToolUse { id: String, name: String, input_json: String },
}

pub enum BlockView {
    Text(Seq<char>),
    ToolUse { id: Seq<char>, name: Seq<char>, input_json: Seq<char> },
}

impl View for ContentBlock {
    type V = BlockView;

    open spec fn view(&self) -> BlockView {
        match self {
            ContentBlock::Text(s) => BlockView::Text(s@),
            ContentBlock::ToolUse { id, name, input_json } => BlockView::ToolUse {
                id: id@,
                name: name@,
                input_json: input_json@,
            },
        }
    }
}

pub open spec fn blocks_view(v: Seq<ContentBlock>) -> Seq<BlockView> {
    v.map_values(|b: ContentBlock| b@)
}

/// One message of a chat request.
#[derive(Debug)]
pub enum Message {
    User { content: Vec<ContentBlock> },
    Assistant { content: Vec<ContentBlock> },
    ToolResult { tool_call_id: String, content: String, is_error: bool },
}

pub enum MessageView {
    User(Seq<BlockView>),
    Assistant(Seq<BlockView>),
    ToolResult { tool_call_id: Seq<char>, content: Seq<char>, is_error: bool },
}

impl View for Message {
    type V = MessageView;

    open spec fn view(&self) -> MessageView {
        match self {
            Message::User { content } => MessageView::User(blocks_view(content@)),
            Message::Assistant { content } => MessageView::Assistant(blocks_view(content@)),
            Message::ToolResult { tool_call_id, content, is_error } => MessageView::ToolResult {
                tool_call_id: tool_call_id@,
                content: content@,
                is_error: *is_error,
            },
        }
    }
}

pub open spec fn messages_view(v: Seq<Message>) -> Seq<MessageView> {
    v.map_values(|m: Message| m@)
}

/// A tool schema exposed to the model; `input_schema` is JSON text.
#[derive(Debug, Clone)]
pub struct ToolDef {
    pub name: String,
    pub description: String,
    pub input_schema: String,
}

pub open spec fn tool_def_names(defs: Seq<ToolDef>) -> Seq<Seq<char>> {
    defs.map_values(|d: ToolDef| d.name@)
}

/// Each definition's name, description and input schema.
pub open spec fn tool_def_texts(defs: Seq<ToolDef>) -> Seq<(Seq<char>, Seq<char>, Seq<char>)> {
    defs.map_values(|d: ToolDef| (d.name@, d.description@, d.input_schema@))
}

/// A tool definition from its three texts.
pub(crate) fn tool_def(name: &str, description: &str, input_schema: &str) -> (r: ToolDef)
    ensures
        r.name@ == name@,
        r.description@ == description@,
        r.input_schema@ == input_schema@,
{
    ToolDef {
        name: name.to_owned(),
        description: description.to_owned(),
        input_schema: input_schema.to_owned(),
    }
}

} // verus!
