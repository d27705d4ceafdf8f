//! How chat messages map onto the providers' request formats (Anthropic
//! Messages API and OpenAI-compatible chat completions). Rendering the
//! result as JSON is the caller's work.

use vstd::prelude::*;

use crate::provider::error::{ErrorKindView, ProviderError};
use crate::provider::types::{blocks_view, BlockView, ContentBlock, Message, MessageView, messages_view};

verus! {

/// A content block of an Anthropic message.
pub enum AnthropicBlock {
    Text(String),
    ToolUse { id: String, name: String, input_json: String },
    ToolResult { tool_use_id: String, content: String, is_error: bool },
}

pub enum ABlockView {
    Text(Seq<char>),
    ToolUse { id: Seq<char>, name: Seq<char>, input_json: Seq<char> },
    ToolResult { tool_use_id: Seq<char>, content: Seq<char>, is_error: bool },
}

impl View for AnthropicBlock {
    type V = ABlockView;

    open spec fn view(&self) -> ABlockView {
        match self {
            AnthropicBlock::Text(s) => ABlockView::Text(s@),
            AnthropicBlock::ToolUse { id, name, input_json } => ABlockView::ToolUse {
                id: id@,
                name: name@,
                input_json: input_json@,
            },
            AnthropicBlock::ToolResult { tool_use_id, content, is_error } => ABlockView::ToolResult {
                tool_use_id: tool_use_id@,
                content: content@,
                is_error: *is_error,
            },
        }
    }
}

/// One Anthropic message: role `assistant` or `user`, and its blocks.
pub struct AnthropicMessage {
    pub assistant: bool,
    pub content: Vec<AnthropicBlock>,
}

pub struct AMessageView {
    pub assistant: bool,
    pub content: Seq<ABlockView>,
}

impl View for AnthropicMessage {
    type V = AMessageView;

    open spec fn view(&self) -> AMessageView {
        AMessageView { assistant: self.assistant, content: self.content@.map_values(|b: AnthropicBlock| b@) }
    }
}

pub open spec fn a_messages_view(v: Seq<AnthropicMessage>) -> Seq<AMessageView> {
    v.map_values(|m: AnthropicMessage| m@)
}

pub open spec fn all_text(b: Seq<BlockView>) -> bool {
    forall|i: int| 0 <= i < b.len() ==> b[i] is Text
}

pub open spec fn a_block(b: BlockView) -> ABlockView {
    match b {
        BlockView::Text(s) => ABlockView::Text(s),
        BlockView::ToolUse { id, name, input_json } => ABlockView::ToolUse { id, name, input_json },
    }
}

/// The Anthropic form of one message.
pub open spec fn anthropic_message(m: MessageView) -> AMessageView {
    match m {
        MessageView::User(b) => AMessageView { assistant: false, content: b.map_values(|x: BlockView| a_block(x)) },
        MessageView::Assistant(b) => AMessageView {
            assistant: true,
            content: b.map_values(|x: BlockView| a_block(x)),
        },
        MessageView::ToolResult { tool_call_id, content, is_error } => AMessageView {
            assistant: false,
            content: seq![ABlockView::ToolResult { tool_use_id: tool_call_id, content, is_error }],
        },
    }
}

/// Every user message holds text only.
pub open spec fn user_text_only(ms: Seq<MessageView>) -> bool {
    forall|i: int| 0 <= i < ms.len() ==> (#[trigger] ms[i] matches MessageView::User(b) ==> all_text(b))
}

fn to_anthropic_block(b: &ContentBlock) -> (r: AnthropicBlock)
    ensures
        r@ == a_block(b@),
{
    match b {
        ContentBlock::Text(s) => AnthropicBlock::Text(s.clone()),
        ContentBlock::ToolUse { id, name, input_json } => AnthropicBlock::ToolUse {
            id: id.clone(),
            name: name.clone(),
            input_json: input_json.clone(),
        },
    }
}

/// User content for the Anthropic API: text blocks only.
pub fn content_blocks_user(blocks: &Vec<ContentBlock>) -> (r: Result<Vec<AnthropicBlock>, ProviderError>)
    ensures
        all_text(blocks_view(blocks@)) ==> r is Ok && r->Ok_0@.map_values(|b: AnthropicBlock| b@)
            == blocks_view(blocks@).map_values(|x: BlockView| a_block(x)),
        !all_text(blocks_view(blocks@)) ==> r is Err && r->Err_0@ == ErrorKindView::Config(
            "user messages must not contain ToolUse blocks in this API"@,
        ),
{
    let mut out: Vec<AnthropicBlock> = Vec::new();
    let mut i: usize = 0;
    let ghost bv = blocks_view(blocks@);
    while i < blocks.len()
        invariant
            0 <= i <= blocks@.len(),
            bv == blocks_view(blocks@),
            all_text(bv.subrange(0, i as int)),
            out@.map_values(|b: AnthropicBlock| b@) == bv.subrange(0, i as int).map_values(
                |x: BlockView| a_block(x),
            ),
        decreases blocks@.len() - i,
    {
        match &blocks[i] {
            ContentBlock::Text(s) => {
                let ghost pre = out@.map_values(|b: AnthropicBlock| b@);
                out.push(AnthropicBlock::Text(s.clone()));
                assert(out@.map_values(|b: AnthropicBlock| b@) =~= pre.push(a_block(bv[i as int])));
                assert(bv.subrange(0, i + 1).map_values(|x: BlockView| a_block(x)) =~= bv.subrange(
                    0,
                    i as int,
                ).map_values(|x: BlockView| a_block(x)).push(a_block(bv[i as int])));
                assert(all_text(bv.subrange(0, i + 1))) by {
                    assert forall|k: int| 0 <= k < i + 1 implies #[trigger] bv.subrange(0, i + 1)[k] is Text by {
                        if k < i {
                            assert(bv.subrange(0, i + 1)[k] == bv.subrange(0, i as int)[k]);
                        }
                    }
                }
            },
            ContentBlock::ToolUse { .. } => {
                assert(!(bv[i as int] is Text));
                return Err(
                    ProviderError::config(
                        "user messages must not contain ToolUse blocks in this API".to_owned(),
                    ),
                );
            },
        }
        i = i + 1;
    }
    assert(bv.subrange(0, bv.len() as int) =~= bv);
    Ok(out)
}

/// Assistant content for the Anthropic API: text and tool-use blocks.
pub fn content_blocks_assistant(blocks: &Vec<ContentBlock>) -> (r: Vec<AnthropicBlock>)
    ensures
        r@.map_values(|b: AnthropicBlock| b@) == blocks_view(blocks@).map_values(
            |x: BlockView| a_block(x),
        ),
{
    let mut out: Vec<AnthropicBlock> = Vec::new();
    let mut i: usize = 0;
    let ghost bv = blocks_view(blocks@);
    while i < blocks.len()
        invariant
            0 <= i <= blocks@.len(),
            bv == blocks_view(blocks@),
            out@.map_values(|b: AnthropicBlock| b@) == bv.subrange(0, i as int).map_values(
                |x: BlockView| a_block(x),
            ),
        decreases blocks@.len() - i,
    {
        let ghost pre = out@.map_values(|b: AnthropicBlock| b@);
        let b = to_anthropic_block(&blocks[i]);
        out.push(b);
        assert(out@.map_values(|b: AnthropicBlock| b@) =~= pre.push(a_block(bv[i as int])));
        assert(bv.subrange(0, i + 1).map_values(|x: BlockView| a_block(x)) =~= bv.subrange(
            0,
            i as int,
        ).map_values(|x: BlockView| a_block(x)).push(a_block(bv[i as int])));
        i = i + 1;
    }
    assert(bv.subrange(0, bv.len() as int) =~= bv);
    out
}

/// The conversation in the Anthropic format; user messages must hold text
/// only.
pub fn messages_to_anthropic(messages: &Vec<Message>) -> (r: Result<Vec<AnthropicMessage>, ProviderError>)
    ensures
        user_text_only(messages_view(messages@)) ==> r is Ok && a_messages_view(r->Ok_0@)
            == messages_view(messages@).map_values(|m: MessageView| anthropic_message(m)),
        !user_text_only(messages_view(messages@)) ==> r is Err && r->Err_0@ == ErrorKindView::Config(
            "user messages must not contain ToolUse blocks in this API"@,
        ),
{
    let mut out: Vec<AnthropicMessage> = Vec::new();
    let mut i: usize = 0;
    let ghost mv = messages_view(messages@);
    while i < messages.len()
        invariant
            0 <= i <= messages@.len(),
            mv == messages_view(messages@),
            user_text_only(mv.subrange(0, i as int)),
            a_messages_view(out@) == mv.subrange(0, i as int).map_values(
                |m: MessageView| anthropic_message(m),
            ),
        decreases messages@.len() - i,
    {
        let ghost pre = a_messages_view(out@);
        let m = match &messages[i] {
            Message::User { content } => {
                let blocks = match content_blocks_user(content) {
                    Ok(b) => b,
                    Err(e) => {
                        assert(!user_text_only(mv)) by {
                            assert(mv[i as int] == messages@[i as int]@);
                        }
                        return Err(e);
                    },
                };
                AnthropicMessage { assistant: false, content: blocks }
            },
            Message::Assistant { content } => AnthropicMessage {
                assistant: true,
                content: content_blocks_assistant(content),
            },
            Message::ToolResult { tool_call_id, content, is_error } => {
                let mut v: Vec<AnthropicBlock> = Vec::new();
                v.push(
                    AnthropicBlock::ToolResult {
                        tool_use_id: tool_call_id.clone(),
                        content: content.clone(),
                        is_error: *is_error,
                    },
                );
                assert(v@.map_values(|b: AnthropicBlock| b@) =~= seq![
                    ABlockView::ToolResult {
                        tool_use_id: tool_call_id@,
                        content: content@,
                        is_error: *is_error,
                    },
                ]);
                AnthropicMessage { assistant: false, content: v }
            },
        };
        assert(m@ == anthropic_message(mv[i as int]));
        out.push(m);
        assert(a_messages_view(out@) =~= pre.push(anthropic_message(mv[i as int])));
        assert(mv.subrange(0, i + 1).map_values(|m: MessageView| anthropic_message(m)) =~= mv.subrange(
            0,
            i as int,
        ).map_values(|m: MessageView| anthropic_message(m)).push(anthropic_message(mv[i as int])));
        assert(user_text_only(mv.subrange(0, i + 1))) by {
            assert forall|k: int| 0 <= k < i + 1 implies (#[trigger] mv.subrange(0, i + 1)[k] matches MessageView::User(b)
                ==> all_text(b)) by {
                if k < i {
                    assert(mv.subrange(0, i + 1)[k] == mv.subrange(0, i as int)[k]);
                }
            }
        }
        i = i + 1;
    }
    assert(mv.subrange(0, mv.len() as int) =~= mv);
    Ok(out)
}


/// The Anthropic form keeps every message in its place with its role and
/// content: text and tool calls unchanged, and a tool result as one
/// `tool_result` block for the same call, with the same content and the
/// same error flag (a failed tool run is reported as failed).
pub proof fn law_anthropic_form_keeps_messages(ms: Seq<MessageView>, i: int)
    requires
        0 <= i < ms.len(),
    ensures
        ({
            let a = ms.map_values(|m: MessageView| anthropic_message(m));
            &&& a.len() == ms.len()
            &&& match ms[i] {
                MessageView::ToolResult { tool_call_id, content, is_error } => {
                    &&& !a[i].assistant
                    &&& a[i].content.len() == 1
                    &&& a[i].content[0] matches ABlockView::ToolResult { tool_use_id: u, content: c, is_error: e }
                    &&& u == tool_call_id && c == content && e == is_error
                },
                MessageView::User(b) => !a[i].assistant && a[i].content.len() == b.len() && forall|j: int|
                    0 <= j < b.len() ==> match #[trigger] b[j] {
                        BlockView::Text(t) => a[i].content[j] == ABlockView::Text(t),
                        BlockView::ToolUse { id, name, input_json } => a[i].content[j]
                            == ABlockView::ToolUse { id, name, input_json },
                    },
                MessageView::Assistant(b) => a[i].assistant && a[i].content.len() == b.len() && forall|j: int|
                    0 <= j < b.len() ==> match #[trigger] b[j] {
                        BlockView::Text(t) => a[i].content[j] == ABlockView::Text(t),
                        BlockView::ToolUse { id, name, input_json } => a[i].content[j]
                            == ABlockView::ToolUse { id, name, input_json },
                    },
            }
        }),
{
}

} // verus!

verus! {

/// The `content` of an OpenAI user message: one string, or text parts.
pub enum OpenAiContent {
    Text(String),
    Parts(Vec<String>),
}

pub enum OContentView {
    Text(Seq<char>),
    Parts(Seq<Seq<char>>),
}

impl View for OpenAiContent {
    type V = OContentView;

    open spec fn view(&self) -> OContentView {
        match self {
            OpenAiContent::Text(s) => OContentView::Text(s@),
            OpenAiContent::Parts(v) => OContentView::Parts(v@.map_values(|s: String| s@)),
        }
    }
}

/// A tool call of an OpenAI assistant message; `arguments` is the JSON
/// text of the input.
pub struct OpenAiToolCall {
    pub id: String,
    pub name: String,
    pub arguments: String,
}

pub struct OCallView {
    pub id: Seq<char>,
    pub name: Seq<char>,
    pub arguments: Seq<char>,
}

impl View for OpenAiToolCall {
    type V = OCallView;

    open spec fn view(&self) -> OCallView {
        OCallView { id: self.id@, name: self.name@, arguments: self.arguments@ }
    }
}

/// One OpenAI chat-completions message. An assistant message's `content`
/// is `None` for JSON `null`.
pub enum OpenAiMessage {
    System { content: String },
    User { content: OpenAiContent },
    Assistant { content: Option<String>, tool_calls: Vec<OpenAiToolCall> },
    Tool { tool_call_id: String, content: String },
}

pub enum OMessageView {
    System(Seq<char>),
    User(OContentView),
    Assistant { content: Option<Seq<char>>, tool_calls: Seq<OCallView> },
    Tool { tool_call_id: Seq<char>, content: Seq<char> },
}

impl View for OpenAiMessage {
    type V = OMessageView;

    open spec fn view(&self) -> OMessageView {
        match self {
            OpenAiMessage::System { content } => OMessageView::System(content@),
            OpenAiMessage::User { content } => OMessageView::User(content@),
            OpenAiMessage::Assistant { content, tool_calls } => OMessageView::Assistant {
                content: match content {
                    Some(s) => Some(s@),
                    None => None,
                },
                tool_calls: tool_calls@.map_values(|c: OpenAiToolCall| c@),
            },
            OpenAiMessage::Tool { tool_call_id, content } => OMessageView::Tool {
                tool_call_id: tool_call_id@,
                content: content@,
            },
        }
    }
}

pub open spec fn o_messages_view(v: Seq<OpenAiMessage>) -> Seq<OMessageView> {
    v.map_values(|m: OpenAiMessage| m@)
}

/// The texts of text-only blocks.
pub open spec fn block_texts(b: Seq<BlockView>) -> Seq<Seq<char>> {
    b.map_values(|x: BlockView| match x {
        BlockView::Text(s) => s,
        _ => Seq::empty(),
    })
}

/// User content in the OpenAI format: nothing gives `""`, one text gives
/// that string, more give text parts.
pub open spec fn openai_user_content(b: Seq<BlockView>) -> OContentView {
    let t = block_texts(b);
    if t.len() == 0 {
        OContentView::Text(Seq::empty())
    } else if t.len() == 1 {
        OContentView::Text(t[0])
    } else {
        OContentView::Parts(t)
    }
}

/// All text of the blocks, joined.
pub open spec fn joined_text(b: Seq<BlockView>) -> Seq<char>
    decreases b.len(),
{
    if b.len() == 0 {
        Seq::empty()
    } else {
        joined_text(b.drop_last()) + match b.last() {
            BlockView::Text(s) => s,
            _ => Seq::empty(),
        }
    }
}

/// The tool calls among the blocks, in order.
pub open spec fn tool_calls_of_blocks(b: Seq<BlockView>) -> Seq<OCallView>
    decreases b.len(),
{
    if b.len() == 0 {
        Seq::empty()
    } else {
        match b.last() {
            BlockView::ToolUse { id, name, input_json } => tool_calls_of_blocks(b.drop_last()).push(
                OCallView { id, name, arguments: input_json },
            ),
            _ => tool_calls_of_blocks(b.drop_last()),
        }
    }
}

/// The OpenAI form of one message (user messages with text only).
pub open spec fn openai_message(m: MessageView) -> OMessageView {
    match m {
        MessageView::User(b) => OMessageView::User(openai_user_content(b)),
        MessageView::Assistant(b) => {
            let text = joined_text(b);
            let calls = tool_calls_of_blocks(b);
            OMessageView::Assistant {
                content: if calls.len() == 0 || text.len() > 0 { Some(text) } else { None },
                tool_calls: calls,
            }
        },
        MessageView::ToolResult { tool_call_id, content, .. } => OMessageView::Tool { tool_call_id, content },
    }
}

/// User content for the OpenAI format.
pub fn user_content_to_openai(blocks: &Vec<ContentBlock>) -> (r: Result<OpenAiContent, ProviderError>)
    ensures
        all_text(blocks_view(blocks@)) ==> r is Ok && r->Ok_0@ == openai_user_content(
            blocks_view(blocks@),
        ),
        !all_text(blocks_view(blocks@)) ==> r is Err && r->Err_0@ == ErrorKindView::Config(
            "user content cannot contain ToolUse"@,
        ),
{
    let mut parts: Vec<String> = Vec::new();
    let mut i: usize = 0;
    let ghost bv = blocks_view(blocks@);
    while i < blocks.len()
        invariant
            0 <= i <= blocks@.len(),
            bv == blocks_view(blocks@),
            all_text(bv.subrange(0, i as int)),
            parts@.map_values(|s: String| s@) == block_texts(bv.subrange(0, i as int)),
        decreases blocks@.len() - i,
    {
        match &blocks[i] {
            ContentBlock::Text(s) => {
                let ghost pre = parts@.map_values(|s: String| s@);
                parts.push(s.clone());
                assert(parts@.map_values(|s: String| s@) =~= pre.push(s@));
                assert(block_texts(bv.subrange(0, i + 1)) =~= block_texts(bv.subrange(0, i as int)).push(
                    s@,
                ));
                assert(all_text(bv.subrange(0, i + 1))) by {
                    assert forall|k: int| 0 <= k < i + 1 implies #[trigger] bv.subrange(0, i + 1)[k] is Text by {
                        if k < i {
                            assert(bv.subrange(0, i + 1)[k] == bv.subrange(0, i as int)[k]);
                        }
                    }
                }
            },
            ContentBlock::ToolUse { .. } => {
                assert(!(bv[i as int] is Text));
                return Err(ProviderError::config("user content cannot contain ToolUse".to_owned()));
            },
        }
        i = i + 1;
    }
    assert(bv.subrange(0, bv.len() as int) =~= bv);
    if parts.len() == 0 {
        return Ok(OpenAiContent::Text(String::new()));
    }
    if parts.len() == 1 {
        let only = parts.remove(0);
        return Ok(OpenAiContent::Text(only));
    }
    Ok(OpenAiContent::Parts(parts))
}

/// Assistant content for the OpenAI format: the joined text and the tool
/// calls.
pub fn assistant_content_to_openai(blocks: &Vec<ContentBlock>) -> (r: (String, Vec<OpenAiToolCall>))
    ensures
        r.0@ == joined_text(blocks_view(blocks@)),
        r.1@.map_values(|c: OpenAiToolCall| c@) == tool_calls_of_blocks(blocks_view(blocks@)),
{
    let mut text = String::new();
    let mut calls: Vec<OpenAiToolCall> = Vec::new();
    let mut i: usize = 0;
    let ghost bv = blocks_view(blocks@);
    while i < blocks.len()
        invariant
            0 <= i <= blocks@.len(),
            bv == blocks_view(blocks@),
            text@ == joined_text(bv.subrange(0, i as int)),
            calls@.map_values(|c: OpenAiToolCall| c@) == tool_calls_of_blocks(bv.subrange(0, i as int)),
        decreases blocks@.len() - i,
    {
        let ghost pre = calls@.map_values(|c: OpenAiToolCall| c@);
        assert(bv.subrange(0, i + 1).drop_last() =~= bv.subrange(0, i as int));
        assert(bv.subrange(0, i + 1).last() == bv[i as int]);
        match &blocks[i] {
            ContentBlock::Text(s) => {
                text.append(s.as_str());
            },
            ContentBlock::ToolUse { id, name, input_json } => {
                calls.push(
                    OpenAiToolCall { id: id.clone(), name: name.clone(), arguments: input_json.clone() },
                );
                assert(calls@.map_values(|c: OpenAiToolCall| c@) =~= pre.push(
                    OCallView { id: id@, name: name@, arguments: input_json@ },
                ));
                assert(text@ =~= text@ + Seq::<char>::empty());
            },
        }
        i = i + 1;
    }
    assert(bv.subrange(0, bv.len() as int) =~= bv);
    (text, calls)
}

/// The conversation in the OpenAI format; user messages must hold text
/// only.
pub fn messages_to_openai(messages: &Vec<Message>) -> (r: Result<Vec<OpenAiMessage>, ProviderError>)
    ensures
        user_text_only(messages_view(messages@)) ==> r is Ok && o_messages_view(r->Ok_0@)
            == messages_view(messages@).map_values(|m: MessageView| openai_message(m)),
        !user_text_only(messages_view(messages@)) ==> r is Err && r->Err_0@ == ErrorKindView::Config(
            "user content cannot contain ToolUse"@,
        ),
{
    let mut out: Vec<OpenAiMessage> = Vec::new();
    let mut i: usize = 0;
    let ghost mv = messages_view(messages@);
    while i < messages.len()
        invariant
            0 <= i <= messages@.len(),
            mv == messages_view(messages@),
            user_text_only(mv.subrange(0, i as int)),
            o_messages_view(out@) == mv.subrange(0, i as int).map_values(
                |m: MessageView| openai_message(m),
            ),
        decreases messages@.len() - i,
    {
        let ghost pre = o_messages_view(out@);
        let m = match &messages[i] {
            Message::User { content } => {
                let parts = match user_content_to_openai(content) {
                    Ok(p) => p,
                    Err(e) => {
                        assert(!user_text_only(mv)) by {
                            assert(mv[i as int] == messages@[i as int]@);
                        }
                        return Err(e);
                    },
                };
                OpenAiMessage::User { content: parts }
            },
            Message::Assistant { content } => {
                let (text, tool_calls) = assistant_content_to_openai(content);
                if tool_calls.len() == 0 {
                    OpenAiMessage::Assistant { content: Some(text), tool_calls }
                } else if text.as_str().is_empty() {
                    OpenAiMessage::Assistant { content: None, tool_calls }
                } else {
                    OpenAiMessage::Assistant { content: Some(text), tool_calls }
                }
            },
            Message::ToolResult { tool_call_id, content, .. } => OpenAiMessage::Tool {
                tool_call_id: tool_call_id.clone(),
                content: content.clone(),
            },
        };
        assert(m@ == openai_message(mv[i as int]));
        out.push(m);
        assert(o_messages_view(out@) =~= pre.push(openai_message(mv[i as int])));
        assert(mv.subrange(0, i + 1).map_values(|m: MessageView| openai_message(m)) =~= mv.subrange(
            0,
            i as int,
        ).map_values(|m: MessageView| openai_message(m)).push(openai_message(mv[i as int])));
        assert(user_text_only(mv.subrange(0, i + 1))) by {
            assert forall|k: int| 0 <= k < i + 1 implies (#[trigger] mv.subrange(0, i + 1)[k] matches MessageView::User(b)
                ==> all_text(b)) by {
                if k < i {
                    assert(mv.subrange(0, i + 1)[k] == mv.subrange(0, i as int)[k]);
                }
            }
        }
        i = i + 1;
    }
    assert(mv.subrange(0, mv.len() as int) =~= mv);
    Ok(out)
}

/// The messages of a chat-completions request: the system prompt, when
/// there is one, first.
pub fn openai_request_messages(system: Option<&str>, messages: &Vec<Message>) -> (r: Result<
    Vec<OpenAiMessage>,
    ProviderError,
>)
    ensures
        user_text_only(messages_view(messages@)) ==> r is Ok && o_messages_view(r->Ok_0@) == match system {
            Some(s) => seq![OMessageView::System(s@)],
            None => Seq::<OMessageView>::empty(),
        } + messages_view(messages@).map_values(|m: MessageView| openai_message(m)),
        !user_text_only(messages_view(messages@)) ==> r is Err && r->Err_0@ == ErrorKindView::Config(
            "user content cannot contain ToolUse"@,
        ),
{
    let rest = messages_to_openai(messages)?;
    let mut out: Vec<OpenAiMessage> = Vec::new();
    if let Some(s) = system {
        out.push(OpenAiMessage::System { content: s.to_owned() });
    }
    let ghost first = o_messages_view(out@);
    let ghost tail = o_messages_view(rest@);
    let mut rest = rest;
    let n = rest.len();
    let mut k: usize = 0;
    while k < n
        invariant
            0 <= k <= n,
            rest@.len() == n - k,
            o_messages_view(out@) == first + tail.subrange(0, k as int),
            o_messages_view(rest@) == tail.subrange(k as int, n as int),
            tail.len() == n,
        decreases n - k,
    {
        let ghost pre = o_messages_view(out@);
        let ghost old_rest = rest@;
        assert(o_messages_view(old_rest)[0] == tail.subrange(k as int, n as int)[0]);
        let m = rest.remove(0);
        assert(m@ == tail[k as int]);
        assert(rest@ =~= old_rest.drop_first());
        assert(o_messages_view(rest@) =~= o_messages_view(old_rest).drop_first());
        out.push(m);
        assert(o_messages_view(out@) =~= pre.push(tail[k as int]));
        assert(first + tail.subrange(0, k + 1) =~= (first + tail.subrange(0, k as int)).push(tail[k as int]));
        assert(o_messages_view(rest@) =~= tail.subrange(k + 1, n as int));
        k = k + 1;
    }
    assert(tail.subrange(0, n as int) =~= tail);
    Ok(out)
}

} // verus!

verus! {

/// The Anthropic client only streams: a request that does not ask for a
/// stream is refused.
pub fn anthropic_accepts_stream(stream: bool) -> (r: Result<(), ProviderError>)
    ensures
        stream ==> r is Ok,
        !stream ==> r is Err && r->Err_0@ == ErrorKindView::Message(
            "AnthropicProvider currently supports stream=true only"@,
        ),
{
    if stream {
        Ok(())
    } else {
        Err(ProviderError::message("AnthropicProvider currently supports stream=true only".to_owned()))
    }
}

/// OpenAI-compatible endpoints are only streamed: a request that does not
/// ask for a stream is refused.
pub fn openai_accepts_stream(stream: bool) -> (r: Result<(), ProviderError>)
    ensures
        stream ==> r is Ok,
        !stream ==> r is Err && r->Err_0@ == ErrorKindView::Message(
            "OpenAI-compatible providers support stream=true only in this crate"@,
        ),
{
    if stream {
        Ok(())
    } else {
        Err(
            ProviderError::message(
                "OpenAI-compatible providers support stream=true only in this crate".to_owned(),
            ),
        )
    }
}

/// The OpenAI form of an assistant message reads its blocks piece by piece:
/// the text of two runs of blocks is the text of the first then that of the
/// second, and likewise for the tool calls; a text block contributes its
/// text and no call, a tool use contributes no text and one call with the
/// same id, name and arguments.
pub proof fn law_openai_assistant_blocks(a: Seq<BlockView>, b: Seq<BlockView>, x: BlockView)
    ensures
        joined_text(a + b) == joined_text(a) + joined_text(b),
        tool_calls_of_blocks(a + b) == tool_calls_of_blocks(a) + tool_calls_of_blocks(b),
        joined_text(seq![x]) == match x {
            BlockView::Text(t) => t,
            _ => Seq::<char>::empty(),
        },
        tool_calls_of_blocks(seq![x]) == match x {
            BlockView::ToolUse { id, name, input_json } => seq![OCallView { id, name, arguments: input_json }],
            _ => Seq::<OCallView>::empty(),
        },
    decreases b.len(),
{
    reveal_with_fuel(joined_text, 2);
    reveal_with_fuel(tool_calls_of_blocks, 2);
    assert(seq![x].drop_last() =~= Seq::<BlockView>::empty());
    assert(Seq::<char>::empty() + match x {
        BlockView::Text(t) => t,
        _ => Seq::<char>::empty(),
    } =~= match x {
        BlockView::Text(t) => t,
        _ => Seq::<char>::empty(),
    });
    match x {
        BlockView::ToolUse { id, name, input_json } => {
            assert(Seq::<OCallView>::empty().push(OCallView { id, name, arguments: input_json }) =~= seq![
                OCallView { id, name, arguments: input_json },
            ]);
        },
        _ => {},
    }
    if b.len() == 0 {
        assert(a + b =~= a);
        assert(joined_text(a) + Seq::<char>::empty() =~= joined_text(a));
        assert(tool_calls_of_blocks(a) + Seq::<OCallView>::empty() =~= tool_calls_of_blocks(a));
    } else {
        law_openai_assistant_blocks(a, b.drop_last(), x);
        assert((a + b).drop_last() =~= a + b.drop_last());
        assert((a + b).last() == b.last());
        let t = match b.last() {
            BlockView::Text(s) => s,
            _ => Seq::<char>::empty(),
        };
        assert(joined_text(a) + joined_text(b.drop_last()) + t =~= joined_text(a) + (joined_text(
            b.drop_last(),
        ) + t));
        match b.last() {
            BlockView::ToolUse { id, name, input_json } => {
                let c = OCallView { id, name, arguments: input_json };
                assert((tool_calls_of_blocks(a) + tool_calls_of_blocks(b.drop_last())).push(c)
                    =~= tool_calls_of_blocks(a) + tool_calls_of_blocks(b.drop_last()).push(c));
            },
            _ => {},
        }
    }
}

/// The OpenAI form keeps each message's role and content: a tool result
/// becomes a tool message for the same call with the same content, a user
/// message keeps its texts in order, and an assistant message keeps all its
/// text and all its tool calls (its content is left out only when it has
/// tool calls and no text).
pub proof fn law_openai_form_keeps_messages(m: MessageView)
    ensures
        match m {
            MessageView::ToolResult { tool_call_id, content, .. } => openai_message(m)
                == OMessageView::Tool { tool_call_id, content },
            MessageView::User(b) => openai_message(m) == OMessageView::User(openai_user_content(b))
                && block_texts(b).len() == b.len() && (forall|j: int| 0 <= j < b.len() ==> (#[trigger] b[j] matches BlockView::Text(t) ==> block_texts(b)[j] == t)),
            MessageView::Assistant(b) => openai_message(m) matches OMessageView::Assistant { content, tool_calls }
                && tool_calls == tool_calls_of_blocks(b) && (content is None <==> (tool_calls.len() > 0
                && joined_text(b).len() == 0)) && (content matches Some(t) ==> t == joined_text(b)),
        },
{
}

} // verus!
