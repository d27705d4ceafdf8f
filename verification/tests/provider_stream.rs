use ide_agent::provider::frames::{anthropic_frame, openai_frame};
use ide_agent::provider::error::{ProviderError, ProviderErrorKind};
use ide_agent::provider::json::tool_input_json;
use ide_agent::provider::slots::ToolSlots;
use ide_agent::provider::stream::{
    AnthropicDecoder, AnthropicFrame, OpenAiDecoder, OpenAiFrame, OpenAiToolPart,
};
use ide_agent::provider::types::{ChatEvent, ContentBlock, Message, StopReason, Usage};
use ide_agent::provider::wire::{
    assistant_content_to_openai, content_blocks_user, messages_to_anthropic, messages_to_openai,
    openai_request_messages, user_content_to_openai, AnthropicBlock, OpenAiContent, OpenAiMessage,
};

fn frame(kind: &str) -> AnthropicFrame {
    AnthropicFrame {
        kind: kind.into(),
        index: 0,
        has_delta: false,
        delta_type: String::new(),
        delta_text: None,
        partial_json: None,
        block_is_tool_use: false,
        block_id: String::new(),
        block_name: String::new(),
        stop_reason: None,
        usage: None,
        error_message: None,
    }
}

fn text_delta(t: &str) -> AnthropicFrame {
    AnthropicFrame {
        has_delta: true,
        delta_type: "text_delta".into(),
        delta_text: Some(t.into()),
        ..frame("content_block_delta")
    }
}

#[test]
fn anthropic_stream_text_and_done() {
    let mut d = AnthropicDecoder::new();
    let mut out = Vec::new();
    out.extend(d.push_frame(frame("message_start")));
    out.extend(d.push_frame(text_delta("Hello")));
    out.extend(d.push_frame(text_delta("")));
    out.extend(d.push_frame(text_delta(" world")));
    out.extend(d.push_frame(AnthropicFrame {
        stop_reason: Some("end_turn".into()),
        usage: Some((3, 7)),
        ..frame("message_delta")
    }));
    out.extend(d.push_frame(frame("message_stop")));
    assert!(d.is_finished());
    out.extend(d.push_frame(text_delta("late")));
    out.extend(d.finish());
    assert_eq!(out.len(), 3);
    assert!(matches!(&out[0], Ok(ChatEvent::TextDelta(t)) if t == "Hello"));
    assert!(matches!(&out[1], Ok(ChatEvent::TextDelta(t)) if t == " world"));
    match &out[2] {
        Ok(ChatEvent::Done { usage, stop_reason }) => {
            assert_eq!(*usage, Usage { input_tokens: 3, output_tokens: 7 });
            assert_eq!(*stop_reason, StopReason::EndTurn);
        }
        _ => panic!("expected Done"),
    }
}

#[test]
fn anthropic_tool_call_is_assembled() {
    let mut d = AnthropicDecoder::new();
    let mut out = Vec::new();
    out.extend(d.push_frame(AnthropicFrame {
        index: 1,
        block_is_tool_use: true,
        block_id: "tu_1".into(),
        block_name: "read_file".into(),
        ..frame("content_block_start")
    }));
    for part in ["{\"path\":", " \"a.rs\"}"] {
        out.extend(d.push_frame(AnthropicFrame {
            index: 1,
            has_delta: true,
            delta_type: "input_json_delta".into(),
            partial_json: Some(part.into()),
            ..frame("content_block_delta")
        }));
    }
    out.extend(d.push_frame(AnthropicFrame { index: 1, ..frame("content_block_stop") }));
    out.extend(d.push_frame(AnthropicFrame { stop_reason: Some("tool_use".into()), ..frame("message_delta") }));
    out.extend(d.push_frame(frame("message_stop")));
    assert_eq!(out.len(), 2);
    match &out[0] {
        Ok(ChatEvent::ToolCall { id, name, input_json }) => {
            assert_eq!(id, "tu_1");
            assert_eq!(name, "read_file");
            assert_eq!(input_json, "{\"path\":\"a.rs\"}");
        }
        _ => panic!("expected a tool call"),
    }
    assert!(matches!(&out[1], Ok(ChatEvent::Done { stop_reason: StopReason::ToolUse, .. })));
}

#[test]
fn anthropic_error_and_early_end() {
    let mut d = AnthropicDecoder::new();
    let out = d.push_frame(AnthropicFrame { error_message: Some("overloaded".into()), ..frame("error") });
    assert!(matches!(&out[0], Err(e) if e.text() == "overloaded"));
    assert!(d.finish().is_empty());
    let mut d = AnthropicDecoder::new();
    d.push_frame(text_delta("x"));
    let out = d.finish();
    assert!(matches!(&out[0], Err(e) if e.text() == "stream ended before Done event"));
    let mut d = AnthropicDecoder::new();
    let out = d.fail(ProviderError::message("socket closed".into()));
    assert!(matches!(&out[0], Err(ProviderError(ProviderErrorKind::Message(m))) if m == "socket closed"));
}

fn oframe() -> OpenAiFrame {
    OpenAiFrame {
        usage: None,
        has_choice: true,
        finish_reason: None,
        has_delta: true,
        content: None,
        tool_calls: None,
    }
}

#[test]
fn openai_stream_emits_text_then_done() {
    let mut d = OpenAiDecoder::new();
    let mut out = Vec::new();
    out.extend(d.push_frame(OpenAiFrame { content: Some("Hi".into()), ..oframe() }));
    out.extend(d.push_frame(OpenAiFrame { content: Some(" there".into()), ..oframe() }));
    out.extend(d.push_frame(OpenAiFrame { finish_reason: Some("stop".into()), has_delta: false, ..oframe() }));
    out.extend(d.push_frame(OpenAiFrame { usage: Some((5, 2)), has_choice: false, ..oframe() }));
    out.extend(d.finish());
    assert_eq!(out.len(), 3);
    assert!(matches!(&out[0], Ok(ChatEvent::TextDelta(t)) if t == "Hi"));
    match &out[2] {
        Ok(ChatEvent::Done { usage, stop_reason }) => {
            assert_eq!(*usage, Usage { input_tokens: 5, output_tokens: 2 });
            assert_eq!(*stop_reason, StopReason::EndTurn);
        }
        _ => panic!("expected Done"),
    }
    assert!(d.is_finished());
}

#[test]
fn openai_tool_calls_flush_at_end() {
    let mut d = OpenAiDecoder::new();
    let part = |id: Option<&str>, name: Option<&str>, args: &str| OpenAiToolPart {
        index: 0,
        id: id.map(String::from),
        has_function: true,
        name: name.map(String::from),
        arguments: Some(args.into()),
    };
    d.push_frame(OpenAiFrame { tool_calls: Some(vec![part(Some("c1"), Some("grep"), "{\"pattern\"")]), ..oframe() });
    d.push_frame(OpenAiFrame { tool_calls: Some(vec![part(None, None, ": \"x\"}")]), ..oframe() });
    d.push_frame(OpenAiFrame { finish_reason: Some("tool_calls".into()), has_delta: false, ..oframe() });
    let out = d.finish();
    assert_eq!(out.len(), 2);
    match &out[0] {
        Ok(ChatEvent::ToolCall { id, name, input_json }) => {
            assert_eq!((id.as_str(), name.as_str()), ("c1", "grep"));
            assert_eq!(input_json, "{\"pattern\":\"x\"}");
        }
        _ => panic!("expected tool call"),
    }
    assert!(matches!(&out[1], Ok(ChatEvent::Done { stop_reason: StopReason::ToolUse, .. })));
}

#[test]
fn tool_input_json_forms() {
    assert_eq!(tool_input_json("  "), "{}");
    assert_eq!(tool_input_json("{\"a\": [1, 2]}"), "{\"a\":[1,2]}");
    assert_eq!(tool_input_json("{oops"), "null");
}

#[test]
fn tool_slots_merge_and_drain() {
    let mut s = ToolSlots::new();
    s.start(2, "b".into(), "nb".into());
    s.start(1, "a".into(), "na".into());
    s.append_args(1, "{");
    s.append_args(1, "}");
    s.merge(2, None, None, Some("[]".into()));
    let one = s.take(1).unwrap();
    assert_eq!((one.id.as_str(), one.args.as_str()), ("a", "{}"));
    assert!(s.take(1).is_none());
    let rest = s.drain_all();
    assert_eq!(rest.len(), 1);
    assert_eq!(rest[0].args, "[]");
    assert!(s.drain_all().is_empty());
}

#[test]
fn wire_messages_anthropic() {
    let msgs = vec![
        Message::User { content: vec![ContentBlock::Text("hi".into())] },
        Message::Assistant {
            content: vec![
                ContentBlock::Text("ok".into()),
                ContentBlock::ToolUse { id: "t".into(), name: "grep".into(), input_json: "{}".into() },
            ],
        },
        Message::ToolResult { tool_call_id: "t".into(), content: "found".into(), is_error: false },
    ];
    let a = messages_to_anthropic(&msgs).ok().unwrap();
    assert_eq!(a.len(), 3);
    assert!(!a[0].assistant && a[1].assistant && !a[2].assistant);
    assert!(matches!(&a[2].content[0], AnthropicBlock::ToolResult { tool_use_id, content, is_error: false }
        if tool_use_id == "t" && content == "found"));
    let bad = vec![ContentBlock::ToolUse { id: "t".into(), name: "n".into(), input_json: "{}".into() }];
    assert_eq!(
        content_blocks_user(&bad).err().unwrap().text(),
        "configuration: user messages must not contain ToolUse blocks in this API"
    );
}

#[test]
fn wire_messages_openai() {
    let msgs = vec![
        Message::User { content: vec![ContentBlock::Text("a".into()), ContentBlock::Text("b".into())] },
        Message::Assistant {
            content: vec![
                ContentBlock::Text("x".into()),
                ContentBlock::ToolUse { id: "c".into(), name: "grep".into(), input_json: "{}".into() },
            ],
        },
        Message::ToolResult { tool_call_id: "c".into(), content: "r".into(), is_error: true },
    ];
    let o = openai_request_messages(Some("sys"), &msgs).ok().unwrap();
    assert_eq!(o.len(), 4);
    assert!(matches!(&o[0], OpenAiMessage::System { content } if content == "sys"));
    assert!(matches!(&o[1], OpenAiMessage::User { content: OpenAiContent::Parts(p) } if p.len() == 2));
    assert!(matches!(&o[3], OpenAiMessage::Tool { tool_call_id, content } if tool_call_id == "c" && content == "r"));
    let o = messages_to_openai(&msgs).ok().unwrap();
    assert_eq!(o.len(), 3);
    let single = vec![ContentBlock::Text("only".into())];
    assert!(matches!(user_content_to_openai(&single).ok().unwrap(), OpenAiContent::Text(t) if t == "only"));
    let (text, calls) = assistant_content_to_openai(&msgs_assistant());
    assert_eq!(text, "xy");
    assert_eq!(calls.len(), 1);
    assert_eq!(calls[0].arguments, "{}");
}

fn msgs_assistant() -> Vec<ContentBlock> {
    vec![
        ContentBlock::Text("x".into()),
        ContentBlock::ToolUse { id: "c".into(), name: "grep".into(), input_json: "{}".into() },
        ContentBlock::Text("y".into()),
    ]
}

fn frame_from_json(v: &serde_json::Value) -> OpenAiFrame {
    let choice = v.get("choices").and_then(|c| c.as_array()).and_then(|a| a.first());
    let delta = choice.and_then(|c| c.get("delta"));
    OpenAiFrame {
        usage: v.get("usage").map(|u| {
            (
                u.get("prompt_tokens").and_then(|x| x.as_u64()).unwrap_or(0),
                u.get("completion_tokens").and_then(|x| x.as_u64()).unwrap_or(0),
            )
        }),
        has_choice: choice.is_some(),
        finish_reason: choice.and_then(|c| c.get("finish_reason")).and_then(|s| s.as_str()).map(String::from),
        has_delta: delta.is_some(),
        content: delta.and_then(|d| d.get("content")).and_then(|s| s.as_str()).map(String::from),
        tool_calls: None,
    }
}

#[test]
fn custom_openai_compatible_stream() {
    let body = "data: {\"choices\":[{\"index\":0,\"delta\":{\"content\":\"OK\"}}]}\n\n\
                data: {\"choices\":[{\"index\":0,\"delta\":{},\"finish_reason\":\"stop\"}],\
                \"usage\":{\"prompt_tokens\":2,\"completion_tokens\":1}}\n\n\
                data: [DONE]\n\n";
    let mut sse = ide_agent::sse::SseBuffer::default();
    let mut d = OpenAiDecoder::new();
    let mut events = Vec::new();
    for chunk in [&body[..20], &body[20..70], &body[70..]] {
        for payload in sse.push_str(chunk) {
            let v: serde_json::Value = serde_json::from_str(&payload).unwrap();
            events.extend(d.push_frame(frame_from_json(&v)));
        }
    }
    events.extend(d.finish());
    let mut saw = false;
    for ev in events {
        match ev {
            Ok(ChatEvent::TextDelta(s)) => {
                assert_eq!(s, "OK");
                saw = true;
            }
            Ok(ChatEvent::Done { usage, .. }) => assert_eq!(usage, Usage { input_tokens: 2, output_tokens: 1 }),
            _ => panic!("unexpected event"),
        }
    }
    assert!(saw);
    let id = ide_agent::provider::endpoints::custom_logical_id("test-srv");
    assert_eq!(id, "custom:test-srv");
    assert_eq!(ide_agent::provider::endpoints::registry_key(&id), "test-srv");
    assert_eq!(
        ide_agent::provider::endpoints::chat_completions_url_from_base("http://127.0.0.1:9/v1").unwrap(),
        "http://127.0.0.1:9/v1/chat/completions"
    );
}

#[test]
fn anthropic_payloads_decode_to_text_and_done() {
    let mut d = AnthropicDecoder::new();
    let mut out = Vec::new();
    for p in [
        r#"{"type":"message_start","message":{"role":"assistant"}}"#,
        r#"{"type":"content_block_delta","index":0,"delta":{"type":"text_delta","text":"Hi"}}"#,
        "not json at all",
        r#"{"type":"message_delta","delta":{"stop_reason":"end_turn"},"usage":{"input_tokens":10,"output_tokens":2}}"#,
        r#"{"type":"message_stop"}"#,
    ] {
        out.extend(d.push_payload(p));
    }
    assert_eq!(out.len(), 2);
    assert!(matches!(&out[0], Ok(ChatEvent::TextDelta(t)) if t == "Hi"));
    match &out[1] {
        Ok(ChatEvent::Done { usage, stop_reason }) => {
            assert_eq!((usage.input_tokens, usage.output_tokens), (10, 2));
            assert_eq!(*stop_reason, StopReason::EndTurn);
        }
        other => panic!("unexpected {other:?}"),
    }
}

#[test]
fn anthropic_frame_reads_tool_use_block_and_defaults() {
    let f = anthropic_frame(
        r#"{"type":"content_block_start","index":2,"content_block":{"type":"tool_use","id":"t1","name":"read_file"}}"#,
    )
    .unwrap();
    assert_eq!((f.kind.as_str(), f.index), ("content_block_start", 2));
    assert!(f.block_is_tool_use && !f.has_delta);
    assert_eq!((f.block_id.as_str(), f.block_name.as_str()), ("t1", "read_file"));
    let g = anthropic_frame(r#"{"usage":{"output_tokens":"x"}}"#).unwrap();
    assert_eq!((g.kind.as_str(), g.index, g.usage), ("", 0, Some((0, 0))));
    assert!(anthropic_frame("{").is_none());
}

#[test]
fn openai_payloads_decode_with_usage_fallback() {
    let mut d = OpenAiDecoder::new();
    let mut out = Vec::new();
    out.extend(d.push_payload(r#"{"choices":[{"index":0,"delta":{"content":"Hello"}}]}"#));
    out.extend(d.push_payload(
        r#"{"choices":[{"index":0,"delta":{},"finish_reason":"stop"}],"usage":{"input_tokens":3,"completion_tokens":2}}"#,
    ));
    out.extend(d.finish());
    assert!(matches!(&out[0], Ok(ChatEvent::TextDelta(t)) if t == "Hello"));
    match out.last().unwrap() {
        Ok(ChatEvent::Done { usage, .. }) => assert_eq!((usage.input_tokens, usage.output_tokens), (3, 2)),
        other => panic!("unexpected {other:?}"),
    }
    let f = openai_frame(
        r#"{"choices":[{"delta":{"tool_calls":[{"index":1,"id":"c","function":{"name":"grep","arguments":"{}"}}]}}]}"#,
    )
    .unwrap();
    let parts = f.tool_calls.unwrap();
    assert_eq!(parts.len(), 1);
    assert_eq!((parts[0].index, parts[0].id.as_deref(), parts[0].name.as_deref()), (1, Some("c"), Some("grep")));
    let h = openai_frame(r#"{"choices":{"0":{"delta":{}}}}"#).unwrap();
    assert!(!h.has_choice && !h.has_delta);
    assert!(openai_frame("[DONE]").is_none());
}
