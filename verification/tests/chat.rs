use ide_agent::chat::agent::{AgentTurn, EngineEvent, ToolOutcome, TurnPhase, MAX_TOOL_ROUNDS};
use ide_agent::chat::conversation::{ChatRole, Conversation, MessageId};
use ide_agent::chat::engine::{default_tool_defs, ChatEngine, ChatEngineConfig, DEFAULT_MAX_TOKENS};
use ide_agent::provider::types::ToolDef;
use ide_agent::chat::error::ChatError;
use ide_agent::provider::error::ProviderError;
use ide_agent::provider::registry::ProviderRegistry;
use ide_agent::provider::types::{ChatEvent, Message, StopReason, Usage};

#[test]
fn conversation_ids_and_streaming() {
    let mut c = Conversation::new();
    assert!(c.is_empty());
    let u = c.push_user("hi".into());
    let a = c.push_assistant_streaming();
    assert_eq!((u.0, a.0), (0, 1));
    c.append_text(a, "Hel");
    c.append_text(a, "lo");
    c.append_text(MessageId(99), "ignored");
    c.finish_streaming(a, Some("EndTurn".into()), 12);
    let n = c.push_note("note".into());
    let t = c.push_tool_note("grep".into());
    assert_eq!(c.len(), 4);
    let ms = c.messages();
    assert_eq!(ms[1].text, "Hello");
    assert!(!ms[1].is_streaming);
    assert_eq!(ms[1].stop_reason.as_deref(), Some("EndTurn"));
    assert_eq!(ms[1].tokens_out, 12);
    assert_eq!(ms[2].id, n);
    assert_eq!(ms[3].role, ChatRole::Tool { call_id: t.0 });
    assert_eq!(c.last_n(2).len(), 2);
    assert_eq!(c.last_n(2)[0].id, n);
    assert_eq!(c.last_n(10).len(), 4);
    assert_eq!(MessageId(7).label(), "msg-7");
}

fn history() -> Vec<(ChatRole, String)> {
    vec![
        (ChatRole::User, "q1".into()),
        (ChatRole::Note, "skip".into()),
        (ChatRole::Assistant, "a1".into()),
        (ChatRole::Tool { call_id: 3 }, "skip".into()),
    ]
}

#[test]
fn turn_request_skips_notes_and_tools() {
    let t = AgentTurn::new(1, MessageId(2), history(), "q2".into());
    assert_eq!(t.phase(), TurnPhase::Ready);
    let msgs = t.request_messages();
    assert_eq!(msgs.len(), 3);
    assert!(matches!(&msgs[0], Message::User { .. }));
    assert!(matches!(&msgs[1], Message::Assistant { .. }));
    assert!(matches!(&msgs[2], Message::User { .. }));
}

#[test]
fn turn_text_only_finishes_with_done() {
    let mut t = AgentTurn::new(1, MessageId(2), Vec::new(), "hi".into());
    assert!(t.begin_round().is_none());
    let ev = t.on_item(Ok(ChatEvent::TextDelta("Hel".into()))).unwrap();
    assert!(matches!(ev, EngineEvent::TextDelta { session_id: 1, ref delta, .. } if delta == "Hel"));
    assert!(t
        .on_item(Ok(ChatEvent::Done {
            usage: Usage { input_tokens: 1, output_tokens: 9 },
            stop_reason: StopReason::EndTurn
        }))
        .is_none());
    assert_eq!(t.phase(), TurnPhase::Drained);
    match t.stream_ended() {
        EngineEvent::Done { stop_reason, tokens_out, message_id, .. } => {
            assert_eq!(stop_reason.as_deref(), Some("EndTurn"));
            assert_eq!(tokens_out, 9);
            assert_eq!(message_id, MessageId(2));
        }
        _ => panic!("expected Done"),
    }
    assert_eq!(t.phase(), TurnPhase::Finished);
}

#[test]
fn turn_runs_tools_then_next_round() {
    let mut t = AgentTurn::new(1, MessageId(2), Vec::new(), "do it".into());
    t.begin_round();
    t.on_item(Ok(ChatEvent::TextDelta("ok".into())));
    t.on_item(Ok(ChatEvent::ToolCall { id: "c1".into(), name: "grep".into(), input_json: "{}".into() }));
    t.on_item(Ok(ChatEvent::ToolCall { id: "c2".into(), name: "read_file".into(), input_json: "{\"path\":\"a\"}".into() }));
    match t.stream_ended() {
        EngineEvent::ToolCall { call_id, name, .. } => assert_eq!((call_id.as_str(), name.as_str()), ("c1", "grep")),
        _ => panic!("expected the first tool call"),
    }
    assert_eq!(t.phase(), TurnPhase::RunningTools);
    match t.tool_result(ToolOutcome::Delivered { content: "3 hits".into(), is_error: false }) {
        Some(EngineEvent::ToolCall { call_id, .. }) => assert_eq!(call_id, "c2"),
        _ => panic!("expected the second tool call"),
    }
    assert!(t.tool_result(ToolOutcome::TimedOut).is_none());
    assert_eq!(t.phase(), TurnPhase::Ready);
    let msgs = t.request_messages();
    assert_eq!(msgs.len(), 4);
    match &msgs[3] {
        Message::ToolResult { tool_call_id, content, is_error } => {
            assert_eq!(tool_call_id, "c2");
            assert_eq!(content, "Tool execution timed out after 60 seconds.");
            assert!(*is_error);
        }
        _ => panic!("expected a tool result"),
    }
}

#[test]
fn turn_stops_after_max_rounds() {
    let mut t = AgentTurn::new(1, MessageId(2), Vec::new(), "loop".into());
    for _ in 0..MAX_TOOL_ROUNDS {
        assert!(t.begin_round().is_none());
        t.on_item(Ok(ChatEvent::ToolCall { id: "c".into(), name: "grep".into(), input_json: "{}".into() }));
        t.stream_ended();
        assert!(t.tool_result(ToolOutcome::ChannelClosed).is_none());
    }
    match t.begin_round() {
        Some(EngineEvent::Error { message, .. }) => assert_eq!(message, "Exceeded 15 tool-call rounds."),
        _ => panic!("expected the rounds error"),
    }
    assert_eq!(t.phase(), TurnPhase::Finished);
}

#[test]
fn turn_errors_end_the_turn() {
    let mut t = AgentTurn::new(1, MessageId(2), Vec::new(), "x".into());
    t.begin_round();
    match t.on_item(Err(ProviderError::http_status(500, "boom".into()))) {
        Some(EngineEvent::Error { message, .. }) => assert_eq!(message, "HTTP 500: boom"),
        _ => panic!("expected error"),
    }
    assert_eq!(t.phase(), TurnPhase::Finished);
    let mut t = AgentTurn::new(1, MessageId(2), Vec::new(), "x".into());
    t.begin_round();
    match t.request_failed(&ProviderError::config("no key".into())) {
        EngineEvent::Error { message, .. } => assert_eq!(message, "configuration: no key"),
        _ => panic!("expected error"),
    }
}

#[test]
fn engine_needs_active_provider() {
    let mut engine = ChatEngine::new(ChatEngineConfig::with_model("model-a".into()));
    assert!(!engine.has_provider());
    let r = engine.submit(1, MessageId(1), Vec::new(), "hi".into());
    assert!(matches!(r, Err(ChatError::NoProvider)));
    engine.set_registry(ProviderRegistry::from_loaded(vec![], "anthropic").unwrap());
    assert!(!engine.has_provider());
    engine.set_registry(ProviderRegistry::from_loaded(vec!["anthropic".into()], "anthropic").unwrap());
    assert!(engine.has_provider());
    let turn = engine.submit(1, MessageId(1), history(), "hi".into()).ok().unwrap();
    assert_eq!(turn.request_messages().len(), 3);
}

#[test]
fn engine_settings() {
    let mut engine = ChatEngine::new(ChatEngineConfig::with_model("model-a".into()));
    let cfg = engine.config();
    assert_eq!(cfg.default_model, "model-a");
    assert_eq!(cfg.max_tokens, DEFAULT_MAX_TOKENS);
    assert!(cfg.system_prompt.starts_with("You are an expert coding assistant"));
    assert_eq!(cfg.tools.len(), 20);
    engine.set_system_prompt("be brief".into());
    engine.set_tools(vec![ToolDef { name: "t".into(), description: "d".into(), input_schema: "{}".into() }]);
    assert_eq!(engine.config().system_prompt, "be brief");
    assert_eq!(engine.config().tools.len(), 1);
    assert_eq!(engine.config().default_model, "model-a");
}

#[test]
fn default_tool_schemas() {
    let defs = default_tool_defs();
    let names: Vec<&str> = defs.iter().map(|d| d.name.as_str()).collect();
    assert_eq!(names[0], "read_file");
    assert_eq!(names[19], "list_skills");
    assert!(names.contains(&"write_metadata_note"));
    for d in &defs {
        assert!(d.input_schema.starts_with("{\"type\":\"object\""), "{}", d.name);
        assert!(!d.description.is_empty());
    }
}

#[test]
fn chat_error_texts() {
    assert_eq!(
        ChatError::NoProvider.text(),
        "no AI provider configured — add an API key in Settings (Ctrl+,)"
    );
    assert_eq!(ChatError::Shutdown.text(), "engine is already shut down");
    assert_eq!(ChatError::Other("x".into()).text(), "x");
    assert_eq!(
        ChatError::Provider(ProviderError::sse("cut".into())).text(),
        "provider error: SSE: cut"
    );
}
