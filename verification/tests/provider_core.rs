use ide_agent::provider::wire::{anthropic_accepts_stream, openai_accepts_stream};
use ide_agent::provider::secrets::{delete_outcome, key_detail_from_keychain, key_from_keychain, KeychainDelete, KeychainRead, SecretStore};
use ide_agent::provider::plan::lookup_keys;
use ide_agent::provider::probe::{anthropic_probe_verdict, models_probe_url, probe_failure, probe_verdict, tags_probe_url, ProbeVerdict};
use ide_agent::provider::config::CustomSection;
use ide_agent::provider::plan::{plan_providers, PlannedProvider, ProviderKeys};
use ide_agent::provider::config::{
    default_max_tokens, default_ollama_base, default_rate_limit, default_true, LimitsSection,
    ProviderConfig, ProvidersSection,
};
use ide_agent::provider::endpoints::{
    anthropic_messages_url, chat_completions_url_from_base, custom_logical_id, fallback_models,
    models_named, ollama_tags_url, openai_models, optional_base_url, parse_base_url, registry_key,
};
use ide_agent::provider::error::{ProviderError, ProviderErrorKind};
use ide_agent::provider::http::{parse_retry_after, parse_u64, RetryState, RetryStep, RetryWait};
use ide_agent::provider::ledger::TokenLedger;
use ide_agent::provider::rate_limit::{MinuteRateLimit, MIN_WAIT_NS, WINDOW_NS};
use ide_agent::provider::registry::{normalize_active_key, ProviderRegistry, RegistryError};
use ide_agent::provider::secrets::env_var_name;
use ide_agent::provider::types::{StopReason, Usage};

#[test]
fn active_key_normalization() {
    assert_eq!(normalize_active_key(" anthropic ").unwrap(), "anthropic");
    assert_eq!(normalize_active_key("custom:groq").unwrap(), "custom:groq");
    assert_eq!(normalize_active_key("groq").unwrap(), "custom:groq");
    let e = normalize_active_key("   ").unwrap_err();
    assert_eq!(e.text(), "configuration: active.provider is empty");
}

#[test]
fn registry_picks_active_and_lists_sorted() {
    let loaded = vec!["openai".to_string(), "anthropic".to_string(), "openai".to_string()];
    let mut reg = ProviderRegistry::from_loaded(loaded, "anthropic").unwrap();
    assert_eq!(reg.active_id(), Some("anthropic"));
    assert_eq!(reg.list(), vec!["anthropic".to_string(), "openai".to_string()]);
    assert!(reg.contains("openai"));
    assert!(!reg.contains("ollama"));
    reg.set_active("openai").unwrap();
    assert_eq!(reg.active_id(), Some("openai"));
    let e = reg.set_active("nope").unwrap_err();
    assert!(matches!(e, RegistryError::Unknown(ref s) if s == "nope"));
    assert_eq!(e.text(), "unknown provider id `nope`");
    assert_eq!(reg.active_id(), Some("openai"));
}

#[test]
fn registry_falls_back_when_active_missing() {
    let reg = ProviderRegistry::from_loaded(vec!["ollama".to_string()], "anthropic").unwrap();
    assert_eq!(reg.active_id(), Some("ollama"));
    let reg = ProviderRegistry::from_loaded(vec![], "anthropic").unwrap();
    assert_eq!(reg.active_id(), None);
    assert!(reg.list().is_empty());
}

#[test]
fn rate_limit_window() {
    let mut rl = MinuteRateLimit::new(2);
    assert_eq!(rl.try_acquire(1_000), None);
    assert_eq!(rl.try_acquire(2_000), None);
    let wait = rl.try_acquire(3_000).unwrap();
    assert_eq!(wait, 1_000 + WINDOW_NS - 3_000);
    assert_eq!(rl.try_acquire(1_000 + WINDOW_NS), None);
    let mut rl = MinuteRateLimit::new(0);
    assert_eq!(rl.try_acquire(5), None);
    let w = rl.try_acquire(5 + WINDOW_NS - 10).unwrap();
    assert_eq!(w, MIN_WAIT_NS);
}

#[test]
fn retry_after_parsing() {
    assert_eq!(parse_u64("42"), Some(42));
    assert_eq!(parse_u64(""), None);
    assert_eq!(parse_u64("4x"), None);
    assert_eq!(parse_u64("18446744073709551616"), None);
    assert_eq!(parse_retry_after(Some("7")), Some(7));
    assert_eq!(parse_retry_after(None), None);
}

#[test]
fn retry_policy_after_failures() {
    let mut st = RetryState::new();
    for _ in 0..3 {
        match st.after_failure(503, Some("2"), "busy".into()) {
            RetryStep::Retry(RetryWait::Seconds(2)) => {}
            _ => panic!("expected a retry after 2 s"),
        }
    }
    match st.after_failure(503, Some("2"), "busy".into()) {
        RetryStep::Fail(e) => assert_eq!(e.text(), "HTTP 503: busy"),
        _ => panic!("expected failure"),
    }
    let mut st = RetryState::new();
    match st.after_failure(400, None, "bad".into()) {
        RetryStep::Fail(e) => assert_eq!(e.text(), "HTTP 400: bad"),
        _ => panic!("400 is not retried"),
    }
    let mut st = RetryState::new();
    assert!(matches!(
        st.after_failure(429, None, String::new()),
        RetryStep::Retry(RetryWait::Backoff(_)) | RetryStep::Retry(RetryWait::OneSecond)
    ));
}

#[test]
fn completions_url_forms() {
    assert_eq!(chat_completions_url_from_base("https://h").unwrap(), "https://h/v1/chat/completions");
    assert_eq!(chat_completions_url_from_base("https://h/v1/").unwrap(), "https://h/v1/chat/completions");
    assert_eq!(
        chat_completions_url_from_base("https://h/v1/chat/completions//").unwrap(),
        "https://h/v1/chat/completions"
    );
}

#[test]
fn url_parsing_and_joining() {
    assert_eq!(parse_base_url("base", "https://api.example.com").unwrap(), "https://api.example.com/");
    let e = parse_base_url("anthropic base_url", "not a url").unwrap_err();
    assert!(e.text().starts_with("anthropic base_url: "), "{}", e.text());
    assert_eq!(optional_base_url(Some("http://x.io/a")), Some("http://x.io/a".to_string()));
    assert_eq!(optional_base_url(Some("::")), None);
    assert_eq!(optional_base_url(None), None);
    assert_eq!(
        anthropic_messages_url("https://api.anthropic.com/").unwrap(),
        "https://api.anthropic.com/v1/messages"
    );
    assert_eq!(ollama_tags_url("http://localhost:11434").unwrap(), "http://localhost:11434/api/tags");
    assert!(anthropic_messages_url("nope").is_err());
}

#[test]
fn model_lists_and_ids() {
    let ids: Vec<String> = openai_models().into_iter().map(|m| m.id).collect();
    assert_eq!(ids, vec!["gpt-4o", "gpt-4o-mini", "gpt-4-turbo", "o4-mini"]);
    let fb = fallback_models();
    assert_eq!(fb.len(), 1);
    assert_eq!(fb[0].id, "llama3.2");
    let named = models_named(&vec!["a".to_string(), "b".to_string()]);
    assert_eq!(named[1].id, "b");
    assert_eq!(named[1].label, "b");
    assert_eq!(custom_logical_id("groq"), "custom:groq");
    assert_eq!(registry_key("custom:groq"), "groq");
    assert_eq!(registry_key("openai"), "openai");
}

#[test]
fn env_var_names() {
    assert_eq!(env_var_name("anthropic").as_deref(), Some("ANTHROPIC_API_KEY"));
    assert_eq!(env_var_name("openai").as_deref(), Some("OPENAI_API_KEY"));
    assert_eq!(env_var_name("custom:my-llm.2").as_deref(), Some("IDE_CUSTOM_MY_LLM_2_API_KEY"));
    assert_eq!(env_var_name("ollama"), None);
}

#[test]
fn config_defaults() {
    assert!(default_true());
    assert_eq!(default_ollama_base(), "http://localhost:11434");
    assert_eq!(default_max_tokens(), 4096);
    assert_eq!(default_rate_limit(), 60);
    let l = LimitsSection::default();
    assert_eq!((l.max_tokens_default, l.rate_limit_per_minute), (4096, 60));
    let p = ProvidersSection::default();
    assert!(p.anthropic.enabled && p.openai.enabled && p.ollama.enabled);
    assert!(p.custom.is_empty());
    let c = ProviderConfig::fresh("model-x".to_string());
    assert_eq!(c.active.provider, "anthropic");
    assert_eq!(c.active.model, "model-x");
}

#[test]
fn ledger_saturates() {
    let mut l = TokenLedger::new();
    l.record(Usage { input_tokens: 10, output_tokens: 5 });
    l.record(Usage { input_tokens: u32::MAX, output_tokens: 1 });
    assert_eq!(l.total(), Usage { input_tokens: u32::MAX, output_tokens: 6 });
    l.reset();
    assert_eq!(l.total(), Usage::zero());
}

#[test]
fn stop_reasons() {
    assert_eq!(StopReason::from_anthropic("end_turn"), StopReason::EndTurn);
    assert_eq!(StopReason::from_anthropic("tool_use"), StopReason::ToolUse);
    assert_eq!(StopReason::from_anthropic("weird"), StopReason::Other("weird".into()));
    assert_eq!(StopReason::from_openai_finish(None, Some("length")), StopReason::MaxTokens);
    assert_eq!(StopReason::from_openai_finish(Some("stop"), None), StopReason::EndTurn);
    assert_eq!(StopReason::from_openai_finish(Some("tool_calls"), None), StopReason::ToolUse);
    assert_eq!(StopReason::ToolUse.debug_name(), "ToolUse");
    assert_eq!(StopReason::Other("x".into()).debug_name(), "Other(\"x\")");
}

#[test]
fn provider_error_texts() {
    assert_eq!(ProviderError::http_status(404, "nf".into()).text(), "HTTP 404: nf");
    assert_eq!(ProviderError::incomplete_stream().text(), "stream ended before Done event");
    assert_eq!(ProviderError::config("x".into()).text(), "configuration: x");
    assert_eq!(ProviderError::sse("bad".into()).text(), "SSE: bad");
    assert_eq!(ProviderError(ProviderErrorKind::Url("u".into())).text(), "invalid URL: u");
    let d = ProviderError(ProviderErrorKind::Json("j".into())).duplicate();
    assert!(matches!(d.0, ProviderErrorKind::Message(ref m) if m == "j"));
}

fn config_with(ollama_base: &str, customs: Vec<(String, ide_agent::provider::config::CustomSection)>) -> ProviderConfig {
    let mut c = ProviderConfig::fresh("m".into());
    c.providers.ollama.base_url = ollama_base.into();
    c.providers.custom = customs;
    c
}

#[test]
fn provider_plan_builds_enabled_keyed_providers() {
    let customs = vec![
        (
            "groq".to_string(),
            CustomSection { enabled: true, base_url: "https://api.groq.com/openai/v1".into(), models: vec!["llama".into()] },
        ),
        ("off".to_string(), CustomSection { enabled: false, base_url: "nope".into(), models: vec![] }),
    ];
    let c = config_with("http://localhost:11434", customs);
    let keys = ProviderKeys { anthropic: Some("ak".into()), openai: None, custom: vec![Some("gk".into()), None] };
    let plan = plan_providers(&c, &keys).ok().unwrap();
    assert_eq!(plan.len(), 3);
    assert!(matches!(&plan[0], PlannedProvider::Anthropic { key, base_url: None } if key == "ak"));
    assert!(matches!(&plan[1], PlannedProvider::Ollama { base_url } if base_url == "http://localhost:11434/"));
    assert!(matches!(&plan[2], PlannedProvider::Custom { name, base_url, key: Some(k), models }
        if name == "groq" && base_url == "https://api.groq.com/openai/v1" && k == "gk" && models.len() == 1));
    let ids: Vec<String> = plan
        .iter()
        .map(|p| match p {
            PlannedProvider::Anthropic { .. } => "anthropic".to_string(),
            PlannedProvider::OpenAi { .. } => "openai".to_string(),
            PlannedProvider::Ollama { .. } => "ollama".to_string(),
            PlannedProvider::Custom { name, .. } => custom_logical_id(name),
        })
        .collect();
    let reg = ProviderRegistry::from_loaded(ids, &c.active.provider).unwrap();
    assert_eq!(reg.active_id(), Some("anthropic"));
}

#[test]
fn provider_plan_reports_bad_urls() {
    let keys = ProviderKeys { anthropic: None, openai: None, custom: vec![] };
    let e = plan_providers(&config_with("not a url", vec![]), &keys).err().unwrap();
    assert!(e.text().starts_with("ollama base_url: "), "{}", e.text());
    let customs =
        vec![("x".to_string(), CustomSection { enabled: true, base_url: "::bad".into(), models: vec![] })];
    let e = plan_providers(&config_with("http://localhost:11434", customs), &keys).err().unwrap();
    assert!(e.text().starts_with("custom x base_url: "), "{}", e.text());
}

#[test]
fn shared_error_keeps_text() {
    let shared = ProviderError::sse("cut".into()).into_shared();
    assert_eq!(shared.text(), "SSE: cut");
}

#[test]
fn probe_urls_and_verdicts() {
    assert_eq!(models_probe_url("https://api.openai.com//"), "https://api.openai.com/v1/models");
    assert_eq!(tags_probe_url("http://localhost:11434"), "http://localhost:11434/api/tags");
    assert_eq!(probe_verdict(200), ProbeVerdict::Reachable);
    assert_eq!(probe_verdict(404), ProbeVerdict::Failed);
    assert_eq!(anthropic_probe_verdict(401), ProbeVerdict::KeyRejected);
    assert_eq!(anthropic_probe_verdict(405), ProbeVerdict::Reachable);
    assert_eq!(anthropic_probe_verdict(500), ProbeVerdict::Failed);
    assert_eq!(probe_failure(ProbeVerdict::Reachable, "200 OK"), None);
    assert_eq!(
        probe_failure(ProbeVerdict::KeyRejected, "403 Forbidden").as_deref(),
        Some("HTTP 403 Forbidden (check API key)")
    );
    assert_eq!(probe_failure(ProbeVerdict::Failed, "502 Bad Gateway").as_deref(), Some("HTTP 502 Bad Gateway"));
}

#[test]
fn keychain_answers_and_environment_fallback() {
    let found = key_from_keychain(KeychainRead::Found("k1".into()), Some("env".into()));
    assert_eq!(found.as_deref(), Some("k1"));
    assert_eq!(key_from_keychain(KeychainRead::NoEntry, Some("env".into())).as_deref(), Some("env"));
    assert_eq!(key_from_keychain(KeychainRead::Failed("locked".into()), None), None);

    let (k, hint) = key_detail_from_keychain(KeychainRead::NoEntry, Some("env".into()));
    assert_eq!(k.as_deref(), Some("env"));
    let hint = hint.unwrap();
    assert_eq!(hint.message, "No OS keychain entry; used environment variable.");
    assert!(hint.used_env_fallback);
    let (k, hint) = key_detail_from_keychain(KeychainRead::Failed("platform failure".into()), None);
    assert_eq!(k, None);
    let hint = hint.unwrap();
    assert_eq!(hint.message, "keyring: platform failure");
    assert!(!hint.used_env_fallback);
    assert!(key_detail_from_keychain(KeychainRead::NoEntry, None).1.is_none());

    assert!(delete_outcome(KeychainDelete::NoEntry).is_ok());
    assert!(delete_outcome(KeychainDelete::Deleted).is_ok());
    let e = delete_outcome(KeychainDelete::Failed("denied".into())).unwrap_err();
    assert_eq!(e.text(), "keyring delete: denied");
}

#[test]
fn lookup_keys_without_enabled_providers_asks_nothing() {
    let mut c = ProviderConfig::fresh("m".into());
    c.providers.anthropic.enabled = false;
    c.providers.openai.enabled = false;
    c.providers.custom = vec![("off".to_string(), CustomSection { enabled: false, base_url: "x".into(), models: vec![] })];
    let env = vec![("ANTHROPIC_API_KEY".to_string(), "sk".to_string())];
    let keys = lookup_keys(&c, &SecretStore::new(), &env).unwrap();
    assert!(keys.anthropic.is_none() && keys.openai.is_none());
    assert_eq!(keys.custom.len(), 1);
    assert!(keys.custom[0].is_none());
}

#[test]
fn non_streaming_requests_are_refused() {
    assert!(anthropic_accepts_stream(true).is_ok());
    assert!(openai_accepts_stream(true).is_ok());
    assert_eq!(
        anthropic_accepts_stream(false).unwrap_err().text(),
        "AnthropicProvider currently supports stream=true only"
    );
    assert_eq!(
        openai_accepts_stream(false).unwrap_err().text(),
        "OpenAI-compatible providers support stream=true only in this crate"
    );
}
