//! Provider settings (`providers.toml`): which providers are enabled, where
//! they live and the request limits. Reading and writing the file is the
//! caller's work.

use vstd::prelude::*;

verus! {

/// The provider and model chosen in the settings.
#[derive(Debug)]
pub struct ActiveSection {
    pub provider: String,
    pub model: String,
}

#[derive(Debug)]
pub struct AnthropicSection {
    pub enabled: bool,
    pub base_url: Option<String>,
}

impl Default for AnthropicSection {
    fn default() -> (r: Self)
        ensures
            r.enabled,
            r.base_url is None,
    {
        AnthropicSection { enabled: true, base_url: None }
    }
}

#[derive(Debug)]
pub struct OpenAiSection {
    pub enabled: bool,
    pub base_url: Option<String>,
}

impl Default for OpenAiSection {
    fn default() -> (r: Self)
        ensures
            r.enabled,
            r.base_url is None,
    {
        OpenAiSection { enabled: true, base_url: None }
    }
}

#[derive(Debug)]
pub struct OllamaSection {
    pub enabled: bool,
    pub base_url: String,
}

/// Default of the `enabled` flags that the file leaves out.
pub fn default_true() -> (r: bool)
    ensures
        r,
{
    true
}

/// Where a local Ollama server listens by default.
pub fn default_ollama_base() -> (r: String)
    ensures
        r@ == "http://localhost:11434"@,
{
    "http://localhost:11434".to_owned()
}

impl Default for OllamaSection {
    fn default() -> (r: Self)
        ensures
            r.enabled,
            r.base_url@ == "http://localhost:11434"@,
    {
        OllamaSection { enabled: default_true(), base_url: default_ollama_base() }
    }
}

/// A user-defined OpenAI-compatible endpoint.
#[derive(Debug)]
pub struct CustomSection {
    pub enabled: bool,
    pub base_url: String,
    pub models: Vec<String>,
}

/// All provider sections; `custom` lists the user's endpoints by name.
#[derive(Debug)]
pub struct ProvidersSection {
    pub anthropic: AnthropicSection,
    pub openai: OpenAiSection,
    pub ollama: OllamaSection,
    pub custom: Vec<(String, CustomSection)>,
}

impl Default for ProvidersSection {
    fn default() -> (r: Self)
        ensures
            r.anthropic.enabled && r.anthropic.base_url is None,
            r.openai.enabled && r.openai.base_url is None,
            r.ollama.enabled && r.ollama.base_url@ == "http://localhost:11434"@,
            r.custom@.len() == 0,
    {
        ProvidersSection {
            anthropic: AnthropicSection::default(),
            openai: OpenAiSection::default(),
            ollama: OllamaSection::default(),
            custom: Vec::new(),
        }
    }
}

/// Default `max_tokens` of a request.
pub fn default_max_tokens() -> (r: u32)
    ensures
        r == 4096,
{
    4096
}

/// Default number of chat requests allowed per rolling minute.
pub fn default_rate_limit() -> (r: u32)
    ensures
        r == 60,
{
    60
}

#[derive(Debug)]
pub struct LimitsSection {
    pub max_tokens_default: u32,
    pub rate_limit_per_minute: u32,
}

impl Default for LimitsSection {
    fn default() -> (r: Self)
        ensures
            r.max_tokens_default == 4096,
            r.rate_limit_per_minute == 60,
    {
        LimitsSection {
            max_tokens_default: default_max_tokens(),
            rate_limit_per_minute: default_rate_limit(),
        }
    }
}

/// The whole `providers.toml`.
#[derive(Debug)]
pub struct ProviderConfig {
    pub active: ActiveSection,
    pub providers: ProvidersSection,
    pub limits: LimitsSection,
}

impl ProviderConfig {
    /// The settings of a fresh install (the file written when none exists),
    /// with `model` as the active Anthropic model.
    pub fn fresh(model: String) -> (r: Self)
        ensures
            r.active.provider@ == "anthropic"@,
            r.active.model@ == model@,
            r.providers.anthropic.enabled && r.providers.anthropic.base_url is None,
            r.providers.openai.enabled && r.providers.openai.base_url is None,
            r.providers.ollama.enabled && r.providers.ollama.base_url@ == "http://localhost:11434"@,
            r.providers.custom@.len() == 0,
            r.limits.max_tokens_default == 4096,
            r.limits.rate_limit_per_minute == 60,
    {
        ProviderConfig {
            active: ActiveSection { provider: "anthropic".to_owned(), model },
            providers: ProvidersSection::default(),
            limits: LimitsSection::default(),
        }
    }
}

/// The text of the settings file written on first start, naming `model` as
/// the active Anthropic model.
pub fn default_providers_toml(model: &str) -> (r: String)
    ensures
        r@ == "\n[active]\nprovider = \"anthropic\"\nmodel = \""@ + model@ + "\"\n\n[providers.anthropic]\nenabled = true\n\n[providers.openai]\nenabled = true\n\n[providers.ollama]\nenabled = true\nbase_url = \"http://localhost:11434\"\n\n[limits]\nmax_tokens_default = 4096\nrate_limit_per_minute = 60\n"@,
{
    let mut s = "\n[active]\nprovider = \"anthropic\"\nmodel = \"".to_owned();
    s.append(model);
    s.append("\"\n\n[providers.anthropic]\nenabled = true\n\n[providers.openai]\nenabled = true\n\n[providers.ollama]\nenabled = true\nbase_url = \"http://localhost:11434\"\n\n[limits]\nmax_tokens_default = 4096\nrate_limit_per_minute = 60\n");
    s
}

} // verus!
