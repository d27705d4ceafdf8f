//! Which providers the settings ask to build: enabled providers whose API
//! key was found, with their base URLs parsed. Building the HTTP clients is
//! the caller's work; the registry is then made from the planned ids.

use vstd::prelude::*;

use crate::provider::config::{CustomSection, ProviderConfig};
use crate::provider::endpoints::{optional_base_url, parse_base_url, url_parse_of};
use crate::provider::error::{ErrorKindView, ProviderError};
use crate::provider::registry::opt_view;
use crate::provider::secrets::{env_var_for, env_var_name, SecretStore};

verus! {

/// A provider to build.
pub enum PlannedProvider {
    Anthropic { key: String, base_url: Option<String> },
    OpenAi { key: String, base_url: Option<String> },
    Ollama { base_url: String },
    Custom { name: String, base_url: String, key: Option<String>, models: Vec<String> },
}

pub enum PlanView {
    Anthropic { key: Seq<char>, base_url: Option<Seq<char>> },
    OpenAi { key: Seq<char>, base_url: Option<Seq<char>> },
    Ollama { base_url: Seq<char> },
    Custom { name: Seq<char>, base_url: Seq<char>, key: Option<Seq<char>>, models: Seq<Seq<char>> },
}

pub open spec fn strs(v: Seq<String>) -> Seq<Seq<char>> {
    v.map_values(|s: String| s@)
}

impl View for PlannedProvider {
    type V = PlanView;

    open spec fn view(&self) -> PlanView {
        match self {
            PlannedProvider::Anthropic { key, base_url } => PlanView::Anthropic {
                key: key@,
                base_url: opt_view(*base_url),
            },
            PlannedProvider::OpenAi { key, base_url } => PlanView::OpenAi {
                key: key@,
                base_url: opt_view(*base_url),
            },
            PlannedProvider::Ollama { base_url } => PlanView::Ollama { base_url: base_url@ },
            PlannedProvider::Custom { name, base_url, key, models } => PlanView::Custom {
                name: name@,
                base_url: base_url@,
                key: opt_view(*key),
                models: strs(models@),
            },
        }
    }
}

pub open spec fn plans_view(v: Seq<PlannedProvider>) -> Seq<PlanView> {
    v.map_values(|p: PlannedProvider| p@)
}


/// The API keys found for the providers: Anthropic, OpenAI, and each custom
/// endpoint in the order the settings list them.
pub struct ProviderKeys {
    pub anthropic: Option<String>,
    pub openai: Option<String>,
    pub custom: Vec<Option<String>>,
}

/// A base URL setting as kept: its serialization when it parses.
pub open spec fn kept_url(s: Option<String>) -> Option<Seq<char>> {
    match s {
        Some(t) => match url_parse_of(t@) {
            Ok(u) => Some(u),
            Err(_) => None,
        },
        None => None,
    }
}

/// The custom endpoints `cs[..n]` in order: each enabled one needs a base
/// URL that parses; the first that does not gives the error.
pub open spec fn customs_upto(cs: Seq<(String, CustomSection)>, keys: Seq<Option<String>>, n: int) -> Result<
    Seq<PlanView>,
    ErrorKindView,
>
    decreases n,
{
    if n <= 0 || n > cs.len() {
        Ok(Seq::empty())
    } else {
        match customs_upto(cs, keys, n - 1) {
            Err(e) => Err(e),
            Ok(p) => {
                let i = n - 1;
                if !cs[i].1.enabled {
                    Ok(p)
                } else {
                    match url_parse_of(cs[i].1.base_url@) {
                        Err(e) => Err(ErrorKindView::Message("custom "@ + cs[i].0@ + " base_url: "@ + e)),
                        Ok(u) => Ok(
                            p.push(
                                PlanView::Custom {
                                    name: cs[i].0@,
                                    base_url: u,
                                    key: if i < keys.len() { opt_view(keys[i]) } else { None },
                                    models: strs(cs[i].1.models@),
                                },
                            ),
                        ),
                    }
                }
            },
        }
    }
}

/// Once the custom endpoints fail, the first failure stands.
proof fn lemma_customs_error_stays(cs: Seq<(String, CustomSection)>, keys: Seq<Option<String>>, n: int, m: int)
    requires
        0 < n <= m <= cs.len(),
        customs_upto(cs, keys, n) is Err,
    ensures
        customs_upto(cs, keys, m) == customs_upto(cs, keys, n),
    decreases m - n,
{
    if m > n {
        lemma_customs_error_stays(cs, keys, n, m - 1);
    }
}

/// The providers the settings ask for, given the keys found: Anthropic and
/// OpenAI when enabled and keyed, Ollama when enabled (its base URL must
/// parse), then the enabled custom endpoints.
pub open spec fn provider_plan(c: ProviderConfig, k: ProviderKeys) -> Result<Seq<PlanView>, ErrorKindView> {
    let a: Seq<PlanView> = if c.providers.anthropic.enabled && k.anthropic is Some {
        seq![PlanView::Anthropic { key: k.anthropic.unwrap()@, base_url: kept_url(c.providers.anthropic.base_url) }]
    } else {
        Seq::empty()
    };
    let o: Seq<PlanView> = if c.providers.openai.enabled && k.openai is Some {
        seq![PlanView::OpenAi { key: k.openai.unwrap()@, base_url: kept_url(c.providers.openai.base_url) }]
    } else {
        Seq::empty()
    };
    if c.providers.ollama.enabled && url_parse_of(c.providers.ollama.base_url@) is Err {
        Err(ErrorKindView::Message("ollama base_url: "@ + url_parse_of(c.providers.ollama.base_url@)->Err_0))
    } else {
        let ol: Seq<PlanView> = if c.providers.ollama.enabled {
            seq![PlanView::Ollama { base_url: url_parse_of(c.providers.ollama.base_url@)->Ok_0 }]
        } else {
            Seq::empty()
        };
        match customs_upto(c.providers.custom@, k.custom@, c.providers.custom@.len() as int) {
            Err(e) => Err(e),
            Ok(cu) => Ok(a + o + ol + cu),
        }
    }
}

fn copy_opt(o: &Option<String>) -> (r: Option<String>)
    ensures
        opt_view(r) == opt_view(*o),
{
    match o {
        Some(s) => Some(s.clone()),
        None => None,
    }
}

fn copy_strings(v: &Vec<String>) -> (r: Vec<String>)
    ensures
        strs(r@) == strs(v@),
{
    let mut out: Vec<String> = Vec::new();
    let mut i: usize = 0;
    while i < v.len()
        invariant
            0 <= i <= v@.len(),
            strs(out@) == strs(v@).subrange(0, i as int),
        decreases v@.len() - i,
    {
        let ghost pre = out@;
        let c = v[i].clone();
        assert(c@ == v@[i as int]@);
        out.push(c);
        assert(out@ == pre.push(c));
        assert(strs(out@) =~= strs(pre).push(c@));
        assert(strs(v@).subrange(0, i + 1) =~= strs(v@).subrange(0, i as int).push(strs(v@)[i as int]));
        assert(strs(out@) =~= strs(v@).subrange(0, i + 1));
        i = i + 1;
    }
    assert(strs(v@).subrange(0, v@.len() as int) =~= strs(v@));
    out
}

fn kept(s: &Option<String>) -> (r: Option<String>)
    ensures
        opt_view(r) == kept_url(*s),
{
    match s {
        Some(t) => optional_base_url(Some(t.as_str())),
        None => None,
    }
}

/// The providers to build for the settings `c` and the keys found `k`, in
/// the order described by [`provider_plan`].
pub fn plan_providers(c: &ProviderConfig, k: &ProviderKeys) -> (r: Result<Vec<PlannedProvider>, ProviderError>)
    ensures
        match provider_plan(*c, *k) {
            Ok(p) => r is Ok && plans_view(r->Ok_0@) == p,
            Err(e) => r is Err && r->Err_0@ == e,
        },
{
    let mut out: Vec<PlannedProvider> = Vec::new();
    if c.providers.anthropic.enabled {
        if let Some(key) = &k.anthropic {
            out.push(PlannedProvider::Anthropic { key: key.clone(), base_url: kept(&c.providers.anthropic.base_url) });
        }
    }
    if c.providers.openai.enabled {
        if let Some(key) = &k.openai {
            out.push(PlannedProvider::OpenAi { key: key.clone(), base_url: kept(&c.providers.openai.base_url) });
        }
    }
    let ghost head = plans_view(out@);
    proof {
        let a: Seq<PlanView> = if c.providers.anthropic.enabled && k.anthropic is Some {
            seq![PlanView::Anthropic { key: k.anthropic.unwrap()@, base_url: kept_url(c.providers.anthropic.base_url) }]
        } else {
            Seq::empty()
        };
        let o: Seq<PlanView> = if c.providers.openai.enabled && k.openai is Some {
            seq![PlanView::OpenAi { key: k.openai.unwrap()@, base_url: kept_url(c.providers.openai.base_url) }]
        } else {
            Seq::empty()
        };
        assert(head =~= a + o);
    }
    if c.providers.ollama.enabled {
        let u = match parse_base_url("ollama base_url", c.providers.ollama.base_url.as_str()) {
            Ok(u) => u,
            Err(e) => {
                proof {
                    reveal_strlit("ollama base_url");
                    reveal_strlit(": ");
                    reveal_strlit("ollama base_url: ");
                    assert("ollama base_url"@ + ": "@ =~= "ollama base_url: "@);
                }
                return Err(e);
            },
        };
        out.push(PlannedProvider::Ollama { base_url: u });
    }
    let ghost head2 = plans_view(out@);
    let cs = &c.providers.custom;
    let ghost csv = cs@;
    let ghost keys = k.custom@;
    let mut i: usize = 0;
    while i < cs.len()
        invariant
            0 <= i <= csv.len(),
            csv == c.providers.custom@,
            cs@ == csv,
            !(c.providers.ollama.enabled && url_parse_of(c.providers.ollama.base_url@) is Err),
            keys == k.custom@,
            customs_upto(csv, keys, i as int) matches Ok(p) && plans_view(out@) == head2 + p,
        decreases csv.len() - i,
    {
        let (name, sec) = &cs[i];
        let ghost p = customs_upto(csv, keys, i as int)->Ok_0;
        if sec.enabled {
            let mut what = "custom ".to_owned();
            what.append(name.as_str());
            what.append(" base_url");
            let u = match parse_base_url(what.as_str(), sec.base_url.as_str()) {
                Ok(u) => u,
                Err(e) => {
                    proof {
                        reveal_strlit("custom ");
                        reveal_strlit(" base_url");
                        reveal_strlit(": ");
                        reveal_strlit(" base_url: ");
                        assert(("custom "@ + name@ + " base_url"@) + ": "@ =~= "custom "@ + name@ + " base_url: "@);
                        assert(customs_upto(csv, keys, i + 1) is Err);
                        lemma_customs_error_stays(csv, keys, i + 1, csv.len() as int);
                    }
                    return Err(e);
                },
            };
            let key = if i < k.custom.len() {
                copy_opt(&k.custom[i])
            } else {
                None
            };
            let ghost pre = plans_view(out@);
            out.push(PlannedProvider::Custom { name: name.clone(), base_url: u, key, models: copy_strings(&sec.models) });
            proof {
                assert(plans_view(out@) =~= pre.push(out@.last()@));
                assert(head2 + p.push(out@.last()@) =~= (head2 + p).push(out@.last()@));
            }
        }
        i = i + 1;
    }
    Ok(out)
}

/// The value that `env` (name and value pairs of environment variables)
/// gives the variable that stands in for `account`'s key: the first pair
/// with that name.
pub open spec fn env_value_of(env: Seq<(String, String)>, account: Seq<char>) -> Option<Seq<char>> {
    match env_var_for(account) {
        None => None,
        Some(n) => if exists|i: int| 0 <= i < env.len() && env[i].0@ == n {
            Some(env[choose|i: int| 0 <= i < env.len() && env[i].0@ == n && forall|j: int| 0 <= j < i ==> env[j].0@ != n].1@)
        } else {
            None
        },
    }
}

fn env_value(env: &Vec<(String, String)>, account: &str) -> (r: Option<String>)
    ensures
        opt_view(r) == env_value_of(env@, account@),
{
    let name = match env_var_name(account) {
        Some(n) => n,
        None => return None,
    };
    let mut i: usize = 0;
    while i < env.len()
        invariant
            0 <= i <= env@.len(),
            env_var_for(account@) == Some(name@),
            forall|j: int| 0 <= j < i ==> env@[j].0@ != name@,
        decreases env@.len() - i,
    {
        if crate::provider::types::str_eq(env[i].0.as_str(), name.as_str()) {
            proof {
                let n = name@;
                let k = choose|k: int| 0 <= k < env@.len() && env@[k].0@ == n && forall|j: int| 0 <= j < k ==> env@[j].0@ != n;
                if k < i {
                    assert(env@[k].0@ != n);
                } else if k > i {
                    assert(env@[i as int].0@ != n);
                }
            }
            return Some(env[i].1.clone());
        }
        i = i + 1;
    }
    None
}

/// What a provider's key may be: none when the provider is disabled;
/// otherwise the keychain's key or, failing that, `env_key`, the
/// environment's value for its account.
pub open spec fn key_state(enabled: bool, k: Option<String>, env_key: Option<Seq<char>>) -> bool {
    if !enabled {
        k is None
    } else {
        k is Some || opt_view(k) == env_key
    }
}

/// No provider that takes a key is enabled, so no keychain is asked.
pub open spec fn no_key_needed(c: ProviderConfig) -> bool {
    &&& !c.providers.anthropic.enabled
    &&& !c.providers.openai.enabled
    &&& forall|i: int| 0 <= i < c.providers.custom@.len() ==> !(#[trigger] c.providers.custom@[i]).1.enabled
}

/// Looks up the keys of the enabled providers that take one, in the order
/// Anthropic (account `anthropic`), OpenAI (`openai`), then the custom
/// endpoints (`custom:<name>`); `env` holds the environment variables that
/// can stand in for the keychain. What the keychain answers is outside this
/// library; a disabled provider gets no key, and a key missing from the
/// keychain is the environment's value for the account, when there is one.
pub fn lookup_keys(c: &ProviderConfig, secrets: &SecretStore, env: &Vec<(String, String)>) -> (r: Result<
    ProviderKeys,
    ProviderError,
>)
    ensures
        r matches Ok(k) ==> {
            &&& key_state(c.providers.anthropic.enabled, k.anthropic, env_value_of(env@, "anthropic"@))
            &&& key_state(c.providers.openai.enabled, k.openai, env_value_of(env@, "openai"@))
            &&& k.custom@.len() == c.providers.custom@.len()
            &&& forall|i: int|
                0 <= i < k.custom@.len() ==> key_state(
                    c.providers.custom@[i].1.enabled,
                    #[trigger] k.custom@[i],
                    env_value_of(env@, "custom:"@ + c.providers.custom@[i].0@),
                )
        },
        no_key_needed(*c) ==> r is Ok,
        r matches Err(e) ==> e@ matches ErrorKindView::Message(m) && crate::text::seq_starts_with(
            m,
            "keyring entry: "@,
        ),
{
    let anthropic = if c.providers.anthropic.enabled {
        match secrets.get_key("anthropic", env_value(env, "anthropic")) {
            Ok(k) => k,
            Err(e) => return Err(e),
        }
    } else {
        None
    };
    let openai = if c.providers.openai.enabled {
        match secrets.get_key("openai", env_value(env, "openai")) {
            Ok(k) => k,
            Err(e) => return Err(e),
        }
    } else {
        None
    };
    let cs = &c.providers.custom;
    let mut custom: Vec<Option<String>> = Vec::new();
    let mut i: usize = 0;
    while i < cs.len()
        invariant
            0 <= i <= cs@.len(),
            custom@.len() == i,
            forall|j: int|
                0 <= j < i ==> key_state(
                    cs@[j].1.enabled,
                    #[trigger] custom@[j],
                    env_value_of(env@, "custom:"@ + cs@[j].0@),
                ),
            no_key_needed(*c) ==> forall|j: int| 0 <= j < cs@.len() ==> !(#[trigger] cs@[j]).1.enabled,
            cs == &c.providers.custom,
        decreases cs@.len() - i,
    {
        if cs[i].1.enabled {
            let account = crate::provider::endpoints::custom_logical_id(cs[i].0.as_str());
            let key = match secrets.get_key(account.as_str(), env_value(env, account.as_str())) {
                Ok(k) => k,
                Err(e) => {
                    proof {
                        if no_key_needed(*c) {
                            assert(!cs@[i as int].1.enabled);
                        }
                    }
                    return Err(e);
                },
            };
            custom.push(key);
        } else {
            custom.push(None);
        }
        i = i + 1;
    }
    Ok(ProviderKeys { anthropic, openai, custom })
}

} // verus!
