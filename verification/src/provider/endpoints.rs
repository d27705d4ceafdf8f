//! Provider endpoints and model lists: the URLs requests go to (through the
//! `url` crate) and the models each provider offers.

use vstd::prelude::*;

use crate::provider::error::{ErrorKindView, ProviderError};
use crate::provider::types::ModelInfo;
use crate::text::{chars_of, seq_starts_with, starts_with_chars, string_from_chars, sub_vec};

verus! {

/// What `url::Url::parse(s)` gives: the URL's serialization (`as_str`), or
/// the parse error's text.
pub uninterp spec fn url_parse_of(s: Seq<char>) -> Result<Seq<char>, Seq<char>>;

/// What `url::Url::join(rel)` gives on the URL whose serialization is
/// `base`: the joined URL's serialization, or the error's text.
pub uninterp spec fn url_join_of(base: Seq<char>, rel: Seq<char>) -> Result<Seq<char>, Seq<char>>;

#[verifier::external_type_specification]
#[verifier::external_body]
pub struct ExUrl(url::Url);

/// A parsed URL with its serialization.
pub struct ParsedUrl {
    url: url::Url,
    text: String,
}

impl ParsedUrl {
    pub closed spec fn text_view(&self) -> Seq<char> {
        self.text@
    }
}

/// `url::Url::parse`, with the URL's serialization (`as_str`) or the text
/// of the error; the contract claims only that the outcome is a function of
/// `s`.
#[verifier::external_body]
fn url_parse(s: &str) -> (r: Result<ParsedUrl, String>)
    ensures
        match url_parse_of(s@) {
            Ok(u) => r is Ok && r->Ok_0.text_view() == u,
            Err(e) => r is Err && r->Err_0@ == e,
        },
{
    match url::Url::parse(s) {
        Ok(url) => {
            let text = url.as_str().to_owned();
            Ok(ParsedUrl { url, text })
        },
        Err(e) => Err(e.to_string()),
    }
}

/// `url::Url::join(rel)` on a parsed URL, giving the serialization of the
/// result or the text of the error; the contract claims only that the
/// outcome is a function of the URL's serialization and `rel`.
#[verifier::external_body]
fn url_join(base: &ParsedUrl, rel: &str) -> (r: Result<String, String>)
    ensures
        match url_join_of(base.text_view(), rel@) {
            Ok(u) => r is Ok && r->Ok_0@ == u,
            Err(e) => r is Err && r->Err_0@ == e,
        },
{
    match base.url.join(rel) {
        Ok(j) => Ok(j.as_str().to_owned()),
        Err(e) => Err(e.to_string()),
    }
}

/// The URL a provider setting names, or `what` and the parse error as a
/// provider error (`ollama base_url: …`, `custom <name> base_url: …`).
pub fn parse_base_url(what: &str, s: &str) -> (r: Result<String, ProviderError>)
    ensures
        match url_parse_of(s@) {
            Ok(u) => r is Ok && r->Ok_0@ == u,
            Err(e) => r is Err && r->Err_0@ == ErrorKindView::Message(what@ + ": "@ + e),
        },
{
    match url_parse(s) {
        Ok(u) => Ok(u.text),
        Err(e) => {
            let mut m = what.to_owned();
            m.append(": ");
            m.append(e.as_str());
            Err(ProviderError::message(m))
        },
    }
}

/// An optional base URL setting: kept when it parses, dropped otherwise.
pub fn optional_base_url(s: Option<&str>) -> (r: Option<String>)
    ensures
        match s {
            Some(t) => match url_parse_of(t@) {
                Ok(u) => r is Some && r->Some_0@ == u,
                Err(_) => r is None,
            },
            None => r is None,
        },
{
    match s {
        Some(t) => match url_parse(t) {
            Ok(u) => Some(u.text),
            Err(_) => None,
        },
        None => None,
    }
}

/// `rel` joined onto the URL `base`; a base that does not parse, or a
/// join that fails, gives the error's text.
pub open spec fn joined_url(base: Seq<char>, rel: Seq<char>) -> Result<Seq<char>, Seq<char>> {
    match url_parse_of(base) {
        Err(e) => Err(e),
        Ok(u) => url_join_of(u, rel),
    }
}

fn joined(base: &str, rel: &str) -> (r: Result<String, ProviderError>)
    ensures
        match joined_url(base@, rel@) {
            Ok(u) => r is Ok && r->Ok_0@ == u,
            Err(e) => r is Err && r->Err_0@ == ErrorKindView::Message(e),
        },
{
    let u = match url_parse(base) {
        Ok(u) => u,
        Err(e) => return Err(ProviderError::message(e)),
    };
    match url_join(&u, rel) {
        Ok(j) => Ok(j),
        Err(e) => Err(ProviderError::message(e)),
    }
}

/// The Anthropic Messages endpoint under `base`.
pub fn anthropic_messages_url(base: &str) -> (r: Result<String, ProviderError>)
    ensures
        match joined_url(base@, "v1/messages"@) {
            Ok(u) => r is Ok && r->Ok_0@ == u,
            Err(e) => r is Err && r->Err_0@ == ErrorKindView::Message(e),
        },
{
    joined(base, "v1/messages")
}

/// Ollama's model list endpoint under `base`.
pub fn ollama_tags_url(base: &str) -> (r: Result<String, ProviderError>)
    ensures
        match joined_url(base@, "api/tags"@) {
            Ok(u) => r is Ok && r->Ok_0@ == u,
            Err(e) => r is Err && r->Err_0@ == ErrorKindView::Message(e),
        },
{
    joined(base, "api/tags")
}

/// `s` without trailing `/` characters.
pub open spec fn trim_slashes(s: Seq<char>) -> Seq<char>
    decreases s.len(),
{
    if s.len() > 0 && s.last() == '/' {
        trim_slashes(s.drop_last())
    } else {
        s
    }
}

pub open spec fn seq_ends_with(s: Seq<char>, suffix: Seq<char>) -> bool {
    suffix.len() <= s.len() && s.subrange(s.len() - suffix.len(), s.len() as int) == suffix
}

/// The chat-completions endpoint for a base URL given as `https://host`,
/// `https://host/v1` or already `…/v1/chat/completions`.
pub open spec fn completions_url_text(base: Seq<char>) -> Seq<char> {
    let s = trim_slashes(base);
    if seq_ends_with(s, "/v1/chat/completions"@) {
        s
    } else if seq_ends_with(s, "/v1"@) {
        s + "/chat/completions"@
    } else {
        s + "/v1/chat/completions"@
    }
}

fn ends_with_chars(s: &Vec<char>, suffix: &str) -> (r: bool)
    ensures
        r == seq_ends_with(s@, suffix@),
{
    let t = chars_of(suffix);
    if t.len() > s.len() {
        return false;
    }
    let sl = s.len();
    let off = sl - t.len();
    let mut i: usize = 0;
    while i < t.len()
        invariant
            sl == s@.len(),
            t@ == suffix@,
            t@.len() <= s@.len(),
            off == s@.len() - t@.len(),
            0 <= i <= t@.len(),
            forall|k: int| 0 <= k < i ==> s@[off + k] == t@[k],
        decreases t@.len() - i,
    {
        if s[off + i] != t[i] {
            assert(s@.subrange(off as int, s@.len() as int)[i as int] != t@[i as int]);
            return false;
        }
        i = i + 1;
    }
    assert(s@.subrange(off as int, s@.len() as int) =~= t@);
    true
}

/// The characters of `base` without trailing `/` characters.
fn trimmed_chars(base: &str) -> (r: Vec<char>)
    ensures
        r@ == trim_slashes(base@),
        trim_slashes(r@) == r@,
{
    let cs = chars_of(base);
    let mut end = cs.len();
    proof {
        assert(cs@.subrange(0, cs@.len() as int) =~= cs@);
    }
    while end > 0 && cs[end - 1] == '/'
        invariant
            0 <= end <= cs@.len(),
            cs@ == base@,
            trim_slashes(cs@) == trim_slashes(cs@.subrange(0, end as int)),
        decreases end,
    {
        assert(cs@.subrange(0, end as int).drop_last() =~= cs@.subrange(0, end - 1));
        end = end - 1;
    }
    let s = sub_vec(&cs, 0, end);
    assert(trim_slashes(s@) == s@);
    s
}

/// `base` without trailing `/` characters.
pub fn trim_trailing_slashes(base: &str) -> (r: String)
    ensures
        r@ == trim_slashes(base@),
{
    let s = trimmed_chars(base);
    string_from_chars(s.as_slice())
}

/// Resolves `POST …/v1/chat/completions` from a base URL's text.
pub fn chat_completions_url_from_base(base: &str) -> (r: Result<String, ProviderError>)
    ensures
        r is Ok && r->Ok_0@ == completions_url_text(base@),
{
    let s = trimmed_chars(base);
    let text = string_from_chars(s.as_slice());
    if ends_with_chars(&s, "/v1/chat/completions") {
        Ok(text)
    } else if ends_with_chars(&s, "/v1") {
        let mut out = text;
        out.append("/chat/completions");
        Ok(out)
    } else {
        let mut out = text;
        out.append("/v1/chat/completions");
        Ok(out)
    }
}

pub open spec fn model_ids(v: Seq<ModelInfo>) -> Seq<Seq<char>> {
    v.map_values(|m: ModelInfo| m.id@)
}

pub open spec fn model_labels(v: Seq<ModelInfo>) -> Seq<Seq<char>> {
    v.map_values(|m: ModelInfo| m.label@)
}

fn same_model(id: &str) -> (r: ModelInfo)
    ensures
        r.id@ == id@,
        r.label@ == id@,
{
    ModelInfo { id: id.to_owned(), label: id.to_owned() }
}

/// The models the OpenAI provider offers (each labelled by its id).
pub fn openai_models() -> (r: Vec<ModelInfo>)
    ensures
        model_ids(r@) == seq!["gpt-4o"@, "gpt-4o-mini"@, "gpt-4-turbo"@, "o4-mini"@],
        model_labels(r@) == model_ids(r@),
{
    let r = vec![
        same_model("gpt-4o"),
        same_model("gpt-4o-mini"),
        same_model("gpt-4-turbo"),
        same_model("o4-mini"),
    ];
    assert(model_ids(r@) =~= seq!["gpt-4o"@, "gpt-4o-mini"@, "gpt-4-turbo"@, "o4-mini"@]);
    assert(model_labels(r@) =~= model_ids(r@));
    r
}

/// The placeholder list when a local Ollama server cannot be asked.
pub fn fallback_models() -> (r: Vec<ModelInfo>)
    ensures
        r@.len() == 1,
        r@[0].id@ == "llama3.2"@,
        r@[0].label@ == "llama3.2 (ollama not reachable — using placeholder)"@,
{
    vec![
        ModelInfo {
            id: "llama3.2".to_owned(),
            label: "llama3.2 (ollama not reachable — using placeholder)".to_owned(),
        },
    ]
}

/// Models named by id, each labelled by its id (a custom endpoint's list,
/// or the names Ollama reports).
pub fn models_named(names: &Vec<String>) -> (r: Vec<ModelInfo>)
    ensures
        model_ids(r@) == names@.map_values(|s: String| s@),
        model_labels(r@) == names@.map_values(|s: String| s@),
{
    let mut out: Vec<ModelInfo> = Vec::new();
    let mut i: usize = 0;
    while i < names.len()
        invariant
            0 <= i <= names@.len(),
            model_ids(out@) == names@.subrange(0, i as int).map_values(|s: String| s@),
            model_labels(out@) == names@.subrange(0, i as int).map_values(|s: String| s@),
        decreases names@.len() - i,
    {
        let ghost pre_ids = model_ids(out@);
        let ghost pre_labels = model_labels(out@);
        let m = same_model(names[i].as_str());
        out.push(m);
        assert(model_ids(out@) =~= pre_ids.push(names@[i as int]@));
        assert(model_labels(out@) =~= pre_labels.push(names@[i as int]@));
        assert(names@.subrange(0, i + 1).map_values(|s: String| s@) =~= names@.subrange(
            0,
            i as int,
        ).map_values(|s: String| s@).push(names@[i as int]@));
        i = i + 1;
    }
    assert(names@.subrange(0, names@.len() as int) =~= names@);
    out
}

/// The registry id of the custom endpoint named `name`.
pub fn custom_logical_id(name: &str) -> (r: String)
    ensures
        r@ == "custom:"@ + name@,
{
    let mut s = "custom:".to_owned();
    s.append(name);
    s
}

/// The settings key of a custom endpoint: its id without `custom:`.
pub fn registry_key(logical_id: &str) -> (r: String)
    ensures
        seq_starts_with(logical_id@, "custom:"@) ==> r@ == logical_id@.subrange(
            7,
            logical_id@.len() as int,
        ),
        !seq_starts_with(logical_id@, "custom:"@) ==> r@ == logical_id@,
{
    let cs = chars_of(logical_id);
    let p = chars_of("custom:");
    proof {
        reveal_strlit("custom:");
    }
    if starts_with_chars(cs.as_slice(), p.as_slice()) {
        let rest = sub_vec(&cs, 7, cs.len());
        string_from_chars(rest.as_slice())
    } else {
        logical_id.to_owned()
    }
}

} // verus!
