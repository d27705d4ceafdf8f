//! Connection probes for provider settings: which URL a probe asks, and how
//! a response's status is judged. Sending the request is the caller's work.

use vstd::prelude::*;

use crate::provider::endpoints::{trim_slashes, trim_trailing_slashes};

verus! {

/// How a connection probe came out.
#[derive(Debug, Clone, Copy, PartialEq, Eq, Structural)]
pub enum ProbeVerdict {
    Reachable,
    /// The server turned the key down (401 or 403).
    KeyRejected,
    Failed,
}

pub open spec fn is_success(status: u16) -> bool {
    200 <= status <= 299
}

/// The model list of an OpenAI-compatible or Anthropic server: `{base}/v1/models`.
pub fn models_probe_url(base_url: &str) -> (r: String)
    ensures
        r@ == trim_slashes(base_url@) + "/v1/models"@,
{
    let mut s = trim_trailing_slashes(base_url);
    s.append("/v1/models");
    s
}

/// The model tags of an Ollama server: `{base}/api/tags`.
pub fn tags_probe_url(base_url: &str) -> (r: String)
    ensures
        r@ == trim_slashes(base_url@) + "/api/tags"@,
{
    let mut s = trim_trailing_slashes(base_url);
    s.append("/api/tags");
    s
}

/// A probe passes on a success status and fails otherwise.
pub fn probe_verdict(status: u16) -> (r: ProbeVerdict)
    ensures
        r == (if is_success(status) { ProbeVerdict::Reachable } else { ProbeVerdict::Failed }),
{
    if 200 <= status && status <= 299 {
        ProbeVerdict::Reachable
    } else {
        ProbeVerdict::Failed
    }
}

/// Anthropic's probe: 401 and 403 reject the key; success, 404 and 405 show
/// a reachable server; anything else fails.
pub fn anthropic_probe_verdict(status: u16) -> (r: ProbeVerdict)
    ensures
        r == (if status == 401 || status == 403 {
            ProbeVerdict::KeyRejected
        } else if is_success(status) || status == 404 || status == 405 {
            ProbeVerdict::Reachable
        } else {
            ProbeVerdict::Failed
        }),
{
    if status == 401 || status == 403 {
        ProbeVerdict::KeyRejected
    } else if (200 <= status && status <= 299) || status == 404 || status == 405 {
        ProbeVerdict::Reachable
    } else {
        ProbeVerdict::Failed
    }
}

/// The message of a failed probe, from the status as the HTTP client
/// spells it (such as `401 Unauthorized`); `None` when the probe passed.
pub fn probe_failure(verdict: ProbeVerdict, status_text: &str) -> (r: Option<String>)
    ensures
        match verdict {
            ProbeVerdict::Reachable => r is None,
            ProbeVerdict::KeyRejected => r is Some && r->0@ == "HTTP "@ + status_text@
                + " (check API key)"@,
            ProbeVerdict::Failed => r is Some && r->0@ == "HTTP "@ + status_text@,
        },
{
    match verdict {
        ProbeVerdict::Reachable => None,
        ProbeVerdict::KeyRejected => {
            let mut s = "HTTP ".to_owned();
            s.append(status_text);
            s.append(" (check API key)");
            Some(s)
        },
        ProbeVerdict::Failed => {
            let mut s = "HTTP ".to_owned();
            s.append(status_text);
            Some(s)
        },
    }
}

} // verus!
