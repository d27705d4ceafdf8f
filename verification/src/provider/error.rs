//! Provider-facing error values.

use vstd::prelude::*;

use crate::text::{decimal, push_decimal};

verus! {

/// What went wrong while talking to a provider.
#[derive(Debug)]
pub enum ProviderErrorKind {
    /// Transport failure (the text is the transport's own description).
    Http(String),
    HttpStatus { status: u16, body: String },
    Json(String),
    Url(String),
    Sse(String),
    IncompleteStream,
    Message(String),
    Config(String),
}

/// Error surfaced over a chat stream and by fallible setup calls.
#[derive(Debug)]
pub struct ProviderError(pub ProviderErrorKind);

/// Spec-level shadow of [`ProviderErrorKind`].
pub enum ErrorKindView {
    Http(Seq<char>),
    HttpStatus { status: u16, body: Seq<char> },
    Json(Seq<char>),
    Url(Seq<char>),
    Sse(Seq<char>),
    IncompleteStream,
    Message(Seq<char>),
    Config(Seq<char>),
}

impl View for ProviderError {
    type V = ErrorKindView;

    open spec fn view(&self) -> ErrorKindView {
        match &self.0 {
            ProviderErrorKind::Http(s) => ErrorKindView::Http(s@),
            ProviderErrorKind::HttpStatus { status, body } => ErrorKindView::HttpStatus {
                status: *status,
                body: body@,
            },
            ProviderErrorKind::Json(s) => ErrorKindView::Json(s@),
            ProviderErrorKind::Url(s) => ErrorKindView::Url(s@),
            ProviderErrorKind::Sse(s) => ErrorKindView::Sse(s@),
            ProviderErrorKind::IncompleteStream => ErrorKindView::IncompleteStream,
            ProviderErrorKind::Message(s) => ErrorKindView::Message(s@),
            ProviderErrorKind::Config(s) => ErrorKindView::Config(s@),
        }
    }
}

/// The human-readable text of an error.
pub open spec fn error_text(e: ErrorKindView) -> Seq<char> {
    match e {
        ErrorKindView::Http(_) => "HTTP request failed"@,
        ErrorKindView::HttpStatus { status, body } => "HTTP "@ + decimal(status as nat) + ": "@
            + body,
        ErrorKindView::Json(s) => "JSON error: "@ + s,
        ErrorKindView::Url(s) => "invalid URL: "@ + s,
        ErrorKindView::Sse(s) => "SSE: "@ + s,
        ErrorKindView::IncompleteStream => "stream ended before Done event"@,
        ErrorKindView::Message(s) => s,
        ErrorKindView::Config(s) => "configuration: "@ + s,
    }
}

/// What a copy of an error holds: transport, JSON and URL errors are kept
/// as their message text.
pub open spec fn cloned_kind(e: ErrorKindView) -> ErrorKindView {
    match e {
        ErrorKindView::Http(s) => ErrorKindView::Message(s),
        ErrorKindView::Json(s) => ErrorKindView::Message(s),
        ErrorKindView::Url(s) => ErrorKindView::Message(s),
        other => other,
    }
}

impl ProviderError {
    pub fn message(msg: String) -> (r: ProviderError)
        ensures
            r@ == ErrorKindView::Message(msg@),
    {
        ProviderError(ProviderErrorKind::Message(msg))
    }

    pub fn config(msg: String) -> (r: ProviderError)
        ensures
            r@ == ErrorKindView::Config(msg@),
    {
        ProviderError(ProviderErrorKind::Config(msg))
    }

    pub fn http_status(status: u16, body: String) -> (r: ProviderError)
        ensures
            r@ == (ErrorKindView::HttpStatus { status, body: body@ }),
    {
        ProviderError(ProviderErrorKind::HttpStatus { status, body })
    }

    pub fn sse(msg: String) -> (r: ProviderError)
        ensures
            r@ == ErrorKindView::Sse(msg@),
    {
        ProviderError(ProviderErrorKind::Sse(msg))
    }

    pub fn incomplete_stream() -> (r: ProviderError)
        ensures
            r@ == ErrorKindView::IncompleteStream,
    {
        ProviderError(ProviderErrorKind::IncompleteStream)
    }

    /// The error behind a shared pointer.
    pub fn into_shared(self) -> (r: std::sync::Arc<ProviderError>)
        ensures
            *r == self,
    {
        std::sync::Arc::new(self)
    }

    /// The error's text (what `Display` shows).
    pub fn text(&self) -> (r: String)
        ensures
            r@ == error_text(self@),
    {
        match &self.0 {
            ProviderErrorKind::Http(_) => "HTTP request failed".to_owned(),
            ProviderErrorKind::HttpStatus { status, body } => {
                let mut r = "HTTP ".to_owned();
                push_decimal(&mut r, *status as u64);
                r.append(": ");
                r.append(body.as_str());
                r
            },
            ProviderErrorKind::Json(s) => {
                let mut r = "JSON error: ".to_owned();
                r.append(s.as_str());
                r
            },
            ProviderErrorKind::Url(s) => {
                let mut r = "invalid URL: ".to_owned();
                r.append(s.as_str());
                r
            },
            ProviderErrorKind::Sse(s) => {
                let mut r = "SSE: ".to_owned();
                r.append(s.as_str());
                r
            },
            ProviderErrorKind::IncompleteStream => "stream ended before Done event".to_owned(),
            ProviderErrorKind::Message(s) => s.clone(),
            ProviderErrorKind::Config(s) => {
                let mut r = "configuration: ".to_owned();
                r.append(s.as_str());
                r
            },
        }
    }

    /// A copy of the error; transport, JSON and URL failures become plain
    /// messages.
    pub fn duplicate(&self) -> (r: ProviderError)
        ensures
            r@ == cloned_kind(self@),
    {
        match &self.0 {
            ProviderErrorKind::Http(s) => ProviderError(ProviderErrorKind::Message(s.clone())),
            ProviderErrorKind::HttpStatus { status, body } => ProviderError(
                ProviderErrorKind::HttpStatus { status: *status, body: body.clone() },
            ),
            ProviderErrorKind::Json(s) => ProviderError(ProviderErrorKind::Message(s.clone())),
            ProviderErrorKind::Url(s) => ProviderError(ProviderErrorKind::Message(s.clone())),
            ProviderErrorKind::Sse(s) => ProviderError(ProviderErrorKind::Sse(s.clone())),
            ProviderErrorKind::IncompleteStream => ProviderError(ProviderErrorKind::IncompleteStream),
            ProviderErrorKind::Message(s) => ProviderError(ProviderErrorKind::Message(s.clone())),
            ProviderErrorKind::Config(s) => ProviderError(ProviderErrorKind::Config(s.clone())),
        }
    }
}

/// A keyring failure surfaced to the user, with whether an environment
/// variable stood in for the keychain.
#[derive(Debug, Clone)]
pub struct KeyringFailure {
    pub message: String,
    pub used_env_fallback: bool,
}

impl KeyringFailure {
    /// The failure's text (what `Display` shows).
    pub fn text(&self) -> (r: String)
        ensures
            r@ == self.message@ + (if self.used_env_fallback {
                " (environment fallback was used)"@
            } else {
                Seq::empty()
            }),
    {
        let mut r = self.message.clone();
        if self.used_env_fallback {
            r.append(" (environment fallback was used)");
        } else {
            proof {
                assert(r@ + Seq::<char>::empty() == r@);
            }
        }
        r
    }
}

} // verus!
