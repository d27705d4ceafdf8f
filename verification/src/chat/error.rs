//! Errors of the chat engine.

use vstd::prelude::*;

use crate::provider::error::{error_text, ErrorKindView, ProviderError};

verus! {

#[derive(Debug)]
pub enum ChatError {
    /// No provider is configured (or none is active).
    NoProvider,
    Provider(ProviderError),
    Shutdown,
    Other(String),
}

pub enum ChatErrorView {
    NoProvider,
    Provider(ErrorKindView),
    Shutdown,
    Other(Seq<char>),
}

impl View for ChatError {
    type V = ChatErrorView;

    open spec fn view(&self) -> ChatErrorView {
        match self {
            ChatError::NoProvider => ChatErrorView::NoProvider,
            ChatError::Provider(e) => ChatErrorView::Provider(e@),
            ChatError::Shutdown => ChatErrorView::Shutdown,
            ChatError::Other(s) => ChatErrorView::Other(s@),
        }
    }
}

/// The text of a chat error (what `Display` shows).
pub open spec fn chat_error_text(e: ChatErrorView) -> Seq<char> {
    match e {
        ChatErrorView::NoProvider => "no AI provider configured — add an API key in Settings (Ctrl+,)"@,
        ChatErrorView::Provider(p) => "provider error: "@ + error_text(p),
        ChatErrorView::Shutdown => "engine is already shut down"@,
        ChatErrorView::Other(s) => s,
    }
}

impl ChatError {
    pub fn text(&self) -> (r: String)
        ensures
            r@ == chat_error_text(self@),
    {
        match self {
            ChatError::NoProvider => "no AI provider configured — add an API key in Settings (Ctrl+,)".to_owned(),
            ChatError::Provider(e) => {
                let mut s = "provider error: ".to_owned();
                let t = e.text();
                s.append(t.as_str());
                s
            },
            ChatError::Shutdown => "engine is already shut down".to_owned(),
            ChatError::Other(s) => s.clone(),
        }
    }
}

} // verus!
