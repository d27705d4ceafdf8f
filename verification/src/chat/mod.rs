//! Chat sessions: the conversation model, the engine settings and the agent loop's decisions.

pub mod agent;
pub mod conversation;
pub mod engine;
pub mod error;
