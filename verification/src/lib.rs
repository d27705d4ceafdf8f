//! Verified core of an AI-assisted editor: provider stream decoding, agent
//! loop decisions, workspace tools, conversations and helper logic.

pub mod chat;
pub mod editor;
pub mod glob;
pub mod order;
pub mod provider;
pub mod search;
pub mod sse;
pub mod text;
pub mod tools;
