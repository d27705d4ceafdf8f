//! Provider-side logic: shared message types, token accounting, stream
//! decoding, configuration and the registry of enabled providers.

pub mod config;
pub mod endpoints;
pub mod error;
pub mod frames;
pub mod http;
pub mod json;
pub mod key_order;
pub mod plan;
pub mod probe;
pub mod ledger;
pub mod rate_limit;
pub mod registry;
pub mod secrets;
pub mod slots;
pub mod stream;
pub mod stream_laws;
pub mod types;
pub mod wire;
