//! Editor-application logic: watching git internals, session restore and
//! the performance HUD.

pub mod git_paths;
pub mod metrics;
pub mod perf;
pub mod session;
pub mod skills_state;
pub mod text_field;
