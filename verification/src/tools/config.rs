//! Tool settings (`.ide/tools.toml`): the opt-in shell and its prefix
//! allow-list. Reading and parsing the file is the caller's work.

use vstd::prelude::*;

verus! {

pub fn default_shell_enabled() -> (r: bool)
    ensures
        !r,
{
    false
}

pub open spec fn default_prefixes_view() -> Seq<Seq<char>> {
    seq!["cargo"@, "npm"@, "pnpm"@, "yarn"@, "python"@, "pytest"@, "make"@, "ls"@, "cat"@, "echo"@]
}

pub open spec fn strings_view(v: Seq<String>) -> Seq<Seq<char>> {
    v.map_values(|s: String| s@)
}

pub fn default_allowed_prefixes() -> (r: Vec<String>)
    ensures
        strings_view(r@) == default_prefixes_view(),
{
    let r = vec![
        "cargo".to_owned(),
        "npm".to_owned(),
        "pnpm".to_owned(),
        "yarn".to_owned(),
        "python".to_owned(),
        "pytest".to_owned(),
        "make".to_owned(),
        "ls".to_owned(),
        "cat".to_owned(),
        "echo".to_owned(),
    ];
    assert(strings_view(r@) =~= default_prefixes_view());
    r
}

pub fn default_timeout_seconds() -> (r: u32)
    ensures
        r == 30,
{
    30
}

/// Shell subsection of [`ToolConfig`].
#[derive(Debug)]
pub struct ShellSection {
    pub enabled: bool,
    pub allowed_prefixes: Vec<String>,
}

impl Default for ShellSection {
    fn default() -> (r: Self)
        ensures
            !r.enabled,
            strings_view(r.allowed_prefixes@) == default_prefixes_view(),
    {
        ShellSection { enabled: default_shell_enabled(), allowed_prefixes: default_allowed_prefixes() }
    }
}

/// Settings of the agent's tools.
#[derive(Debug)]
pub struct ToolConfig {
    pub shell: ShellSection,
}

impl Default for ToolConfig {
    fn default() -> (r: Self)
        ensures
            !r.shell.enabled,
            strings_view(r.shell.allowed_prefixes@) == default_prefixes_view(),
    {
        ToolConfig { shell: ShellSection::default() }
    }
}

/// Input of `run_shell`.
pub struct RunShellInput {
    pub command: String,
    pub cwd: Option<String>,
    pub timeout_seconds: Option<u32>,
}

impl RunShellInput {
    /// The requested timeout in seconds, 30 when absent.
    pub fn timeout_or_default(&self) -> (r: u32)
        ensures
            r == match self.timeout_seconds {
                Some(t) => t,
                None => 30,
            },
    {
        match self.timeout_seconds {
            Some(t) => t,
            None => default_timeout_seconds(),
        }
    }
}

} // verus!
