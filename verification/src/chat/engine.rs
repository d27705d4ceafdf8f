//! The chat engine's settings and the start of a turn. Running the turn's
//! requests and tool calls in the background is the caller's work; the
//! decisions of a turn are [`AgentTurn`]'s.

use vstd::prelude::*;

use crate::chat::agent::{history_messages, history_view, AgentTurn, TurnPhase};
use crate::chat::conversation::{ChatRole, MessageId};
use crate::chat::error::ChatError;
use crate::provider::registry::ProviderRegistry;
use crate::provider::types::{tool_def, tool_def_texts, BlockView, MessageView, ToolDef};

verus! {

/// The default tools' names, descriptions and input schemas, in order.
pub open spec fn default_tool_texts() -> Seq<(Seq<char>, Seq<char>, Seq<char>)> {
    seq![
        ("read_file"@, "Read the complete text contents of a file."@, "{\"type\":\"object\",\"required\":[\"path\"],\"properties\":{\"path\":{\"type\":\"string\",\"description\":\"Workspace-relative or absolute path.\"}}}"@),
        ("list_directory"@, "List the direct children of a directory (files and sub-directories)."@, "{\"type\":\"object\",\"required\":[\"path\"],\"properties\":{\"path\":{\"type\":\"string\",\"description\":\"Directory path (workspace-relative).\"},\"recursive\":{\"type\":\"boolean\",\"description\":\"If true, walk all sub-directories.\"}}}"@),
        ("find_files"@, "Find files matching a glob pattern under a directory."@, "{\"type\":\"object\",\"required\":[\"pattern\"],\"properties\":{\"pattern\":{\"type\":\"string\",\"description\":\"Glob pattern, e.g. '**/*.rs'.\"},\"path\":{\"type\":\"string\",\"description\":\"Search root (default: workspace root).\"}}}"@),
        ("grep"@, "Search for a regex pattern across files in a directory tree."@, "{\"type\":\"object\",\"required\":[\"pattern\"],\"properties\":{\"pattern\":{\"type\":\"string\",\"description\":\"Regular expression to search for.\"},\"path\":{\"type\":\"string\",\"description\":\"Root path to search (default: workspace).\"},\"file_pattern\":{\"type\":\"string\",\"description\":\"Only search files matching this glob, e.g. '*.rs'.\"},\"context_lines\":{\"type\":\"integer\",\"description\":\"Lines of context around each match (default 2).\"}}}"@),
        ("edit_lines"@, "Replace a range of lines in a file.  Lines are 1-indexed."@, "{\"type\":\"object\",\"required\":[\"path\",\"start_line\",\"end_line\",\"new_content\"],\"properties\":{\"path\":{\"type\":\"string\"},\"start_line\":{\"type\":\"integer\",\"description\":\"First line to replace (1-indexed, inclusive).\"},\"end_line\":{\"type\":\"integer\",\"description\":\"Last line to replace (1-indexed, inclusive).\"},\"new_content\":{\"type\":\"string\",\"description\":\"Replacement text (may include newlines).\"}}}"@),
        ("insert_at"@, "Insert text before a given 1-indexed line number."@, "{\"type\":\"object\",\"required\":[\"path\",\"line_number\",\"content\"],\"properties\":{\"path\":{\"type\":\"string\"},\"line_number\":{\"type\":\"integer\",\"description\":\"Insert before this line (1-indexed).\"},\"content\":{\"type\":\"string\"}}}"@),
        ("append_to"@, "Append text to the end of a file."@, "{\"type\":\"object\",\"required\":[\"path\",\"content\"],\"properties\":{\"path\":{\"type\":\"string\"},\"content\":{\"type\":\"string\"}}}"@),
        ("create_file"@, "Create a new file with the given content.  Fails if the file already exists."@, "{\"type\":\"object\",\"required\":[\"path\",\"content\"],\"properties\":{\"path\":{\"type\":\"string\"},\"content\":{\"type\":\"string\"}}}"@),
        ("delete_file"@, "Permanently delete a file from the workspace."@, "{\"type\":\"object\",\"required\":[\"path\"],\"properties\":{\"path\":{\"type\":\"string\"}}}"@),
        ("move_file"@, "Move or rename a file within the workspace."@, "{\"type\":\"object\",\"required\":[\"from\",\"to\"],\"properties\":{\"from\":{\"type\":\"string\"},\"to\":{\"type\":\"string\"}}}"@),
        ("replace_in_file"@, "Replace a literal string (or all occurrences) inside a file. Use edit_lines for line-range changes; use this for precise text substitutions."@, "{\"type\":\"object\",\"required\":[\"path\",\"old_text\",\"new_text\"],\"properties\":{\"path\":{\"type\":\"string\"},\"old_text\":{\"type\":\"string\",\"description\":\"Exact text to find.\"},\"new_text\":{\"type\":\"string\",\"description\":\"Replacement text.\"},\"occurrence\":{\"type\":\"integer\",\"description\":\"1-based occurrence index to replace. 0 = replace all (default 1).\"}}}"@),
        ("run_shell"@, "Run a shell command in the workspace. Requires shell to be enabled in .ide/tools.toml. Use for npm/cargo/git/npx commands. Always prefer specific tools (read_file, edit_lines) over shell when possible."@, "{\"type\":\"object\",\"required\":[\"command\"],\"properties\":{\"command\":{\"type\":\"string\",\"description\":\"The shell command to run. Example: 'npx create-next-app@latest my-app --ts --no-git'.\"},\"cwd\":{\"type\":\"string\",\"description\":\"Working directory (workspace-relative). Default: workspace root.\"},\"timeout_seconds\":{\"type\":\"integer\",\"description\":\"Max seconds to wait (default 60, max 300).\"}}}"@),
        ("read_metadata"@, "Read the .ide/meta/ sidecar for a file — contains prior AI reasoning, history, and notes."@, "{\"type\":\"object\",\"required\":[\"path\"],\"properties\":{\"path\":{\"type\":\"string\",\"description\":\"Workspace-relative source file path.\"}}}"@),
        ("write_metadata_note"@, "Append a note to the .ide/meta/ sidecar for a file. Use this to record reasoning, design decisions, or important findings about the file."@, "{\"type\":\"object\",\"required\":[\"path\",\"note\"],\"properties\":{\"path\":{\"type\":\"string\",\"description\":\"Workspace-relative source file path.\"},\"note\":{\"type\":\"string\",\"description\":\"Note text to append.\"}}}"@),
        ("list_tasks"@, "List all project tasks from .ide/tasks.md."@, "{\"type\":\"object\",\"properties\":{}}"@),
        ("add_task"@, "Add a new task to .ide/tasks.md."@, "{\"type\":\"object\",\"required\":[\"summary\"],\"properties\":{\"summary\":{\"type\":\"string\"},\"notes\":{\"type\":\"string\"}}}"@),
        ("complete_task"@, "Mark a task as done in .ide/tasks.md."@, "{\"type\":\"object\",\"required\":[\"id\"],\"properties\":{\"id\":{\"type\":\"string\",\"description\":\"Task id from list_tasks.\"}}}"@),
        ("update_task"@, "Update a task's status or notes in .ide/tasks.md."@, "{\"type\":\"object\",\"required\":[\"id\"],\"properties\":{\"id\":{\"type\":\"string\"},\"status\":{\"type\":\"string\",\"enum\":[\"open\",\"in_progress\",\"done\",\"cancelled\"]},\"notes\":{\"type\":\"string\"}}}"@),
        ("load_skill"@, "Load the full body of a named skill (IDE convention or language guide). Call list_skills first if unsure of the name."@, "{\"type\":\"object\",\"required\":[\"name\"],\"properties\":{\"name\":{\"type\":\"string\"}}}"@),
        ("list_skills"@, "List all available skills with their names and descriptions."@, "{\"type\":\"object\",\"properties\":{}}"@),
    ]
}

/// The default tool schemas.
pub fn default_tool_defs() -> (r: Vec<ToolDef>)
    ensures
        tool_def_texts(r@) == default_tool_texts(),
{
    let mut v: Vec<ToolDef> = Vec::new();
    v.push(tool_def("read_file", "Read the complete text contents of a file.", "{\"type\":\"object\",\"required\":[\"path\"],\"properties\":{\"path\":{\"type\":\"string\",\"description\":\"Workspace-relative or absolute path.\"}}}"));
    v.push(tool_def("list_directory", "List the direct children of a directory (files and sub-directories).", "{\"type\":\"object\",\"required\":[\"path\"],\"properties\":{\"path\":{\"type\":\"string\",\"description\":\"Directory path (workspace-relative).\"},\"recursive\":{\"type\":\"boolean\",\"description\":\"If true, walk all sub-directories.\"}}}"));
    v.push(tool_def("find_files", "Find files matching a glob pattern under a directory.", "{\"type\":\"object\",\"required\":[\"pattern\"],\"properties\":{\"pattern\":{\"type\":\"string\",\"description\":\"Glob pattern, e.g. '**/*.rs'.\"},\"path\":{\"type\":\"string\",\"description\":\"Search root (default: workspace root).\"}}}"));
    v.push(tool_def("grep", "Search for a regex pattern across files in a directory tree.", "{\"type\":\"object\",\"required\":[\"pattern\"],\"properties\":{\"pattern\":{\"type\":\"string\",\"description\":\"Regular expression to search for.\"},\"path\":{\"type\":\"string\",\"description\":\"Root path to search (default: workspace).\"},\"file_pattern\":{\"type\":\"string\",\"description\":\"Only search files matching this glob, e.g. '*.rs'.\"},\"context_lines\":{\"type\":\"integer\",\"description\":\"Lines of context around each match (default 2).\"}}}"));
    v.push(tool_def("edit_lines", "Replace a range of lines in a file.  Lines are 1-indexed.", "{\"type\":\"object\",\"required\":[\"path\",\"start_line\",\"end_line\",\"new_content\"],\"properties\":{\"path\":{\"type\":\"string\"},\"start_line\":{\"type\":\"integer\",\"description\":\"First line to replace (1-indexed, inclusive).\"},\"end_line\":{\"type\":\"integer\",\"description\":\"Last line to replace (1-indexed, inclusive).\"},\"new_content\":{\"type\":\"string\",\"description\":\"Replacement text (may include newlines).\"}}}"));
    v.push(tool_def("insert_at", "Insert text before a given 1-indexed line number.", "{\"type\":\"object\",\"required\":[\"path\",\"line_number\",\"content\"],\"properties\":{\"path\":{\"type\":\"string\"},\"line_number\":{\"type\":\"integer\",\"description\":\"Insert before this line (1-indexed).\"},\"content\":{\"type\":\"string\"}}}"));
    v.push(tool_def("append_to", "Append text to the end of a file.", "{\"type\":\"object\",\"required\":[\"path\",\"content\"],\"properties\":{\"path\":{\"type\":\"string\"},\"content\":{\"type\":\"string\"}}}"));
    v.push(tool_def("create_file", "Create a new file with the given content.  Fails if the file already exists.", "{\"type\":\"object\",\"required\":[\"path\",\"content\"],\"properties\":{\"path\":{\"type\":\"string\"},\"content\":{\"type\":\"string\"}}}"));
    v.push(tool_def("delete_file", "Permanently delete a file from the workspace.", "{\"type\":\"object\",\"required\":[\"path\"],\"properties\":{\"path\":{\"type\":\"string\"}}}"));
    v.push(tool_def("move_file", "Move or rename a file within the workspace.", "{\"type\":\"object\",\"required\":[\"from\",\"to\"],\"properties\":{\"from\":{\"type\":\"string\"},\"to\":{\"type\":\"string\"}}}"));
    v.push(tool_def("replace_in_file", "Replace a literal string (or all occurrences) inside a file. Use edit_lines for line-range changes; use this for precise text substitutions.", "{\"type\":\"object\",\"required\":[\"path\",\"old_text\",\"new_text\"],\"properties\":{\"path\":{\"type\":\"string\"},\"old_text\":{\"type\":\"string\",\"description\":\"Exact text to find.\"},\"new_text\":{\"type\":\"string\",\"description\":\"Replacement text.\"},\"occurrence\":{\"type\":\"integer\",\"description\":\"1-based occurrence index to replace. 0 = replace all (default 1).\"}}}"));
    v.push(tool_def("run_shell", "Run a shell command in the workspace. Requires shell to be enabled in .ide/tools.toml. Use for npm/cargo/git/npx commands. Always prefer specific tools (read_file, edit_lines) over shell when possible.", "{\"type\":\"object\",\"required\":[\"command\"],\"properties\":{\"command\":{\"type\":\"string\",\"description\":\"The shell command to run. Example: 'npx create-next-app@latest my-app --ts --no-git'.\"},\"cwd\":{\"type\":\"string\",\"description\":\"Working directory (workspace-relative). Default: workspace root.\"},\"timeout_seconds\":{\"type\":\"integer\",\"description\":\"Max seconds to wait (default 60, max 300).\"}}}"));
    v.push(tool_def("read_metadata", "Read the .ide/meta/ sidecar for a file — contains prior AI reasoning, history, and notes.", "{\"type\":\"object\",\"required\":[\"path\"],\"properties\":{\"path\":{\"type\":\"string\",\"description\":\"Workspace-relative source file path.\"}}}"));
    v.push(tool_def("write_metadata_note", "Append a note to the .ide/meta/ sidecar for a file. Use this to record reasoning, design decisions, or important findings about the file.", "{\"type\":\"object\",\"required\":[\"path\",\"note\"],\"properties\":{\"path\":{\"type\":\"string\",\"description\":\"Workspace-relative source file path.\"},\"note\":{\"type\":\"string\",\"description\":\"Note text to append.\"}}}"));
    v.push(tool_def("list_tasks", "List all project tasks from .ide/tasks.md.", "{\"type\":\"object\",\"properties\":{}}"));
    v.push(tool_def("add_task", "Add a new task to .ide/tasks.md.", "{\"type\":\"object\",\"required\":[\"summary\"],\"properties\":{\"summary\":{\"type\":\"string\"},\"notes\":{\"type\":\"string\"}}}"));
    v.push(tool_def("complete_task", "Mark a task as done in .ide/tasks.md.", "{\"type\":\"object\",\"required\":[\"id\"],\"properties\":{\"id\":{\"type\":\"string\",\"description\":\"Task id from list_tasks.\"}}}"));
    v.push(tool_def("update_task", "Update a task's status or notes in .ide/tasks.md.", "{\"type\":\"object\",\"required\":[\"id\"],\"properties\":{\"id\":{\"type\":\"string\"},\"status\":{\"type\":\"string\",\"enum\":[\"open\",\"in_progress\",\"done\",\"cancelled\"]},\"notes\":{\"type\":\"string\"}}}"));
    v.push(tool_def("load_skill", "Load the full body of a named skill (IDE convention or language guide). Call list_skills first if unsure of the name.", "{\"type\":\"object\",\"required\":[\"name\"],\"properties\":{\"name\":{\"type\":\"string\"}}}"));
    v.push(tool_def("list_skills", "List all available skills with their names and descriptions.", "{\"type\":\"object\",\"properties\":{}}"));
    assert(tool_def_texts(v@) =~= default_tool_texts());
    v
}

/// The default system prompt.
pub open spec fn default_system_prompt() -> Seq<char> {
    "You are an expert coding assistant integrated into a GPU-rendered Rust IDE called Antigravity. You have access to file-system tools to read, search, and edit code. Be concise and precise. Reference exact file paths and line numbers. When editing files prefer edit_lines over full rewrites."@
}

/// Output tokens requested per turn by default.
pub const DEFAULT_MAX_TOKENS: u32 = 8192;

/// Settings of the chat engine.
#[derive(Debug, Clone)]
pub struct ChatEngineConfig {
    /// Model id used when no session-level override is set.
    pub default_model: String,
    pub max_tokens: u32,
    /// Injected at every turn.
    pub system_prompt: String,
    /// Tool schemas exposed to the model; empty means no tools.
    pub tools: Vec<ToolDef>,
}

impl ChatEngineConfig {
    /// The default settings, for the given default model.
    pub fn with_model(default_model: String) -> (r: ChatEngineConfig)
        ensures
            r.default_model == default_model,
            r.max_tokens == DEFAULT_MAX_TOKENS,
            r.system_prompt@ == default_system_prompt(),
            tool_def_texts(r.tools@) == default_tool_texts(),
    {
        ChatEngineConfig {
            default_model,
            max_tokens: DEFAULT_MAX_TOKENS,
            system_prompt: "You are an expert coding assistant integrated into a GPU-rendered Rust IDE called Antigravity. You have access to file-system tools to read, search, and edit code. Be concise and precise. Reference exact file paths and line numbers. When editing files prefer edit_lines over full rewrites.".to_owned(),
            tools: default_tool_defs(),
        }
    }
}

/// The engine's state: the provider registry (once installed) and the
/// settings. Turns are started with [`ChatEngine::submit`].
pub struct ChatEngine {
    registry: Option<ProviderRegistry>,
    config: ChatEngineConfig,
}

impl ChatEngine {
    /// Whether a registry with an active provider is installed.
    pub closed spec fn provider_ready(&self) -> bool {
        self.registry matches Some(reg) && reg.active_view() is Some
    }

    pub closed spec fn settings(&self) -> ChatEngineConfig {
        self.config
    }

    pub closed spec fn installed(&self) -> Option<ProviderRegistry> {
        self.registry
    }

    /// An engine with no registry yet.
    pub fn new(config: ChatEngineConfig) -> (r: ChatEngine)
        ensures
            r.installed() is None,
            !r.provider_ready(),
            r.settings() == config,
    {
        ChatEngine { registry: None, config }
    }

    /// Installs the provider registry.
    pub fn set_registry(&mut self, registry: ProviderRegistry)
        ensures
            final(self).installed() == Some(registry),
            final(self).provider_ready() == (registry.active_view() is Some),
            final(self).settings() == old(self).settings(),
    {
        self.registry = Some(registry);
    }

    /// True when a registry with an active provider is installed.
    pub fn has_provider(&self) -> (r: bool)
        ensures
            r == self.provider_ready(),
    {
        match &self.registry {
            Some(reg) => reg.active_id().is_some(),
            None => false,
        }
    }

    /// Replaces the tool schemas exposed to the model.
    pub fn set_tools(&mut self, tools: Vec<ToolDef>)
        ensures
            final(self).settings().tools == tools,
            final(self).settings().default_model == old(self).settings().default_model,
            final(self).settings().max_tokens == old(self).settings().max_tokens,
            final(self).settings().system_prompt == old(self).settings().system_prompt,
            final(self).installed() == old(self).installed(),
            final(self).provider_ready() == old(self).provider_ready(),
    {
        self.config.tools = tools;
    }

    /// Replaces the system prompt.
    pub fn set_system_prompt(&mut self, prompt: String)
        ensures
            final(self).settings().system_prompt == prompt,
            final(self).settings().default_model == old(self).settings().default_model,
            final(self).settings().max_tokens == old(self).settings().max_tokens,
            final(self).settings().tools == old(self).settings().tools,
            final(self).installed() == old(self).installed(),
            final(self).provider_ready() == old(self).provider_ready(),
    {
        self.config.system_prompt = prompt;
    }

    pub fn config(&self) -> (r: &ChatEngineConfig)
        ensures
            *r == self.settings(),
    {
        &self.config
    }

    /// Starts a turn for `prompt` after `history` (tool and note messages
    /// are left out of the request), or fails when no provider is active.
    pub fn submit(
        &self,
        session_id: u64,
        message_id: MessageId,
        history: Vec<(ChatRole, String)>,
        prompt: String,
    ) -> (r: Result<AgentTurn, ChatError>)
        ensures
            !self.provider_ready() ==> r is Err && r->Err_0 is NoProvider,
            self.provider_ready() ==> r is Ok && {
                let t = r->Ok_0;
                &&& t.wf()
                &&& t@.session_id == session_id
                &&& t@.message_id == message_id.0
                &&& t@.messages == history_messages(history_view(history@)).push(
                    MessageView::User(seq![BlockView::Text(prompt@)]),
                )
                &&& t@.rounds == 0
                &&& t@.tokens_out == 0
                &&& t@.phase == TurnPhase::Ready
            },
    {
        if !self.has_provider() {
            return Err(ChatError::NoProvider);
        }
        Ok(AgentTurn::new(session_id, message_id, history, prompt))
    }
}

} // verus!
