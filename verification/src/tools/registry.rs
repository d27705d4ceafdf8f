//! The registry of the agent's built-in tools: which tools there are, and
//! the definitions (name, description, input schema) handed to the model.

use vstd::prelude::*;

use crate::order::{sort_strings, sorted_strings, str_views};
use crate::provider::types::{str_eq, tool_def, tool_def_names, ToolDef};
use crate::tools::config::ToolConfig;
use crate::tools::error::{ToolError, ToolErrorView};
use crate::tools::shell::RunShellTool;

verus! {

/// The built-in tools, in the order they are registered.
pub open spec fn builtin_names() -> Seq<Seq<char>> {
    seq![
        "read_file"@, "list_directory"@, "find_files"@, "grep"@, "edit_lines"@, "insert_at"@,
        "append_to"@, "replace_in_file"@, "create_file"@, "delete_file"@, "move_file"@,
        "read_metadata"@, "write_metadata_note"@, "list_tasks"@, "add_task"@, "complete_task"@,
        "update_task"@, "run_shell"@,
    ]
}

/// The tools added when a skill registry is available.
pub open spec fn skill_names() -> Seq<Seq<char>> {
    seq!["load_skill"@, "list_skills"@, "load_skill_reference"@]
}

pub open spec fn registered_names(with_skills: bool) -> Seq<Seq<char>> {
    if with_skills { builtin_names() + skill_names() } else { builtin_names() }
}

/// The description each registered tool gives of itself.
pub open spec fn tool_description(name: Seq<char>) -> Seq<char> {
    if name == "read_file"@ {
        "Read a UTF-8 text file under the workspace. Optional 1-based inclusive line range. Rejects files larger than 1 MiB (use grep instead)."@
    } else if name == "list_directory"@ {
        "List files and directories under a workspace-relative path (gitignore-aware)."@
    } else if name == "find_files"@ {
        "Find files matching a glob pattern, respecting gitignore (max 500 results)."@
    } else if name == "grep"@ {
        "Search file contents in the workspace (dirty buffers override disk)."@
    } else if name == "edit_lines"@ {
        "Replace a 1-based inclusive range of lines with new UTF-8 content (staged until commit)."@
    } else if name == "insert_at"@ {
        "Insert text before the given 1-based line number (`line=1` inserts at file start)."@
    } else if name == "append_to"@ {
        "Append text at end of file. Inserts a leading newline when the file has content but no trailing newline."@
    } else if name == "replace_in_file"@ {
        "Exact string replacement (not regex). Use occurrence=0 for all; default first match only."@
    } else if name == "create_file"@ {
        "Create a new file under the workspace. Fails if the path already exists."@
    } else if name == "delete_file"@ {
        "Delete a file under the workspace (staged until commit)."@
    } else if name == "move_file"@ {
        "Rename or move a file within the workspace."@
    } else if name == "read_metadata"@ {
        "Load the metadata sidecar for a source file (.ide/meta/…), or a blank skeleton when none exists."@
    } else if name == "write_metadata_note"@ {
        "Append to the sidecar Notes section (staged upsert under `.ide/meta/`)."@
    } else if name == "list_tasks"@ {
        "List tasks from `.ide/tasks.md` (JSON array)."@
    } else if name == "add_task"@ {
        "Append an open task to `.ide/tasks.md`."@
    } else if name == "complete_task"@ {
        "Mark a task done by id in `.ide/tasks.md`."@
    } else if name == "update_task"@ {
        "Update task status and/or notes by id."@
    } else if name == "run_shell"@ {
        "Run a shell command with a workspace-relative cwd (optional). **Non-transactional**: cannot be rolled back. Disabled unless `[shell] enabled = true` in `.ide/tools.toml` and the command starts with an allowed prefix."@
    } else if name == "load_skill"@ {
        "Load the full markdown instructions for a named skill. Call when a task matches a skill description from the system prompt catalog."@
    } else if name == "list_skills"@ {
        "Returns the current `<available_skills>` catalog (same shape as the system prompt)."@
    } else if name == "load_skill_reference"@ {
        "Load an auxiliary file from a skill directory (path-safe; must stay under the skill folder)."@
    } else {
        Seq::empty()
    }
}

/// The JSON Schema of each registered tool's input.
pub open spec fn tool_schema(name: Seq<char>) -> Seq<char> {
    if name == "read_file"@ {
        "{\"type\":\"object\",\"required\":[\"path\"],\"properties\":{\"path\":{\"type\":\"string\"},\"startLine\":{\"type\":\"integer\",\"minimum\":0},\"endLine\":{\"type\":\"integer\",\"minimum\":0}}}"@
    } else if name == "list_directory"@ {
        "{\"type\":\"object\",\"required\":[\"path\"],\"properties\":{\"path\":{\"type\":\"string\"},\"recursive\":{\"type\":\"boolean\"},\"maxDepth\":{\"type\":\"integer\",\"minimum\":0}}}"@
    } else if name == "find_files"@ {
        "{\"type\":\"object\",\"required\":[\"pattern\"],\"properties\":{\"pattern\":{\"type\":\"string\"}}}"@
    } else if name == "grep"@ {
        "{\"type\":\"object\",\"required\":[\"query\"],\"properties\":{\"query\":{\"type\":\"string\"},\"isRegex\":{\"type\":\"boolean\"},\"caseSensitive\":{\"type\":\"boolean\"},\"path\":{\"type\":\"string\"}}}"@
    } else if name == "edit_lines"@ {
        "{\"type\":\"object\",\"required\":[\"path\",\"startLine\",\"endLine\",\"newContent\"],\"properties\":{\"path\":{\"type\":\"string\"},\"startLine\":{\"type\":\"integer\",\"minimum\":0},\"endLine\":{\"type\":\"integer\",\"minimum\":0},\"newContent\":{\"type\":\"string\"}}}"@
    } else if name == "insert_at"@ {
        "{\"type\":\"object\",\"required\":[\"path\",\"line\",\"content\"],\"properties\":{\"path\":{\"type\":\"string\"},\"line\":{\"type\":\"integer\",\"minimum\":0},\"content\":{\"type\":\"string\"}}}"@
    } else if name == "append_to"@ {
        "{\"type\":\"object\",\"required\":[\"path\",\"content\"],\"properties\":{\"path\":{\"type\":\"string\"},\"content\":{\"type\":\"string\"}}}"@
    } else if name == "replace_in_file"@ {
        "{\"type\":\"object\",\"required\":[\"path\",\"oldText\",\"newText\"],\"properties\":{\"path\":{\"type\":\"string\"},\"oldText\":{\"type\":\"string\"},\"newText\":{\"type\":\"string\"},\"occurrence\":{\"type\":\"integer\",\"minimum\":0,\"description\":\"1 = first match; `0` = replace all occurrences.\"}}}"@
    } else if name == "create_file"@ {
        "{\"type\":\"object\",\"required\":[\"path\",\"content\"],\"properties\":{\"path\":{\"type\":\"string\"},\"content\":{\"type\":\"string\"}}}"@
    } else if name == "delete_file"@ {
        "{\"type\":\"object\",\"required\":[\"path\"],\"properties\":{\"path\":{\"type\":\"string\"}}}"@
    } else if name == "move_file"@ {
        "{\"type\":\"object\",\"required\":[\"from\",\"to\"],\"properties\":{\"from\":{\"type\":\"string\"},\"to\":{\"type\":\"string\"}}}"@
    } else if name == "read_metadata"@ {
        "{\"type\":\"object\",\"required\":[\"path\"],\"properties\":{\"path\":{\"type\":\"string\",\"description\":\"Workspace-relative path to a source file (not `.ide/meta/...`).\"}}}"@
    } else if name == "write_metadata_note"@ {
        "{\"type\":\"object\",\"required\":[\"path\",\"note\"],\"properties\":{\"path\":{\"type\":\"string\"},\"note\":{\"type\":\"string\"}}}"@
    } else if name == "list_tasks"@ {
        "{\"type\":\"object\",\"properties\":{}}"@
    } else if name == "add_task"@ {
        "{\"type\":\"object\",\"required\":[\"summary\"],\"properties\":{\"summary\":{\"type\":\"string\"}}}"@
    } else if name == "complete_task"@ {
        "{\"type\":\"object\",\"required\":[\"id\"],\"properties\":{\"id\":{\"type\":\"string\"}}}"@
    } else if name == "update_task"@ {
        "{\"type\":\"object\",\"required\":[\"id\"],\"properties\":{\"id\":{\"type\":\"string\"},\"status\":{\"type\":\"string\"},\"notes\":{\"type\":\"string\"}}}"@
    } else if name == "run_shell"@ {
        "{\"type\":\"object\",\"required\":[\"command\"],\"properties\":{\"command\":{\"type\":\"string\"},\"cwd\":{\"type\":\"string\"},\"timeoutSeconds\":{\"type\":\"integer\",\"minimum\":0}}}"@
    } else if name == "load_skill"@ {
        "{\"type\":\"object\",\"required\":[\"name\"],\"properties\":{\"name\":{\"type\":\"string\",\"description\":\"Skill id (e.g. `using-terminal`, `system-info`).\"}}}"@
    } else if name == "list_skills"@ {
        "{\"type\":\"object\",\"properties\":{}}"@
    } else if name == "load_skill_reference"@ {
        "{\"type\":\"object\",\"required\":[\"skill_name\",\"file\"],\"properties\":{\"skill_name\":{\"type\":\"string\"},\"file\":{\"type\":\"string\",\"description\":\"File relative to the skill directory (e.g. `examples.md`).\"}}}"@
    } else {
        Seq::empty()
    }
}

fn push_name(v: &mut Vec<String>, s: &str)
    ensures
        str_views(final(v)@) == str_views(old(v)@).push(s@),
{
    v.push(s.to_owned());
    assert(str_views(v@) =~= str_views(old(v)@).push(s@));
}

/// The names of the registered tools in ascending order.
fn sorted_tool_names(with_skills: bool) -> (r: Vec<String>)
    ensures
        sorted_strings(str_views(r@)),
        str_views(r@).to_multiset() == registered_names(with_skills).to_multiset(),
{
    let mut v: Vec<String> = Vec::new();
    push_name(&mut v, "read_file");
    push_name(&mut v, "list_directory");
    push_name(&mut v, "find_files");
    push_name(&mut v, "grep");
    push_name(&mut v, "edit_lines");
    push_name(&mut v, "insert_at");
    push_name(&mut v, "append_to");
    push_name(&mut v, "replace_in_file");
    push_name(&mut v, "create_file");
    push_name(&mut v, "delete_file");
    push_name(&mut v, "move_file");
    push_name(&mut v, "read_metadata");
    push_name(&mut v, "write_metadata_note");
    push_name(&mut v, "list_tasks");
    push_name(&mut v, "add_task");
    push_name(&mut v, "complete_task");
    push_name(&mut v, "update_task");
    push_name(&mut v, "run_shell");
    if with_skills {
        push_name(&mut v, "load_skill");
        push_name(&mut v, "list_skills");
        push_name(&mut v, "load_skill_reference");
    }
    assert(str_views(v@) =~= registered_names(with_skills));
    sort_strings(v)
}

/// The definition of the registered tool `name`.
fn def_for(name: &str, shell: &RunShellTool) -> (r: ToolDef)
    requires
        registered_names(true).contains(name@),
    ensures
        r.name@ == name@,
        r.description@ == tool_description(name@),
        r.input_schema@ == tool_schema(name@),
{
    if str_eq(name, "read_file") {
        tool_def(name, crate::tools::explore::ReadFileTool.description(), "{\"type\":\"object\",\"required\":[\"path\"],\"properties\":{\"path\":{\"type\":\"string\"},\"startLine\":{\"type\":\"integer\",\"minimum\":0},\"endLine\":{\"type\":\"integer\",\"minimum\":0}}}")
    } else if str_eq(name, "list_directory") {
        tool_def(name, crate::tools::explore::ListDirectoryTool.description(), "{\"type\":\"object\",\"required\":[\"path\"],\"properties\":{\"path\":{\"type\":\"string\"},\"recursive\":{\"type\":\"boolean\"},\"maxDepth\":{\"type\":\"integer\",\"minimum\":0}}}")
    } else if str_eq(name, "find_files") {
        tool_def(name, crate::tools::explore::FindFilesTool.description(), "{\"type\":\"object\",\"required\":[\"pattern\"],\"properties\":{\"pattern\":{\"type\":\"string\"}}}")
    } else if str_eq(name, "grep") {
        tool_def(name, crate::tools::explore::GrepTool.description(), "{\"type\":\"object\",\"required\":[\"query\"],\"properties\":{\"query\":{\"type\":\"string\"},\"isRegex\":{\"type\":\"boolean\"},\"caseSensitive\":{\"type\":\"boolean\"},\"path\":{\"type\":\"string\"}}}")
    } else if str_eq(name, "edit_lines") {
        tool_def(name, crate::tools::edit::EditLinesTool.description(), "{\"type\":\"object\",\"required\":[\"path\",\"startLine\",\"endLine\",\"newContent\"],\"properties\":{\"path\":{\"type\":\"string\"},\"startLine\":{\"type\":\"integer\",\"minimum\":0},\"endLine\":{\"type\":\"integer\",\"minimum\":0},\"newContent\":{\"type\":\"string\"}}}")
    } else if str_eq(name, "insert_at") {
        tool_def(name, crate::tools::edit::InsertAtTool.description(), "{\"type\":\"object\",\"required\":[\"path\",\"line\",\"content\"],\"properties\":{\"path\":{\"type\":\"string\"},\"line\":{\"type\":\"integer\",\"minimum\":0},\"content\":{\"type\":\"string\"}}}")
    } else if str_eq(name, "append_to") {
        tool_def(name, crate::tools::edit::AppendToTool.description(), "{\"type\":\"object\",\"required\":[\"path\",\"content\"],\"properties\":{\"path\":{\"type\":\"string\"},\"content\":{\"type\":\"string\"}}}")
    } else if str_eq(name, "replace_in_file") {
        tool_def(name, crate::tools::replace::ReplaceInFileTool.description(), "{\"type\":\"object\",\"required\":[\"path\",\"oldText\",\"newText\"],\"properties\":{\"path\":{\"type\":\"string\"},\"oldText\":{\"type\":\"string\"},\"newText\":{\"type\":\"string\"},\"occurrence\":{\"type\":\"integer\",\"minimum\":0,\"description\":\"1 = first match; `0` = replace all occurrences.\"}}}")
    } else if str_eq(name, "create_file") {
        tool_def(name, crate::tools::file_ops::CreateFileTool.description(), "{\"type\":\"object\",\"required\":[\"path\",\"content\"],\"properties\":{\"path\":{\"type\":\"string\"},\"content\":{\"type\":\"string\"}}}")
    } else if str_eq(name, "delete_file") {
        tool_def(name, crate::tools::file_ops::DeleteFileTool.description(), "{\"type\":\"object\",\"required\":[\"path\"],\"properties\":{\"path\":{\"type\":\"string\"}}}")
    } else if str_eq(name, "move_file") {
        tool_def(name, crate::tools::file_ops::MoveFileTool.description(), "{\"type\":\"object\",\"required\":[\"from\",\"to\"],\"properties\":{\"from\":{\"type\":\"string\"},\"to\":{\"type\":\"string\"}}}")
    } else if str_eq(name, "read_metadata") {
        tool_def(name, crate::tools::metadata::ReadMetadataTool.description(), "{\"type\":\"object\",\"required\":[\"path\"],\"properties\":{\"path\":{\"type\":\"string\",\"description\":\"Workspace-relative path to a source file (not `.ide/meta/...`).\"}}}")
    } else if str_eq(name, "write_metadata_note") {
        tool_def(name, crate::tools::metadata::WriteMetadataNoteTool.description(), "{\"type\":\"object\",\"required\":[\"path\",\"note\"],\"properties\":{\"path\":{\"type\":\"string\"},\"note\":{\"type\":\"string\"}}}")
    } else if str_eq(name, "list_tasks") {
        tool_def(name, crate::tools::tasks::ListTasksTool.description(), "{\"type\":\"object\",\"properties\":{}}")
    } else if str_eq(name, "add_task") {
        tool_def(name, crate::tools::tasks::AddTaskTool.description(), "{\"type\":\"object\",\"required\":[\"summary\"],\"properties\":{\"summary\":{\"type\":\"string\"}}}")
    } else if str_eq(name, "complete_task") {
        tool_def(name, crate::tools::tasks::CompleteTaskTool.description(), "{\"type\":\"object\",\"required\":[\"id\"],\"properties\":{\"id\":{\"type\":\"string\"}}}")
    } else if str_eq(name, "update_task") {
        tool_def(name, crate::tools::tasks::UpdateTaskTool.description(), "{\"type\":\"object\",\"required\":[\"id\"],\"properties\":{\"id\":{\"type\":\"string\"},\"status\":{\"type\":\"string\"},\"notes\":{\"type\":\"string\"}}}")
    } else if str_eq(name, "run_shell") {
        tool_def(name, shell.description(), "{\"type\":\"object\",\"required\":[\"command\"],\"properties\":{\"command\":{\"type\":\"string\"},\"cwd\":{\"type\":\"string\"},\"timeoutSeconds\":{\"type\":\"integer\",\"minimum\":0}}}")
    } else if str_eq(name, "load_skill") {
        tool_def(name, crate::tools::skills::LoadSkillTool.description(), "{\"type\":\"object\",\"required\":[\"name\"],\"properties\":{\"name\":{\"type\":\"string\",\"description\":\"Skill id (e.g. `using-terminal`, `system-info`).\"}}}")
    } else if str_eq(name, "list_skills") {
        tool_def(name, crate::tools::skills::ListSkillsTool.description(), "{\"type\":\"object\",\"properties\":{}}")
    } else if str_eq(name, "load_skill_reference") {
        tool_def(name, crate::tools::skills::LoadSkillReferenceTool.description(), "{\"type\":\"object\",\"required\":[\"skill_name\",\"file\"],\"properties\":{\"skill_name\":{\"type\":\"string\"},\"file\":{\"type\":\"string\",\"description\":\"File relative to the skill directory (e.g. `examples.md`).\"}}}")
    } else {
        proof {
            assert(registered_names(true) =~= seq!["read_file"@, "list_directory"@, "find_files"@, "grep"@, "edit_lines"@, "insert_at"@, "append_to"@, "replace_in_file"@, "create_file"@, "delete_file"@, "move_file"@, "read_metadata"@, "write_metadata_note"@, "list_tasks"@, "add_task"@, "complete_task"@, "update_task"@, "run_shell"@, "load_skill"@, "list_skills"@, "load_skill_reference"@]);
        }
        tool_def(name, "", "")
    }
}

/// The registered tools: the built-in set, and the skill tools when a
/// skill registry is available. `run_shell` obeys the configuration.
pub struct ToolRegistry {
    with_skills: bool,
    shell: RunShellTool,
}

impl ToolRegistry {
    /// The names of the registered tools, in registration order.
    pub closed spec fn names(&self) -> Seq<Seq<char>> {
        registered_names(self.with_skills)
    }

    /// The registered `run_shell` tool.
    pub closed spec fn shell_view(&self) -> RunShellTool {
        self.shell
    }

    /// Registers all built-in tools, and the skill tools when `with_skills`.
    pub fn new_default(config: ToolConfig, with_skills: bool) -> (r: ToolRegistry)
        ensures
            r.names() == registered_names(with_skills),
            r.shell_view().enabled() == config.shell.enabled,
            r.shell_view().prefixes() == crate::tools::config::strings_view(config.shell.allowed_prefixes@),
    {
        ToolRegistry { with_skills, shell: RunShellTool::new(config) }
    }

    /// The registered `run_shell` tool, built with the registry's configuration.
    pub fn run_shell(&self) -> (r: &RunShellTool)
        ensures
            *r == self.shell_view(),
    {
        &self.shell
    }

    /// The names of the registered tools in ascending order.
    pub fn tool_names(&self) -> (r: Vec<String>)
        ensures
            sorted_strings(str_views(r@)),
            str_views(r@).to_multiset() == self.names().to_multiset(),
    {
        sorted_tool_names(self.with_skills)
    }

    /// The tools' definitions for the model, ordered by name.
    pub fn as_defs(&self) -> (r: Vec<ToolDef>)
        ensures
            sorted_strings(tool_def_names(r@)),
            tool_def_names(r@).to_multiset() == self.names().to_multiset(),
            forall|i: int|
                0 <= i < r@.len() ==> (#[trigger] r@[i]).description@ == tool_description(r@[i].name@)
                    && r@[i].input_schema@ == tool_schema(r@[i].name@),
    {
        let names = sorted_tool_names(self.with_skills);
        let mut defs: Vec<ToolDef> = Vec::new();
        let mut i: usize = 0;
        while i < names.len()
            invariant
                0 <= i <= names@.len(),
                str_views(names@).to_multiset() == registered_names(self.with_skills).to_multiset(),
                tool_def_names(defs@) == str_views(names@).subrange(0, i as int),
                forall|k: int|
                    0 <= k < defs@.len() ==> (#[trigger] defs@[k]).description@ == tool_description(
                        defs@[k].name@,
                    ) && defs@[k].input_schema@ == tool_schema(defs@[k].name@),
            decreases names@.len() - i,
        {
            let ghost n = names@[i as int]@;
            proof {
                assert(str_views(names@)[i as int] == n);
                assert(str_views(names@).contains(n));
                str_views(names@).to_multiset_ensures();
                registered_names(self.with_skills).to_multiset_ensures();
                assert(str_views(names@).to_multiset().count(n) > 0);
                assert(registered_names(self.with_skills).to_multiset().count(n) > 0);
                assert(registered_names(self.with_skills).contains(n));
                if self.with_skills {
                    assert(registered_names(true) == registered_names(self.with_skills));
                } else {
                    let k = choose|k: int| 0 <= k < builtin_names().len() && builtin_names()[k] == n;
                    assert(registered_names(true)[k] == n);
                }
            }
            let d = def_for(names[i].as_str(), &self.shell);
            let ghost before = defs@;
            defs.push(d);
            assert(defs@ == before.push(d));
            assert(tool_def_names(defs@) =~= tool_def_names(before).push(d.name@));
            assert(tool_def_names(defs@) =~= str_views(names@).subrange(0, i + 1));
            i = i + 1;
        }
        assert(str_views(names@).subrange(0, names@.len() as int) =~= str_views(names@));
        defs
    }
}

/// The error for a call of a tool that is not registered.
pub fn unknown_tool(name: &str) -> (r: ToolError)
    ensures
        r@ == ToolErrorView::Message("unknown tool: "@ + name@),
{
    let mut s = "unknown tool: ".to_owned();
    s.append(name);
    ToolError::msg(s)
}

} // verus!

verus! {

/// A registered tool, by name.
#[derive(Debug, Clone, Copy, PartialEq, Eq, Structural)]
pub enum RegisteredTool {
    ReadFile,
    ListDirectory,
    FindFiles,
    Grep,
    EditLines,
    InsertAt,
    AppendTo,
    ReplaceInFile,
    CreateFile,
    DeleteFile,
    MoveFile,
    ReadMetadata,
    WriteMetadataNote,
    ListTasks,
    AddTask,
    CompleteTask,
    UpdateTask,
    RunShell,
    LoadSkill,
    ListSkills,
    LoadSkillReference,
}

/// The built-in or skill tool that `name` names, if any.
pub open spec fn tool_by_name(name: Seq<char>) -> Option<RegisteredTool> {
    if name == "read_file"@ {
        Some(RegisteredTool::ReadFile)
    } else if name == "list_directory"@ {
        Some(RegisteredTool::ListDirectory)
    } else if name == "find_files"@ {
        Some(RegisteredTool::FindFiles)
    } else if name == "grep"@ {
        Some(RegisteredTool::Grep)
    } else if name == "edit_lines"@ {
        Some(RegisteredTool::EditLines)
    } else if name == "insert_at"@ {
        Some(RegisteredTool::InsertAt)
    } else if name == "append_to"@ {
        Some(RegisteredTool::AppendTo)
    } else if name == "replace_in_file"@ {
        Some(RegisteredTool::ReplaceInFile)
    } else if name == "create_file"@ {
        Some(RegisteredTool::CreateFile)
    } else if name == "delete_file"@ {
        Some(RegisteredTool::DeleteFile)
    } else if name == "move_file"@ {
        Some(RegisteredTool::MoveFile)
    } else if name == "read_metadata"@ {
        Some(RegisteredTool::ReadMetadata)
    } else if name == "write_metadata_note"@ {
        Some(RegisteredTool::WriteMetadataNote)
    } else if name == "list_tasks"@ {
        Some(RegisteredTool::ListTasks)
    } else if name == "add_task"@ {
        Some(RegisteredTool::AddTask)
    } else if name == "complete_task"@ {
        Some(RegisteredTool::CompleteTask)
    } else if name == "update_task"@ {
        Some(RegisteredTool::UpdateTask)
    } else if name == "run_shell"@ {
        Some(RegisteredTool::RunShell)
    } else if name == "load_skill"@ {
        Some(RegisteredTool::LoadSkill)
    } else if name == "list_skills"@ {
        Some(RegisteredTool::ListSkills)
    } else if name == "load_skill_reference"@ {
        Some(RegisteredTool::LoadSkillReference)
    } else {
        None
    }
}

/// The tools that only a skill registry brings.
pub open spec fn is_skill_tool(t: RegisteredTool) -> bool {
    t is LoadSkill || t is ListSkills || t is LoadSkillReference
}

impl ToolRegistry {
    /// The registered tool that a call names, or the error for a name that
    /// is not registered (the skill tools are registered only with a skill
    /// registry).
    pub fn tool_named(&self, name: &str) -> (r: Result<RegisteredTool, ToolError>)
        ensures
            match tool_by_name(name@) {
                Some(t) if self.names() == registered_names(true) || !is_skill_tool(t) => r == Ok::<
                    RegisteredTool,
                    ToolError,
                >(t),
                _ => r is Err && r->Err_0@ == ToolErrorView::Message("unknown tool: "@ + name@),
            },
    {
        let found = 
            if str_eq(name, "read_file") {
            Some(RegisteredTool::ReadFile)
            } else if str_eq(name, "list_directory") {
            Some(RegisteredTool::ListDirectory)
            } else if str_eq(name, "find_files") {
            Some(RegisteredTool::FindFiles)
            } else if str_eq(name, "grep") {
            Some(RegisteredTool::Grep)
            } else if str_eq(name, "edit_lines") {
            Some(RegisteredTool::EditLines)
            } else if str_eq(name, "insert_at") {
            Some(RegisteredTool::InsertAt)
            } else if str_eq(name, "append_to") {
            Some(RegisteredTool::AppendTo)
            } else if str_eq(name, "replace_in_file") {
            Some(RegisteredTool::ReplaceInFile)
            } else if str_eq(name, "create_file") {
            Some(RegisteredTool::CreateFile)
            } else if str_eq(name, "delete_file") {
            Some(RegisteredTool::DeleteFile)
            } else if str_eq(name, "move_file") {
            Some(RegisteredTool::MoveFile)
            } else if str_eq(name, "read_metadata") {
            Some(RegisteredTool::ReadMetadata)
            } else if str_eq(name, "write_metadata_note") {
            Some(RegisteredTool::WriteMetadataNote)
            } else if str_eq(name, "list_tasks") {
            Some(RegisteredTool::ListTasks)
            } else if str_eq(name, "add_task") {
            Some(RegisteredTool::AddTask)
            } else if str_eq(name, "complete_task") {
            Some(RegisteredTool::CompleteTask)
            } else if str_eq(name, "update_task") {
            Some(RegisteredTool::UpdateTask)
            } else if str_eq(name, "run_shell") {
            Some(RegisteredTool::RunShell)
            } else if str_eq(name, "load_skill") {
            Some(RegisteredTool::LoadSkill)
            } else if str_eq(name, "list_skills") {
            Some(RegisteredTool::ListSkills)
            } else if str_eq(name, "load_skill_reference") {
            Some(RegisteredTool::LoadSkillReference)
        } else {
            None
        };
        match found {
            Some(t) => {
                if self.with_skills || !(matches!(t, RegisteredTool::LoadSkill) || matches!(t, RegisteredTool::ListSkills) || matches!(t, RegisteredTool::LoadSkillReference)) {
                    Ok(t)
                } else {
                    Err(unknown_tool(name))
                }
            },
            None => Err(unknown_tool(name)),
        }
    }
}

/// A call is dispatched to a tool exactly when the registry lists that
/// name: every registered name reaches a tool, and every name that reaches
/// a tool is registered (the skill tools only with a skill registry).
pub proof fn law_dispatch_matches_registered_names(with_skills: bool, name: Seq<char>)
    ensures
        (tool_by_name(name) matches Some(t) && (with_skills || !is_skill_tool(t)))
            <==> registered_names(with_skills).contains(name),
{
    if registered_names(with_skills).contains(name) {
        let i = choose|i: int| 0 <= i < registered_names(with_skills).len() && registered_names(with_skills)[i] == name;
        assert(0 <= i < registered_names(with_skills).len());
    }
    if name == "read_file"@ {
        assert(registered_names(with_skills)[0] == name);
    } else if name == "list_directory"@ {
        assert(registered_names(with_skills)[1] == name);
    } else if name == "find_files"@ {
        assert(registered_names(with_skills)[2] == name);
    } else if name == "grep"@ {
        assert(registered_names(with_skills)[3] == name);
    } else if name == "edit_lines"@ {
        assert(registered_names(with_skills)[4] == name);
    } else if name == "insert_at"@ {
        assert(registered_names(with_skills)[5] == name);
    } else if name == "append_to"@ {
        assert(registered_names(with_skills)[6] == name);
    } else if name == "replace_in_file"@ {
        assert(registered_names(with_skills)[7] == name);
    } else if name == "create_file"@ {
        assert(registered_names(with_skills)[8] == name);
    } else if name == "delete_file"@ {
        assert(registered_names(with_skills)[9] == name);
    } else if name == "move_file"@ {
        assert(registered_names(with_skills)[10] == name);
    } else if name == "read_metadata"@ {
        assert(registered_names(with_skills)[11] == name);
    } else if name == "write_metadata_note"@ {
        assert(registered_names(with_skills)[12] == name);
    } else if name == "list_tasks"@ {
        assert(registered_names(with_skills)[13] == name);
    } else if name == "add_task"@ {
        assert(registered_names(with_skills)[14] == name);
    } else if name == "complete_task"@ {
        assert(registered_names(with_skills)[15] == name);
    } else if name == "update_task"@ {
        assert(registered_names(with_skills)[16] == name);
    } else if name == "run_shell"@ {
        assert(registered_names(with_skills)[17] == name);
    } else if name == "load_skill"@ {
        if with_skills {
            assert(registered_names(with_skills)[18] == name);
        }
    } else if name == "list_skills"@ {
        if with_skills {
            assert(registered_names(with_skills)[19] == name);
        }
    } else if name == "load_skill_reference"@ {
        if with_skills {
            assert(registered_names(with_skills)[20] == name);
        }
    }
}

/// Different names never reach the same tool: each tool answers to exactly
/// one name.
pub proof fn law_dispatch_one_name_per_tool(a: Seq<char>, b: Seq<char>)
    ensures
        (tool_by_name(a) is Some && tool_by_name(a) == tool_by_name(b)) ==> a == b,
{
}

} // verus!
