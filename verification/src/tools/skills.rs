//! `load_skill`, `list_skills` and `load_skill_reference`: the skill
//! registry answers; these tools pass its answer on to the model.

use vstd::prelude::*;

use crate::tools::tool::ToolOutput;

verus! {

/// Input of `load_skill`.
pub struct LoadSkillInput {
    /// Skill id (e.g. `using-terminal`, `system-info`).
    pub name: String,
}

/// Input of `load_skill_reference`.
pub struct LoadSkillReferenceInput {
    pub skill_name: String,
    /// File relative to the skill directory (e.g. `examples.md`).
    pub file: String,
}

/// What a skill tool answers for what the registry gave: the text, or the
/// registry's error reported as a failed call.
pub open spec fn loaded_output(loaded: Result<String, String>, out: ToolOutput) -> bool {
    match loaded {
        Ok(body) => out.content@ == body@ && !out.is_error,
        Err(e) => out.content@ == e@ && out.is_error,
    }
}

fn output_of(loaded: Result<String, String>) -> (r: ToolOutput)
    ensures
        loaded_output(loaded, r),
{
    match loaded {
        Ok(body) => ToolOutput::text(body),
        Err(e) => ToolOutput::error(e),
    }
}

/// Returns the markdown body of a skill.
pub struct LoadSkillTool;

impl LoadSkillTool {
    pub fn name(&self) -> (r: &'static str)
        ensures
            r@ == "load_skill"@,
    {
        "load_skill"
    }

    pub fn description(&self) -> (r: &'static str)
        ensures
            r@ == "Load the full markdown instructions for a named skill. Call when a task matches a skill description from the system prompt catalog."@,
    {
        "Load the full markdown instructions for a named skill. Call when a task matches a skill description from the system prompt catalog."
    }

    /// Answers with what the registry gave for `input.name`: the body, or
    /// the text of its error.
    pub fn invoke(&self, loaded: Result<String, String>) -> (r: ToolOutput)
        ensures
            loaded_output(loaded, r),
    {
        output_of(loaded)
    }
}

/// Returns the skill catalog.
pub struct ListSkillsTool;

impl ListSkillsTool {
    pub fn name(&self) -> (r: &'static str)
        ensures
            r@ == "list_skills"@,
    {
        "list_skills"
    }

    pub fn description(&self) -> (r: &'static str)
        ensures
            r@ == "Returns the current `<available_skills>` catalog (same shape as the system prompt)."@,
    {
        "Returns the current `<available_skills>` catalog (same shape as the system prompt)."
    }

    /// Answers with the registry's catalog, as the system prompt shows it.
    pub fn invoke(&self, catalog: String) -> (r: ToolOutput)
        ensures
            r.content@ == catalog@,
            !r.is_error,
    {
        ToolOutput::text(catalog)
    }
}

/// Returns an auxiliary file of a skill.
pub struct LoadSkillReferenceTool;

impl LoadSkillReferenceTool {
    pub fn name(&self) -> (r: &'static str)
        ensures
            r@ == "load_skill_reference"@,
    {
        "load_skill_reference"
    }

    pub fn description(&self) -> (r: &'static str)
        ensures
            r@ == "Load an auxiliary file from a skill directory (path-safe; must stay under the skill folder)."@,
    {
        "Load an auxiliary file from a skill directory (path-safe; must stay under the skill folder)."
    }

    /// Answers with what the registry gave for the input's skill and file.
    pub fn invoke(&self, loaded: Result<String, String>) -> (r: ToolOutput)
        ensures
            loaded_output(loaded, r),
    {
        output_of(loaded)
    }
}

} // verus!
