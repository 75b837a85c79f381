//! The tool the AI is offered: running a shell command in the user's
//! terminal.
use vstd::prelude::*;

verus! {

/// The tool's name.
pub const RUN_COMMAND_NAME: &'static str = "run_command";

/// What the tool does, as the AI reads it.
pub const RUN_COMMAND_DESCRIPTION: &'static str = "Execute a shell command in the user's terminal";

/// The tool's parameters as a JSON schema: a required `command` and an
/// optional `explanation`, both strings.
pub const RUN_COMMAND_PARAMETERS: &'static str = "{\"type\":\"object\",\"properties\":{\"command\":{\"type\":\"string\",\"description\":\"The command to execute\"},\"explanation\":{\"type\":\"string\",\"description\":\"Why this command is being run\"}},\"required\":[\"command\"]}";

/// A tool offered to the AI: its name, description, and parameters as JSON
/// text.
pub struct ToolSpec {
    pub name: String,
    pub description: String,
    pub parameters: String,
}

/// The `run_command` tool.
pub fn run_command_tool() -> (r: ToolSpec)
    ensures
        r.name@ == RUN_COMMAND_NAME@,
        r.description@ == RUN_COMMAND_DESCRIPTION@,
        r.parameters@ == RUN_COMMAND_PARAMETERS@,
{
    ToolSpec {
        name: RUN_COMMAND_NAME.to_owned(),
        description: RUN_COMMAND_DESCRIPTION.to_owned(),
        parameters: RUN_COMMAND_PARAMETERS.to_owned(),
    }
}

} // verus!
