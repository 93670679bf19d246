//! What can go wrong before the agent's process runs.

use vstd::prelude::*;

use crate::os_text;
use crate::os_text::OsText;

verus! {

/// Why a session cannot be launched.
#[derive(Clone, Debug, PartialEq, Eq)]
pub enum SessionError {
    /// An argument asks for print mode, which is not interactive.
    PrintModeArgument(OsText),
    /// The MCP configuration could not be encoded.
    McpEncoding,
}

/// What an error says of the agent with this name.
pub open spec fn error_message(e: SessionError, agent: Seq<char>) -> Seq<char> {
    match e {
        SessionError::PrintModeArgument(arg) => agent
            + " PTY sessions must use interactive mode and cannot launch with "@
            + os_text::utf8_lossy(arg@),
        SessionError::McpEncoding => "encode "@ + agent + " MCP config"@,
    }
}

impl SessionError {
    /// What this error says of the agent with this name.
    pub fn message(&self, agent: &str) -> (res: String)
        ensures
            res@ == error_message(*self, agent@),
    {
        match self {
            SessionError::PrintModeArgument(arg) => {
                let mut message = agent.to_owned();
                message.append(" PTY sessions must use interactive mode and cannot launch with ");
                message.append(arg.lossy().as_str());
                message
            },
            SessionError::McpEncoding => {
                let mut message = "encode ".to_owned();
                message.append(agent);
                message.append(" MCP config");
                message
            },
        }
    }
}

/// An argument that is refused is named at the end, and the agent at the beginning.
pub proof fn theorem_error_message(e: SessionError, agent: Seq<char>)
    ensures
        e matches SessionError::PrintModeArgument(arg) ==> error_message(e, agent) == agent
            + " PTY sessions must use interactive mode and cannot launch with "@
            + os_text::utf8_lossy(arg@),
        e is McpEncoding ==> error_message(e, agent) == "encode "@ + agent + " MCP config"@,
{
}

} // verus!
