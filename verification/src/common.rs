//! Names and modes shared by the interactive front end and the server.

use crate::text::{replace_char, replaced, to_upper, upper_text};
use vstd::prelude::*;

verus! {

/// The name of the session that is not kept under a name of its own.
pub const TEMP_SESSION_NAME: &'static str = "temp";

/// The directory of the sessions below the configuration directory.
pub const SESSIONS_DIR_NAME: &'static str = "sessions";

/// The directory of the agents below the configuration directory.
pub const AGENTS_DIR_NAME: &'static str = "agents";

/// The template of the left prompt.
pub const LEFT_PROMPT: &'static str =
    "{color.green}{?session {?agent {agent}>}{session}{?role /}}{!session {?agent {agent}>}}{role}{?rag @{rag}}{color.cyan}{?session )}{!session >}{color.reset} ";

/// The template of the right prompt.
pub const RIGHT_PROMPT: &'static str =
    "{color.purple}{?session {?consume_tokens {consume_tokens}({consume_percent}%)}{!consume_tokens {consume_tokens}}}{color.reset}";

/// The prefix of the environment variables that configure the program.
pub const ENV_PREFIX: &'static str = "ragents";

/// How the program runs: at a terminal, or as a server.
#[derive(Clone, Copy, Debug, PartialEq, Eq, Hash, Structural)]
pub enum WorkingMode {
    Realtime,
    Serve,
}

impl WorkingMode {
    /// Whether the program runs at a terminal.
    pub fn is_realtime(&self) -> (yes: bool)
        ensures
            yes == (*self == WorkingMode::Realtime),
    {
        match self {
            WorkingMode::Realtime => true,
            WorkingMode::Serve => false,
        }
    }

    /// Whether the program runs as a server.
    pub fn is_serve(&self) -> (yes: bool)
        ensures
            yes == (*self == WorkingMode::Serve),
    {
        match self {
            WorkingMode::Realtime => false,
            WorkingMode::Serve => true,
        }
    }
}

impl Default for WorkingMode {
    fn default() -> (mode: WorkingMode)
        ensures
            mode == WorkingMode::Realtime,
    {
        WorkingMode::Realtime
    }
}

/// The name of the environment variable for a configuration key: the program's
/// prefix, an underscore and the key, in upper case.
pub open spec fn env_name(key: Seq<char>) -> Seq<char> {
    upper_text(ENV_PREFIX@ + seq!['_'] + key)
}

/// The name of the environment variable for a configuration key.
pub fn get_env_name(key: &str) -> (name: String)
    ensures
        name@ == env_name(key@),
{
    let mut name = ENV_PREFIX.to_string();
    name.push('_');
    name.append(key);
    to_upper(name.as_str())
}

/// A name as it appears in an environment variable: every `-` becomes `_`,
/// and letters become upper case.
pub fn normalize_env_name(value: &str) -> (name: String)
    ensures
        name@ == upper_text(replaced(value@, '-', '_')),
{
    let dashed = replace_char(value, '-', '_');
    to_upper(dashed.as_str())
}

/// The name of the environment variable that may hold an agent's data
/// directory: the agent's name as an environment name, and `_DATA_DIR`.
pub fn agent_data_dir_env(name: &str) -> (variable: String)
    ensures
        variable@ == upper_text(replaced(name@, '-', '_')) + "_DATA_DIR"@,
{
    let mut variable = normalize_env_name(name);
    variable.append("_DATA_DIR");
    variable
}

} // verus!
