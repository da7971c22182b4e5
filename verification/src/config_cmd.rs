//! What the `config` subcommands print and which steps they take; loading
//! and saving the configuration itself is left to the caller.
use vstd::prelude::*;
use crate::cli::ConfigCommands;
use crate::text::{contains, extend_chars, lit, seq_contains, str_chars, string_from_chars};

verus! {

/// The work a `config` subcommand needs around its output.
#[derive(Debug, Clone, Copy, PartialEq, Eq, Structural)]
pub enum ConfigTask {
    /// Load the configuration and print one value.
    Get,
    /// Load the configuration, change one value and save it.
    Store,
    /// Load the configuration and print all values.
    List,
    /// Print where the global configuration file lives.
    Path,
    /// Open the interactive configuration editor.
    Tui,
}

/// Routes a `config` subcommand to its task.
pub fn handle_config_command(command: &ConfigCommands) -> (t: ConfigTask)
    ensures
        match command {
            ConfigCommands::Get { .. } => t == ConfigTask::Get,
            ConfigCommands::SetValue { .. } => t == ConfigTask::Store,
            ConfigCommands::List => t == ConfigTask::List,
            ConfigCommands::Path => t == ConfigTask::Path,
            ConfigCommands::Tui => t == ConfigTask::Tui,
        },
{
    match command {
        ConfigCommands::Get { .. } => ConfigTask::Get,
        ConfigCommands::SetValue { .. } => ConfigTask::Store,
        ConfigCommands::List => ConfigTask::List,
        ConfigCommands::Path => ConfigTask::Path,
        ConfigCommands::Tui => ConfigTask::Tui,
    }
}

/// An error of a `config` subcommand, with the message shown to the user.
#[derive(Debug, Clone, PartialEq, Eq)]
pub struct ConfigCmdError {
    pub message: String,
}

/// Keys whose values are secrets: every key that mentions `key`.
pub open spec fn is_secret_key(key: Seq<char>) -> bool {
    contains(key, "api_key"@) || contains(key, "key"@)
}

/// The line `config get` prints for `key` holding `value`.
pub open spec fn get_line(key: Seq<char>, value: Seq<char>) -> Seq<char> {
    if is_secret_key(key) {
        key + ": <hidden>"@
    } else {
        key + ": "@ + value
    }
}

/// The line printed for a secret key is the same whatever its value.
pub proof fn law_secret_values_hidden(key: Seq<char>, a: Seq<char>, b: Seq<char>)
    requires
        is_secret_key(key),
    ensures
        get_line(key, a) == get_line(key, b),
        get_line(key, a) == key + ": <hidden>"@,
{
}

/// The message for a key the configuration does not know.
pub open spec fn unknown_key_message(key: Seq<char>) -> Seq<char> {
    "Unknown configuration key '"@ + key + "'"@
}

/// The output of `config get`: the value of a known key, hidden where the key
/// names a secret; an unknown key is an error.
pub fn config_get_output(key: &str, value: Option<String>) -> (r: Result<String, ConfigCmdError>)
    ensures
        match value {
            Some(v) => r matches Ok(line) && line@ == get_line(key@, v@),
            None => r matches Err(e) && e.message@ == unknown_key_message(key@),
        },
{
    let k = str_chars(key);
    match value {
        Some(v) => {
            let secret = seq_contains(&k, &lit("api_key")) || seq_contains(&k, &lit("key"));
            let mut out = k.clone();
            if secret {
                extend_chars(&mut out, &lit(": <hidden>"));
            } else {
                extend_chars(&mut out, &lit(": "));
                extend_chars(&mut out, &str_chars(v.as_str()));
            }
            Ok(string_from_chars(&out))
        },
        None => {
            let mut out = lit("Unknown configuration key '");
            extend_chars(&mut out, &k);
            extend_chars(&mut out, &lit("'"));
            Err(ConfigCmdError { message: string_from_chars(&out) })
        },
    }
}

/// The line `config set` prints once the value is stored.
pub open spec fn set_line(key: Seq<char>, value: Seq<char>) -> Seq<char> {
    "Set "@ + key + " = "@ + value
}

/// The confirmation of `config set`.
pub fn config_set_output(key: &str, value: &str) -> (r: String)
    ensures
        r@ == set_line(key@, value@),
{
    let mut out = lit("Set ");
    extend_chars(&mut out, &str_chars(key));
    extend_chars(&mut out, &lit(" = "));
    extend_chars(&mut out, &str_chars(value));
    string_from_chars(&out)
}

/// The output of `config path`: the path, or an error where no configuration
/// directory can be determined.
pub fn config_path_output(path: Option<String>) -> (r: Result<String, ConfigCmdError>)
    ensures
        match path {
            Some(p) => r == Ok::<String, ConfigCmdError>(p),
            None => r matches Err(e) && e.message@ == "Could not determine config directory"@,
        },
{
    match path {
        Some(p) => Ok(p),
        None => Err(ConfigCmdError { message: string_from_chars(&lit("Could not determine config directory")) }),
    }
}

/// How the interactive configuration editor was left.
#[derive(Debug, Clone, Copy, PartialEq, Eq, Structural)]
pub enum ConfigTuiResult {
    Quit,
    OpenProfiles,
}

/// What follows the configuration editor.
#[derive(Debug, Clone, Copy, PartialEq, Eq, Structural)]
pub enum TuiStep {
    /// Leave the editor loop.
    Exit,
    /// Open the profile manager on the current configuration, reload the
    /// configuration and show the editor again.
    ManageProfilesAndReload,
}

/// The configuration editor loop: quitting ends it, asking for profiles
/// opens the profile manager and comes back.
pub fn handle_tui(result: ConfigTuiResult) -> (s: TuiStep)
    ensures
        result == ConfigTuiResult::Quit <==> s == TuiStep::Exit,
        result == ConfigTuiResult::OpenProfiles <==> s == TuiStep::ManageProfilesAndReload,
{
    match result {
        ConfigTuiResult::Quit => TuiStep::Exit,
        ConfigTuiResult::OpenProfiles => TuiStep::ManageProfilesAndReload,
    }
}

} // verus!
