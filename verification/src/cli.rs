//! The command line grammar of the `christina` program.
//!
//! ```text
//! christina [-v...] [--tui] [--yes] [-c|--context <CONTEXT>] [<COMMAND>]
//!   config  get <KEY> | set <KEY> <VALUE> | list | path | tui
//!   profile list | show <NAME> | create <NAME> [OPTIONS] | edit <NAME> [OPTIONS]
//!           | delete <NAME> [--force] | switch <NAME> | duplicate <SOURCE> <NEW_NAME> | tui
//! ```
//!
//! `OPTIONS` of `create` and `edit` are `--provider`, `--model`, `--api-key`,
//! `--api-url`, `--max-input-tokens`, `--max-output-tokens`,
//! `--azure-api-version` and `--azure-deployment-id`, each taking one value.
//! Arguments are read left to right: options may come before or after
//! positional arguments of the same command, `--opt=value` and `--opt value`
//! are both accepted, short flags may be clustered (`-vvv`), `--` ends option
//! parsing, `-h`/`--help` and `help` ask for help, `-V`/`--version` for the
//! version, and a single-valued option given twice is a conflict.
use vstd::prelude::*;
use crate::text::{parse_u64, parse_u64_chars, str_chars, views};

verus! {

/// Why an argument list was not accepted (help and version requests are
/// reported here too, as `clap` does).
#[derive(Debug, Clone, Copy, PartialEq, Eq, Structural)]
pub enum CliErrorKind {
    UnknownArgument,
    InvalidSubcommand,
    MissingSubcommand,
    MissingRequiredArgument,
    MissingValue,
    InvalidValue,
    UnexpectedValue,
    ArgumentConflict,
    DisplayHelp,
    DisplayVersion,
}

/// A refused argument list.
#[derive(Debug)]
pub struct CliError {
    pub kind: CliErrorKind,
}

/// Configuration management.
#[derive(Debug, PartialEq, Eq)]
pub enum ConfigCommands {
    /// Get a configuration value
    Get { key: String },
    /// Set a configuration value
    SetValue { key: String, value: String },
    /// List all configuration values
    List,
    /// Show configuration file path
    Path,
    /// Open configuration TUI
    Tui,
}

/// Profile management.
#[derive(Debug, PartialEq, Eq)]
pub enum ProfileCommands {
    /// List all profiles
    List,
    /// Show profile details
    Show { name: String },
    /// Create a new profile
    Create {
        name: String,
        provider: Option<String>,
        model: Option<String>,
        api_key: Option<String>,
        api_url: Option<String>,
        max_input_tokens: Option<usize>,
        max_output_tokens: Option<usize>,
        azure_api_version: Option<String>,
        azure_deployment_id: Option<String>,
    },
    /// Edit a profile
    Edit {
        name: String,
        provider: Option<String>,
        model: Option<String>,
        api_key: Option<String>,
        api_url: Option<String>,
        max_input_tokens: Option<usize>,
        max_output_tokens: Option<usize>,
        azure_api_version: Option<String>,
        azure_deployment_id: Option<String>,
    },
    /// Delete a profile
    Delete { name: String, force: bool },
    /// Switch active profile
    Switch { name: String },
    /// Duplicate a profile
    Duplicate { source: String, new_name: String },
    /// Open profile management TUI
    Tui,
}

/// A subcommand.
#[derive(Debug, PartialEq, Eq)]
pub enum Commands {
    Config(ConfigCommands),
    Profile(ProfileCommands),
}

/// Parsed command line.
#[derive(Debug)]
pub struct Cli {
    /// Increase logging verbosity (-v, -vv, -vvv, etc.)
    pub verbose: u8,
    pub tui: bool,
    pub yes: bool,
    pub context: Option<String>,
    pub command: Option<Commands>,
}

// ---------------------------------------------------------------------
// Abstract model
// ---------------------------------------------------------------------

/// The value options of `profile create` and `profile edit`.
pub struct ProfileOptsV {
    pub provider: Option<Seq<char>>,
    pub model: Option<Seq<char>>,
    pub api_key: Option<Seq<char>>,
    pub api_url: Option<Seq<char>>,
    pub max_input_tokens: Option<usize>,
    pub max_output_tokens: Option<usize>,
    pub azure_api_version: Option<Seq<char>>,
    pub azure_deployment_id: Option<Seq<char>>,
}

pub enum ConfigV {
    Get { key: Seq<char> },
    SetValue { key: Seq<char>, value: Seq<char> },
    List,
    Path,
    Tui,
}

pub enum ProfileV {
    List,
    Show { name: Seq<char> },
    Create { name: Seq<char>, opts: ProfileOptsV },
    Edit { name: Seq<char>, opts: ProfileOptsV },
    Delete { name: Seq<char>, force: bool },
    Switch { name: Seq<char> },
    Duplicate { source: Seq<char>, new_name: Seq<char> },
    Tui,
}

pub enum CommandV {
    Config(ConfigV),
    Profile(ProfileV),
}

pub struct CliV {
    pub verbose: nat,
    pub tui: bool,
    pub yes: bool,
    pub context: Option<Seq<char>>,
    pub command: Option<CommandV>,
}

pub open spec fn opt_view(o: Option<String>) -> Option<Seq<char>> {
    match o {
        Some(s) => Some(s@),
        None => None,
    }
}

impl View for ConfigCommands {
    type V = ConfigV;

    open spec fn view(&self) -> ConfigV {
        match self {
            ConfigCommands::Get { key } => ConfigV::Get { key: key@ },
            ConfigCommands::SetValue { key, value } => ConfigV::SetValue { key: key@, value: value@ },
            ConfigCommands::List => ConfigV::List,
            ConfigCommands::Path => ConfigV::Path,
            ConfigCommands::Tui => ConfigV::Tui,
        }
    }
}

impl View for ProfileCommands {
    type V = ProfileV;

    open spec fn view(&self) -> ProfileV {
        match self {
            ProfileCommands::List => ProfileV::List,
            ProfileCommands::Show { name } => ProfileV::Show { name: name@ },
            ProfileCommands::Create {
                name,
                provider,
                model,
                api_key,
                api_url,
                max_input_tokens,
                max_output_tokens,
                azure_api_version,
                azure_deployment_id,
            } => ProfileV::Create {
                name: name@,
                opts: ProfileOptsV {
                    provider: opt_view(*provider),
                    model: opt_view(*model),
                    api_key: opt_view(*api_key),
                    api_url: opt_view(*api_url),
                    max_input_tokens: *max_input_tokens,
                    max_output_tokens: *max_output_tokens,
                    azure_api_version: opt_view(*azure_api_version),
                    azure_deployment_id: opt_view(*azure_deployment_id),
                },
            },
            ProfileCommands::Edit {
                name,
                provider,
                model,
                api_key,
                api_url,
                max_input_tokens,
                max_output_tokens,
                azure_api_version,
                azure_deployment_id,
            } => ProfileV::Edit {
                name: name@,
                opts: ProfileOptsV {
                    provider: opt_view(*provider),
                    model: opt_view(*model),
                    api_key: opt_view(*api_key),
                    api_url: opt_view(*api_url),
                    max_input_tokens: *max_input_tokens,
                    max_output_tokens: *max_output_tokens,
                    azure_api_version: opt_view(*azure_api_version),
                    azure_deployment_id: opt_view(*azure_deployment_id),
                },
            },
            ProfileCommands::Delete { name, force } => ProfileV::Delete { name: name@, force: *force },
            ProfileCommands::Switch { name } => ProfileV::Switch { name: name@ },
            ProfileCommands::Duplicate { source, new_name } => ProfileV::Duplicate {
                source: source@,
                new_name: new_name@,
            },
            ProfileCommands::Tui => ProfileV::Tui,
        }
    }
}

impl View for Commands {
    type V = CommandV;

    open spec fn view(&self) -> CommandV {
        match self {
            Commands::Config(c) => CommandV::Config(c@),
            Commands::Profile(p) => CommandV::Profile(p@),
        }
    }
}

impl View for Cli {
    type V = CliV;

    open spec fn view(&self) -> CliV {
        CliV {
            verbose: self.verbose as nat,
            tui: self.tui,
            yes: self.yes,
            context: opt_view(self.context),
            command: match self.command {
                Some(c) => Some(c@),
                None => None,
            },
        }
    }
}

// ---------------------------------------------------------------------
// Grammar
// ---------------------------------------------------------------------

/// A token that starts an option (`-x`, `--x`), as opposed to a value.
pub open spec fn option_like(a: Seq<char>) -> bool {
    a.len() > 1 && a[0] == '-'
}

/// Index of the first `=` in `s`, if any.
pub open spec fn first_eq(s: Seq<char>) -> Option<int>
    decreases s.len(),
{
    if s.len() == 0 {
        None
    } else if s[0] == '=' {
        Some(0)
    } else {
        match first_eq(s.drop_first()) {
            Some(k) => Some(k + 1),
            None => None,
        }
    }
}

/// The name of a long option token (`--name` or `--name=value`).
pub open spec fn long_name(a: Seq<char>) -> Seq<char> {
    let body = a.subrange(2, a.len() as int);
    match first_eq(body) {
        Some(k) => body.subrange(0, k),
        None => body,
    }
}

/// The attached value of a long option token (`--name=value`).
pub open spec fn long_value(a: Seq<char>) -> Option<Seq<char>> {
    let body = a.subrange(2, a.len() as int);
    match first_eq(body) {
        Some(k) => Some(body.subrange(k + 1, body.len() as int)),
        None => None,
    }
}

/// Top-level options read so far.
pub struct TopAcc {
    pub verbose: nat,
    pub tui: bool,
    pub yes: bool,
    pub context: Option<Seq<char>>,
}

/// The result of a value-taking option at position `i`: the value and the
/// position after it.
pub open spec fn option_value(t: Seq<Seq<char>>, i: int, attached: Option<Seq<char>>) -> Option<
    (Seq<char>, int),
> {
    match attached {
        Some(v) => Some((v, i + 1)),
        None => if i + 1 < t.len() && !option_like(t[i + 1]) {
            Some((t[i + 1], i + 2))
        } else {
            None
        },
    }
}

/// Adds one `-v` (the count saturates at 255).
pub open spec fn bump(n: nat) -> nat {
    if n < 255 {
        n + 1
    } else {
        n
    }
}

/// The top level after a short cluster: reads `t[i]` from character `k` on.
pub open spec fn parse_short(t: Seq<Seq<char>>, i: int, k: int, acc: TopAcc) -> Result<
    CliV,
    CliErrorKind,
>
    decreases t.len() - i, 1int, t[i].len() - k,
{
    if !(0 <= i < t.len()) || k < 0 {
        Err(CliErrorKind::UnknownArgument)
    } else if k >= t[i].len() {
        parse_top(t, i + 1, acc)
    } else {
        let a = t[i];
        let c = a[k];
        if c == 'v' {
            parse_short(t, i, k + 1, TopAcc { verbose: bump(acc.verbose), ..acc })
        } else if c == 'h' {
            Err(CliErrorKind::DisplayHelp)
        } else if c == 'V' {
            Err(CliErrorKind::DisplayVersion)
        } else if c == 'c' {
            let rest = a.subrange(k + 1, a.len() as int);
            let attached = if rest.len() == 0 {
                None
            } else if rest[0] == '=' {
                Some(rest.drop_first())
            } else {
                Some(rest)
            };
            if acc.context is Some {
                Err(CliErrorKind::ArgumentConflict)
            } else {
                match option_value(t, i, attached) {
                    Some((v, next)) => parse_top(t, next, TopAcc { context: Some(v), ..acc }),
                    None => Err(CliErrorKind::MissingValue),
                }
            }
        } else {
            Err(CliErrorKind::UnknownArgument)
        }
    }
}

/// The top level from token `i` on.
pub open spec fn parse_top(t: Seq<Seq<char>>, i: int, acc: TopAcc) -> Result<CliV, CliErrorKind>
    decreases t.len() - i, 2int, 0int,
{
    if i < 0 {
        Err(CliErrorKind::UnknownArgument)
    } else if i >= t.len() {
        Ok(CliV { verbose: acc.verbose, tui: acc.tui, yes: acc.yes, context: acc.context, command: None })
    } else {
        let a = t[i];
        if a == "--"@ {
            if i + 1 < t.len() {
                Err(CliErrorKind::UnknownArgument)
            } else {
                Ok(CliV { verbose: acc.verbose, tui: acc.tui, yes: acc.yes, context: acc.context, command: None })
            }
        } else if a.len() >= 2 && a[0] == '-' && a[1] == '-' {
            let name = long_name(a);
            let attached = long_value(a);
            if name == "tui"@ || name == "yes"@ {
                if attached is Some {
                    Err(CliErrorKind::UnexpectedValue)
                } else if (name == "tui"@ && acc.tui) || (name == "yes"@ && acc.yes) {
                    Err(CliErrorKind::ArgumentConflict)
                } else if name == "tui"@ {
                    parse_top(t, i + 1, TopAcc { tui: true, ..acc })
                } else {
                    parse_top(t, i + 1, TopAcc { yes: true, ..acc })
                }
            } else if name == "context"@ {
                if acc.context is Some {
                    Err(CliErrorKind::ArgumentConflict)
                } else {
                    match option_value(t, i, attached) {
                        Some((v, next)) => parse_top(t, next, TopAcc { context: Some(v), ..acc }),
                        None => Err(CliErrorKind::MissingValue),
                    }
                }
            } else if name == "help"@ {
                Err(CliErrorKind::DisplayHelp)
            } else if name == "version"@ {
                Err(CliErrorKind::DisplayVersion)
            } else {
                Err(CliErrorKind::UnknownArgument)
            }
        } else if option_like(a) {
            parse_short(t, i, 1, acc)
        } else {
            let cmd = if a == "config"@ {
                parse_config(t, i + 1)
            } else if a == "profile"@ {
                parse_profile(t, i + 1)
            } else if a == "help"@ {
                Err(CliErrorKind::DisplayHelp)
            } else {
                Err(CliErrorKind::InvalidSubcommand)
            };
            match cmd {
                Ok(c) => Ok(
                    CliV {
                        verbose: acc.verbose,
                        tui: acc.tui,
                        yes: acc.yes,
                        context: acc.context,
                        command: Some(c),
                    },
                ),
                Err(e) => Err(e),
            }
        }
    }
}

/// Help flags of a subcommand level.
pub open spec fn is_help_flag(a: Seq<char>) -> bool {
    a == "-h"@ || a == "--help"@
}

/// The `config` level from token `j` on: the first non-option token names
/// the command.
pub open spec fn parse_config(t: Seq<Seq<char>>, j: int) -> Result<CommandV, CliErrorKind>
    decreases t.len() - j,
{
    if j < 0 {
        Err(CliErrorKind::UnknownArgument)
    } else if j >= t.len() {
        Err(CliErrorKind::MissingSubcommand)
    } else if is_help_flag(t[j]) {
        Err(CliErrorKind::DisplayHelp)
    } else if option_like(t[j]) || t[j] == "--"@ {
        Err(CliErrorKind::UnknownArgument)
    } else {
        let a = t[j];
        let kind = if a == "get"@ {
            Some(LeafKind::ConfigGet)
        } else if a == "set"@ {
            Some(LeafKind::ConfigSet)
        } else if a == "list"@ {
            Some(LeafKind::ConfigList)
        } else if a == "path"@ {
            Some(LeafKind::ConfigPath)
        } else if a == "tui"@ {
            Some(LeafKind::ConfigTui)
        } else {
            None
        };
        if a == "help"@ {
            Err(CliErrorKind::DisplayHelp)
        } else {
            match kind {
                Some(k) => parse_leaf(t, j + 1, k, empty_leaf()),
                None => Err(CliErrorKind::InvalidSubcommand),
            }
        }
    }
}

/// The `profile` level from token `j` on.
pub open spec fn parse_profile(t: Seq<Seq<char>>, j: int) -> Result<CommandV, CliErrorKind>
    decreases t.len() - j,
{
    if j < 0 {
        Err(CliErrorKind::UnknownArgument)
    } else if j >= t.len() {
        Err(CliErrorKind::MissingSubcommand)
    } else if is_help_flag(t[j]) {
        Err(CliErrorKind::DisplayHelp)
    } else if option_like(t[j]) || t[j] == "--"@ {
        Err(CliErrorKind::UnknownArgument)
    } else {
        let a = t[j];
        let kind = if a == "list"@ {
            Some(LeafKind::ProfileList)
        } else if a == "show"@ {
            Some(LeafKind::ProfileShow)
        } else if a == "create"@ {
            Some(LeafKind::ProfileCreate)
        } else if a == "edit"@ {
            Some(LeafKind::ProfileEdit)
        } else if a == "delete"@ {
            Some(LeafKind::ProfileDelete)
        } else if a == "switch"@ {
            Some(LeafKind::ProfileSwitch)
        } else if a == "duplicate"@ {
            Some(LeafKind::ProfileDuplicate)
        } else if a == "tui"@ {
            Some(LeafKind::ProfileTui)
        } else {
            None
        };
        if a == "help"@ {
            Err(CliErrorKind::DisplayHelp)
        } else {
            match kind {
                Some(k) => parse_leaf(t, j + 1, k, empty_leaf()),
                None => Err(CliErrorKind::InvalidSubcommand),
            }
        }
    }
}

/// The commands that take arguments but no further subcommand.
#[derive(Clone, Copy, PartialEq, Eq, Structural)]
pub enum LeafKind {
    ConfigGet,
    ConfigSet,
    ConfigList,
    ConfigPath,
    ConfigTui,
    ProfileList,
    ProfileShow,
    ProfileCreate,
    ProfileEdit,
    ProfileDelete,
    ProfileSwitch,
    ProfileDuplicate,
    ProfileTui,
}

/// Number of positional arguments a command takes (all are required).
pub open spec fn positional_count(k: LeafKind) -> nat {
    match k {
        LeafKind::ConfigGet => 1,
        LeafKind::ConfigSet => 2,
        LeafKind::ProfileShow => 1,
        LeafKind::ProfileCreate => 1,
        LeafKind::ProfileEdit => 1,
        LeafKind::ProfileDelete => 1,
        LeafKind::ProfileSwitch => 1,
        LeafKind::ProfileDuplicate => 2,
        _ => 0,
    }
}

/// Arguments of a command read so far.
pub struct LeafAcc {
    pub positionals: Seq<Seq<char>>,
    pub opts: ProfileOptsV,
    pub force: bool,
    pub raw: bool,
}

pub open spec fn no_opts() -> ProfileOptsV {
    ProfileOptsV {
        provider: None,
        model: None,
        api_key: None,
        api_url: None,
        max_input_tokens: None,
        max_output_tokens: None,
        azure_api_version: None,
        azure_deployment_id: None,
    }
}

pub open spec fn empty_leaf() -> LeafAcc {
    LeafAcc { positionals: Seq::empty(), opts: no_opts(), force: false, raw: false }
}

/// The profile value options by long name.
pub enum ProfileOpt {
    Provider,
    Model,
    ApiKey,
    ApiUrl,
    MaxInputTokens,
    MaxOutputTokens,
    AzureApiVersion,
    AzureDeploymentId,
}

pub open spec fn profile_opt_of(name: Seq<char>) -> Option<ProfileOpt> {
    if name == "provider"@ {
        Some(ProfileOpt::Provider)
    } else if name == "model"@ {
        Some(ProfileOpt::Model)
    } else if name == "api-key"@ {
        Some(ProfileOpt::ApiKey)
    } else if name == "api-url"@ {
        Some(ProfileOpt::ApiUrl)
    } else if name == "max-input-tokens"@ {
        Some(ProfileOpt::MaxInputTokens)
    } else if name == "max-output-tokens"@ {
        Some(ProfileOpt::MaxOutputTokens)
    } else if name == "azure-api-version"@ {
        Some(ProfileOpt::AzureApiVersion)
    } else if name == "azure-deployment-id"@ {
        Some(ProfileOpt::AzureDeploymentId)
    } else {
        None
    }
}

/// `usize::from_str` on characters.
pub open spec fn parse_usize(s: Seq<char>) -> Option<usize> {
    match parse_u64(s) {
        Some(n) => if n <= usize::MAX {
            Some(n as usize)
        } else {
            None
        },
        None => None,
    }
}

/// Whether option `o` was already given.
pub open spec fn opt_given(opts: ProfileOptsV, o: ProfileOpt) -> bool {
    match o {
        ProfileOpt::Provider => opts.provider is Some,
        ProfileOpt::Model => opts.model is Some,
        ProfileOpt::ApiKey => opts.api_key is Some,
        ProfileOpt::ApiUrl => opts.api_url is Some,
        ProfileOpt::MaxInputTokens => opts.max_input_tokens is Some,
        ProfileOpt::MaxOutputTokens => opts.max_output_tokens is Some,
        ProfileOpt::AzureApiVersion => opts.azure_api_version is Some,
        ProfileOpt::AzureDeploymentId => opts.azure_deployment_id is Some,
    }
}

/// Records value `v` of option `o`; numbers must parse.
pub open spec fn set_opt(opts: ProfileOptsV, o: ProfileOpt, v: Seq<char>) -> Option<ProfileOptsV> {
    match o {
        ProfileOpt::Provider => Some(ProfileOptsV { provider: Some(v), ..opts }),
        ProfileOpt::Model => Some(ProfileOptsV { model: Some(v), ..opts }),
        ProfileOpt::ApiKey => Some(ProfileOptsV { api_key: Some(v), ..opts }),
        ProfileOpt::ApiUrl => Some(ProfileOptsV { api_url: Some(v), ..opts }),
        ProfileOpt::MaxInputTokens => match parse_usize(v) {
            Some(n) => Some(ProfileOptsV { max_input_tokens: Some(n), ..opts }),
            None => None,
        },
        ProfileOpt::MaxOutputTokens => match parse_usize(v) {
            Some(n) => Some(ProfileOptsV { max_output_tokens: Some(n), ..opts }),
            None => None,
        },
        ProfileOpt::AzureApiVersion => Some(ProfileOptsV { azure_api_version: Some(v), ..opts }),
        ProfileOpt::AzureDeploymentId => Some(ProfileOptsV { azure_deployment_id: Some(v), ..opts }),
    }
}

/// Whether command `k` takes the profile value options.
pub open spec fn takes_profile_opts(k: LeafKind) -> bool {
    k == LeafKind::ProfileCreate || k == LeafKind::ProfileEdit
}

/// The command built from its complete arguments.
pub open spec fn build_leaf(k: LeafKind, acc: LeafAcc) -> CommandV {
    let p = acc.positionals;
    match k {
        LeafKind::ConfigGet => CommandV::Config(ConfigV::Get { key: p[0] }),
        LeafKind::ConfigSet => CommandV::Config(ConfigV::SetValue { key: p[0], value: p[1] }),
        LeafKind::ConfigList => CommandV::Config(ConfigV::List),
        LeafKind::ConfigPath => CommandV::Config(ConfigV::Path),
        LeafKind::ConfigTui => CommandV::Config(ConfigV::Tui),
        LeafKind::ProfileList => CommandV::Profile(ProfileV::List),
        LeafKind::ProfileShow => CommandV::Profile(ProfileV::Show { name: p[0] }),
        LeafKind::ProfileCreate => CommandV::Profile(ProfileV::Create { name: p[0], opts: acc.opts }),
        LeafKind::ProfileEdit => CommandV::Profile(ProfileV::Edit { name: p[0], opts: acc.opts }),
        LeafKind::ProfileDelete => CommandV::Profile(ProfileV::Delete { name: p[0], force: acc.force }),
        LeafKind::ProfileSwitch => CommandV::Profile(ProfileV::Switch { name: p[0] }),
        LeafKind::ProfileDuplicate => CommandV::Profile(
            ProfileV::Duplicate { source: p[0], new_name: p[1] },
        ),
        LeafKind::ProfileTui => CommandV::Profile(ProfileV::Tui),
    }
}

/// The arguments of command `k` from token `j` on.
pub open spec fn parse_leaf(t: Seq<Seq<char>>, j: int, k: LeafKind, acc: LeafAcc) -> Result<
    CommandV,
    CliErrorKind,
>
    decreases t.len() - j,
{
    if j < 0 {
        Err(CliErrorKind::UnknownArgument)
    } else if j >= t.len() {
        if acc.positionals.len() < positional_count(k) {
            Err(CliErrorKind::MissingRequiredArgument)
        } else {
            Ok(build_leaf(k, acc))
        }
    } else {
        let a = t[j];
        if !acc.raw && a == "--"@ {
            parse_leaf(t, j + 1, k, LeafAcc { raw: true, ..acc })
        } else if !acc.raw && is_help_flag(a) {
            Err(CliErrorKind::DisplayHelp)
        } else if !acc.raw && option_like(a) {
            if a.len() >= 2 && a[1] == '-' {
                let name = long_name(a);
                let attached = long_value(a);
                if k == LeafKind::ProfileDelete && name == "force"@ {
                    if attached is Some {
                        Err(CliErrorKind::UnexpectedValue)
                    } else if acc.force {
                        Err(CliErrorKind::ArgumentConflict)
                    } else {
                        parse_leaf(t, j + 1, k, LeafAcc { force: true, ..acc })
                    }
                } else if takes_profile_opts(k) && profile_opt_of(name) is Some {
                    let o = profile_opt_of(name).unwrap();
                    if opt_given(acc.opts, o) {
                        Err(CliErrorKind::ArgumentConflict)
                    } else {
                        match option_value(t, j, attached) {
                            Some((v, next)) => match set_opt(acc.opts, o, v) {
                                Some(opts) => parse_leaf(t, next, k, LeafAcc { opts, ..acc }),
                                None => Err(CliErrorKind::InvalidValue),
                            },
                            None => Err(CliErrorKind::MissingValue),
                        }
                    }
                } else {
                    Err(CliErrorKind::UnknownArgument)
                }
            } else {
                Err(CliErrorKind::UnknownArgument)
            }
        } else if acc.positionals.len() >= positional_count(k) {
            Err(CliErrorKind::UnknownArgument)
        } else {
            parse_leaf(t, j + 1, k, LeafAcc { positionals: acc.positionals.push(a), ..acc })
        }
    }
}

/// The meaning of a whole argument list; the first argument is the program
/// name.
pub open spec fn parse_args(t: Seq<Seq<char>>) -> Result<CliV, CliErrorKind> {
    parse_top(
        t,
        1,
        TopAcc { verbose: 0, tui: false, yes: false, context: None },
    )
}

// ---------------------------------------------------------------------
// Parser
// ---------------------------------------------------------------------

pub(crate) fn eq_lit(a: &Vec<char>, s: &str) -> (b: bool)
    ensures
        b == (a@ == s@),
{
    let l = crate::text::lit(s);
    if a.len() != l.len() {
        return false;
    }
    let r = crate::text::seq_starts_with(a, &l);
    assert(a@.subrange(0, l@.len() as int) =~= a@);
    r
}

fn option_like_exec(a: &Vec<char>) -> (b: bool)
    ensures
        b == option_like(a@),
{
    a.len() > 1 && a[0] == '-'
}

fn first_eq_exec(s: &Vec<char>, from: usize) -> (r: Option<usize>)
    requires
        from <= s.len(),
    ensures
        match first_eq(s@.subrange(from as int, s@.len() as int)) {
            Some(k) => r == Some((from + k) as usize),
            None => r is None,
        },
    decreases s.len() - from,
{
    let ghost rest = s@.subrange(from as int, s@.len() as int);
    if from == s.len() {
        return None;
    }
    assert(rest.drop_first() =~= s@.subrange(from + 1, s@.len() as int));
    if s[from] == '=' {
        return Some(from);
    }
    first_eq_exec(s, from + 1)
}

proof fn lemma_first_eq_bound(s: Seq<char>)
    ensures
        first_eq(s) matches Some(k) ==> 0 <= k < s.len(),
    decreases s.len(),
{
    if s.len() > 0 {
        lemma_first_eq_bound(s.drop_first());
    }
}

fn split_long(a: &Vec<char>) -> (r: (Vec<char>, Option<Vec<char>>))
    requires
        a@.len() >= 2,
    ensures
        r.0@ == long_name(a@),
        match long_value(a@) {
            Some(v) => r.1 matches Some(x) && x@ == v,
            None => r.1 is None,
        },
{
    let body = crate::text::slice_chars(a, 2, a.len());
    assert(body@ == a@.subrange(2, a@.len() as int));
    let r = first_eq_exec(&body, 0);
    assert(body@.subrange(0, body@.len() as int) =~= body@);
    proof {
        lemma_first_eq_bound(body@);
    }
    match r {
        Some(k) => {
            let name = crate::text::slice_chars(&body, 0, k);
            let value = crate::text::slice_chars(&body, k + 1, body.len());
            (name, Some(value))
        },
        None => (body, None),
    }
}

fn chars_to_string(v: &Vec<char>) -> (s: String)
    ensures
        s@ == v@,
{
    crate::text::string_from_chars(v)
}

/// Value of a value-taking option: the attached one, or the next token when
/// it is not option-like.
fn option_value_exec(t: &Vec<Vec<char>>, i: usize, attached: Option<Vec<char>>) -> (r: Option<
    (Vec<char>, usize),
>)
    requires
        i < t.len(),
    ensures
        match option_value(views(t@), i as int, opt_seq(attached)) {
            Some((v, next)) => r matches Some((x, n)) && x@ == v && n == next,
            None => r is None,
        },
{
    match attached {
        Some(v) => Some((v, i + 1)),
        None => {
            if i + 1 < t.len() && !option_like_exec(&t[i + 1]) {
                Some((t[i + 1].clone(), i + 2))
            } else {
                None
            }
        },
    }
}

pub open spec fn opt_seq(o: Option<Vec<char>>) -> Option<Seq<char>> {
    match o {
        Some(v) => Some(v@),
        None => None,
    }
}

/// Exec counterpart of `TopAcc`.
struct TopState {
    verbose: u8,
    tui: bool,
    yes: bool,
    context: Option<Vec<char>>,
}

spec fn top_view(s: &TopState) -> TopAcc {
    TopAcc { verbose: s.verbose as nat, tui: s.tui, yes: s.yes, context: opt_seq(s.context) }
}

fn finish_top(s: TopState, command: Option<Commands>) -> (c: Cli)
    ensures
        c@ == (CliV {
            verbose: top_view(&s).verbose,
            tui: s.tui,
            yes: s.yes,
            context: opt_seq(s.context),
            command: match command {
                Some(x) => Some(x@),
                None => None,
            },
        }),
{
    let context = match s.context {
        Some(v) => Some(chars_to_string(&v)),
        None => None,
    };
    Cli { verbose: s.verbose, tui: s.tui, yes: s.yes, context, command }
}

fn err(kind: CliErrorKind) -> (e: CliError)
    ensures
        e.kind == kind,
{
    CliError { kind }
}

pub open spec fn result_view<T: View>(r: Result<T, CliError>) -> Result<T::V, CliErrorKind> {
    match r {
        Ok(x) => Ok(x@),
        Err(e) => Err(e.kind),
    }
}

fn bump_exec(n: u8) -> (r: u8)
    ensures
        r as nat == bump(n as nat),
{
    if n < 255 {
        n + 1
    } else {
        n
    }
}

fn parse_short_exec(t: &Vec<Vec<char>>, i: usize, k: usize, s: TopState) -> (r: Result<
    Cli,
    CliError,
>)
    requires
        i < t.len(),
        k <= t@[i as int].len(),
    ensures
        result_view(r) == parse_short(views(t@), i as int, k as int, top_view(&s)),
    decreases t.len() - i, 1int, t@[i as int].len() - k,
{
    if k >= t[i].len() {
        return parse_top_exec(t, i + 1, s);
    }
    let c = t[i][k];
    if c == 'v' {
        let s2 = TopState { verbose: bump_exec(s.verbose), ..s };
        assert(top_view(&s2) == (TopAcc { verbose: bump(top_view(&s).verbose), ..top_view(&s) }));
        parse_short_exec(t, i, k + 1, s2)
    } else if c == 'h' {
        Err(err(CliErrorKind::DisplayHelp))
    } else if c == 'V' {
        Err(err(CliErrorKind::DisplayVersion))
    } else if c == 'c' {
        let a = &t[i];
        let rest = crate::text::slice_chars(a, k + 1, a.len());
        let attached = if rest.len() == 0 {
            None
        } else if rest[0] == '=' {
            Some(crate::text::slice_chars(&rest, 1, rest.len()))
        } else {
            Some(rest)
        };
        proof {
            if rest@.len() > 0 && rest@[0] == '=' {
                assert(rest@.subrange(1, rest@.len() as int) =~= rest@.drop_first());
            }
        }
        if s.context.is_some() {
            return Err(err(CliErrorKind::ArgumentConflict));
        }
        match option_value_exec(t, i, attached) {
            Some((v, next)) => {
                let s2 = TopState { context: Some(v), ..s };
                parse_top_exec(t, next, s2)
            },
            None => Err(err(CliErrorKind::MissingValue)),
        }
    } else {
        Err(err(CliErrorKind::UnknownArgument))
    }
}

fn parse_top_exec(t: &Vec<Vec<char>>, i: usize, s: TopState) -> (r: Result<Cli, CliError>)
    requires
        i <= t.len(),
    ensures
        result_view(r) == parse_top(views(t@), i as int, top_view(&s)),
    decreases t.len() - i, 2int, 0int,
{
    if i >= t.len() {
        return Ok(finish_top(s, None));
    }
    let a = &t[i];
    if eq_lit(a, "--") {
        if i + 1 < t.len() {
            return Err(err(CliErrorKind::UnknownArgument));
        }
        return Ok(finish_top(s, None));
    }
    if a.len() >= 2 && a[0] == '-' && a[1] == '-' {
        let (name, attached) = split_long(a);
        let is_tui = eq_lit(&name, "tui");
        let is_yes = eq_lit(&name, "yes");
        if is_tui || is_yes {
            if attached.is_some() {
                return Err(err(CliErrorKind::UnexpectedValue));
            }
            if (is_tui && s.tui) || (is_yes && s.yes) {
                return Err(err(CliErrorKind::ArgumentConflict));
            }
            if is_tui {
                return parse_top_exec(t, i + 1, TopState { tui: true, ..s });
            } else {
                return parse_top_exec(t, i + 1, TopState { yes: true, ..s });
            }
        } else if eq_lit(&name, "context") {
            if s.context.is_some() {
                return Err(err(CliErrorKind::ArgumentConflict));
            }
            return match option_value_exec(t, i, attached) {
                Some((v, next)) => parse_top_exec(t, next, TopState { context: Some(v), ..s }),
                None => Err(err(CliErrorKind::MissingValue)),
            };
        } else if eq_lit(&name, "help") {
            return Err(err(CliErrorKind::DisplayHelp));
        } else if eq_lit(&name, "version") {
            return Err(err(CliErrorKind::DisplayVersion));
        } else {
            return Err(err(CliErrorKind::UnknownArgument));
        }
    }
    if option_like_exec(a) {
        return parse_short_exec(t, i, 1, s);
    }
    let cmd = if eq_lit(a, "config") {
        parse_config_exec(t, i + 1)
    } else if eq_lit(a, "profile") {
        parse_profile_exec(t, i + 1)
    } else if eq_lit(a, "help") {
        Err(err(CliErrorKind::DisplayHelp))
    } else {
        Err(err(CliErrorKind::InvalidSubcommand))
    };
    match cmd {
        Ok(c) => Ok(finish_top(s, Some(c))),
        Err(e) => Err(e),
    }
}

fn is_help_flag_exec(a: &Vec<char>) -> (b: bool)
    ensures
        b == is_help_flag(a@),
{
    eq_lit(a, "-h") || eq_lit(a, "--help")
}

fn parse_config_exec(t: &Vec<Vec<char>>, j: usize) -> (r: Result<Commands, CliError>)
    requires
        j <= t.len(),
    ensures
        result_view(r) == parse_config(views(t@), j as int),
{
    if j >= t.len() {
        return Err(err(CliErrorKind::MissingSubcommand));
    }
    let a = &t[j];
    if is_help_flag_exec(a) {
        return Err(err(CliErrorKind::DisplayHelp));
    }
    if option_like_exec(a) || eq_lit(a, "--") {
        return Err(err(CliErrorKind::UnknownArgument));
    }
    let kind = if eq_lit(a, "get") {
        Some(LeafKind::ConfigGet)
    } else if eq_lit(a, "set") {
        Some(LeafKind::ConfigSet)
    } else if eq_lit(a, "list") {
        Some(LeafKind::ConfigList)
    } else if eq_lit(a, "path") {
        Some(LeafKind::ConfigPath)
    } else if eq_lit(a, "tui") {
        Some(LeafKind::ConfigTui)
    } else {
        None
    };
    if eq_lit(a, "help") {
        return Err(err(CliErrorKind::DisplayHelp));
    }
    match kind {
        Some(k) => parse_leaf_exec(t, j + 1, k, empty_leaf_state()),
        None => Err(err(CliErrorKind::InvalidSubcommand)),
    }
}

fn parse_profile_exec(t: &Vec<Vec<char>>, j: usize) -> (r: Result<Commands, CliError>)
    requires
        j <= t.len(),
    ensures
        result_view(r) == parse_profile(views(t@), j as int),
{
    if j >= t.len() {
        return Err(err(CliErrorKind::MissingSubcommand));
    }
    let a = &t[j];
    if is_help_flag_exec(a) {
        return Err(err(CliErrorKind::DisplayHelp));
    }
    if option_like_exec(a) || eq_lit(a, "--") {
        return Err(err(CliErrorKind::UnknownArgument));
    }
    let kind = if eq_lit(a, "list") {
        Some(LeafKind::ProfileList)
    } else if eq_lit(a, "show") {
        Some(LeafKind::ProfileShow)
    } else if eq_lit(a, "create") {
        Some(LeafKind::ProfileCreate)
    } else if eq_lit(a, "edit") {
        Some(LeafKind::ProfileEdit)
    } else if eq_lit(a, "delete") {
        Some(LeafKind::ProfileDelete)
    } else if eq_lit(a, "switch") {
        Some(LeafKind::ProfileSwitch)
    } else if eq_lit(a, "duplicate") {
        Some(LeafKind::ProfileDuplicate)
    } else if eq_lit(a, "tui") {
        Some(LeafKind::ProfileTui)
    } else {
        None
    };
    if eq_lit(a, "help") {
        return Err(err(CliErrorKind::DisplayHelp));
    }
    match kind {
        Some(k) => parse_leaf_exec(t, j + 1, k, empty_leaf_state()),
        None => Err(err(CliErrorKind::InvalidSubcommand)),
    }
}

/// Exec counterpart of `ProfileOptsV`.
struct OptsState {
    provider: Option<Vec<char>>,
    model: Option<Vec<char>>,
    api_key: Option<Vec<char>>,
    api_url: Option<Vec<char>>,
    max_input_tokens: Option<usize>,
    max_output_tokens: Option<usize>,
    azure_api_version: Option<Vec<char>>,
    azure_deployment_id: Option<Vec<char>>,
}

spec fn opts_view(o: &OptsState) -> ProfileOptsV {
    ProfileOptsV {
        provider: opt_seq(o.provider),
        model: opt_seq(o.model),
        api_key: opt_seq(o.api_key),
        api_url: opt_seq(o.api_url),
        max_input_tokens: o.max_input_tokens,
        max_output_tokens: o.max_output_tokens,
        azure_api_version: opt_seq(o.azure_api_version),
        azure_deployment_id: opt_seq(o.azure_deployment_id),
    }
}

/// Exec counterpart of `LeafAcc`.
struct LeafState {
    positionals: Vec<Vec<char>>,
    opts: OptsState,
    force: bool,
    raw: bool,
}

spec fn leaf_view(s: &LeafState) -> LeafAcc {
    LeafAcc { positionals: views(s.positionals@), opts: opts_view(&s.opts), force: s.force, raw: s.raw }
}

fn empty_leaf_state() -> (s: LeafState)
    ensures
        leaf_view(&s) == empty_leaf(),
{
    let s = LeafState {
        positionals: Vec::new(),
        opts: OptsState {
            provider: None,
            model: None,
            api_key: None,
            api_url: None,
            max_input_tokens: None,
            max_output_tokens: None,
            azure_api_version: None,
            azure_deployment_id: None,
        },
        force: false,
        raw: false,
    };
    assert(views(s.positionals@) =~= Seq::<Seq<char>>::empty());
    s
}

fn profile_opt_of_exec(name: &Vec<char>) -> (r: Option<ProfileOpt>)
    ensures
        r == profile_opt_of(name@),
{
    if eq_lit(name, "provider") {
        Some(ProfileOpt::Provider)
    } else if eq_lit(name, "model") {
        Some(ProfileOpt::Model)
    } else if eq_lit(name, "api-key") {
        Some(ProfileOpt::ApiKey)
    } else if eq_lit(name, "api-url") {
        Some(ProfileOpt::ApiUrl)
    } else if eq_lit(name, "max-input-tokens") {
        Some(ProfileOpt::MaxInputTokens)
    } else if eq_lit(name, "max-output-tokens") {
        Some(ProfileOpt::MaxOutputTokens)
    } else if eq_lit(name, "azure-api-version") {
        Some(ProfileOpt::AzureApiVersion)
    } else if eq_lit(name, "azure-deployment-id") {
        Some(ProfileOpt::AzureDeploymentId)
    } else {
        None
    }
}

pub(crate) fn parse_usize_exec(v: &Vec<char>) -> (r: Option<usize>)
    ensures
        r == parse_usize(v@),
{
    match parse_u64_chars(v) {
        Some(n) => if n <= usize::MAX as u64 {
            Some(n as usize)
        } else {
            None
        },
        None => None,
    }
}

fn opt_given_exec(o: &OptsState, which: &ProfileOpt) -> (b: bool)
    ensures
        b == opt_given(opts_view(o), *which),
{
    match which {
        ProfileOpt::Provider => o.provider.is_some(),
        ProfileOpt::Model => o.model.is_some(),
        ProfileOpt::ApiKey => o.api_key.is_some(),
        ProfileOpt::ApiUrl => o.api_url.is_some(),
        ProfileOpt::MaxInputTokens => o.max_input_tokens.is_some(),
        ProfileOpt::MaxOutputTokens => o.max_output_tokens.is_some(),
        ProfileOpt::AzureApiVersion => o.azure_api_version.is_some(),
        ProfileOpt::AzureDeploymentId => o.azure_deployment_id.is_some(),
    }
}

fn set_opt_exec(o: OptsState, which: ProfileOpt, v: Vec<char>) -> (r: Option<OptsState>)
    ensures
        match set_opt(opts_view(&o), which, v@) {
            Some(x) => r matches Some(y) && opts_view(&y) == x,
            None => r is None,
        },
{
    match which {
        ProfileOpt::Provider => Some(OptsState { provider: Some(v), ..o }),
        ProfileOpt::Model => Some(OptsState { model: Some(v), ..o }),
        ProfileOpt::ApiKey => Some(OptsState { api_key: Some(v), ..o }),
        ProfileOpt::ApiUrl => Some(OptsState { api_url: Some(v), ..o }),
        ProfileOpt::MaxInputTokens => match parse_usize_exec(&v) {
            Some(n) => Some(OptsState { max_input_tokens: Some(n), ..o }),
            None => None,
        },
        ProfileOpt::MaxOutputTokens => match parse_usize_exec(&v) {
            Some(n) => Some(OptsState { max_output_tokens: Some(n), ..o }),
            None => None,
        },
        ProfileOpt::AzureApiVersion => Some(OptsState { azure_api_version: Some(v), ..o }),
        ProfileOpt::AzureDeploymentId => Some(OptsState { azure_deployment_id: Some(v), ..o }),
    }
}

fn positional_count_exec(k: LeafKind) -> (n: usize)
    ensures
        n == positional_count(k),
{
    match k {
        LeafKind::ConfigGet => 1,
        LeafKind::ConfigSet => 2,
        LeafKind::ProfileShow => 1,
        LeafKind::ProfileCreate => 1,
        LeafKind::ProfileEdit => 1,
        LeafKind::ProfileDelete => 1,
        LeafKind::ProfileSwitch => 1,
        LeafKind::ProfileDuplicate => 2,
        _ => 0,
    }
}

fn opt_string(o: Option<Vec<char>>) -> (r: Option<String>)
    ensures
        opt_view(r) == opt_seq(o),
{
    match o {
        Some(v) => Some(chars_to_string(&v)),
        None => None,
    }
}

fn build_leaf_exec(k: LeafKind, s: LeafState) -> (c: Commands)
    requires
        s.positionals.len() >= positional_count(k),
    ensures
        c@ == build_leaf(k, leaf_view(&s)),
{
    let p = &s.positionals;
    match k {
        LeafKind::ConfigGet => Commands::Config(ConfigCommands::Get { key: chars_to_string(&p[0]) }),
        LeafKind::ConfigSet => Commands::Config(
            ConfigCommands::SetValue { key: chars_to_string(&p[0]), value: chars_to_string(&p[1]) },
        ),
        LeafKind::ConfigList => Commands::Config(ConfigCommands::List),
        LeafKind::ConfigPath => Commands::Config(ConfigCommands::Path),
        LeafKind::ConfigTui => Commands::Config(ConfigCommands::Tui),
        LeafKind::ProfileList => Commands::Profile(ProfileCommands::List),
        LeafKind::ProfileShow => Commands::Profile(
            ProfileCommands::Show { name: chars_to_string(&p[0]) },
        ),
        LeafKind::ProfileCreate => {
            let name = chars_to_string(&p[0]);
            let o = s.opts;
            Commands::Profile(
                ProfileCommands::Create {
                    name,
                    provider: opt_string(o.provider),
                    model: opt_string(o.model),
                    api_key: opt_string(o.api_key),
                    api_url: opt_string(o.api_url),
                    max_input_tokens: o.max_input_tokens,
                    max_output_tokens: o.max_output_tokens,
                    azure_api_version: opt_string(o.azure_api_version),
                    azure_deployment_id: opt_string(o.azure_deployment_id),
                },
            )
        },
        LeafKind::ProfileEdit => {
            let name = chars_to_string(&p[0]);
            let o = s.opts;
            Commands::Profile(
                ProfileCommands::Edit {
                    name,
                    provider: opt_string(o.provider),
                    model: opt_string(o.model),
                    api_key: opt_string(o.api_key),
                    api_url: opt_string(o.api_url),
                    max_input_tokens: o.max_input_tokens,
                    max_output_tokens: o.max_output_tokens,
                    azure_api_version: opt_string(o.azure_api_version),
                    azure_deployment_id: opt_string(o.azure_deployment_id),
                },
            )
        },
        LeafKind::ProfileDelete => Commands::Profile(
            ProfileCommands::Delete { name: chars_to_string(&p[0]), force: s.force },
        ),
        LeafKind::ProfileSwitch => Commands::Profile(
            ProfileCommands::Switch { name: chars_to_string(&p[0]) },
        ),
        LeafKind::ProfileDuplicate => Commands::Profile(
            ProfileCommands::Duplicate {
                source: chars_to_string(&p[0]),
                new_name: chars_to_string(&p[1]),
            },
        ),
        LeafKind::ProfileTui => Commands::Profile(ProfileCommands::Tui),
    }
}

fn parse_leaf_exec(t: &Vec<Vec<char>>, j: usize, k: LeafKind, s: LeafState) -> (r: Result<
    Commands,
    CliError,
>)
    requires
        j <= t.len(),
    ensures
        result_view(r) == parse_leaf(views(t@), j as int, k, leaf_view(&s)),
    decreases t.len() - j,
{
    if j >= t.len() {
        if s.positionals.len() < positional_count_exec(k) {
            return Err(err(CliErrorKind::MissingRequiredArgument));
        }
        return Ok(build_leaf_exec(k, s));
    }
    let a = &t[j];
    if !s.raw && eq_lit(a, "--") {
        return parse_leaf_exec(t, j + 1, k, LeafState { raw: true, ..s });
    }
    if !s.raw && is_help_flag_exec(a) {
        return Err(err(CliErrorKind::DisplayHelp));
    }
    if !s.raw && option_like_exec(a) {
        if a.len() >= 2 && a[1] == '-' {
            let (name, attached) = split_long(a);
            if k == LeafKind::ProfileDelete && eq_lit(&name, "force") {
                if attached.is_some() {
                    return Err(err(CliErrorKind::UnexpectedValue));
                }
                if s.force {
                    return Err(err(CliErrorKind::ArgumentConflict));
                }
                return parse_leaf_exec(t, j + 1, k, LeafState { force: true, ..s });
            }
            let takes = k == LeafKind::ProfileCreate || k == LeafKind::ProfileEdit;
            if takes {
                if let Some(o) = profile_opt_of_exec(&name) {
                    if opt_given_exec(&s.opts, &o) {
                        return Err(err(CliErrorKind::ArgumentConflict));
                    }
                    return match option_value_exec(t, j, attached) {
                        Some((v, next)) => match set_opt_exec(s.opts, o, v) {
                            Some(opts) => parse_leaf_exec(
                                t,
                                next,
                                k,
                                LeafState {
                                    positionals: s.positionals,
                                    opts,
                                    force: s.force,
                                    raw: s.raw,
                                },
                            ),
                            None => Err(err(CliErrorKind::InvalidValue)),
                        },
                        None => Err(err(CliErrorKind::MissingValue)),
                    };
                }
            }
            return Err(err(CliErrorKind::UnknownArgument));
        }
        return Err(err(CliErrorKind::UnknownArgument));
    }
    if s.positionals.len() >= positional_count_exec(k) {
        return Err(err(CliErrorKind::UnknownArgument));
    }
    let mut positionals = s.positionals;
    let ghost before = views(positionals@);
    positionals.push(a.clone());
    assert(views(positionals@) =~= before.push(a@));
    parse_leaf_exec(t, j + 1, k, LeafState { positionals, opts: s.opts, force: s.force, raw: s.raw })
}

/// The characters of each argument.
pub open spec fn arg_views(args: Seq<&str>) -> Seq<Seq<char>> {
    args.map_values(|a: &str| a@)
}

impl Cli {
    /// Parses a command line; `args[0]` is the program name.
    pub fn try_parse_from(args: &[&str]) -> (r: Result<Cli, CliError>)
        ensures
            result_view(r) == parse_args(arg_views(args@)),
    {
        let mut t: Vec<Vec<char>> = Vec::new();
        let mut i: usize = 0;
        while i < args.len()
            invariant
                i <= args@.len(),
                views(t@) == arg_views(args@).take(i as int),
            decreases args@.len() - i,
        {
            let ghost before = views(t@);
            assert(arg_views(args@)[i as int] == args@[i as int]@);
            t.push(str_chars(args[i]));
            assert(views(t@) =~= before.push(args@[i as int]@));
            assert(arg_views(args@).take(i + 1) =~= arg_views(args@).take(i as int).push(arg_views(args@)[i as int]));
            assert(views(t@) =~= arg_views(args@).take(i + 1));
            i = i + 1;
        }
        assert(views(t@) =~= arg_views(args@));
        if t.len() == 0 {
            let s = TopState { verbose: 0, tui: false, yes: false, context: None };
            return Ok(finish_top(s, None));
        }
        let s = TopState { verbose: 0, tui: false, yes: false, context: None };
        parse_top_exec(&t, 1, s)
    }
}

proof fn lemma_first_eq_none(s: Seq<char>)
    requires
        forall|i: int| 0 <= i < s.len() ==> s[i] != '=',
    ensures
        first_eq(s) is None,
    decreases s.len(),
{
    if s.len() > 0 {
        lemma_first_eq_none(s.drop_first());
    }
}

proof fn lemma_number_not_option(v: Seq<char>)
    requires
        parse_usize(v) is Some,
    ensures
        !option_like(v),
        v != "--"@,
{
    reveal_strlit("--");
    if v.len() > 1 && v[0] == '-' {
        assert(!crate::text::all_digits(v));
    }
}

/// The long option names of the profile values.
proof fn lemma_profile_option_names()
    ensures
        profile_opt_of("provider"@) == Some(ProfileOpt::Provider),
        forall|i: int| 0 <= i < "provider"@.len() ==> "provider"@[i] != '=',
        "provider"@ != "force"@,
        "provider"@ != "help"@,
        "provider"@.len() >= 1,
        profile_opt_of("model"@) == Some(ProfileOpt::Model),
        forall|i: int| 0 <= i < "model"@.len() ==> "model"@[i] != '=',
        "model"@ != "force"@,
        "model"@ != "help"@,
        "model"@.len() >= 1,
        profile_opt_of("api-key"@) == Some(ProfileOpt::ApiKey),
        forall|i: int| 0 <= i < "api-key"@.len() ==> "api-key"@[i] != '=',
        "api-key"@ != "force"@,
        "api-key"@ != "help"@,
        "api-key"@.len() >= 1,
        profile_opt_of("api-url"@) == Some(ProfileOpt::ApiUrl),
        forall|i: int| 0 <= i < "api-url"@.len() ==> "api-url"@[i] != '=',
        "api-url"@ != "force"@,
        "api-url"@ != "help"@,
        "api-url"@.len() >= 1,
        profile_opt_of("max-input-tokens"@) == Some(ProfileOpt::MaxInputTokens),
        forall|i: int| 0 <= i < "max-input-tokens"@.len() ==> "max-input-tokens"@[i] != '=',
        "max-input-tokens"@ != "force"@,
        "max-input-tokens"@ != "help"@,
        "max-input-tokens"@.len() >= 1,
        profile_opt_of("max-output-tokens"@) == Some(ProfileOpt::MaxOutputTokens),
        forall|i: int| 0 <= i < "max-output-tokens"@.len() ==> "max-output-tokens"@[i] != '=',
        "max-output-tokens"@ != "force"@,
        "max-output-tokens"@ != "help"@,
        "max-output-tokens"@.len() >= 1,
        profile_opt_of("azure-api-version"@) == Some(ProfileOpt::AzureApiVersion),
        forall|i: int| 0 <= i < "azure-api-version"@.len() ==> "azure-api-version"@[i] != '=',
        "azure-api-version"@ != "force"@,
        "azure-api-version"@ != "help"@,
        "azure-api-version"@.len() >= 1,
        profile_opt_of("azure-deployment-id"@) == Some(ProfileOpt::AzureDeploymentId),
        forall|i: int| 0 <= i < "azure-deployment-id"@.len() ==> "azure-deployment-id"@[i] != '=',
        "azure-deployment-id"@ != "force"@,
        "azure-deployment-id"@ != "help"@,
        "azure-deployment-id"@.len() >= 1,
{
    reveal_strlit("provider");
    reveal_strlit("model");
    reveal_strlit("api-key");
    reveal_strlit("api-url");
    reveal_strlit("max-input-tokens");
    reveal_strlit("max-output-tokens");
    reveal_strlit("azure-api-version");
    reveal_strlit("azure-deployment-id");
    reveal_strlit("force");
    reveal_strlit("help");
    assert("provider"@.len() == 8);
    assert("model"@.len() == 5);
    assert("api-key"@.len() == 7);
    assert("api-url"@.len() == 7);
    assert("max-input-tokens"@.len() == 16);
    assert("max-output-tokens"@.len() == 17);
    assert("azure-api-version"@.len() == 17);
    assert("azure-deployment-id"@.len() == 19);
    assert("force"@.len() == 5);
    assert("help"@.len() == 4);
    assert("api-url"@[4] != "api-key"@[4]);
    assert("azure-api-version"@[0] != "max-output-tokens"@[0]);
    assert("model"@[0] != "force"@[0]);
}

/// A long option token `--NAME` without a value.
proof fn lemma_long_plain(n: Seq<char>)
    requires
        n.len() >= 1,
        forall|i: int| 0 <= i < n.len() ==> n[i] != '=',
        n != "help"@,
    ensures
        option_like("--"@ + n),
        ("--"@ + n)[1] == '-',
        long_name("--"@ + n) == n,
        long_value("--"@ + n) is None,
        "--"@ + n != "--"@,
        !is_help_flag("--"@ + n),
{
    reveal_strlit("--");
    reveal_strlit("-h");
    reveal_strlit("--help");
    let a = "--"@ + n;
    assert(a.subrange(2, a.len() as int) =~= n);
    lemma_first_eq_none(n);
    assert(a.len() != "--"@.len());
    assert(a.len() != "-h"@.len());
    if a == "--help"@ {
        assert(n =~= a.subrange(2, a.len() as int));
        assert("--help"@.subrange(2, 6) =~= "help"@) by {
            reveal_strlit("help");
        }
    }
}

proof fn lemma_first_eq_at(n: Seq<char>, v: Seq<char>)
    requires
        forall|i: int| 0 <= i < n.len() ==> n[i] != '=',
    ensures
        first_eq(n + seq!['='] + v) == Some(n.len() as int),
    decreases n.len(),
{
    if n.len() == 0 {
        assert((n + seq!['='] + v)[0] == '=');
    } else {
        lemma_first_eq_at(n.drop_first(), v);
        assert((n + seq!['='] + v).drop_first() =~= n.drop_first() + seq!['='] + v);
    }
}

/// A long option token `--NAME=VALUE`.
proof fn lemma_long_attached(n: Seq<char>, v: Seq<char>)
    requires
        n.len() >= 1,
        forall|i: int| 0 <= i < n.len() ==> n[i] != '=',
    ensures
        option_like("--"@ + n + "="@ + v),
        ("--"@ + n + "="@ + v)[1] == '-',
        long_name("--"@ + n + "="@ + v) == n,
        long_value("--"@ + n + "="@ + v) == Some(v),
        "--"@ + n + "="@ + v != "--"@,
        !is_help_flag("--"@ + n + "="@ + v),
{
    reveal_strlit("--");
    reveal_strlit("-h");
    reveal_strlit("--help");
    reveal_strlit("=");
    let a = "--"@ + n + "="@ + v;
    let body = a.subrange(2, a.len() as int);
    assert(body =~= n + seq!['='] + v);
    lemma_first_eq_at(n, v);
    assert(body.subrange(0, n.len() as int) =~= n);
    assert(body.subrange(n.len() + 1int, body.len() as int) =~= v);
    assert(a.len() != "--"@.len());
    assert(a.len() != "-h"@.len());
    assert(a[n.len() + 2int] == '=');
    if a == "--help"@ {
        assert("--help"@.len() == 6);
        assert(forall|i: int| 0 <= i < 6 ==> "--help"@[i] != '=');
    }
}

/// In the arguments of `profile create` and `profile edit`, each value
/// option `--NAME VALUE` (or `--NAME=VALUE`) records its value in the field
/// of the same name and in no other (the token limits as numbers, a limit
/// that is no number being refused): reading from the option on gives what
/// reading from the token after its value gives with that one field set.
pub proof fn law_profile_options_set_their_own_field(
    t: Seq<Seq<char>>,
    j: int,
    k: LeafKind,
    acc: LeafAcc,
    n: Seq<char>,
    v: Seq<char>,
    attached: bool,
)
    requires
        takes_profile_opts(k),
        !acc.raw,
        0 <= j < t.len(),
        n == "provider"@ || n == "model"@ || n == "api-key"@ || n == "api-url"@ || n == "max-input-tokens"@ || n == "max-output-tokens"@ || n == "azure-api-version"@ || n == "azure-deployment-id"@,
        attached ==> t[j] == "--"@ + n + "="@ + v,
        !attached ==> t[j] == "--"@ + n && j + 1 < t.len() && t[j + 1] == v && !option_like(v),
        n == "provider"@ ==> acc.opts.provider is None,
        n == "model"@ ==> acc.opts.model is None,
        n == "api-key"@ ==> acc.opts.api_key is None,
        n == "api-url"@ ==> acc.opts.api_url is None,
        n == "max-input-tokens"@ ==> acc.opts.max_input_tokens is None,
        n == "max-output-tokens"@ ==> acc.opts.max_output_tokens is None,
        n == "azure-api-version"@ ==> acc.opts.azure_api_version is None,
        n == "azure-deployment-id"@ ==> acc.opts.azure_deployment_id is None,
    ensures
        ({
            let next = if attached {
                j + 1
            } else {
                j + 2
            };
            &&& n == "provider"@ ==> parse_leaf(t, j, k, acc) == parse_leaf(t, next, k, LeafAcc { opts: ProfileOptsV { provider: Some(v), ..acc.opts }, ..acc })
            &&& n == "model"@ ==> parse_leaf(t, j, k, acc) == parse_leaf(t, next, k, LeafAcc { opts: ProfileOptsV { model: Some(v), ..acc.opts }, ..acc })
            &&& n == "api-key"@ ==> parse_leaf(t, j, k, acc) == parse_leaf(t, next, k, LeafAcc { opts: ProfileOptsV { api_key: Some(v), ..acc.opts }, ..acc })
            &&& n == "api-url"@ ==> parse_leaf(t, j, k, acc) == parse_leaf(t, next, k, LeafAcc { opts: ProfileOptsV { api_url: Some(v), ..acc.opts }, ..acc })
            &&& n == "max-input-tokens"@ ==> parse_leaf(t, j, k, acc) == (match parse_usize(v) { Some(x) => parse_leaf(t, next, k, LeafAcc { opts: ProfileOptsV { max_input_tokens: Some(x), ..acc.opts }, ..acc }), None => Err(CliErrorKind::InvalidValue) })
            &&& n == "max-output-tokens"@ ==> parse_leaf(t, j, k, acc) == (match parse_usize(v) { Some(x) => parse_leaf(t, next, k, LeafAcc { opts: ProfileOptsV { max_output_tokens: Some(x), ..acc.opts }, ..acc }), None => Err(CliErrorKind::InvalidValue) })
            &&& n == "azure-api-version"@ ==> parse_leaf(t, j, k, acc) == parse_leaf(t, next, k, LeafAcc { opts: ProfileOptsV { azure_api_version: Some(v), ..acc.opts }, ..acc })
            &&& n == "azure-deployment-id"@ ==> parse_leaf(t, j, k, acc) == parse_leaf(t, next, k, LeafAcc { opts: ProfileOptsV { azure_deployment_id: Some(v), ..acc.opts }, ..acc })
        }),
{
    lemma_profile_option_names();
    if attached {
        lemma_long_attached(n, v);
    } else {
        lemma_long_plain(n);
    }
}

/// `profile create NAME --max-input-tokens N` (or `edit`) gives that
/// command for NAME with the maximum input tokens N and no other option;
/// `--max-output-tokens N` gives the maximum output tokens N and no other.
pub proof fn law_profile_token_options(
    program: Seq<char>,
    create: bool,
    name: Seq<char>,
    v: Seq<char>,
    n: usize,
)
    requires
        !option_like(name),
        name != "--"@,
        parse_usize(v) == Some(n),
    ensures
        ({
            let sub = if create {
                "create"@
            } else {
                "edit"@
            };
            let cmd = |opts: ProfileOptsV|
                if create {
                    ProfileV::Create { name, opts }
                } else {
                    ProfileV::Edit { name, opts }
                };
            let cli = |opts: ProfileOptsV|
                CliV {
                    verbose: 0,
                    tui: false,
                    yes: false,
                    context: None,
                    command: Some(CommandV::Profile(cmd(opts))),
                };
            &&& parse_args(seq![program, "profile"@, sub, name, "--max-input-tokens"@, v]) == Ok::<
                CliV,
                CliErrorKind,
            >(cli(ProfileOptsV { max_input_tokens: Some(n), ..no_opts() }))
            &&& parse_args(seq![program, "profile"@, sub, name, "--max-output-tokens"@, v]) == Ok::<
                CliV,
                CliErrorKind,
            >(cli(ProfileOptsV { max_output_tokens: Some(n), ..no_opts() }))
        }),
{
    lemma_profile_option_names();
    lemma_number_not_option(v);
    reveal_strlit("--max-input-tokens");
    reveal_strlit("--max-output-tokens");
    reveal_strlit("max-input-tokens");
    reveal_strlit("max-output-tokens");
    reveal_strlit("--");
    assert("--max-input-tokens"@ =~= "--"@ + "max-input-tokens"@);
    assert("--max-output-tokens"@ =~= "--"@ + "max-output-tokens"@);
    assert("max-input-tokens"@ != "max-output-tokens"@);
    reveal_strlit("profile");
    reveal_strlit("config");
    reveal_strlit("create");
    reveal_strlit("edit");
    reveal_strlit("list");
    reveal_strlit("show");
    reveal_strlit("help");
    reveal_strlit("--");
    reveal_strlit("-h");
    reveal_strlit("--help");
    assert("profile"@.len() != "config"@.len());
    assert("create"@.len() != "list"@.len());
    assert("create"@.len() != "show"@.len());
    assert("create"@.len() != "help"@.len());
    assert("edit"@[0] != "list"@[0]);
    assert("edit"@[0] != "show"@[0]);
    assert("edit"@.len() != "create"@.len());
    assert("edit"@[0] != "help"@[0]);
    assert(!is_help_flag(name));
    let sub = if create {
        "create"@
    } else {
        "edit"@
    };
    let k = if create {
        LeafKind::ProfileCreate
    } else {
        LeafKind::ProfileEdit
    };
    let ti = seq![program, "profile"@, sub, name, "--max-input-tokens"@, v];
    let to = seq![program, "profile"@, sub, name, "--max-output-tokens"@, v];
    let acc1 = LeafAcc { positionals: seq![name], ..empty_leaf() };
    assert(parse_leaf(ti, 3, k, empty_leaf()) == parse_leaf(ti, 4, k, acc1));
    assert(parse_leaf(to, 3, k, empty_leaf()) == parse_leaf(to, 4, k, acc1));
    law_profile_options_set_their_own_field(ti, 4, k, acc1, "max-input-tokens"@, v, false);
    law_profile_options_set_their_own_field(to, 4, k, acc1, "max-output-tokens"@, v, false);
}

} // verus!
