//! The runtime configuration: how it is assembled from its layers, in
//! ascending priority the defaults, the global configuration file, the
//! active provider profile and the environment (repository-local files are
//! not read); what `config get` and `config list` show of it; and how
//! `config set` changes it. Reading the file and the environment is left to
//! the caller, which hands their values to `layer_config`.
use vstd::prelude::*;
use crate::cli::opt_view;
use crate::cli::{eq_lit, parse_usize, parse_usize_exec};
use crate::settings::{
    ProviderKind, SettingError, SettingKey, SettingV, SettingValue, UsageTier, ValidationMode,
    parse_provider, parse_setting, parse_token_count, parse_url, provider_message, provider_value,
    setting_key, setting_key_of, setting_value, token_value, url_parse,
};
use crate::orchestrator::{join, join_strings};
use crate::text::{decimal, decimal_chars, extend_chars, lit, str_chars, string_from_chars, string_views};
use crate::tokenizer::TokenCount;

verus! {

/// The hard token limits of the models: no configured count exceeds them.
#[derive(Debug, Clone, Copy)]
pub struct HardLimits {
    pub max_input: TokenCount,
    pub max_output: TokenCount,
}

/// The limits that apply on the free usage tier. A value that is `None` has
/// not been configured, and the tier's built-in default applies to it.
#[derive(Debug)]
pub struct FreeTierSettings {
    pub max_input_tokens: Option<TokenCount>,
    pub max_output_tokens: Option<TokenCount>,
    pub max_concurrent_requests: Option<usize>,
    pub commit_history_depth: Option<usize>,
}

/// A [`FreeTierSettings`] with its token counts as numbers.
pub struct FreeTierState {
    pub max_input_tokens: Option<nat>,
    pub max_output_tokens: Option<nat>,
    pub max_concurrent_requests: Option<usize>,
    pub commit_history_depth: Option<usize>,
}

/// The number of tokens in an optional count.
pub open spec fn opt_count(o: Option<TokenCount>) -> Option<nat> {
    match o {
        Some(t) => Some(t.count()),
        None => None,
    }
}

impl View for FreeTierSettings {
    type V = FreeTierState;

    open spec fn view(&self) -> FreeTierState {
        FreeTierState {
            max_input_tokens: opt_count(self.max_input_tokens),
            max_output_tokens: opt_count(self.max_output_tokens),
            max_concurrent_requests: self.max_concurrent_requests,
            commit_history_depth: self.commit_history_depth,
        }
    }
}

/// No free-tier limit configured.
pub open spec fn unset_free_tier() -> FreeTierState {
    FreeTierState {
        max_input_tokens: None,
        max_output_tokens: None,
        max_concurrent_requests: None,
        commit_history_depth: None,
    }
}

/// The active provider profile, its API key already resolved and its URL
/// already parsed and serialized. Its temperature, where it sets one, is
/// kept as the text of the number.
#[derive(Debug)]
pub struct ProfileSettings {
    pub name: String,
    pub provider: ProviderKind,
    pub model: String,
    pub api_key: Option<String>,
    pub api_url: Option<String>,
    pub azure_api_version: Option<String>,
    pub azure_deployment_id: Option<String>,
    pub max_input_tokens: TokenCount,
    pub max_output_tokens: TokenCount,
    pub temperature: Option<String>,
}

/// A [`ProfileSettings`] with its strings as character sequences.
pub struct ProfileState {
    pub name: Seq<char>,
    pub provider: ProviderKind,
    pub model: Seq<char>,
    pub api_key: Option<Seq<char>>,
    pub api_url: Option<Seq<char>>,
    pub azure_api_version: Option<Seq<char>>,
    pub azure_deployment_id: Option<Seq<char>>,
    pub max_input_tokens: nat,
    pub max_output_tokens: nat,
    pub temperature: Option<Seq<char>>,
}

impl View for ProfileSettings {
    type V = ProfileState;

    open spec fn view(&self) -> ProfileState {
        ProfileState {
            name: self.name@,
            provider: self.provider,
            model: self.model@,
            api_key: opt_view(self.api_key),
            api_url: opt_view(self.api_url),
            azure_api_version: opt_view(self.azure_api_version),
            azure_deployment_id: opt_view(self.azure_deployment_id),
            max_input_tokens: self.max_input_tokens.count(),
            max_output_tokens: self.max_output_tokens.count(),
            temperature: opt_view(self.temperature),
        }
    }
}

/// The settings the program runs with. The fractional settings (the model's
/// temperature and the two failure rates) are kept as the text of the
/// number, which is how they are shown.
#[derive(Debug)]
pub struct Config {
    pub max_input_tokens: TokenCount,
    pub max_output_tokens: TokenCount,
    pub model_provider: ProviderKind,
    pub model: String,
    pub api_key: Option<String>,
    pub model_api_url: Option<String>,
    pub azure_api_version: Option<String>,
    pub azure_deployment_id: Option<String>,
    pub model_temperature: String,
    pub ignore_files: Vec<String>,
    pub lockfile_token_limit: TokenCount,
    pub usage_tier: UsageTier,
    pub free_tier: FreeTierSettings,
    pub use_experimental: bool,
    pub active_profile: Option<ProfileSettings>,
    pub commit_message_max_length: Option<usize>,
    pub commit_message_validation_mode: ValidationMode,
    pub use_commit_history: bool,
    pub commit_history_depth: usize,
    pub max_concurrent_requests: usize,
    pub max_partial_failure_rate: String,
    pub prompt_failure_rate_threshold: String,
}

/// A [`Config`] with its strings as character sequences.
pub struct ConfigState {
    pub max_input_tokens: nat,
    pub max_output_tokens: nat,
    pub model_provider: ProviderKind,
    pub model: Seq<char>,
    pub api_key: Option<Seq<char>>,
    pub model_api_url: Option<Seq<char>>,
    pub azure_api_version: Option<Seq<char>>,
    pub azure_deployment_id: Option<Seq<char>>,
    pub model_temperature: Seq<char>,
    pub ignore_files: Seq<Seq<char>>,
    pub lockfile_token_limit: nat,
    pub usage_tier: UsageTier,
    pub free_tier: FreeTierState,
    pub use_experimental: bool,
    pub active_profile: Option<ProfileState>,
    pub commit_message_max_length: Option<usize>,
    pub commit_message_validation_mode: ValidationMode,
    pub use_commit_history: bool,
    pub commit_history_depth: nat,
    pub max_concurrent_requests: nat,
    pub max_partial_failure_rate: Seq<char>,
    pub prompt_failure_rate_threshold: Seq<char>,
}

/// The view of an optional profile.
pub open spec fn opt_profile(o: Option<ProfileSettings>) -> Option<ProfileState> {
    match o {
        Some(p) => Some(p@),
        None => None,
    }
}

impl View for Config {
    type V = ConfigState;

    open spec fn view(&self) -> ConfigState {
        ConfigState {
            max_input_tokens: self.max_input_tokens.count(),
            max_output_tokens: self.max_output_tokens.count(),
            model_provider: self.model_provider,
            model: self.model@,
            api_key: opt_view(self.api_key),
            model_api_url: opt_view(self.model_api_url),
            azure_api_version: opt_view(self.azure_api_version),
            azure_deployment_id: opt_view(self.azure_deployment_id),
            model_temperature: self.model_temperature@,
            ignore_files: string_views(self.ignore_files@),
            lockfile_token_limit: self.lockfile_token_limit.count(),
            usage_tier: self.usage_tier,
            free_tier: self.free_tier@,
            use_experimental: self.use_experimental,
            active_profile: opt_profile(self.active_profile),
            commit_message_max_length: self.commit_message_max_length,
            commit_message_validation_mode: self.commit_message_validation_mode,
            use_commit_history: self.use_commit_history,
            commit_history_depth: self.commit_history_depth as nat,
            max_concurrent_requests: self.max_concurrent_requests as nat,
            max_partial_failure_rate: self.max_partial_failure_rate@,
            prompt_failure_rate_threshold: self.prompt_failure_rate_threshold@,
        }
    }
}

/// The defaults: 4096 input and 500 output tokens, OpenAI's `gpt-4.1-mini`
/// at temperature 0.3, no key, URL or Azure settings, no ignored files, 100
/// tokens of a lockfile, the standard tier with no free-tier limit
/// configured, experimental settings off, no active profile, the default
/// message length checked softly, the commit history used five commits deep,
/// four concurrent requests, and failure rates of 0.1 (abort) and 0.05
/// (ask).
pub open spec fn default_state() -> ConfigState {
    ConfigState {
        max_input_tokens: 4096,
        max_output_tokens: 500,
        model_provider: ProviderKind::OpenAI,
        model: "gpt-4.1-mini"@,
        api_key: None,
        model_api_url: None,
        azure_api_version: None,
        azure_deployment_id: None,
        model_temperature: "0.3"@,
        ignore_files: Seq::empty(),
        lockfile_token_limit: 100,
        usage_tier: UsageTier::Standard,
        free_tier: unset_free_tier(),
        use_experimental: false,
        active_profile: None,
        commit_message_max_length: None,
        commit_message_validation_mode: ValidationMode::Soft,
        use_commit_history: true,
        commit_history_depth: 5,
        max_concurrent_requests: 4,
        max_partial_failure_rate: "0.1"@,
        prompt_failure_rate_threshold: "0.05"@,
    }
}

impl Default for Config {
    fn default() -> (c: Self)
        ensures
            c@ == default_state(),
    {
        let c = Config {
            max_input_tokens: TokenCount::new_at_least_one(4096),
            max_output_tokens: TokenCount::new_at_least_one(500),
            model_provider: ProviderKind::OpenAI,
            model: string_from_chars(&lit("gpt-4.1-mini")),
            api_key: None,
            model_api_url: None,
            azure_api_version: None,
            azure_deployment_id: None,
            model_temperature: string_from_chars(&lit("0.3")),
            ignore_files: Vec::new(),
            lockfile_token_limit: TokenCount::new_at_least_one(100),
            usage_tier: UsageTier::Standard,
            free_tier: FreeTierSettings {
                max_input_tokens: None,
                max_output_tokens: None,
                max_concurrent_requests: None,
                commit_history_depth: None,
            },
            use_experimental: false,
            active_profile: None,
            commit_message_max_length: None,
            commit_message_validation_mode: ValidationMode::Soft,
            use_commit_history: true,
            commit_history_depth: 5,
            max_concurrent_requests: 4,
            max_partial_failure_rate: string_from_chars(&lit("0.1")),
            prompt_failure_rate_threshold: string_from_chars(&lit("0.05")),
        };
        assert(c@.ignore_files =~= Seq::<Seq<char>>::empty());
        c
    }
}

/// What the global configuration file sets. Its fractional values are the
/// text of the numbers.
pub struct FileSettings {
    pub commit_message_max_length: Option<usize>,
    pub commit_message_validation_mode: ValidationMode,
    pub ignore_files: Vec<String>,
    pub lockfile_token_limit: TokenCount,
    pub use_commit_history: bool,
    pub commit_history_depth: usize,
    pub max_concurrent_requests: usize,
    pub max_partial_failure_rate: String,
    pub prompt_failure_rate_threshold: String,
    pub use_experimental: bool,
    pub usage_tier: UsageTier,
    pub free_tier: FreeTierSettings,
}

/// The `CHRISTINA_*` environment variables that are set, with their values.
pub struct EnvValues {
    /// `CHRISTINA_TOKENS_MAX_INPUT`
    pub tokens_max_input: Option<String>,
    /// `CHRISTINA_TOKENS_OUTPUT`
    pub tokens_output: Option<String>,
    /// `CHRISTINA_MODEL_PROVIDER`
    pub model_provider: Option<String>,
    /// `CHRISTINA_MODEL`
    pub model: Option<String>,
    /// `CHRISTINA_MODEL_API_KEY`
    pub model_api_key: Option<String>,
    /// `CHRISTINA_MODEL_API_URL`
    pub model_api_url: Option<String>,
    /// `CHRISTINA_AZURE_API_VERSION`
    pub azure_api_version: Option<String>,
    /// `CHRISTINA_AZURE_DEPLOYMENT_ID`
    pub azure_deployment_id: Option<String>,
    /// `CHRISTINA_USE_COMMIT_HISTORY`
    pub use_commit_history: Option<String>,
    /// `CHRISTINA_COMMIT_HISTORY_DEPTH`
    pub commit_history_depth: Option<String>,
    /// `CHRISTINA_CONCURRENCY_LIMIT`
    pub concurrency_limit: Option<String>,
}

/// The configuration after the global file.
pub open spec fn with_file(c: ConfigState, f: FileSettings) -> ConfigState {
    ConfigState {
        commit_message_max_length: f.commit_message_max_length,
        commit_message_validation_mode: f.commit_message_validation_mode,
        ignore_files: string_views(f.ignore_files@),
        lockfile_token_limit: f.lockfile_token_limit.count(),
        use_commit_history: f.use_commit_history,
        commit_history_depth: f.commit_history_depth as nat,
        max_concurrent_requests: f.max_concurrent_requests as nat,
        max_partial_failure_rate: f.max_partial_failure_rate@,
        prompt_failure_rate_threshold: f.prompt_failure_rate_threshold@,
        use_experimental: f.use_experimental,
        usage_tier: f.usage_tier,
        free_tier: f.free_tier@,
        ..c
    }
}

/// The configuration after the active profile, which it records; the
/// profile's temperature, where it sets one, replaces the model's.
pub open spec fn with_profile(c: ConfigState, p: ProfileSettings) -> ConfigState {
    ConfigState {
        max_input_tokens: p.max_input_tokens.count(),
        max_output_tokens: p.max_output_tokens.count(),
        model_provider: p.provider,
        model: p.model@,
        api_key: opt_view(p.api_key),
        model_api_url: opt_view(p.api_url),
        azure_api_version: opt_view(p.azure_api_version),
        azure_deployment_id: opt_view(p.azure_deployment_id),
        model_temperature: match p.temperature {
            Some(t) => t@,
            None => c.model_temperature,
        },
        active_profile: Some(p@),
        ..c
    }
}

/// A token count from the environment: the value where it reads as one,
/// else `cur`.
pub open spec fn env_tokens(v: Option<String>, cur: nat) -> nat {
    match v {
        Some(s) => match token_value(s@) {
            Some(n) => n,
            None => cur,
        },
        None => cur,
    }
}

/// A flag from the environment: `true` or `false` exactly, else `cur`.
pub open spec fn env_flag(v: Option<String>, cur: bool) -> bool {
    match v {
        Some(s) => if s@ == "true"@ {
            true
        } else if s@ == "false"@ {
            false
        } else {
            cur
        },
        None => cur,
    }
}

/// `n` held within `lo..=hi`.
pub open spec fn clamp(n: nat, lo: nat, hi: nat) -> nat {
    if n < lo {
        lo
    } else if n > hi {
        hi
    } else {
        n
    }
}

/// A count from the environment, clamped to `lo..=hi`, where it reads as a
/// number; else `cur`.
pub open spec fn env_count(v: Option<String>, cur: nat, lo: nat, hi: nat) -> nat {
    match v {
        Some(s) => match parse_usize(s@) {
            Some(n) => clamp(n as nat, lo, hi),
            None => cur,
        },
        None => cur,
    }
}

/// A text from the environment where it is set, else `cur`.
pub open spec fn env_text(v: Option<String>, cur: Seq<char>) -> Seq<char> {
    match v {
        Some(s) => s@,
        None => cur,
    }
}

/// An optional text from the environment where it is set, else `cur`.
pub open spec fn env_opt(v: Option<String>, cur: Option<Seq<char>>) -> Option<Seq<char>> {
    match v {
        Some(s) => Some(s@),
        None => cur,
    }
}

/// The configuration after the environment: each variable that is set
/// overrides; token counts, the history flag and the counts that do not
/// read are ignored, the history depth is held to 0..=50 and the
/// concurrency to 1..=20; a provider or URL that does not read is an error.
pub open spec fn with_env(c: ConfigState, e: EnvValues) -> Result<ConfigState, Seq<char>> {
    let provider = match e.model_provider {
        Some(s) => match provider_value(s@) {
            Some(k) => Ok(k),
            None => Err(provider_message(s@)),
        },
        None => Ok(c.model_provider),
    };
    let url = match e.model_api_url {
        Some(s) => match url_parse(s@) {
            Ok(u) => Ok(Some(u)),
            Err(m) => Err(m),
        },
        None => Ok(c.model_api_url),
    };
    match provider {
        Err(m) => Err(m),
        Ok(k) => match url {
            Err(m) => Err(m),
            Ok(u) => Ok(
                ConfigState {
                    max_input_tokens: env_tokens(e.tokens_max_input, c.max_input_tokens),
                    max_output_tokens: env_tokens(e.tokens_output, c.max_output_tokens),
                    model_provider: k,
                    model: env_text(e.model, c.model),
                    api_key: env_opt(e.model_api_key, c.api_key),
                    model_api_url: u,
                    azure_api_version: env_opt(e.azure_api_version, c.azure_api_version),
                    azure_deployment_id: env_opt(e.azure_deployment_id, c.azure_deployment_id),
                    use_commit_history: env_flag(e.use_commit_history, c.use_commit_history),
                    commit_history_depth: env_count(
                        e.commit_history_depth,
                        c.commit_history_depth,
                        0,
                        50,
                    ),
                    max_concurrent_requests: env_count(
                        e.concurrency_limit,
                        c.max_concurrent_requests,
                        1,
                        20,
                    ),
                    ..c
                },
            ),
        },
    }
}

/// The smaller of two counts.
pub open spec fn min_nat(a: nat, b: nat) -> nat {
    if a <= b {
        a
    } else {
        b
    }
}

/// An optional count held to at most `hi`.
pub open spec fn opt_min(o: Option<nat>, hi: nat) -> Option<nat> {
    match o {
        Some(n) => Some(min_nat(n, hi)),
        None => None,
    }
}

/// An optional count held within `lo..=hi`.
pub open spec fn opt_clamp(o: Option<usize>, lo: nat, hi: nat) -> Option<usize> {
    match o {
        Some(n) => Some(clamp(n as nat, lo, hi) as usize),
        None => None,
    }
}

/// The configuration held to its limits once all layers are applied: the
/// token counts (the free tier's too) to the models' hard limits, the free
/// tier's concurrency to 1..=20 and its history depth to at most 50.
pub open spec fn validated(c: ConfigState, lim: HardLimits) -> ConfigState {
    ConfigState {
        max_input_tokens: min_nat(c.max_input_tokens, lim.max_input.count()),
        max_output_tokens: min_nat(c.max_output_tokens, lim.max_output.count()),
        free_tier: FreeTierState {
            max_input_tokens: opt_min(c.free_tier.max_input_tokens, lim.max_input.count()),
            max_output_tokens: opt_min(c.free_tier.max_output_tokens, lim.max_output.count()),
            max_concurrent_requests: opt_clamp(c.free_tier.max_concurrent_requests, 1, 20),
            commit_history_depth: opt_clamp(c.free_tier.commit_history_depth, 0, 50),
        },
        ..c
    }
}

/// The configuration from its layers, each present one overriding those
/// below it, before it is held to its limits.
pub open spec fn layered_unheld(
    file: Option<FileSettings>,
    profile: Option<ProfileSettings>,
    env: EnvValues,
) -> Result<ConfigState, Seq<char>> {
    let c0 = default_state();
    let c1 = match file {
        Some(f) => with_file(c0, f),
        None => c0,
    };
    let c2 = match profile {
        Some(p) => with_profile(c1, p),
        None => c1,
    };
    with_env(c2, env)
}

/// The configuration from its layers, held to its limits.
pub open spec fn layered(
    file: Option<FileSettings>,
    profile: Option<ProfileSettings>,
    env: EnvValues,
    lim: HardLimits,
) -> Result<ConfigState, Seq<char>> {
    match layered_unheld(file, profile, env) {
        Ok(c) => Ok(validated(c, lim)),
        Err(m) => Err(m),
    }
}

/// The warning that a setting was held from `from` to `to`.
pub open spec fn clamp_note(label: Seq<char>, from: nat, to: nat) -> Seq<char> {
    label + " clamped from "@ + decimal(from) + " to "@ + decimal(to)
}

/// `m` alone where `b` holds, else nothing.
pub open spec fn note_if(b: bool, m: Seq<char>) -> Seq<Seq<char>> {
    if b {
        seq![m]
    } else {
        Seq::empty()
    }
}

/// The warning that a usage tier is set without experimental settings.
pub open spec fn tier_note() -> Seq<char> {
    "usage_tier set but experimental settings disabled; set use_experimental=true to apply"@
}

/// The warnings for a free-tier token limit over the hard limit `hi`.
pub open spec fn free_tokens_note(label: Seq<char>, o: Option<nat>, hi: nat) -> Seq<Seq<char>> {
    match o {
        Some(n) => note_if(n > hi, clamp_note(label, n, hi)),
        None => Seq::empty(),
    }
}

/// The warnings for a free-tier count outside `lo..=hi`.
pub open spec fn free_count_note(label: Seq<char>, o: Option<usize>, lo: nat, hi: nat) -> Seq<Seq<char>> {
    match o {
        Some(n) => note_if(clamp(n as nat, lo, hi) != n, clamp_note(label, n as nat, clamp(n as nat, lo, hi))),
        None => Seq::empty(),
    }
}

/// The warnings holding `c` to its limits gives, in order: each value that
/// was held, from what to what, and a usage tier set while experimental
/// settings are off.
pub open spec fn validation_warnings(c: ConfigState, lim: HardLimits) -> Seq<Seq<char>> {
    let mi = lim.max_input.count();
    let mo = lim.max_output.count();
    note_if(c.max_input_tokens > mi, clamp_note("max_input_tokens"@, c.max_input_tokens, mi))
        + note_if(c.max_output_tokens > mo, clamp_note("max_output_tokens"@, c.max_output_tokens, mo))
        + free_tokens_note("free_tier.max_input_tokens"@, c.free_tier.max_input_tokens, mi)
        + free_tokens_note("free_tier.max_output_tokens"@, c.free_tier.max_output_tokens, mo)
        + free_count_note("free_tier.max_concurrent_requests"@, c.free_tier.max_concurrent_requests, 1, 20)
        + free_count_note("free_tier.commit_history_depth"@, c.free_tier.commit_history_depth, 0, 50)
        + note_if(!c.use_experimental && c.usage_tier != UsageTier::Standard, tier_note())
}

fn count_from_env(v: &Option<String>, cur: usize, lo: usize, hi: usize) -> (r: usize)
    requires
        lo <= hi,
    ensures
        r == env_count(*v, cur as nat, lo as nat, hi as nat),
{
    match v {
        Some(s) => match parse_usize_exec(&str_chars(s.as_str())) {
            Some(n) => clamp_usize(n, lo, hi),
            None => cur,
        },
        None => cur,
    }
}

fn clamp_usize(n: usize, lo: usize, hi: usize) -> (r: usize)
    requires
        lo <= hi,
    ensures
        r as nat == clamp(n as nat, lo as nat, hi as nat),
{
    if n < lo {
        lo
    } else if n > hi {
        hi
    } else {
        n
    }
}

fn flag_from_env(v: &Option<String>, cur: bool) -> (r: bool)
    ensures
        r == env_flag(*v, cur),
{
    match v {
        Some(s) => if eq_lit(&str_chars(s.as_str()), "true") {
            true
        } else if eq_lit(&str_chars(s.as_str()), "false") {
            false
        } else {
            cur
        },
        None => cur,
    }
}

fn tokens_from_env(v: &Option<String>, cur: TokenCount) -> (r: TokenCount)
    ensures
        r.count() == env_tokens(*v, cur.count()),
{
    match v {
        Some(s) => match parse_token_count(s.as_str()) {
            Some(t) => t,
            None => cur,
        },
        None => cur,
    }
}

fn override_opt(v: Option<String>, cur: Option<String>) -> (r: Option<String>)
    ensures
        opt_view(r) == env_opt(v, opt_view(cur)),
{
    match v {
        Some(s) => Some(s),
        None => cur,
    }
}

fn copy_string(s: &String) -> (r: String)
    ensures
        r@ == s@,
{
    string_from_chars(&str_chars(s.as_str()))
}

fn opt_clone(o: &Option<String>) -> (r: Option<String>)
    ensures
        opt_view(r) == opt_view(*o),
{
    match o {
        Some(s) => Some(copy_string(s)),
        None => None,
    }
}

fn min_tokens(a: TokenCount, b: TokenCount) -> (r: TokenCount)
    ensures
        r.count() == min_nat(a.count(), b.count()),
{
    if a.get() <= b.get() {
        a
    } else {
        b
    }
}

fn opt_min_tokens(o: Option<TokenCount>, hi: TokenCount) -> (r: Option<TokenCount>)
    ensures
        opt_count(r) == opt_min(opt_count(o), hi.count()),
{
    match o {
        Some(t) => Some(min_tokens(t, hi)),
        None => None,
    }
}

fn opt_clamp_usize(o: Option<usize>, lo: usize, hi: usize) -> (r: Option<usize>)
    requires
        lo <= hi,
    ensures
        r == opt_clamp(o, lo as nat, hi as nat),
{
    match o {
        Some(n) => Some(clamp_usize(n, lo, hi)),
        None => None,
    }
}

fn hold_to_limits(c: &mut Config, limits: &HardLimits)
    ensures
        final(c)@ == validated(old(c)@, *limits),
{
    c.max_input_tokens = min_tokens(c.max_input_tokens, limits.max_input);
    c.max_output_tokens = min_tokens(c.max_output_tokens, limits.max_output);
    c.free_tier.max_input_tokens = opt_min_tokens(c.free_tier.max_input_tokens, limits.max_input);
    c.free_tier.max_output_tokens = opt_min_tokens(c.free_tier.max_output_tokens, limits.max_output);
    c.free_tier.max_concurrent_requests = opt_clamp_usize(c.free_tier.max_concurrent_requests, 1, 20);
    c.free_tier.commit_history_depth = opt_clamp_usize(c.free_tier.commit_history_depth, 0, 50);
}

fn clamp_note_string(label: &str, from: usize, to: usize) -> (r: String)
    ensures
        r@ == clamp_note(label@, from as nat, to as nat),
{
    let mut m = lit(label);
    extend_chars(&mut m, &lit(" clamped from "));
    extend_chars(&mut m, &decimal_chars(from));
    extend_chars(&mut m, &lit(" to "));
    extend_chars(&mut m, &decimal_chars(to));
    string_from_chars(&m)
}

fn push_note(out: &mut Vec<String>, b: bool, m: String)
    ensures
        string_views(final(out)@) == string_views(old(out)@) + note_if(b, m@),
{
    if b {
        out.push(m);
        assert(string_views(out@) =~= string_views(old(out)@) + seq![m@]);
    } else {
        assert(string_views(out@) =~= string_views(old(out)@) + Seq::<Seq<char>>::empty());
    }
}

fn push_free_tokens_note(out: &mut Vec<String>, label: &str, o: Option<TokenCount>, hi: TokenCount)
    ensures
        string_views(final(out)@) == string_views(old(out)@) + free_tokens_note(
            label@,
            opt_count(o),
            hi.count(),
        ),
{
    match o {
        Some(t) => {
            let n = t.get();
            let h = hi.get();
            push_note(out, n > h, clamp_note_string(label, n as usize, h as usize));
        },
        None => {
            assert(string_views(out@) =~= string_views(old(out)@) + Seq::<Seq<char>>::empty());
        },
    }
}

fn push_free_count_note(out: &mut Vec<String>, label: &str, o: Option<usize>, lo: usize, hi: usize)
    requires
        lo <= hi,
    ensures
        string_views(final(out)@) == string_views(old(out)@) + free_count_note(
            label@,
            o,
            lo as nat,
            hi as nat,
        ),
{
    match o {
        Some(n) => {
            let c = clamp_usize(n, lo, hi);
            push_note(out, c != n, clamp_note_string(label, n, c));
        },
        None => {
            assert(string_views(out@) =~= string_views(old(out)@) + Seq::<Seq<char>>::empty());
        },
    }
}

impl Config {
    /// Holds the configuration to its limits (see `validated`) and returns
    /// the warnings for what was held (see `validation_warnings`).
    pub fn validate(&mut self, limits: &HardLimits) -> (w: Vec<String>)
        ensures
            final(self)@ == validated(old(self)@, *limits),
            string_views(w@) == validation_warnings(old(self)@, *limits),
    {
        let mut w: Vec<String> = Vec::new();
        let mi = limits.max_input.get();
        let mo = limits.max_output.get();
        let n = self.max_input_tokens.get();
        push_note(&mut w, n > mi, clamp_note_string("max_input_tokens", n as usize, mi as usize));
        let n = self.max_output_tokens.get();
        push_note(&mut w, n > mo, clamp_note_string("max_output_tokens", n as usize, mo as usize));
        push_free_tokens_note(&mut w, "free_tier.max_input_tokens", self.free_tier.max_input_tokens, limits.max_input);
        push_free_tokens_note(&mut w, "free_tier.max_output_tokens", self.free_tier.max_output_tokens, limits.max_output);
        push_free_count_note(&mut w, "free_tier.max_concurrent_requests", self.free_tier.max_concurrent_requests, 1, 20);
        push_free_count_note(&mut w, "free_tier.commit_history_depth", self.free_tier.commit_history_depth, 0, 50);
        let tier_unused = !self.use_experimental && match self.usage_tier {
            UsageTier::Standard => false,
            UsageTier::Free => true,
        };
        push_note(&mut w, tier_unused, string_from_chars(&lit("usage_tier set but experimental settings disabled; set use_experimental=true to apply")));
        proof {
            let c = old(self)@;
            let lim = *limits;
            assert(string_views(w@) =~= validation_warnings(c, lim));
        }
        hold_to_limits(self, limits);
        w
    }
}

fn apply_file(c: &mut Config, f: FileSettings)
    ensures
        final(c)@ == with_file(old(c)@, f),
{
    c.commit_message_max_length = f.commit_message_max_length;
    c.commit_message_validation_mode = f.commit_message_validation_mode;
    c.ignore_files = f.ignore_files;
    c.lockfile_token_limit = f.lockfile_token_limit;
    c.use_commit_history = f.use_commit_history;
    c.commit_history_depth = f.commit_history_depth;
    c.max_concurrent_requests = f.max_concurrent_requests;
    c.max_partial_failure_rate = f.max_partial_failure_rate;
    c.prompt_failure_rate_threshold = f.prompt_failure_rate_threshold;
    c.use_experimental = f.use_experimental;
    c.usage_tier = f.usage_tier;
    c.free_tier = f.free_tier;
}

fn apply_profile(c: &mut Config, p: ProfileSettings)
    ensures
        final(c)@ == with_profile(old(c)@, p),
{
    c.max_input_tokens = p.max_input_tokens;
    c.max_output_tokens = p.max_output_tokens;
    c.model_provider = p.provider;
    c.model = copy_string(&p.model);
    c.api_key = opt_clone(&p.api_key);
    c.model_api_url = opt_clone(&p.api_url);
    c.azure_api_version = opt_clone(&p.azure_api_version);
    c.azure_deployment_id = opt_clone(&p.azure_deployment_id);
    match &p.temperature {
        Some(t) => {
            c.model_temperature = copy_string(t);
        },
        None => {},
    }
    c.active_profile = Some(p);
}

/// Assembles the configuration from the global file's settings, the active
/// profile and the environment, and holds it to its limits (see `layered`),
/// with the warnings for what was held (see `Config::validate`).
pub fn layer_config(
    file: Option<FileSettings>,
    profile: Option<ProfileSettings>,
    env: EnvValues,
    limits: &HardLimits,
) -> (r: Result<(Config, Vec<String>), SettingError>)
    ensures
        match r {
            Ok((c, w)) => layered(file, profile, env, *limits) == Ok::<ConfigState, Seq<char>>(c@)
                && (layered_unheld(file, profile, env) matches Ok(u) && string_views(w@)
                == validation_warnings(u, *limits)),
            Err(e) => layered(file, profile, env, *limits) == Err::<ConfigState, Seq<char>>(
                e.message@,
            ),
        },
{
    let ghost file0 = file;
    let ghost profile0 = profile;
    let mut c = Config::default();
    match file {
        Some(f) => apply_file(&mut c, f),
        None => {},
    }
    let ghost c1 = c@;
    assert(c1 == (match file0 {
        Some(f) => with_file(default_state(), f),
        None => default_state(),
    }));
    match profile {
        Some(p) => apply_profile(&mut c, p),
        None => {},
    }
    let ghost c2 = c@;
    assert(c2 == (match profile0 {
        Some(p) => with_profile(c1, p),
        None => c1,
    }));
    let provider = match &env.model_provider {
        Some(s) => match parse_provider(s.as_str()) {
            Ok(k) => k,
            Err(e) => return Err(e),
        },
        None => c.model_provider,
    };
    let url = match &env.model_api_url {
        Some(s) => match parse_url(s.as_str()) {
            Ok(u) => Some(u),
            Err(m) => return Err(SettingError { message: m }),
        },
        None => opt_clone(&c.model_api_url),
    };
    c.max_input_tokens = tokens_from_env(&env.tokens_max_input, c.max_input_tokens);
    c.max_output_tokens = tokens_from_env(&env.tokens_output, c.max_output_tokens);
    c.model_provider = provider;
    match env.model {
        Some(m) => {
            c.model = m;
        },
        None => {},
    }
    c.api_key = override_opt(env.model_api_key, opt_clone(&c.api_key));
    c.model_api_url = url;
    c.azure_api_version = override_opt(env.azure_api_version, opt_clone(&c.azure_api_version));
    c.azure_deployment_id = override_opt(
        env.azure_deployment_id,
        opt_clone(&c.azure_deployment_id),
    );
    c.use_commit_history = flag_from_env(&env.use_commit_history, c.use_commit_history);
    c.commit_history_depth = count_from_env(&env.commit_history_depth, c.commit_history_depth, 0, 50);
    c.max_concurrent_requests = count_from_env(
        &env.concurrency_limit,
        c.max_concurrent_requests,
        1,
        20,
    );
    let ghost c3 = c@;
    assert(with_env(c2, env) == Ok::<ConfigState, Seq<char>>(c3));
    let warnings = c.validate(limits);
    Ok((c, warnings))
}

/// Each layer that sets a value overrides those below it: the environment
/// overrides the profile, which overrides the defaults (the model), and the
/// file, which overrides the defaults (the history flag); a provider or URL
/// in the environment that does not read is an error.
pub proof fn law_layers_override(
    file: Option<FileSettings>,
    profile: Option<ProfileSettings>,
    env: EnvValues,
    lim: HardLimits,
)
    ensures
        layered(file, profile, env, lim) matches Ok(c) ==> c.model == match env.model {
            Some(m) => m@,
            None => match profile {
                Some(p) => p.model@,
                None => "gpt-4.1-mini"@,
            },
        },
        layered(file, profile, env, lim) matches Ok(c) ==> c.use_commit_history == env_flag(
            env.use_commit_history,
            match file {
                Some(f) => f.use_commit_history,
                None => true,
            },
        ),
        (env.model_provider matches Some(s) && provider_value(s@) is None) ==> layered(
            file,
            profile,
            env,
            lim,
        ) is Err,
        env.model_provider is None ==> ((env.model_api_url matches Some(s) && url_parse(s@) is Err)
            ==> layered(file, profile, env, lim) is Err),
{
}

/// A history depth set in the environment is held to at most 50, and a
/// concurrency limit to 1..=20.
pub proof fn law_env_counts_clamped(
    file: Option<FileSettings>,
    profile: Option<ProfileSettings>,
    env: EnvValues,
    lim: HardLimits,
    depth: usize,
    limit: usize,
)
    requires
        env.commit_history_depth is Some,
        parse_usize(env.commit_history_depth->0@) == Some(depth),
        env.concurrency_limit is Some,
        parse_usize(env.concurrency_limit->0@) == Some(limit),
    ensures
        layered(file, profile, env, lim) matches Ok(c) ==> c.commit_history_depth == (if depth
            > 50 {
            50
        } else {
            depth as nat
        }) && c.max_concurrent_requests == clamp(limit as nat, 1, 20),
{
}

/// Whatever the layers set, the loaded token counts never exceed the
/// models' hard limits, and neither do the free tier's.
pub proof fn law_loaded_within_limits(
    file: Option<FileSettings>,
    profile: Option<ProfileSettings>,
    env: EnvValues,
    lim: HardLimits,
)
    ensures
        layered(file, profile, env, lim) matches Ok(c) ==> {
            &&& c.max_input_tokens <= lim.max_input.count()
            &&& c.max_output_tokens <= lim.max_output.count()
            &&& (c.free_tier.max_input_tokens matches Some(n) ==> n <= lim.max_input.count())
            &&& (c.free_tier.max_output_tokens matches Some(n) ==> n <= lim.max_output.count())
        },
{
}

/// What `config set` does to the active profile for a value `v` read for
/// key `k`: the profile's own keys take the value, token counts held to the
/// hard limits as the configuration's are; other keys leave it unchanged.
pub open spec fn profile_after(p: ProfileState, k: SettingKey, v: SettingV, lim: HardLimits) -> ProfileState {
    match k {
        SettingKey::MaxInputTokens => match v {
            SettingV::Tokens(n) => ProfileState {
                max_input_tokens: min_nat(n, lim.max_input.count()),
                ..p
            },
            _ => p,
        },
        SettingKey::MaxOutputTokens => match v {
            SettingV::Tokens(n) => ProfileState {
                max_output_tokens: min_nat(n, lim.max_output.count()),
                ..p
            },
            _ => p,
        },
        SettingKey::ModelProvider => match v {
            SettingV::Provider(x) => ProfileState { provider: x, ..p },
            _ => p,
        },
        SettingKey::Model => match v {
            SettingV::Text(t) => ProfileState { model: t, ..p },
            _ => p,
        },
        SettingKey::ApiKey => match v {
            SettingV::Text(t) => ProfileState { api_key: Some(t), ..p },
            _ => p,
        },
        SettingKey::ModelApiUrl => match v {
            SettingV::Url(u) => ProfileState { api_url: Some(u), ..p },
            _ => p,
        },
        SettingKey::AzureApiVersion => match v {
            SettingV::Text(t) => ProfileState { azure_api_version: Some(t), ..p },
            _ => p,
        },
        SettingKey::AzureDeploymentId => match v {
            SettingV::Text(t) => ProfileState { azure_deployment_id: Some(t), ..p },
            _ => p,
        },
        _ => p,
    }
}

/// What `config set` stores in the configuration itself for a value `v`
/// read for key `k`: the input and output token counts held to the hard
/// limits, every other value as read; a fractional value is not stored here.
pub open spec fn fields_after(c: ConfigState, k: SettingKey, v: SettingV, lim: HardLimits) -> ConfigState {
    match k {
        SettingKey::MaxInputTokens => match v {
            SettingV::Tokens(n) => ConfigState {
                max_input_tokens: min_nat(n, lim.max_input.count()),
                ..c
            },
            _ => c,
        },
        SettingKey::MaxOutputTokens => match v {
            SettingV::Tokens(n) => ConfigState {
                max_output_tokens: min_nat(n, lim.max_output.count()),
                ..c
            },
            _ => c,
        },
        SettingKey::ModelProvider => match v {
            SettingV::Provider(x) => ConfigState { model_provider: x, ..c },
            _ => c,
        },
        SettingKey::Model => match v {
            SettingV::Text(t) => ConfigState { model: t, ..c },
            _ => c,
        },
        SettingKey::ApiKey => match v {
            SettingV::Text(t) => ConfigState { api_key: Some(t), ..c },
            _ => c,
        },
        SettingKey::ModelApiUrl => match v {
            SettingV::Url(u) => ConfigState { model_api_url: Some(u), ..c },
            _ => c,
        },
        SettingKey::AzureApiVersion => match v {
            SettingV::Text(t) => ConfigState { azure_api_version: Some(t), ..c },
            _ => c,
        },
        SettingKey::AzureDeploymentId => match v {
            SettingV::Text(t) => ConfigState { azure_deployment_id: Some(t), ..c },
            _ => c,
        },
        SettingKey::IgnoreFiles => match v {
            SettingV::Files(f) => ConfigState { ignore_files: f, ..c },
            _ => c,
        },
        SettingKey::LockfileTokenLimit => match v {
            SettingV::Tokens(n) => ConfigState { lockfile_token_limit: n, ..c },
            _ => c,
        },
        SettingKey::UsageTier => match v {
            SettingV::Tier(t) => ConfigState { usage_tier: t, ..c },
            _ => c,
        },
        SettingKey::UseExperimental => match v {
            SettingV::Flag(b) => ConfigState { use_experimental: b, ..c },
            _ => c,
        },
        SettingKey::FreeTierMaxInputTokens => match v {
            SettingV::Tokens(n) => ConfigState {
                free_tier: FreeTierState { max_input_tokens: Some(n), ..c.free_tier },
                ..c
            },
            _ => c,
        },
        SettingKey::FreeTierMaxOutputTokens => match v {
            SettingV::Tokens(n) => ConfigState {
                free_tier: FreeTierState { max_output_tokens: Some(n), ..c.free_tier },
                ..c
            },
            _ => c,
        },
        SettingKey::FreeTierMaxConcurrentRequests => match v {
            SettingV::Count(n) => ConfigState {
                free_tier: FreeTierState { max_concurrent_requests: Some(n), ..c.free_tier },
                ..c
            },
            _ => c,
        },
        SettingKey::FreeTierCommitHistoryDepth => match v {
            SettingV::Count(n) => ConfigState {
                free_tier: FreeTierState { commit_history_depth: Some(n), ..c.free_tier },
                ..c
            },
            _ => c,
        },
        SettingKey::CommitMessageMaxLength => match v {
            SettingV::MaxLength(m) => ConfigState { commit_message_max_length: m, ..c },
            _ => c,
        },
        SettingKey::CommitMessageValidationMode => match v {
            SettingV::Mode(m) => ConfigState { commit_message_validation_mode: m, ..c },
            _ => c,
        },
        SettingKey::UseCommitHistory => match v {
            SettingV::Flag(b) => ConfigState { use_commit_history: b, ..c },
            _ => c,
        },
        SettingKey::CommitHistoryDepth => match v {
            SettingV::Count(n) => ConfigState { commit_history_depth: n as nat, ..c },
            _ => c,
        },
        SettingKey::MaxConcurrentRequests => match v {
            SettingV::Count(n) => ConfigState { max_concurrent_requests: n as nat, ..c },
            _ => c,
        },
        _ => c,
    }
}

/// The configuration after `config set` stored the value `v` read for key
/// `k`: its own fields as `fields_after` says, and the active profile, where
/// there is one, as `profile_after` says.
pub open spec fn config_after(c: ConfigState, k: SettingKey, v: SettingV, lim: HardLimits) -> ConfigState {
    ConfigState {
        active_profile: match c.active_profile {
            Some(p) => Some(profile_after(p, k, v, lim)),
            None => None,
        },
        ..fields_after(c, k, v, lim)
    }
}

/// What `Config::set` did with a value it accepted.
#[derive(Debug, Clone, Copy, PartialEq, Eq, Structural)]
pub enum SetOutcome {
    /// The value is stored.
    Stored,
    /// The key takes a fractional number, which the caller reads and stores.
    Fractional,
}

fn copy_profile(p: &ProfileSettings) -> (r: ProfileSettings)
    ensures
        r@ == p@,
{
    ProfileSettings {
        name: copy_string(&p.name),
        provider: p.provider,
        model: copy_string(&p.model),
        api_key: opt_clone(&p.api_key),
        api_url: opt_clone(&p.api_url),
        azure_api_version: opt_clone(&p.azure_api_version),
        azure_deployment_id: opt_clone(&p.azure_deployment_id),
        max_input_tokens: p.max_input_tokens,
        max_output_tokens: p.max_output_tokens,
        temperature: opt_clone(&p.temperature),
    }
}

fn profile_updated(
    p: &Option<ProfileSettings>,
    k: SettingKey,
    v: &SettingValue,
    limits: &HardLimits,
) -> (r: Option<ProfileSettings>)
    ensures
        opt_profile(r) == match opt_profile(*p) {
            Some(q) => Some(profile_after(q, k, v@, *limits)),
            None => None,
        },
{
    match p {
        None => None,
        Some(q) => {
            let mut n = copy_profile(q);
            match (k, v) {
                (SettingKey::MaxInputTokens, SettingValue::Tokens(t)) => {
                    n.max_input_tokens = min_tokens(*t, limits.max_input);
                },
                (SettingKey::MaxOutputTokens, SettingValue::Tokens(t)) => {
                    n.max_output_tokens = min_tokens(*t, limits.max_output);
                },
                (SettingKey::ModelProvider, SettingValue::Provider(x)) => {
                    n.provider = *x;
                },
                (SettingKey::Model, SettingValue::Text(t)) => {
                    n.model = copy_string(t);
                },
                (SettingKey::ApiKey, SettingValue::Text(t)) => {
                    n.api_key = Some(copy_string(t));
                },
                (SettingKey::ModelApiUrl, SettingValue::Url(u)) => {
                    n.api_url = Some(copy_string(u));
                },
                (SettingKey::AzureApiVersion, SettingValue::Text(t)) => {
                    n.azure_api_version = Some(copy_string(t));
                },
                (SettingKey::AzureDeploymentId, SettingValue::Text(t)) => {
                    n.azure_deployment_id = Some(copy_string(t));
                },
                _ => {},
            }
            Some(n)
        },
    }
}

fn store_value(c: &mut Config, k: SettingKey, v: SettingValue, limits: &HardLimits)
    ensures
        final(c)@ == fields_after(old(c)@, k, v@, *limits),
{
    match (k, v) {
        (SettingKey::MaxInputTokens, SettingValue::Tokens(t)) => {
            c.max_input_tokens = min_tokens(t, limits.max_input);
        },
        (SettingKey::MaxOutputTokens, SettingValue::Tokens(t)) => {
            c.max_output_tokens = min_tokens(t, limits.max_output);
        },
        (SettingKey::ModelProvider, SettingValue::Provider(x)) => {
            c.model_provider = x;
        },
        (SettingKey::Model, SettingValue::Text(t)) => {
            c.model = t;
        },
        (SettingKey::ApiKey, SettingValue::Text(t)) => {
            c.api_key = Some(t);
        },
        (SettingKey::ModelApiUrl, SettingValue::Url(u)) => {
            c.model_api_url = Some(u);
        },
        (SettingKey::AzureApiVersion, SettingValue::Text(t)) => {
            c.azure_api_version = Some(t);
        },
        (SettingKey::AzureDeploymentId, SettingValue::Text(t)) => {
            c.azure_deployment_id = Some(t);
        },
        (SettingKey::IgnoreFiles, SettingValue::Files(f)) => {
            c.ignore_files = f;
        },
        (SettingKey::LockfileTokenLimit, SettingValue::Tokens(t)) => {
            c.lockfile_token_limit = t;
        },
        (SettingKey::UsageTier, SettingValue::Tier(t)) => {
            c.usage_tier = t;
        },
        (SettingKey::UseExperimental, SettingValue::Flag(b)) => {
            c.use_experimental = b;
        },
        (SettingKey::FreeTierMaxInputTokens, SettingValue::Tokens(t)) => {
            c.free_tier.max_input_tokens = Some(t);
        },
        (SettingKey::FreeTierMaxOutputTokens, SettingValue::Tokens(t)) => {
            c.free_tier.max_output_tokens = Some(t);
        },
        (SettingKey::FreeTierMaxConcurrentRequests, SettingValue::Count(n)) => {
            c.free_tier.max_concurrent_requests = Some(n);
        },
        (SettingKey::FreeTierCommitHistoryDepth, SettingValue::Count(n)) => {
            c.free_tier.commit_history_depth = Some(n);
        },
        (SettingKey::CommitMessageMaxLength, SettingValue::MaxLength(m)) => {
            c.commit_message_max_length = m;
        },
        (SettingKey::CommitMessageValidationMode, SettingValue::Mode(m)) => {
            c.commit_message_validation_mode = m;
        },
        (SettingKey::UseCommitHistory, SettingValue::Flag(b)) => {
            c.use_commit_history = b;
        },
        (SettingKey::CommitHistoryDepth, SettingValue::Count(n)) => {
            c.commit_history_depth = n;
        },
        (SettingKey::MaxConcurrentRequests, SettingValue::Count(n)) => {
            c.max_concurrent_requests = n;
        },
        _ => {},
    }
}

fn apply_setting(c: &mut Config, k: SettingKey, v: SettingValue, limits: &HardLimits)
    ensures
        final(c)@ == config_after(old(c)@, k, v@, *limits),
{
    c.active_profile = profile_updated(&c.active_profile, k, &v, limits);
    store_value(c, k, v, limits);
}

proof fn lemma_accepted_key_known(key: Seq<char>, value: Seq<char>)
    ensures
        setting_value(key, value) is Ok ==> setting_key(key) is Some,
{
}

impl Config {
    /// Sets the configuration key `key` to `value`, as `config set` does.
    /// The value is read as `parse_setting` reads it; where it is refused the
    /// configuration is left as it was and the error comes back. Otherwise
    /// it is stored (see `config_after`): input and output token counts are
    /// held to `limits`, and a key of the provider profile is written to the
    /// active profile too. A key whose value is a fractional number is left
    /// to the caller, which the outcome says.
    pub fn set(&mut self, key: &str, value: &str, limits: &HardLimits) -> (r: Result<
        SetOutcome,
        SettingError,
    >)
        ensures
            match setting_value(key@, value@) {
                Ok(v) => r matches Ok(o) && (o == SetOutcome::Fractional <==> v is Unparsed)
                    && final(self)@ == config_after(old(self)@, setting_key(key@)->0, v, *limits),
                Err(m) => r matches Err(e) && e.message@ == m && final(self)@ == old(self)@,
            },
    {
        let v = match parse_setting(key, value) {
            Ok(v) => v,
            Err(e) => return Err(e),
        };
        proof {
            lemma_accepted_key_known(key@, value@);
        }
        let k = match setting_key_of(&str_chars(key)) {
            Some(k) => k,
            None => {
                return Ok(SetOutcome::Stored);
            },
        };
        let outcome = match v {
            SettingValue::Unparsed => SetOutcome::Fractional,
            _ => SetOutcome::Stored,
        };
        apply_setting(self, k, v, limits);
        Ok(outcome)
    }
}

/// The name of a provider kind.
pub open spec fn provider_name(k: ProviderKind) -> Seq<char> {
    match k {
        ProviderKind::OpenAI => "openai"@,
        ProviderKind::Azure => "azure"@,
    }
}

/// The name of a usage tier.
pub open spec fn tier_name(t: UsageTier) -> Seq<char> {
    match t {
        UsageTier::Standard => "standard"@,
        UsageTier::Free => "free"@,
    }
}

/// The name of a validation mode.
pub open spec fn mode_name(m: ValidationMode) -> Seq<char> {
    match m {
        ValidationMode::Strict => "strict"@,
        ValidationMode::Soft => "soft"@,
        ValidationMode::Disabled => "disabled"@,
    }
}

/// A flag as text.
pub open spec fn flag_text(b: bool) -> Seq<char> {
    if b {
        "true"@
    } else {
        "false"@
    }
}

/// An optional count as text.
pub open spec fn opt_decimal(o: Option<nat>) -> Option<Seq<char>> {
    match o {
        Some(n) => Some(decimal(n)),
        None => None,
    }
}

/// The view of an optional `usize` as a count.
pub open spec fn opt_nat(o: Option<usize>) -> Option<nat> {
    match o {
        Some(n) => Some(n as nat),
        None => None,
    }
}

/// The text `config get` shows for `key`: the value the configuration holds
/// for it, `None` for an unset optional value (a free-tier limit left to its
/// default among them) and for a key it does not know.
pub open spec fn value_of(c: ConfigState, key: Seq<char>) -> Option<Seq<char>> {
    if key == "max_input_tokens"@ {
        Some(decimal(c.max_input_tokens))
    } else if key == "max_output_tokens"@ {
        Some(decimal(c.max_output_tokens))
    } else if key == "model_provider"@ {
        Some(provider_name(c.model_provider))
    } else if key == "model"@ {
        Some(c.model)
    } else if key == "api_key"@ || key == "model_api_key"@ {
        c.api_key
    } else if key == "model_api_url"@ {
        c.model_api_url
    } else if key == "azure_api_version"@ {
        c.azure_api_version
    } else if key == "azure_deployment_id"@ {
        c.azure_deployment_id
    } else if key == "ignore_files"@ {
        Some(join(c.ignore_files, ","@))
    } else if key == "lockfile_token_limit"@ {
        Some(decimal(c.lockfile_token_limit))
    } else if key == "usage_tier"@ {
        Some(tier_name(c.usage_tier))
    } else if key == "use_experimental"@ {
        Some(flag_text(c.use_experimental))
    } else if key == "free_tier_max_input_tokens"@ {
        opt_decimal(c.free_tier.max_input_tokens)
    } else if key == "free_tier_max_output_tokens"@ {
        opt_decimal(c.free_tier.max_output_tokens)
    } else if key == "free_tier_max_concurrent_requests"@ {
        opt_decimal(opt_nat(c.free_tier.max_concurrent_requests))
    } else if key == "free_tier_commit_history_depth"@ {
        opt_decimal(opt_nat(c.free_tier.commit_history_depth))
    } else if key == "commit_message_max_length"@ {
        opt_decimal(opt_nat(c.commit_message_max_length))
    } else if key == "commit_message_validation_mode"@ {
        Some(mode_name(c.commit_message_validation_mode))
    } else if key == "use_commit_history"@ {
        Some(flag_text(c.use_commit_history))
    } else if key == "commit_history_depth"@ {
        Some(decimal(c.commit_history_depth))
    } else if key == "max_concurrent_requests"@ {
        Some(decimal(c.max_concurrent_requests))
    } else if key == "max_partial_failure_rate"@ {
        Some(c.max_partial_failure_rate)
    } else if key == "prompt_failure_rate_threshold"@ {
        Some(c.prompt_failure_rate_threshold)
    } else if key == "model_temperature"@ {
        Some(c.model_temperature)
    } else {
        None
    }
}

fn text_of(s: &str) -> (r: Option<String>)
    ensures
        r matches Some(t) && t@ == s@,
{
    Some(string_from_chars(&lit(s)))
}

fn flag_string(b: bool) -> (r: Option<String>)
    ensures
        r matches Some(t) && t@ == flag_text(b),
{
    if b {
        text_of("true")
    } else {
        text_of("false")
    }
}

fn count_string(n: usize) -> (r: Option<String>)
    ensures
        r matches Some(t) && t@ == decimal(n as nat),
{
    Some(string_from_chars(&decimal_chars(n)))
}

fn opt_count_string(o: Option<usize>) -> (r: Option<String>)
    ensures
        opt_view(r) == opt_decimal(opt_nat(o)),
{
    match o {
        Some(n) => count_string(n),
        None => None,
    }
}

fn opt_tokens_string(o: Option<TokenCount>) -> (r: Option<String>)
    ensures
        opt_view(r) == opt_decimal(opt_count(o)),
{
    match o {
        Some(t) => count_string(t.get() as usize),
        None => None,
    }
}

/// The value `config get` shows for `key` (see `value_of`).
pub fn config_value(c: &Config, key: &str) -> (r: Option<String>)
    ensures
        opt_view(r) == value_of(c@, key@),
{
    let k = str_chars(key);
    if eq_lit(&k, "max_input_tokens") {
        count_string(c.max_input_tokens.get() as usize)
    } else if eq_lit(&k, "max_output_tokens") {
        count_string(c.max_output_tokens.get() as usize)
    } else if eq_lit(&k, "model_provider") {
        match c.model_provider {
            ProviderKind::OpenAI => text_of("openai"),
            ProviderKind::Azure => text_of("azure"),
        }
    } else if eq_lit(&k, "model") {
        Some(copy_string(&c.model))
    } else if eq_lit(&k, "api_key") || eq_lit(&k, "model_api_key") {
        opt_clone(&c.api_key)
    } else if eq_lit(&k, "model_api_url") {
        opt_clone(&c.model_api_url)
    } else if eq_lit(&k, "azure_api_version") {
        opt_clone(&c.azure_api_version)
    } else if eq_lit(&k, "azure_deployment_id") {
        opt_clone(&c.azure_deployment_id)
    } else if eq_lit(&k, "ignore_files") {
        Some(string_from_chars(&join_strings(&c.ignore_files, ",")))
    } else if eq_lit(&k, "lockfile_token_limit") {
        count_string(c.lockfile_token_limit.get() as usize)
    } else if eq_lit(&k, "usage_tier") {
        match c.usage_tier {
            UsageTier::Standard => text_of("standard"),
            UsageTier::Free => text_of("free"),
        }
    } else if eq_lit(&k, "use_experimental") {
        flag_string(c.use_experimental)
    } else if eq_lit(&k, "free_tier_max_input_tokens") {
        opt_tokens_string(c.free_tier.max_input_tokens)
    } else if eq_lit(&k, "free_tier_max_output_tokens") {
        opt_tokens_string(c.free_tier.max_output_tokens)
    } else if eq_lit(&k, "free_tier_max_concurrent_requests") {
        opt_count_string(c.free_tier.max_concurrent_requests)
    } else if eq_lit(&k, "free_tier_commit_history_depth") {
        opt_count_string(c.free_tier.commit_history_depth)
    } else if eq_lit(&k, "commit_message_max_length") {
        opt_count_string(c.commit_message_max_length)
    } else if eq_lit(&k, "commit_message_validation_mode") {
        match c.commit_message_validation_mode {
            ValidationMode::Strict => text_of("strict"),
            ValidationMode::Soft => text_of("soft"),
            ValidationMode::Disabled => text_of("disabled"),
        }
    } else if eq_lit(&k, "use_commit_history") {
        flag_string(c.use_commit_history)
    } else if eq_lit(&k, "commit_history_depth") {
        count_string(c.commit_history_depth)
    } else if eq_lit(&k, "max_concurrent_requests") {
        count_string(c.max_concurrent_requests)
    } else if eq_lit(&k, "max_partial_failure_rate") {
        Some(copy_string(&c.max_partial_failure_rate))
    } else if eq_lit(&k, "prompt_failure_rate_threshold") {
        Some(copy_string(&c.prompt_failure_rate_threshold))
    } else if eq_lit(&k, "model_temperature") {
        Some(copy_string(&c.model_temperature))
    } else {
        None
    }
}

proof fn lemma_profile_key_names()
    ensures
        setting_key("max_input_tokens"@) == Some(SettingKey::MaxInputTokens),
        setting_key("max_output_tokens"@) == Some(SettingKey::MaxOutputTokens),
        setting_key("model_provider"@) == Some(SettingKey::ModelProvider),
        setting_key("model"@) == Some(SettingKey::Model),
        setting_key("api_key"@) == Some(SettingKey::ApiKey),
        setting_key("model_api_key"@) == Some(SettingKey::ApiKey),
        setting_key("model_api_url"@) == Some(SettingKey::ModelApiUrl),
        setting_key("azure_api_version"@) == Some(SettingKey::AzureApiVersion),
        setting_key("azure_deployment_id"@) == Some(SettingKey::AzureDeploymentId),
        forall|c: ConfigState| #[trigger]
            value_of(c, "max_input_tokens"@) == Some(decimal(c.max_input_tokens)),
        forall|c: ConfigState| #[trigger]
            value_of(c, "max_output_tokens"@) == Some(decimal(c.max_output_tokens)),
        forall|c: ConfigState| #[trigger] value_of(c, "model"@) == Some(c.model),
        forall|c: ConfigState| #[trigger] value_of(c, "api_key"@) == c.api_key,
        forall|c: ConfigState| #[trigger] value_of(c, "model_api_key"@) == c.api_key,
        forall|c: ConfigState| #[trigger]
            value_of(c, "azure_api_version"@) == c.azure_api_version,
        forall|c: ConfigState| #[trigger]
            value_of(c, "azure_deployment_id"@) == c.azure_deployment_id,
{
    reveal_strlit("max_input_tokens");
    reveal_strlit("max_output_tokens");
    reveal_strlit("model_provider");
    reveal_strlit("model");
    reveal_strlit("api_key");
    reveal_strlit("model_api_key");
    reveal_strlit("model_api_url");
    reveal_strlit("azure_api_version");
    reveal_strlit("azure_deployment_id");
    assert("max_input_tokens"@.len() == 16);
    assert("max_output_tokens"@.len() == 17);
    assert("model_provider"@.len() == 14);
    assert("model"@.len() == 5);
    assert("api_key"@.len() == 7);
    assert("model_api_key"@.len() == 13);
    assert("model_api_url"@.len() == 13);
    assert("azure_api_version"@.len() == 17);
    assert("azure_deployment_id"@.len() == 19);
    assert("model_api_url"@[10] != "model_api_key"@[10]);
    assert("azure_api_version"@[0] != "max_output_tokens"@[0]);
}

/// A name or secret that `config set` accepts for the model, the API key
/// (under either of its names) or an Azure setting is what `config get`
/// shows for that key afterwards, under both names for the key.
pub proof fn law_set_then_get(c: ConfigState, key: Seq<char>, value: Seq<char>, lim: HardLimits)
    requires
        key == "model"@ || key == "api_key"@ || key == "model_api_key"@ || key
            == "azure_api_version"@ || key == "azure_deployment_id"@,
    ensures
        setting_value(key, value) == Ok::<SettingV, Seq<char>>(SettingV::Text(value)),
        value_of(config_after(c, setting_key(key)->0, SettingV::Text(value), lim), key) == Some(
            value,
        ),
        (key == "api_key"@ || key == "model_api_key"@) ==> value_of(
            config_after(c, setting_key(key)->0, SettingV::Text(value), lim),
            "api_key"@,
        ) == Some(value) && value_of(
            config_after(c, setting_key(key)->0, SettingV::Text(value), lim),
            "model_api_key"@,
        ) == Some(value),
{
    lemma_profile_key_names();
}

/// A token count that `config set` accepts for the input or output budget
/// is stored held to the hard limit, in the configuration and in the active
/// profile alike, and `config get` shows the held count.
pub proof fn law_set_tokens_held(
    c: ConfigState,
    key: Seq<char>,
    value: Seq<char>,
    lim: HardLimits,
    n: nat,
)
    requires
        key == "max_input_tokens"@ || key == "max_output_tokens"@,
        token_value(value) == Some(n),
    ensures
        setting_value(key, value) == Ok::<SettingV, Seq<char>>(SettingV::Tokens(n)),
        ({
            let after = config_after(c, setting_key(key)->0, SettingV::Tokens(n), lim);
            let hi = if key == "max_input_tokens"@ {
                lim.max_input.count()
            } else {
                lim.max_output.count()
            };
            let held = min_nat(n, hi);
            &&& value_of(after, key) == Some(decimal(held))
            &&& key == "max_input_tokens"@ ==> after.max_input_tokens == held
                && after.max_output_tokens == c.max_output_tokens
            &&& key == "max_output_tokens"@ ==> after.max_output_tokens == held
                && after.max_input_tokens == c.max_input_tokens
            &&& held <= hi
            &&& (after.active_profile matches Some(p) ==> (key == "max_input_tokens"@
                ==> p.max_input_tokens == held) && (key == "max_output_tokens"@
                ==> p.max_output_tokens == held))
        }),
{
    lemma_profile_key_names();
}

/// After `config set` accepts a value for a key of the provider profile, the
/// active profile, where there is one, holds what the configuration holds
/// for that key; the profile's name does not change, and no profile appears
/// where there was none.
pub proof fn law_set_syncs_profile(
    c: ConfigState,
    key: Seq<char>,
    value: Seq<char>,
    lim: HardLimits,
    v: SettingV,
)
    requires
        setting_value(key, value) == Ok::<SettingV, Seq<char>>(v),
    ensures
        ({
            let after = config_after(c, setting_key(key)->0, v, lim);
            &&& c.active_profile is None ==> after.active_profile is None
            &&& c.active_profile matches Some(p0) ==> (after.active_profile matches Some(p) && {
                &&& p.name == p0.name
                &&& key == "max_input_tokens"@ ==> p.max_input_tokens == after.max_input_tokens
                &&& key == "max_output_tokens"@ ==> p.max_output_tokens == after.max_output_tokens
                &&& key == "model_provider"@ ==> p.provider == after.model_provider
                &&& key == "model"@ ==> p.model == after.model
                &&& (key == "api_key"@ || key == "model_api_key"@) ==> p.api_key == after.api_key
                &&& key == "model_api_url"@ ==> p.api_url == after.model_api_url
                &&& key == "azure_api_version"@ ==> p.azure_api_version == after.azure_api_version
                &&& key == "azure_deployment_id"@ ==> p.azure_deployment_id
                    == after.azure_deployment_id
            })
        }),
{
    lemma_profile_key_names();
}

/// `config set` with a key that is not known is refused with a message that
/// names the key, and (see `Config::set`) changes nothing.
pub proof fn law_set_unknown_key(key: Seq<char>, value: Seq<char>)
    requires
        setting_key(key) is None,
    ensures
        setting_value(key, value) == Err::<SettingV, Seq<char>>(
            "Unknown configuration key: "@ + key,
        ),
{
}

/// An optional value as `config list` shows it: the value, or `<not set>`.
pub open spec fn shown_or_unset(v: Option<Seq<char>>) -> Seq<char> {
    match v {
        Some(s) => s,
        None => "<not set>"@,
    }
}

/// An optional count as `config list` shows it: the number, or `fallback`.
pub open spec fn count_or(o: Option<nat>, fallback: Seq<char>) -> Seq<char> {
    match o {
        Some(n) => decimal(n),
        None => fallback,
    }
}

/// The name of the active profile as `config list` shows it.
pub open spec fn profile_name_shown(p: Option<ProfileState>) -> Seq<char> {
    match p {
        Some(p) => p.name,
        None => "<none>"@,
    }
}

/// The lines of `config list`, in the order the command prints them: every
/// setting (the API key only as set or not, an unset message length as the
/// default of 72, a free-tier limit left to its default as `<default>`),
/// then a blank line and the active profile's name.
pub open spec fn list_lines(c: ConfigState) -> Seq<Seq<char>> {
    seq![
        "Configuration values:"@,
        "  max_input_tokens: "@ + decimal(c.max_input_tokens),
        "  max_output_tokens: "@ + decimal(c.max_output_tokens),
        "  model_provider: "@ + provider_name(c.model_provider),
        "  model: "@ + c.model,
        "  api_key: "@ + if c.api_key is Some { "<set>"@ } else { "<not set>"@ },
        "  model_api_url: "@ + shown_or_unset(c.model_api_url),
        "  azure_api_version: "@ + shown_or_unset(c.azure_api_version),
        "  azure_deployment_id: "@ + shown_or_unset(c.azure_deployment_id),
        "  ignore_files: "@ + join(c.ignore_files, ", "@),
        "  lockfile_token_limit: "@ + decimal(c.lockfile_token_limit),
        "  model_temperature: "@ + c.model_temperature,
        "  commit_message_max_length: "@ + count_or(
            opt_nat(c.commit_message_max_length),
            "<default (72)>"@,
        ),
        "  commit_message_validation_mode: "@ + mode_name(c.commit_message_validation_mode),
        "  use_commit_history: "@ + flag_text(c.use_commit_history),
        "  commit_history_depth: "@ + decimal(c.commit_history_depth),
        "  max_concurrent_requests: "@ + decimal(c.max_concurrent_requests),
        "  max_partial_failure_rate: "@ + c.max_partial_failure_rate,
        "  prompt_failure_rate_threshold: "@ + c.prompt_failure_rate_threshold,
        "  usage_tier: "@ + tier_name(c.usage_tier),
        "  use_experimental: "@ + flag_text(c.use_experimental),
        "  free_tier_max_input_tokens: "@ + count_or(c.free_tier.max_input_tokens, "<default>"@),
        "  free_tier_max_output_tokens: "@ + count_or(c.free_tier.max_output_tokens, "<default>"@),
        "  free_tier_max_concurrent_requests: "@ + count_or(
            opt_nat(c.free_tier.max_concurrent_requests),
            "<default>"@,
        ),
        "  free_tier_commit_history_depth: "@ + count_or(
            opt_nat(c.free_tier.commit_history_depth),
            "<default>"@,
        ),
        Seq::<char>::empty(),
        "  Active profile: "@ + profile_name_shown(c.active_profile),
    ]
}

fn line_of(label: &str, value: &Vec<char>) -> (r: String)
    ensures
        r@ == label@ + value@,
{
    let mut l = lit(label);
    crate::text::extend_chars(&mut l, value);
    string_from_chars(&l)
}

fn unset_or(o: &Option<String>) -> (r: Vec<char>)
    ensures
        r@ == shown_or_unset(opt_view(*o)),
{
    match o {
        Some(s) => str_chars(s.as_str()),
        None => lit("<not set>"),
    }
}

fn count_or_chars(o: Option<usize>, fallback: &str) -> (r: Vec<char>)
    ensures
        r@ == count_or(opt_nat(o), fallback@),
{
    match o {
        Some(n) => decimal_chars(n),
        None => lit(fallback),
    }
}

fn tokens_or_chars(o: Option<TokenCount>, fallback: &str) -> (r: Vec<char>)
    ensures
        r@ == count_or(opt_count(o), fallback@),
{
    match o {
        Some(t) => decimal_chars(t.get() as usize),
        None => lit(fallback),
    }
}

fn flag_chars(b: bool) -> (r: Vec<char>)
    ensures
        r@ == flag_text(b),
{
    if b {
        lit("true")
    } else {
        lit("false")
    }
}

/// The lines `config list` prints for this configuration (see `list_lines`).
pub fn config_list_lines(c: &Config) -> (r: Vec<String>)
    ensures
        string_views(r@) == list_lines(c@),
{
    let mut out: Vec<String> = Vec::new();
    out.push(string_from_chars(&lit("Configuration values:")));
    out.push(line_of("  max_input_tokens: ", &decimal_chars(c.max_input_tokens.get() as usize)));
    out.push(line_of("  max_output_tokens: ", &decimal_chars(c.max_output_tokens.get() as usize)));
    let provider = match c.model_provider {
        ProviderKind::OpenAI => lit("openai"),
        ProviderKind::Azure => lit("azure"),
    };
    out.push(line_of("  model_provider: ", &provider));
    out.push(line_of("  model: ", &str_chars(c.model.as_str())));
    let key = if c.api_key.is_some() {
        lit("<set>")
    } else {
        lit("<not set>")
    };
    out.push(line_of("  api_key: ", &key));
    out.push(line_of("  model_api_url: ", &unset_or(&c.model_api_url)));
    out.push(line_of("  azure_api_version: ", &unset_or(&c.azure_api_version)));
    out.push(line_of("  azure_deployment_id: ", &unset_or(&c.azure_deployment_id)));
    out.push(line_of("  ignore_files: ", &join_strings(&c.ignore_files, ", ")));
    out.push(
        line_of("  lockfile_token_limit: ", &decimal_chars(c.lockfile_token_limit.get() as usize)),
    );
    out.push(line_of("  model_temperature: ", &str_chars(c.model_temperature.as_str())));
    out.push(
        line_of(
            "  commit_message_max_length: ",
            &count_or_chars(c.commit_message_max_length, "<default (72)>"),
        ),
    );
    let mode = match c.commit_message_validation_mode {
        ValidationMode::Strict => lit("strict"),
        ValidationMode::Soft => lit("soft"),
        ValidationMode::Disabled => lit("disabled"),
    };
    out.push(line_of("  commit_message_validation_mode: ", &mode));
    out.push(line_of("  use_commit_history: ", &flag_chars(c.use_commit_history)));
    out.push(line_of("  commit_history_depth: ", &decimal_chars(c.commit_history_depth)));
    out.push(line_of("  max_concurrent_requests: ", &decimal_chars(c.max_concurrent_requests)));
    out.push(
        line_of("  max_partial_failure_rate: ", &str_chars(c.max_partial_failure_rate.as_str())),
    );
    out.push(
        line_of(
            "  prompt_failure_rate_threshold: ",
            &str_chars(c.prompt_failure_rate_threshold.as_str()),
        ),
    );
    let tier = match c.usage_tier {
        UsageTier::Standard => lit("standard"),
        UsageTier::Free => lit("free"),
    };
    out.push(line_of("  usage_tier: ", &tier));
    out.push(line_of("  use_experimental: ", &flag_chars(c.use_experimental)));
    out.push(
        line_of(
            "  free_tier_max_input_tokens: ",
            &tokens_or_chars(c.free_tier.max_input_tokens, "<default>"),
        ),
    );
    out.push(
        line_of(
            "  free_tier_max_output_tokens: ",
            &tokens_or_chars(c.free_tier.max_output_tokens, "<default>"),
        ),
    );
    out.push(
        line_of(
            "  free_tier_max_concurrent_requests: ",
            &count_or_chars(c.free_tier.max_concurrent_requests, "<default>"),
        ),
    );
    out.push(
        line_of(
            "  free_tier_commit_history_depth: ",
            &count_or_chars(c.free_tier.commit_history_depth, "<default>"),
        ),
    );
    out.push(string_from_chars(&Vec::new()));
    let name = match &c.active_profile {
        Some(p) => str_chars(p.name.as_str()),
        None => lit("<none>"),
    };
    out.push(line_of("  Active profile: ", &name));
    assert(string_views(out@) =~= list_lines(c@));
    out
}

} // verus!
