//! How `config set` reads the value it is given for a configuration key.
//!
//! The keys, the way each value is parsed, the clamps and the error messages
//! are decided here; storing the result in the configuration is left to the
//! caller.
use vstd::prelude::*;
use crate::cli::{eq_lit, parse_usize, parse_usize_exec};
use crate::tokenizer::TokenCount;
use crate::text::{
    extend_chars, lit, lowercase_chars, str_chars, string_from_chars, string_views, trim,
    trim_chars, lowercase_of, parse_u64, parse_u64_chars, all_ascii, ascii_lower_seq,
};

verus! {

/// The configuration keys that `config set` knows.
#[derive(Debug, Clone, Copy, PartialEq, Eq, Structural)]
pub enum SettingKey {
    MaxInputTokens,
    MaxOutputTokens,
    ModelProvider,
    Model,
    /// `api_key` or its alias `model_api_key`.
    ApiKey,
    ModelApiUrl,
    AzureApiVersion,
    AzureDeploymentId,
    IgnoreFiles,
    LockfileTokenLimit,
    UsageTier,
    UseExperimental,
    FreeTierMaxInputTokens,
    FreeTierMaxOutputTokens,
    FreeTierMaxConcurrentRequests,
    FreeTierCommitHistoryDepth,
    CommitMessageMaxLength,
    CommitMessageValidationMode,
    UseCommitHistory,
    CommitHistoryDepth,
    MaxConcurrentRequests,
    MaxPartialFailureRate,
    PromptFailureRateThreshold,
    ModelTemperature,
}

/// The key that the name `k` stands for.
pub open spec fn setting_key(k: Seq<char>) -> Option<SettingKey> {
    if k == "max_input_tokens"@ {
        Some(SettingKey::MaxInputTokens)
    } else if k == "max_output_tokens"@ {
        Some(SettingKey::MaxOutputTokens)
    } else if k == "model_provider"@ {
        Some(SettingKey::ModelProvider)
    } else if k == "model"@ {
        Some(SettingKey::Model)
    } else if k == "api_key"@ || k == "model_api_key"@ {
        Some(SettingKey::ApiKey)
    } else if k == "model_api_url"@ {
        Some(SettingKey::ModelApiUrl)
    } else if k == "azure_api_version"@ {
        Some(SettingKey::AzureApiVersion)
    } else if k == "azure_deployment_id"@ {
        Some(SettingKey::AzureDeploymentId)
    } else if k == "ignore_files"@ {
        Some(SettingKey::IgnoreFiles)
    } else if k == "lockfile_token_limit"@ {
        Some(SettingKey::LockfileTokenLimit)
    } else if k == "usage_tier"@ {
        Some(SettingKey::UsageTier)
    } else if k == "use_experimental"@ {
        Some(SettingKey::UseExperimental)
    } else if k == "free_tier_max_input_tokens"@ {
        Some(SettingKey::FreeTierMaxInputTokens)
    } else if k == "free_tier_max_output_tokens"@ {
        Some(SettingKey::FreeTierMaxOutputTokens)
    } else if k == "free_tier_max_concurrent_requests"@ {
        Some(SettingKey::FreeTierMaxConcurrentRequests)
    } else if k == "free_tier_commit_history_depth"@ {
        Some(SettingKey::FreeTierCommitHistoryDepth)
    } else if k == "commit_message_max_length"@ {
        Some(SettingKey::CommitMessageMaxLength)
    } else if k == "commit_message_validation_mode"@ {
        Some(SettingKey::CommitMessageValidationMode)
    } else if k == "use_commit_history"@ {
        Some(SettingKey::UseCommitHistory)
    } else if k == "commit_history_depth"@ {
        Some(SettingKey::CommitHistoryDepth)
    } else if k == "max_concurrent_requests"@ {
        Some(SettingKey::MaxConcurrentRequests)
    } else if k == "max_partial_failure_rate"@ {
        Some(SettingKey::MaxPartialFailureRate)
    } else if k == "prompt_failure_rate_threshold"@ {
        Some(SettingKey::PromptFailureRateThreshold)
    } else if k == "model_temperature"@ {
        Some(SettingKey::ModelTemperature)
    } else {
        None
    }
}

pub(crate) fn setting_key_of(k: &Vec<char>) -> (r: Option<SettingKey>)
    ensures
        r == setting_key(k@),
{
    if eq_lit(k, "max_input_tokens") {
        Some(SettingKey::MaxInputTokens)
    } else if eq_lit(k, "max_output_tokens") {
        Some(SettingKey::MaxOutputTokens)
    } else if eq_lit(k, "model_provider") {
        Some(SettingKey::ModelProvider)
    } else if eq_lit(k, "model") {
        Some(SettingKey::Model)
    } else if eq_lit(k, "api_key") || eq_lit(k, "model_api_key") {
        Some(SettingKey::ApiKey)
    } else if eq_lit(k, "model_api_url") {
        Some(SettingKey::ModelApiUrl)
    } else if eq_lit(k, "azure_api_version") {
        Some(SettingKey::AzureApiVersion)
    } else if eq_lit(k, "azure_deployment_id") {
        Some(SettingKey::AzureDeploymentId)
    } else if eq_lit(k, "ignore_files") {
        Some(SettingKey::IgnoreFiles)
    } else if eq_lit(k, "lockfile_token_limit") {
        Some(SettingKey::LockfileTokenLimit)
    } else if eq_lit(k, "usage_tier") {
        Some(SettingKey::UsageTier)
    } else if eq_lit(k, "use_experimental") {
        Some(SettingKey::UseExperimental)
    } else if eq_lit(k, "free_tier_max_input_tokens") {
        Some(SettingKey::FreeTierMaxInputTokens)
    } else if eq_lit(k, "free_tier_max_output_tokens") {
        Some(SettingKey::FreeTierMaxOutputTokens)
    } else if eq_lit(k, "free_tier_max_concurrent_requests") {
        Some(SettingKey::FreeTierMaxConcurrentRequests)
    } else if eq_lit(k, "free_tier_commit_history_depth") {
        Some(SettingKey::FreeTierCommitHistoryDepth)
    } else if eq_lit(k, "commit_message_max_length") {
        Some(SettingKey::CommitMessageMaxLength)
    } else if eq_lit(k, "commit_message_validation_mode") {
        Some(SettingKey::CommitMessageValidationMode)
    } else if eq_lit(k, "use_commit_history") {
        Some(SettingKey::UseCommitHistory)
    } else if eq_lit(k, "commit_history_depth") {
        Some(SettingKey::CommitHistoryDepth)
    } else if eq_lit(k, "max_concurrent_requests") {
        Some(SettingKey::MaxConcurrentRequests)
    } else if eq_lit(k, "max_partial_failure_rate") {
        Some(SettingKey::MaxPartialFailureRate)
    } else if eq_lit(k, "prompt_failure_rate_threshold") {
        Some(SettingKey::PromptFailureRateThreshold)
    } else if eq_lit(k, "model_temperature") {
        Some(SettingKey::ModelTemperature)
    } else {
        None
    }
}

/// Keys whose new value is also written to the active provider profile.
pub open spec fn is_profile_key(k: SettingKey) -> bool {
    match k {
        SettingKey::MaxInputTokens | SettingKey::MaxOutputTokens | SettingKey::ModelProvider
        | SettingKey::Model | SettingKey::ApiKey | SettingKey::ModelApiUrl
        | SettingKey::AzureApiVersion | SettingKey::AzureDeploymentId
        | SettingKey::ModelTemperature => true,
        _ => false,
    }
}

/// Whether setting `key` also updates the active provider profile.
pub fn updates_active_profile(key: &str) -> (b: bool)
    ensures
        b == (setting_key(key@) matches Some(k) && is_profile_key(k)),
{
    let k = str_chars(key);
    match setting_key_of(&k) {
        Some(SettingKey::MaxInputTokens) | Some(SettingKey::MaxOutputTokens) | Some(
            SettingKey::ModelProvider,
        ) | Some(SettingKey::Model) | Some(SettingKey::ApiKey) | Some(SettingKey::ModelApiUrl)
        | Some(SettingKey::AzureApiVersion) | Some(SettingKey::AzureDeploymentId) | Some(
            SettingKey::ModelTemperature,
        ) => true,
        _ => false,
    }
}

/// Splits `s` at every `sep`, like `str::split`: never empty.
pub open spec fn split_on(s: Seq<char>, sep: char) -> Seq<Seq<char>>
    decreases s.len(),
{
    if s.len() == 0 {
        seq![Seq::<char>::empty()]
    } else {
        let init = split_on(s.drop_last(), sep);
        if s.last() == sep {
            init.push(Seq::<char>::empty())
        } else {
            init.update(init.len() - 1, init.last().push(s.last()))
        }
    }
}

/// The parts, each trimmed, with the empty ones left out.
pub open spec fn kept_entries(parts: Seq<Seq<char>>) -> Seq<Seq<char>>
    decreases parts.len(),
{
    if parts.len() == 0 {
        Seq::<Seq<char>>::empty()
    } else {
        let init = kept_entries(parts.drop_last());
        let t = trim(parts.last());
        if t.len() == 0 {
            init
        } else {
            init.push(t)
        }
    }
}

/// The list of ignored files given as `value`: comma separated, each entry
/// trimmed, empty entries dropped.
pub open spec fn ignore_list(value: Seq<char>) -> Seq<Seq<char>> {
    kept_entries(split_on(value, ','))
}

fn split_commas(s: &Vec<char>) -> (r: Vec<Vec<char>>)
    ensures
        crate::text::views(r@) == split_on(s@, ','),
{
    let mut parts: Vec<Vec<char>> = Vec::new();
    let mut cur: Vec<char> = Vec::new();
    let mut i: usize = 0;
    assert(s@.take(0) =~= Seq::<char>::empty());
    while i < s.len()
        invariant
            i <= s.len(),
            split_on(s@.take(i as int), ',') == crate::text::views(parts@).push(cur@),
        decreases s.len() - i,
    {
        let c = s[i];
        let ghost before = s@.take(i as int);
        assert(s@.take(i + 1).drop_last() =~= before);
        assert(s@.take(i + 1).last() == c);
        if c == ',' {
            let done = cur;
            cur = Vec::new();
            parts.push(done);
            assert(crate::text::views(parts@).push(cur@) =~= split_on(before, ',').push(
                Seq::<char>::empty(),
            ));
        } else {
            cur.push(c);
            assert(crate::text::views(parts@).push(cur@) =~= split_on(before, ',').update(
                split_on(before, ',').len() - 1,
                split_on(before, ',').last().push(c),
            ));
        }
        i = i + 1;
    }
    assert(s@.take(s.len() as int) =~= s@);
    parts.push(cur);
    parts
}

fn ignore_list_exec(value: &str) -> (r: Vec<String>)
    ensures
        string_views(r@) == ignore_list(value@),
{
    let chars = str_chars(value);
    let parts = split_commas(&chars);
    let ghost ps = crate::text::views(parts@);
    let mut out: Vec<String> = Vec::new();
    let mut k: usize = 0;
    assert(ps.take(0) =~= Seq::<Seq<char>>::empty());
    while k < parts.len()
        invariant
            k <= parts.len(),
            ps == crate::text::views(parts@),
            string_views(out@) == kept_entries(ps.take(k as int)),
        decreases parts.len() - k,
    {
        assert(ps.take(k + 1).drop_last() =~= ps.take(k as int));
        assert(ps.take(k + 1).last() == parts@[k as int]@);
        let t = trim_chars(&parts[k]);
        if t.len() > 0 {
            let entry = string_from_chars(&t);
            out.push(entry);
            assert(string_views(out@) =~= kept_entries(ps.take(k as int)).push(t@));
        }
        k = k + 1;
    }
    assert(ps.take(parts.len() as int) =~= ps);
    out
}

/// How `value` reads as a flag: `true/yes/1/on` or `false/no/0/off` after
/// trimming and lower-casing, else `true` or `false` as written.
pub open spec fn flag_value(value: Seq<char>) -> Option<bool> {
    let l = lowercase_of(trim(value));
    if l == "true"@ || l == "yes"@ || l == "1"@ || l == "on"@ {
        Some(true)
    } else if l == "false"@ || l == "no"@ || l == "0"@ || l == "off"@ {
        Some(false)
    } else if value == "true"@ {
        Some(true)
    } else if value == "false"@ {
        Some(false)
    } else {
        None
    }
}

fn flag_value_exec(value: &str) -> (r: Option<bool>)
    ensures
        r == flag_value(value@),
{
    let chars = str_chars(value);
    let t = string_from_chars(&trim_chars(&chars));
    let l = lowercase_chars(t.as_str());
    if eq_lit(&l, "true") || eq_lit(&l, "yes") || eq_lit(&l, "1") || eq_lit(&l, "on") {
        Some(true)
    } else if eq_lit(&l, "false") || eq_lit(&l, "no") || eq_lit(&l, "0") || eq_lit(&l, "off") {
        Some(false)
    } else if eq_lit(&chars, "true") {
        Some(true)
    } else if eq_lit(&chars, "false") {
        Some(false)
    } else {
        None
    }
}

/// A usage tier for rate limits.
#[derive(Debug, Clone, Copy, PartialEq, Eq, Structural)]
pub enum UsageTier {
    Standard,
    Free,
}

/// How strictly a commit message's length is checked.
#[derive(Debug, Clone, Copy, PartialEq, Eq, Structural)]
pub enum ValidationMode {
    Strict,
    Soft,
    Disabled,
}

/// The usage tier named by `value`, in any case.
pub open spec fn tier_value(value: Seq<char>) -> Option<UsageTier> {
    let l = lowercase_of(value);
    if l == "standard"@ {
        Some(UsageTier::Standard)
    } else if l == "free"@ {
        Some(UsageTier::Free)
    } else {
        None
    }
}

/// The validation mode named by `value`, in any case.
pub open spec fn mode_value(value: Seq<char>) -> Option<ValidationMode> {
    let l = lowercase_of(value);
    if l == "strict"@ {
        Some(ValidationMode::Strict)
    } else if l == "soft"@ {
        Some(ValidationMode::Soft)
    } else if l == "disabled"@ {
        Some(ValidationMode::Disabled)
    } else {
        None
    }
}

/// What `url::Url::parse` makes of `s`: the serialized URL, or the text of
/// the parse error.
pub uninterp spec fn url_parse(s: Seq<char>) -> Result<Seq<char>, Seq<char>>;

/// `url::Url::parse`, giving the serialized URL or the error's text.
#[verifier::external_body]
pub(crate) fn parse_url(s: &str) -> (r: Result<String, String>)
    ensures
        match r {
            Ok(u) => url_parse(s@) == Ok::<Seq<char>, Seq<char>>(u@),
            Err(e) => url_parse(s@) == Err::<Seq<char>, Seq<char>>(e@),
        },
{
    match url::Url::parse(s) {
        Ok(u) => Ok(u.as_str().to_string()),
        Err(e) => Err(e.to_string()),
    }
}

/// The kind of model provider.
#[derive(Debug, Clone, Copy, PartialEq, Eq, Structural)]
pub enum ProviderKind {
    OpenAI,
    Azure,
}

/// The provider named by `value`, in any case: `openai` or `azure`.
pub open spec fn provider_value(value: Seq<char>) -> Option<ProviderKind> {
    let l = lowercase_of(value);
    if l == "openai"@ {
        Some(ProviderKind::OpenAI)
    } else if l == "azure"@ {
        Some(ProviderKind::Azure)
    } else {
        None
    }
}

/// The message for a provider name that is not known.
pub open spec fn provider_message(value: Seq<char>) -> Seq<char> {
    "Unknown provider: "@ + value
}

/// Reads a provider name (see `provider_value`).
pub fn parse_provider(value: &str) -> (r: Result<ProviderKind, SettingError>)
    ensures
        match r {
            Ok(k) => provider_value(value@) == Some(k),
            Err(e) => provider_value(value@) is None && e.message@ == provider_message(value@),
        },
{
    let l = lowercase_chars(value);
    if eq_lit(&l, "openai") {
        Ok(ProviderKind::OpenAI)
    } else if eq_lit(&l, "azure") {
        Ok(ProviderKind::Azure)
    } else {
        let mut m = lit("Unknown provider: ");
        extend_chars(&mut m, &str_chars(value));
        Err(SettingError { message: string_from_chars(&m) })
    }
}

/// The token count `value` writes: a decimal number from 1 to `u32::MAX`.
pub open spec fn token_value(value: Seq<char>) -> Option<nat> {
    match parse_u64(value) {
        Some(n) => if 1 <= n <= u32::MAX {
            Some(n as nat)
        } else {
            None
        },
        None => None,
    }
}

/// Reads a token count (see `token_value`).
pub fn parse_token_count(value: &str) -> (r: Option<TokenCount>)
    ensures
        match r {
            Some(t) => token_value(value@) == Some(t.count()),
            None => token_value(value@) is None,
        },
{
    match parse_u64_chars(&str_chars(value)) {
        Some(n) => if 1 <= n && n <= u32::MAX as u64 {
            TokenCount::new(n as u32)
        } else {
            None
        },
        None => None,
    }
}

/// A value that `config set` has read for a key.
#[derive(Debug, Clone, PartialEq, Eq)]
pub enum SettingValue {
    /// A name or secret stored as given.
    Text(String),
    /// A custom API URL, as the URL parser serialized it.
    Url(String),
    /// The files to leave out of the diff.
    Files(Vec<String>),
    Flag(bool),
    Count(usize),
    /// A maximum message length; `None` for the default.
    MaxLength(Option<usize>),
    Tier(UsageTier),
    Mode(ValidationMode),
    /// A token count, not yet held against a model's hard limit.
    Tokens(TokenCount),
    Provider(ProviderKind),
    /// A known key whose value is a fractional number, read where that type
    /// is held.
    Unparsed,
}

/// A [`SettingValue`] with its strings as character sequences.
pub enum SettingV {
    Text(Seq<char>),
    Url(Seq<char>),
    Files(Seq<Seq<char>>),
    Flag(bool),
    Count(usize),
    MaxLength(Option<usize>),
    Tier(UsageTier),
    Mode(ValidationMode),
    Tokens(nat),
    Provider(ProviderKind),
    Unparsed,
}

impl View for SettingValue {
    type V = SettingV;

    open spec fn view(&self) -> SettingV {
        match self {
            SettingValue::Text(t) => SettingV::Text(t@),
            SettingValue::Url(u) => SettingV::Url(u@),
            SettingValue::Files(f) => SettingV::Files(string_views(f@)),
            SettingValue::Flag(b) => SettingV::Flag(*b),
            SettingValue::Count(n) => SettingV::Count(*n),
            SettingValue::MaxLength(m) => SettingV::MaxLength(*m),
            SettingValue::Tier(t) => SettingV::Tier(*t),
            SettingValue::Mode(m) => SettingV::Mode(*m),
            SettingValue::Tokens(t) => SettingV::Tokens(t.count()),
            SettingValue::Provider(k) => SettingV::Provider(*k),
            SettingValue::Unparsed => SettingV::Unparsed,
        }
    }
}

/// Why `config set` refused a value, with the message shown to the user.
#[derive(Debug, Clone, PartialEq, Eq)]
pub struct SettingError {
    pub message: String,
}

/// A number that `value` must be, or the error for it.
pub open spec fn count_or_error(value: Seq<char>) -> Result<SettingV, Seq<char>> {
    match parse_usize(value) {
        Some(n) => Ok(SettingV::Count(n)),
        None => Err("Invalid number"@),
    }
}

/// What `config set key value` stores, or the message it fails with.
pub open spec fn setting_value(key: Seq<char>, value: Seq<char>) -> Result<SettingV, Seq<char>> {
    match setting_key(key) {
        None => Err("Unknown configuration key: "@ + key),
        Some(k) => match k {
            SettingKey::Model | SettingKey::ApiKey | SettingKey::AzureApiVersion
            | SettingKey::AzureDeploymentId => Ok(SettingV::Text(value)),
            SettingKey::ModelApiUrl => match url_parse(value) {
                Ok(u) => Ok(SettingV::Url(u)),
                Err(e) => Err(e),
            },
            SettingKey::IgnoreFiles => Ok(SettingV::Files(ignore_list(value))),
            SettingKey::UsageTier => match tier_value(value) {
                Some(t) => Ok(SettingV::Tier(t)),
                None => Err("Invalid usage_tier: must be standard or free"@),
            },
            SettingKey::UseExperimental | SettingKey::UseCommitHistory => match flag_value(value) {
                Some(b) => Ok(SettingV::Flag(b)),
                None => Err("Invalid boolean (expected true/false, yes/no, 1/0, on/off)"@),
            },
            SettingKey::FreeTierMaxConcurrentRequests
            | SettingKey::FreeTierCommitHistoryDepth => count_or_error(value),
            SettingKey::CommitHistoryDepth => match parse_usize(value) {
                Some(n) => Ok(SettingV::Count(if n > 50 { 50 } else { n })),
                None => Err("Invalid number"@),
            },
            SettingKey::MaxConcurrentRequests => match parse_usize(value) {
                Some(n) => Ok(
                    SettingV::Count(
                        if n < 1 {
                            1
                        } else if n > 10 {
                            10
                        } else {
                            n
                        },
                    ),
                ),
                None => Err("Invalid number"@),
            },
            SettingKey::CommitMessageMaxLength => if value.len() == 0 {
                Ok(SettingV::MaxLength(None))
            } else {
                match parse_usize(value) {
                    Some(n) => Ok(SettingV::MaxLength(Some(n))),
                    None => Err("Invalid number"@),
                }
            },
            SettingKey::CommitMessageValidationMode => match mode_value(value) {
                Some(m) => Ok(SettingV::Mode(m)),
                None => Err("Invalid validation mode: must be strict, soft, or disabled"@),
            },
            SettingKey::MaxInputTokens | SettingKey::MaxOutputTokens
            | SettingKey::LockfileTokenLimit | SettingKey::FreeTierMaxInputTokens
            | SettingKey::FreeTierMaxOutputTokens => match token_value(value) {
                Some(n) => Ok(SettingV::Tokens(n)),
                None => Err("Invalid number"@),
            },
            SettingKey::ModelProvider => match provider_value(value) {
                Some(k) => Ok(SettingV::Provider(k)),
                None => Err(provider_message(value)),
            },
            _ => Ok(SettingV::Unparsed),
        },
    }
}

fn fail(message: &str) -> (r: Result<SettingValue, SettingError>)
    ensures
        r matches Err(e) && e.message@ == message@,
{
    Err(SettingError { message: string_from_chars(&lit(message)) })
}

/// Reads `value` for `key` as `config set` does: the key must be known, and
/// the value must parse as that key's type; counts are clamped where the key
/// has bounds (history depth at most 50, concurrency 1 to 10). Token counts
/// are read but not held against a model's hard limit here, and fractional
/// values are left to the caller.
pub fn parse_setting(key: &str, value: &str) -> (r: Result<SettingValue, SettingError>)
    ensures
        match r {
            Ok(v) => setting_value(key@, value@) == Ok::<SettingV, Seq<char>>(v@),
            Err(e) => setting_value(key@, value@) == Err::<SettingV, Seq<char>>(e.message@),
        },
{
    let k = str_chars(key);
    let which = match setting_key_of(&k) {
        Some(w) => w,
        None => {
            let mut m = lit("Unknown configuration key: ");
            extend_chars(&mut m, &k);
            return Err(SettingError { message: string_from_chars(&m) });
        },
    };
    match which {
        SettingKey::Model | SettingKey::ApiKey | SettingKey::AzureApiVersion
        | SettingKey::AzureDeploymentId => Ok(SettingValue::Text(string_from_chars(&str_chars(value)))),
        SettingKey::ModelApiUrl => match parse_url(value) {
            Ok(u) => Ok(SettingValue::Url(u)),
            Err(e) => Err(SettingError { message: e }),
        },
        SettingKey::IgnoreFiles => Ok(SettingValue::Files(ignore_list_exec(value))),
        SettingKey::UsageTier => {
            let l = lowercase_chars(value);
            if eq_lit(&l, "standard") {
                Ok(SettingValue::Tier(UsageTier::Standard))
            } else if eq_lit(&l, "free") {
                Ok(SettingValue::Tier(UsageTier::Free))
            } else {
                fail("Invalid usage_tier: must be standard or free")
            }
        },
        SettingKey::UseExperimental | SettingKey::UseCommitHistory => match flag_value_exec(value) {
            Some(b) => Ok(SettingValue::Flag(b)),
            None => fail("Invalid boolean (expected true/false, yes/no, 1/0, on/off)"),
        },
        SettingKey::FreeTierMaxConcurrentRequests | SettingKey::FreeTierCommitHistoryDepth => {
            match parse_usize_exec(&str_chars(value)) {
                Some(n) => Ok(SettingValue::Count(n)),
                None => fail("Invalid number"),
            }
        },
        SettingKey::CommitHistoryDepth => match parse_usize_exec(&str_chars(value)) {
            Some(n) => Ok(
                SettingValue::Count(
                    if n > 50 {
                        50
                    } else {
                        n
                    },
                ),
            ),
            None => fail("Invalid number"),
        },
        SettingKey::MaxConcurrentRequests => match parse_usize_exec(&str_chars(value)) {
            Some(n) => Ok(
                SettingValue::Count(
                    if n < 1 {
                        1
                    } else if n > 10 {
                        10
                    } else {
                        n
                    },
                ),
            ),
            None => fail("Invalid number"),
        },
        SettingKey::CommitMessageMaxLength => {
            let v = str_chars(value);
            if v.len() == 0 {
                Ok(SettingValue::MaxLength(None))
            } else {
                match parse_usize_exec(&v) {
                    Some(n) => Ok(SettingValue::MaxLength(Some(n))),
                    None => fail("Invalid number"),
                }
            }
        },
        SettingKey::CommitMessageValidationMode => {
            let l = lowercase_chars(value);
            if eq_lit(&l, "strict") {
                Ok(SettingValue::Mode(ValidationMode::Strict))
            } else if eq_lit(&l, "soft") {
                Ok(SettingValue::Mode(ValidationMode::Soft))
            } else if eq_lit(&l, "disabled") {
                Ok(SettingValue::Mode(ValidationMode::Disabled))
            } else {
                fail("Invalid validation mode: must be strict, soft, or disabled")
            }
        },
        SettingKey::MaxInputTokens | SettingKey::MaxOutputTokens | SettingKey::LockfileTokenLimit
        | SettingKey::FreeTierMaxInputTokens | SettingKey::FreeTierMaxOutputTokens => {
            match parse_token_count(value) {
                Some(t) => Ok(SettingValue::Tokens(t)),
                None => fail("Invalid number"),
            }
        },
        SettingKey::ModelProvider => match parse_provider(value) {
            Ok(k) => Ok(SettingValue::Provider(k)),
            Err(e) => Err(e),
        },
        _ => Ok(SettingValue::Unparsed),
    }
}

proof fn lemma_ascii_lower_idempotent(s: Seq<char>)
    requires
        all_ascii(s),
    ensures
        all_ascii(ascii_lower_seq(s)),
        ascii_lower_seq(ascii_lower_seq(s)) == ascii_lower_seq(s),
{
    assert forall|i: int| 0 <= i < s.len() implies (#[trigger] ascii_lower_seq(s)[i] as u32) < 128 by {
        assert((s[i] as u32) < 128);
    }
    assert(ascii_lower_seq(ascii_lower_seq(s)) =~= ascii_lower_seq(s));
}

/// Provider names, usage tiers and validation modes are read regardless of
/// the case of their ASCII letters.
pub proof fn law_names_ignore_ascii_case(value: Seq<char>)
    requires
        all_ascii(value),
    ensures
        provider_value(value) == provider_value(ascii_lower_seq(value)),
        tier_value(value) == tier_value(ascii_lower_seq(value)),
        mode_value(value) == mode_value(ascii_lower_seq(value)),
{
    lemma_ascii_lower_idempotent(value);
}

} // verus!
