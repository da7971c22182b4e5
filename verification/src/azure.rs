//! Model-family rules and response handling for Azure OpenAI chat requests.
use core::time::Duration;
use vstd::prelude::*;
use vstd::string::StringSliceAdditionalSpecFns;
use vstd::utf8::*;
use crate::retry::{duration_from_secs, duration_of_secs};
use crate::text::{
    ascii_lower_seq, decimal, decimal_chars, extend_chars, lit, parse_u64, parse_u64_chars,
    seq_starts_with, starts_with, str_chars, string_from_chars, to_ascii_lower, trim, trim_chars,
};

verus! {

broadcast use vstd::utf8::encode_utf8_valid_utf8, vstd::utf8::encode_utf8_decode_utf8;

/// Reasoning models (`gpt-5*`, and `o` followed by a digit, ignoring ASCII
/// case) take `max_completion_tokens` and no temperature.
pub open spec fn reasoning_model(model: Seq<char>) -> bool {
    let m = ascii_lower_seq(model);
    ||| starts_with(m, "gpt-5"@)
    ||| (m.len() >= 2 && m[0] == 'o' && '0' <= m[1] && m[1] <= '9')
}

/// Whether `model` is a reasoning model (see `reasoning_model`).
pub fn is_reasoning_model(model: &str) -> (b: bool)
    ensures
        b == reasoning_model(model@),
{
    let m = to_ascii_lower(&str_chars(model));
    if seq_starts_with(&m, &lit("gpt-5")) {
        return true;
    }
    if m.len() >= 1 && m[0] == 'o' {
        return m.len() >= 2 && '0' <= m[1] && m[1] <= '9';
    }
    false
}

/// The `Retry-After` header as whole seconds: surrounding whitespace is
/// ignored and the rest must be a `u64`.
pub fn parse_retry_after_header(value: &str) -> (r: Option<Duration>)
    ensures
        match parse_u64(trim(value@)) {
            Some(n) => r == Some(duration_of_secs(n)),
            None => r is None,
        },
{
    let t = trim_chars(&str_chars(value));
    match parse_u64_chars(&t) {
        Some(n) => Some(duration_from_secs(n)),
        None => None,
    }
}

/// The text that `truncate_for_log` writes for a string of `total` bytes cut
/// to the characters `kept`.
pub open spec fn truncated_log_text(kept: Seq<char>, total: nat) -> Seq<char> {
    kept + "\u{2026}<truncated, "@ + decimal(total) + " total>"@
}

/// Shortens `s` for logging: at most `max_chars` bytes are kept (cut at a
/// character boundary), followed by a marker with the full byte length.
pub fn truncate_for_log(s: &str, max_chars: usize) -> (r: String)
    ensures
        s.spec_bytes().len() <= max_chars ==> r@ == s@,
        s.spec_bytes().len() > max_chars ==> exists|e: int|
            #![trigger s.spec_bytes().subrange(0, e)]
            crate::diff_parsing::is_last_boundary_within(s.spec_bytes(), max_chars as int, e)
                && r@ == truncated_log_text(
                decode_utf8(s.spec_bytes().subrange(0, e)),
                s.spec_bytes().len(),
            ),
{
    let len = s.as_bytes().len();
    if len <= max_chars {
        return s.to_owned();
    }
    let head = crate::diff_parsing::safe_truncate(s, max_chars);
    let mut out = str_chars(head);
    extend_chars(&mut out, &lit("\u{2026}<truncated, "));
    extend_chars(&mut out, &decimal_chars(len));
    extend_chars(&mut out, &lit(" total>"));
    string_from_chars(&out)
}

/// Models whose requests take `max_completion_tokens` (`o1`, `o3`, `o4`
/// and `gpt-5` families, ignoring ASCII case).
pub open spec fn needs_completion_tokens(model: Seq<char>) -> bool {
    let m = ascii_lower_seq(model);
    ||| starts_with(m, "o1"@)
    ||| starts_with(m, "o3"@)
    ||| starts_with(m, "o4"@)
    ||| starts_with(m, "gpt-5"@)
}

/// Whether requests for `model` take `max_completion_tokens`.
pub fn requires_completion_tokens_param(model: &str) -> (b: bool)
    ensures
        b == needs_completion_tokens(model@),
{
    let m = to_ascii_lower(&str_chars(model));
    seq_starts_with(&m, &lit("o1")) || seq_starts_with(&m, &lit("o3")) || seq_starts_with(
        &m,
        &lit("o4"),
    ) || seq_starts_with(&m, &lit("gpt-5"))
}

/// Reasoning effort sent to reasoning models.
pub enum ReasoningEffort {
    Low,
    Medium,
    High,
}

impl ReasoningEffort {
    /// The wire name of the effort.
    pub fn as_str(&self) -> (s: &'static str)
        ensures
            s@ == match self {
                ReasoningEffort::Low => "low"@,
                ReasoningEffort::Medium => "medium"@,
                ReasoningEffort::High => "high"@,
            },
    {
        match self {
            ReasoningEffort::Low => "low",
            ReasoningEffort::Medium => "medium",
            ReasoningEffort::High => "high",
        }
    }
}

/// The token, temperature and effort fields of an Azure chat request body.
pub struct AzureRequestParams {
    pub max_tokens: Option<u32>,
    pub max_completion_tokens: Option<u32>,
    pub send_temperature: bool,
    pub reasoning_effort: Option<String>,
}

/// Chooses the request fields for `model`: reasoning models get
/// `max_completion_tokens`, no temperature and an effort (the requested one,
/// `low` by default); other models get `max_tokens`, the temperature and no
/// effort.
pub fn azure_request_params(model: &str, max_tokens: u32, reasoning_effort: Option<&str>) -> (p:
    AzureRequestParams)
    ensures
        reasoning_model(model@) ==> p.max_tokens is None && p.max_completion_tokens == Some(
            max_tokens,
        ) && !p.send_temperature && (p.reasoning_effort matches Some(e) && e@ == match reasoning_effort {
            Some(r) => r@,
            None => "low"@,
        }),
        !reasoning_model(model@) ==> p.max_tokens == Some(max_tokens)
            && p.max_completion_tokens is None && p.send_temperature && p.reasoning_effort is None,
{
    let reasoning = is_reasoning_model(model);
    if reasoning {
        let effort = match reasoning_effort {
            Some(e) => e.to_owned(),
            None => ReasoningEffort::Low.as_str().to_owned(),
        };
        AzureRequestParams {
            max_tokens: None,
            max_completion_tokens: Some(max_tokens),
            send_temperature: false,
            reasoning_effort: Some(effort),
        }
    } else {
        AzureRequestParams {
            max_tokens: Some(max_tokens),
            max_completion_tokens: None,
            send_temperature: true,
            reasoning_effort: None,
        }
    }
}

/// How a failed completion request is reported.
pub enum CompletionError {
    /// The credentials were refused.
    Unauthorized(String),
    /// The service asked to slow down, possibly saying for how long.
    RateLimited { retry_after: Option<Duration> },
    /// The service failed.
    ServerError(String),
    /// The request could not be sent or answered.
    NetworkError(String),
    /// The answer was not usable.
    InvalidResponse(String),
}

impl CompletionError {
    /// Whether retrying may help (rate limits, server and network failures).
    pub fn is_transient(&self) -> (b: bool)
        ensures
            b == (self is RateLimited || self is ServerError || self is NetworkError),
    {
        match self {
            CompletionError::RateLimited { .. } => true,
            CompletionError::ServerError(_) => true,
            CompletionError::NetworkError(_) => true,
            _ => false,
        }
    }
}

impl crate::retry::RetryAfter for CompletionError {
    fn retry_after(&self) -> (r: Option<Duration>)
        ensures
            r == match self {
                CompletionError::RateLimited { retry_after } => *retry_after,
                _ => None,
            },
    {
        match self {
            CompletionError::RateLimited { retry_after } => *retry_after,
            _ => None,
        }
    }
}

/// The text reported for an unsuccessful response: the status as the HTTP
/// library shows it (`status_text`, such as `503 Service Unavailable`) and
/// the response body.
pub open spec fn status_message(status_text: Seq<char>, body: Seq<char>) -> Seq<char> {
    "Azure OpenAI returned "@ + status_text + ": "@ + body
}

/// The error for an unsuccessful HTTP status: 401 and 403 are
/// authorization failures, 429 a rate limit, 5xx a server error, and
/// anything else an unusable response, each reported with
/// `status_message`.
pub fn classify_azure_status(
    status: u16,
    status_text: &str,
    retry_after: Option<Duration>,
    body: &str,
) -> (e: CompletionError)
    ensures
        (status == 401 || status == 403) ==> (e matches CompletionError::Unauthorized(m) && m@
            == status_message(status_text@, body@)),
        status == 429 ==> e == (CompletionError::RateLimited { retry_after }),
        (500 <= status <= 599) ==> (e matches CompletionError::ServerError(m) && m@
            == status_message(status_text@, body@)),
        !(status == 401 || status == 403 || status == 429 || (500 <= status <= 599)) ==> (e matches CompletionError::InvalidResponse(
            m,
        ) && m@ == status_message(status_text@, body@)),
{
    let mut m = crate::text::lit("Azure OpenAI returned ");
    crate::text::extend_chars(&mut m, &crate::text::str_chars(status_text));
    crate::text::extend_chars(&mut m, &crate::text::lit(": "));
    crate::text::extend_chars(&mut m, &crate::text::str_chars(body));
    let message = crate::text::string_from_chars(&m);
    if status == 401 || status == 403 {
        CompletionError::Unauthorized(message)
    } else if status == 429 {
        CompletionError::RateLimited { retry_after }
    } else if 500 <= status && status <= 599 {
        CompletionError::ServerError(message)
    } else {
        CompletionError::InvalidResponse(message)
    }
}

/// One choice of a decoded Azure chat response.
pub struct AzureChoice {
    pub content: Option<String>,
    pub finish_reason: Option<String>,
}

/// Why the content of a decoded response was refused.
pub enum AzureContentError {
    NoChoices,
    NoText,
    EmptyContent,
}

/// The text of the first choice, which must exist, carry text and not be empty.
pub fn azure_response_content(choices: Vec<AzureChoice>) -> (r: Result<String, AzureContentError>)
    ensures
        choices@.len() == 0 <==> r == Err::<String, AzureContentError>(AzureContentError::NoChoices),
        choices@.len() > 0 ==> match choices@[0].content {
            None => r == Err::<String, AzureContentError>(AzureContentError::NoText),
            Some(c) => if c@.len() == 0 {
                r == Err::<String, AzureContentError>(AzureContentError::EmptyContent)
            } else {
                r == Ok::<String, AzureContentError>(c)
            },
        },
{
    let mut choices = choices;
    if choices.len() == 0 {
        return Err(AzureContentError::NoChoices);
    }
    let first = choices.remove(0);
    match first.content {
        None => Err(AzureContentError::NoText),
        Some(c) => {
            if c.as_str().is_empty() {
                Err(AzureContentError::EmptyContent)
            } else {
                Ok(c)
            }
        },
    }
}

} // verus!
