//! Token counting with the `o200k_base` encoding and the token budget of a
//! model's context window.
use vstd::prelude::*;
use crate::text::{
    byte_offsets, decimal, decimal_chars, extend_chars, find_last_char, lit, rfind_char,
    slice_chars, string_from_chars, utf8_len,
};

verus! {

/// The tokens `tiktoken`'s `o200k_base` encoding gives `text`, special
/// tokens read as ordinary text; `None` where its pattern matcher gives up
/// (it bounds its backtracking, which a very long whitespace run exceeds).
pub uninterp spec fn o200k_encode(text: Seq<char>) -> Option<Seq<u32>>;

/// The text `o200k_base` decodes `tokens` to, where they form valid UTF-8.
pub uninterp spec fn o200k_decode(tokens: Seq<u32>) -> Option<Seq<char>>;

/// `CoreBPE::encode` of the shared `o200k_base` encoding with no special
/// token allowed, so that special tokens are read as ordinary text; `None`
/// where it reports an `EncodeError` (its pattern matcher gave up).
#[verifier::external_body]
fn o200k_encode_text(text: &str) -> (r: Option<Vec<u32>>)
    ensures
        match r {
            Some(v) => o200k_encode(text@) == Some(v@),
            None => o200k_encode(text@) is None,
        },
{
    match tiktoken_rs::o200k_base_singleton().encode(text, &std::collections::HashSet::new()) {
        Ok((tokens, _)) => Some(tokens),
        Err(_) => None,
    }
}

/// `CoreBPE::decode` of the shared `o200k_base` encoding; `None` where the
/// tokens are unknown or do not form valid UTF-8.
#[verifier::external_body]
fn o200k_decode_tokens(tokens: &[u32]) -> (r: Option<String>)
    ensures
        match r {
            Some(s) => o200k_decode(tokens@) == Some(s@),
            None => o200k_decode(tokens@) is None,
        },
{
    tiktoken_rs::o200k_base_singleton().decode(tokens).ok()
}

/// A number of tokens; never zero.
#[derive(Debug, Clone, Copy, PartialEq, Eq)]
pub struct TokenCount {
    value: u32,
}

impl TokenCount {
    #[verifier::type_invariant]
    spec fn positive(self) -> bool {
        self.value >= 1
    }

    /// The number of tokens.
    pub closed spec fn count(self) -> nat {
        self.value as nat
    }

    /// A count of `value` tokens; zero is not a count.
    pub fn new(value: u32) -> (r: Option<TokenCount>)
        ensures
            r is Some <==> value >= 1,
            r matches Some(t) ==> t.count() == value,
    {
        if value >= 1 {
            Some(TokenCount { value })
        } else {
            None
        }
    }

    /// A count of `value` tokens, at least one.
    pub fn new_saturating(value: u32) -> (t: TokenCount)
        ensures
            t.count() == if value == 0 { 1 } else { value },
    {
        if value == 0 {
            TokenCount { value: 1 }
        } else {
            TokenCount { value }
        }
    }

    /// A count of `value` tokens, at least one.
    pub fn new_at_least_one(value: u32) -> (t: TokenCount)
        ensures
            t.count() == if value == 0 { 1 } else { value },
    {
        Self::new_saturating(value)
    }

    /// The number of tokens.
    pub fn get(&self) -> (r: u32)
        ensures
            r == self.count(),
            r >= 1,
    {
        proof {
            use_type_invariant(self);
        }
        self.value
    }
}

/// How many tokens `text` has; where the encoding gives up, its length in
/// bytes stands in (no token is shorter than a byte).
pub open spec fn n_tokens(text: Seq<char>) -> nat {
    match o200k_encode(text) {
        Some(t) => t.len(),
        None => utf8_len(text),
    }
}

/// The token count of `text` as `count_tokens` reports it: the number of
/// tokens taken modulo 2^32 (a `u32`), and at least one.
pub open spec fn token_count_of(text: Seq<char>) -> nat {
    let n = n_tokens(text) % 0x1_0000_0000;
    if n == 0 {
        1
    } else {
        n
    }
}

/// A way of counting, encoding and decoding tokens.
pub trait Tokenizer {
    /// The token count `count_tokens` reports for `text`. An implementation
    /// outside verified code leaves it unspecified.
    open spec fn count_spec(&self, text: Seq<char>) -> nat {
        arbitrary()
    }

    /// The tokens `encode` gives `text`, `None` where it cannot encode it;
    /// unspecified by default.
    open spec fn encode_spec(&self, text: Seq<char>) -> Option<Seq<u32>> {
        arbitrary()
    }

    /// The text `decode` gives `tokens`, where they decode; unspecified by
    /// default.
    open spec fn decode_spec(&self, tokens: Seq<u32>) -> Option<Seq<char>> {
        arbitrary()
    }

    /// The number of tokens in `text`.
    fn count_tokens(&self, text: &str) -> (r: TokenCount)
        ensures
            r.count() == self.count_spec(text@),
    ;

    /// The name of the encoding.
    fn encoding_name(&self) -> &'static str;

    /// The tokens of `text`, where it can be encoded.
    fn encode(&self, text: &str) -> (r: Option<Vec<u32>>)
        ensures
            match r {
                Some(v) => self.encode_spec(text@) == Some(v@),
                None => self.encode_spec(text@) is None,
            },
    ;

    /// The text of `tokens`, where they decode.
    fn decode(&self, tokens: &[u32]) -> (r: Option<String>)
        ensures
            match r {
                Some(s) => self.decode_spec(tokens@) == Some(s@),
                None => self.decode_spec(tokens@) is None,
            },
    ;
}

/// The number of characters in the prefix of `s` that ends with the
/// character covering byte `mid` (all of `s` when `mid` is past its end).
pub open spec fn boundary_chars(s: Seq<char>, mid: int) -> nat {
    if s.len() == 0 {
        0
    } else {
        first_exceeding(s, mid, 1)
    }
}

/// The first `j >= from` whose prefix is longer than `mid` bytes, or the
/// length of `s`.
pub open spec fn first_exceeding(s: Seq<char>, mid: int, from: int) -> nat
    decreases s.len() - from,
{
    if from < 0 || from >= s.len() {
        s.len()
    } else if utf8_len(s.take(from)) > mid {
        from as nat
    } else {
        first_exceeding(s, mid, from + 1)
    }
}

/// The binary search of `slice_to_token_limit` over byte positions
/// `low..=high`: it keeps the longest probed prefix within `limit` tokens.
pub open spec fn slice_search(s: Seq<char>, limit: nat, low: int, high: int, best: nat) -> nat
    decreases high - low,
{
    if low < high {
        let mid = (low + high + 1) / 2;
        let b = boundary_chars(s, mid);
        if n_tokens(s.take(b as int)) <= limit {
            slice_search(s, limit, mid, high, b)
        } else {
            slice_search(s, limit, low, mid - 1, best)
        }
    } else {
        best
    }
}

/// The prefix `slice_to_token_limit` keeps: all of `s` when it is within the
/// limit; otherwise the searched prefix, cut back to its last line end when
/// that keeps at least four fifths of the limit.
pub open spec fn sliced_to_limit(s: Seq<char>, limit: nat) -> Seq<char> {
    if n_tokens(s) <= limit {
        s
    } else {
        let best = slice_search(s, limit, 0, utf8_len(s) as int, 0);
        let result = s.take(best as int);
        match find_last_char(result, '\n', result.len() as int) {
            Some(p) => {
                let line = s.take(p + 1);
                if n_tokens(line) >= (limit * 4) / 5 {
                    line
                } else {
                    result
                }
            },
            None => result,
        }
    }
}

proof fn lemma_first_exceeding_bound(s: Seq<char>, mid: int, from: int)
    ensures
        first_exceeding(s, mid, from) <= s.len(),
        s.len() > 0 && from >= 1 ==> first_exceeding(s, mid, from) >= 1,
    decreases s.len() - from,
{
    if from >= 0 && from < s.len() && utf8_len(s.take(from)) <= mid {
        lemma_first_exceeding_bound(s, mid, from + 1);
    }
}

proof fn lemma_slice_search_bound(s: Seq<char>, limit: nat, low: int, high: int, best: nat)
    requires
        best <= s.len(),
    ensures
        slice_search(s, limit, low, high, best) <= s.len(),
    decreases high - low,
{
    if low < high {
        let mid = (low + high + 1) / 2;
        if s.len() > 0 {
            lemma_first_exceeding_bound(s, mid, 1);
        }
        let b = boundary_chars(s, mid);
        if n_tokens(s.take(b as int)) <= limit {
            lemma_slice_search_bound(s, limit, mid, high, b);
        } else {
            lemma_slice_search_bound(s, limit, low, mid - 1, best);
        }
    }
}

/// Counts, encodes and decodes text with the `o200k_base` encoding.
pub struct TokenizerService {}

/// The shared tokenizer.
pub fn get_tokenizer() -> (t: TokenizerService) {
    TokenizerService::new()
}

impl TokenizerService {
    /// A tokenizer over the shared `o200k_base` encoding.
    pub fn new() -> (t: TokenizerService) {
        TokenizerService {  }
    }

    fn n_tokens_of(&self, chars: &Vec<char>) -> (r: usize)
        ensures
            r == n_tokens(chars@),
    {
        let s = string_from_chars(chars);
        match o200k_encode_text(s.as_str()) {
            Some(v) => v.len(),
            None => {
                let (_, offs) = byte_offsets(s.as_str());
                assert(s@.take(s@.len() as int) =~= s@);
                offs[offs.len() - 1]
            },
        }
    }

    /// The character count of the prefix of `s` ending with the character
    /// that covers byte `mid`.
    fn boundary_index(offs: &Vec<usize>, chars: &Vec<char>, mid: usize) -> (j: usize)
        requires
            offs@.len() == chars@.len() + 1,
            forall|k: int| 0 <= k <= chars@.len() ==> #[trigger] offs@[k] == utf8_len(chars@.take(k)),
        ensures
            j == boundary_chars(chars@, mid as int),
    {
        let n = chars.len();
        if n == 0 {
            return 0;
        }
        let mut j: usize = 1;
        while j < n && offs[j] <= mid
            invariant
                1 <= j <= n,
                n == chars@.len(),
                offs@.len() == n + 1,
                forall|k: int| 0 <= k <= n ==> #[trigger] offs@[k] == utf8_len(chars@.take(k)),
                first_exceeding(chars@, mid as int, j as int) == first_exceeding(chars@, mid as int, 1),
            decreases n - j,
        {
            j = j + 1;
        }
        j
    }

    /// The longest prefix of `text` the binary search finds within `limit`
    /// tokens, preferably ending at a line end (see `sliced_to_limit`).
    pub fn slice_to_token_limit(&self, text: &str, limit: TokenCount) -> (r: String)
        ensures
            r@ == sliced_to_limit(text@, limit.count()),
    {
        let lim = limit.get();
        let (chars, offs) = byte_offsets(text);
        let n = chars.len();
        let total = offs[n];
        let all = self.n_tokens_of(&chars);
        if all <= lim as usize {
            return string_from_chars(&chars);
        }
        let ghost s = text@;
        let ghost goal = slice_search(s, lim as nat, 0, total as int, 0);
        assert(s.take(n as int) =~= s);
        let mut low: usize = 0;
        let mut high: usize = total;
        let mut best: usize = 0;
        while low < high
            invariant
                chars@ == s,
                n == s.len(),
                offs@.len() == n + 1,
                forall|k: int| 0 <= k <= n ==> #[trigger] offs@[k] == utf8_len(s.take(k)),
                low <= high <= total,
                total == utf8_len(s),
                best <= n,
                lim == limit.count(),
                slice_search(s, lim as nat, low as int, high as int, best as nat) == goal,
            decreases high - low,
        {
            let d = high - low;
            let mid = low + d / 2 + d % 2;
            assert(mid == (low + high + 1) / 2);
            let b = Self::boundary_index(&offs, &chars, mid);
            proof {
                if n > 0 {
                    lemma_first_exceeding_bound(s, mid as int, 1);
                }
            }
            let prefix = slice_chars(&chars, 0, b);
            assert(prefix@ =~= s.take(b as int));
            let cnt = self.n_tokens_of(&prefix);
            if cnt <= lim as usize {
                best = b;
                low = mid;
            } else {
                high = mid - 1;
            }
        }
        proof {
            lemma_slice_search_bound(s, lim as nat, 0, total as int, 0);
        }
        let result = slice_chars(&chars, 0, best);
        assert(result@ =~= s.take(best as int));
        match rfind_char(&result, '\n') {
            Some(p) => {
                let line = slice_chars(&chars, 0, p + 1);
                assert(line@ =~= s.take(p + 1));
                let line_tokens = self.n_tokens_of(&line);
                if line_tokens as u64 >= (lim as u64 * 4) / 5 {
                    string_from_chars(&line)
                } else {
                    string_from_chars(&result)
                }
            },
            None => string_from_chars(&result),
        }
    }
}

impl Tokenizer for TokenizerService {
    open spec fn count_spec(&self, text: Seq<char>) -> nat {
        token_count_of(text)
    }

    open spec fn encode_spec(&self, text: Seq<char>) -> Option<Seq<u32>> {
        o200k_encode(text)
    }

    open spec fn decode_spec(&self, tokens: Seq<u32>) -> Option<Seq<char>> {
        o200k_decode(tokens)
    }

    fn count_tokens(&self, text: &str) -> (r: TokenCount) {
        let n = self.n_tokens_of(&crate::text::str_chars(text));
        let m = (n as u64 % 0x1_0000_0000u64) as u32;
        TokenCount::new_saturating(m)
    }

    fn encoding_name(&self) -> (r: &'static str)
        ensures
            r@ == "o200k_base"@,
    {
        "o200k_base"
    }

    fn encode(&self, text: &str) -> (r: Option<Vec<u32>>) {
        o200k_encode_text(text)
    }

    fn decode(&self, tokens: &[u32]) -> (r: Option<String>) {
        o200k_decode_tokens(tokens)
    }
}

/// The token budget of a model's context window.
#[derive(Debug, Clone, Copy, PartialEq, Eq)]
pub struct TokenBudget {
    /// Maximum tokens the model can accept as input.
    pub max_input: TokenCount,
    /// Maximum tokens the model can generate as output.
    pub max_output: TokenCount,
    /// Tokens reserved for the system prompt and instructions.
    pub reserved_for_prompt: TokenCount,
    /// Tokens reserved for user messages and formatting.
    pub reserved_for_messages: TokenCount,
}

/// The tokens a budget sets aside from its input.
pub open spec fn reserved_total(out: nat, prompt: nat, messages: nat) -> nat {
    out + prompt + messages
}

/// The message for a budget whose reservations exceed its input.
pub open spec fn budget_error(input: nat, out: nat, prompt: nat, messages: nat) -> Seq<char> {
    "Invalid token budget: max_output ("@ + decimal(out) + ") + reserved_for_prompt ("@
        + decimal(prompt) + ") + reserved_for_messages ("@ + decimal(messages) + ") = "@
        + decimal(reserved_total(out, prompt, messages)) + " exceeds max_input ("@
        + decimal(input) + ")"@
}

/// The check shared by `try_new` and `remaining_for_diff`: the reserved
/// total, or the error for an overflowing or oversized reservation.
pub open spec fn budget_check(input: nat, out: nat, prompt: nat, messages: nat) -> Result<
    nat,
    Seq<char>,
> {
    let reserved = reserved_total(out, prompt, messages);
    if reserved > u32::MAX {
        Err("Token budget overflow during calculation"@)
    } else if reserved > input {
        Err(budget_error(input, out, prompt, messages))
    } else {
        Ok(reserved)
    }
}

fn check_budget(input: u32, out: u32, prompt: u32, messages: u32) -> (r: Result<u32, String>)
    ensures
        match budget_check(input as nat, out as nat, prompt as nat, messages as nat) {
            Ok(v) => r matches Ok(x) && x == v,
            Err(e) => r matches Err(m) && m@ == e,
        },
{
    let sum = match out.checked_add(prompt) {
        Some(a) => a.checked_add(messages),
        None => None,
    };
    let reserved = match sum {
        Some(v) => v,
        None => {
            return Err(string_from_chars(&lit("Token budget overflow during calculation")));
        },
    };
    if reserved > input {
        let mut m = lit("Invalid token budget: max_output (");
        extend_chars(&mut m, &decimal_chars(out as usize));
        extend_chars(&mut m, &lit(") + reserved_for_prompt ("));
        extend_chars(&mut m, &decimal_chars(prompt as usize));
        extend_chars(&mut m, &lit(") + reserved_for_messages ("));
        extend_chars(&mut m, &decimal_chars(messages as usize));
        extend_chars(&mut m, &lit(") = "));
        extend_chars(&mut m, &decimal_chars(reserved as usize));
        extend_chars(&mut m, &lit(" exceeds max_input ("));
        extend_chars(&mut m, &decimal_chars(input as usize));
        extend_chars(&mut m, &lit(")"));
        return Err(string_from_chars(&m));
    }
    Ok(reserved)
}

impl TokenBudget {
    /// A budget, refused where output and reservations together overflow or
    /// exceed the input.
    pub fn try_new(
        max_input: TokenCount,
        max_output: TokenCount,
        reserved_for_prompt: TokenCount,
        reserved_for_messages: TokenCount,
    ) -> (r: Result<TokenBudget, String>)
        ensures
            match budget_check(
                max_input.count(),
                max_output.count(),
                reserved_for_prompt.count(),
                reserved_for_messages.count(),
            ) {
                Ok(_) => r == Ok::<TokenBudget, String>(
                    TokenBudget { max_input, max_output, reserved_for_prompt, reserved_for_messages },
                ),
                Err(e) => r matches Err(m) && m@ == e,
            },
    {
        match check_budget(
            max_input.get(),
            max_output.get(),
            reserved_for_prompt.get(),
            reserved_for_messages.get(),
        ) {
            Ok(_) => Ok(TokenBudget { max_input, max_output, reserved_for_prompt, reserved_for_messages }),
            Err(e) => Err(e),
        }
    }

    /// A budget whose reservations fit within its input.
    pub fn new(
        max_input: TokenCount,
        max_output: TokenCount,
        reserved_for_prompt: TokenCount,
        reserved_for_messages: TokenCount,
    ) -> (b: TokenBudget)
        requires
            budget_check(
                max_input.count(),
                max_output.count(),
                reserved_for_prompt.count(),
                reserved_for_messages.count(),
            ) is Ok,
        ensures
            b == (TokenBudget { max_input, max_output, reserved_for_prompt, reserved_for_messages }),
    {
        TokenBudget { max_input, max_output, reserved_for_prompt, reserved_for_messages }
    }

    fn preset(input: u32) -> (b: TokenBudget)
        ensures
            b.max_input.count() == if input == 0 { 1 } else { input },
            b.max_output.count() == 4096,
            b.reserved_for_prompt.count() == 1000,
            b.reserved_for_messages.count() == 500,
    {
        TokenBudget {
            max_input: TokenCount::new_saturating(input),
            max_output: TokenCount::new_saturating(4096),
            reserved_for_prompt: TokenCount::new_saturating(1000),
            reserved_for_messages: TokenCount::new_saturating(500),
        }
    }

    /// A 32k-token context window.
    pub fn small() -> (b: TokenBudget)
        ensures
            b.max_input.count() == 32000,
            b.max_output.count() == 4096,
            b.reserved_for_prompt.count() == 1000,
            b.reserved_for_messages.count() == 500,
    {
        Self::preset(32000)
    }

    /// A 128k-token context window.
    pub fn medium() -> (b: TokenBudget)
        ensures
            b.max_input.count() == 128000,
            b.max_output.count() == 4096,
            b.reserved_for_prompt.count() == 1000,
            b.reserved_for_messages.count() == 500,
    {
        Self::preset(128000)
    }

    /// A 256k-token context window.
    pub fn large() -> (b: TokenBudget)
        ensures
            b.max_input.count() == 256000,
            b.max_output.count() == 4096,
            b.reserved_for_prompt.count() == 1000,
            b.reserved_for_messages.count() == 500,
    {
        Self::preset(256000)
    }

    /// A million-token context window.
    pub fn massive() -> (b: TokenBudget)
        ensures
            b.max_input.count() == 1000000,
            b.max_output.count() == 4096,
            b.reserved_for_prompt.count() == 1000,
            b.reserved_for_messages.count() == 500,
    {
        Self::preset(1000000)
    }

    /// The tokens left for diff content: the input less output and
    /// reservations, which must leave at least one token.
    pub fn remaining_for_diff(&self) -> (r: Result<TokenCount, String>)
        ensures
            match budget_check(
                self.max_input.count(),
                self.max_output.count(),
                self.reserved_for_prompt.count(),
                self.reserved_for_messages.count(),
            ) {
                Ok(reserved) => if reserved < self.max_input.count() {
                    r matches Ok(t) && t.count() == self.max_input.count() - reserved
                } else {
                    r matches Err(m) && m@ == "Token budget underflow during calculation"@
                },
                Err(e) => r matches Err(m) && m@ == e,
            },
    {
        let input = self.max_input.get();
        match check_budget(
            input,
            self.max_output.get(),
            self.reserved_for_prompt.get(),
            self.reserved_for_messages.get(),
        ) {
            Ok(reserved) => match TokenCount::new(input - reserved) {
                Some(t) => Ok(t),
                None => Err(string_from_chars(&lit("Token budget underflow during calculation"))),
            },
            Err(e) => Err(e),
        }
    }
}

impl Default for TokenBudget {
    fn default() -> (b: TokenBudget)
        ensures
            b.max_input.count() == 128000,
            b.max_output.count() == 4096,
            b.reserved_for_prompt.count() == 1000,
            b.reserved_for_messages.count() == 500,
    {
        Self::medium()
    }
}

} // verus!
