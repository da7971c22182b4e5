//! Exponential backoff with optional full jitter for retried LLM requests.
use core::time::Duration;
use vstd::prelude::*;

verus! {

/// The `Duration` that `Duration::from_millis` builds for `ms`.
pub uninterp spec fn duration_of_millis(ms: u64) -> Duration;

/// The `Duration` that `Duration::from_secs` builds for `secs`.
pub uninterp spec fn duration_of_secs(secs: u64) -> Duration;

/// `std::time::Duration::from_millis`: the result is the duration of `ms`
/// milliseconds, named `duration_of_millis(ms)`.
#[verifier::external_body]
pub(crate) fn duration_from_millis(ms: u64) -> (d: Duration)
    ensures
        d == duration_of_millis(ms),
{
    Duration::from_millis(ms)
}

/// `std::time::Duration::from_secs`: the result is the duration of `secs`
/// seconds, named `duration_of_secs(secs)`.
#[verifier::external_body]
pub(crate) fn duration_from_secs(secs: u64) -> (d: Duration)
    ensures
        d == duration_of_secs(secs),
{
    Duration::from_secs(secs)
}

#[verifier::external_type_specification]
#[verifier::external_body]
pub struct ExSystemTime(std::time::SystemTime);

/// `std::time::SystemTime::now`: the current time. Nothing is promised of
/// it: it depends on the clock.
#[verifier::external_body]
fn system_now() -> std::time::SystemTime {
    std::time::SystemTime::now()
}

/// `SystemTime::duration_since(UNIX_EPOCH)`: the time elapsed since the Unix
/// epoch, `None` where the time is before it. Nothing more is promised: it
/// depends on the time given.
#[verifier::external_body]
fn since_epoch(t: &std::time::SystemTime) -> Option<Duration> {
    match t.duration_since(std::time::UNIX_EPOCH) {
        Ok(d) => Some(d),
        Err(_) => None,
    }
}

/// `Duration::as_nanos`: the whole nanoseconds of `d`. `Duration` is opaque
/// here, so nothing is promised of the value.
#[verifier::external_body]
fn duration_nanos(d: &Duration) -> u128 {
    d.as_nanos()
}

/// Nanoseconds since the Unix epoch from the system clock, truncated to 64
/// bits; 0 when the clock is before the epoch.
fn clock_nanos() -> u64 {
    let now = system_now();
    let elapsed = match since_epoch(&now) {
        Some(d) => d,
        None => duration_from_secs(0),
    };
    let n = duration_nanos(&elapsed);
    #[verifier::truncate]
    (n as u64)
}

/// `RandomState::new`: a hasher builder with fresh random keys. Nothing is
/// promised of it: the keys are random.
#[verifier::external_body]
fn new_random_state() -> std::collections::hash_map::RandomState {
    std::collections::hash_map::RandomState::new()
}

/// `BuildHasher::build_hasher` of a `RandomState`: a hasher under its keys.
/// Nothing is promised of it: its keys are random.
#[verifier::external_body]
fn build_default_hasher(
    state: &std::collections::hash_map::RandomState,
) -> std::collections::hash_map::DefaultHasher {
    std::hash::BuildHasher::build_hasher(state)
}

/// `Hasher::write_u64`: feeds `x` to the hasher. Nothing is promised of the
/// hasher's state afterwards: its keys are random.
#[verifier::external_body]
fn hasher_write_u64(hasher: &mut std::collections::hash_map::DefaultHasher, x: u64) {
    std::hash::Hasher::write_u64(hasher, x)
}

/// A hash of `seed` and `nanos` under a fresh `RandomState` (std's
/// per-process randomly keyed SipHash). Nothing is promised of the value:
/// the key is random.
fn random_state_hash(seed: u64, nanos: u64) -> u64 {
    let state = new_random_state();
    let mut hasher = build_default_hasher(&state);
    hasher_write_u64(&mut hasher, seed);
    hasher_write_u64(&mut hasher, nanos);
    std::hash::Hasher::finish(&hasher)
}

/// Largest value of a `u64`.
pub open spec fn u64_max() -> int {
    0xffff_ffff_ffff_ffff
}

/// `x` saturated to the `u64` range.
pub open spec fn sat_u64(x: int) -> int {
    if x > u64_max() {
        u64_max()
    } else {
        x
    }
}

/// Two to the power `n`.
pub open spec fn pow2(n: nat) -> int
    decreases n,
{
    if n == 0 {
        1
    } else {
        2 * pow2((n - 1) as nat)
    }
}

/// The largest (jitter-free) backoff for retry `attempt`:
/// `base * 2^attempt` in milliseconds, each step saturating at `u64::MAX`.
pub open spec fn max_backoff_ms(base_delay_ms: u64, attempt: u32) -> int {
    sat_u64(base_delay_ms * sat_u64(pow2(attempt as nat)))
}

proof fn lemma_pow2_positive(n: nat)
    ensures
        pow2(n) >= 1,
    decreases n,
{
    if n > 0 {
        lemma_pow2_positive((n - 1) as nat);
    }
}

proof fn lemma_pow2_monotone(a: nat, b: nat)
    requires
        a <= b,
    ensures
        1 <= pow2(a) <= pow2(b),
    decreases b,
{
    lemma_pow2_positive(a);
    if b > a {
        lemma_pow2_monotone(a, (b - 1) as nat);
    }
}

proof fn lemma_pow2_62()
    ensures
        pow2(62) == 0x4000_0000_0000_0000,
{
    reveal_with_fuel(pow2, 63);
}

proof fn lemma_pow2_64()
    ensures
        pow2(64) > u64_max(),
{
    reveal_with_fuel(pow2, 65);
}

/// `2u64.saturating_pow(attempt)`.
fn saturating_pow2(attempt: u32) -> (r: u64)
    ensures
        r == sat_u64(pow2(attempt as nat)),
{
    if attempt >= 64 {
        proof {
            lemma_pow2_64();
            lemma_pow2_monotone(64, attempt as nat);
        }
        return u64::MAX;
    }
    let mut r: u64 = 1;
    let mut i: u32 = 0;
    while i < attempt
        invariant
            i <= attempt < 64,
            r == pow2(i as nat),
        decreases attempt - i,
    {
        proof {
            lemma_pow2_monotone(i as nat, 62);
            lemma_pow2_62();
        }
        r = r * 2;
        i = i + 1;
    }
    r
}

/// `a.saturating_mul(b)` on `u64`.
fn saturating_mul_u64(a: u64, b: u64) -> (r: u64)
    ensures
        r == sat_u64(a * b),
{
    match a.checked_mul(b) {
        Some(p) => p,
        None => u64::MAX,
    }
}

/// Retry policy configuration.
pub struct RetryPolicy {
    /// Maximum number of retry attempts.
    pub max_retries: usize,
    /// Base delay in milliseconds for exponential backoff.
    pub base_delay_ms: u64,
    /// Whether to use full jitter (0 to max) instead of deterministic delay.
    pub with_jitter: bool,
}

/// The error of a failed attempt may ask for a specific wait before retrying.
pub trait RetryAfter {
    fn retry_after(&self) -> Option<Duration>;
}

impl Default for RetryPolicy {
    /// Three retries from a one-second base, with jitter.
    fn default() -> (p: Self)
        ensures
            p.max_retries == 3,
            p.base_delay_ms == 1000,
            p.with_jitter,
    {
        RetryPolicy { max_retries: 3, base_delay_ms: 1_000, with_jitter: true }
    }
}

impl Clone for RetryPolicy {
    fn clone(&self) -> (p: Self)
        ensures
            p == *self,
    {
        RetryPolicy {
            max_retries: self.max_retries,
            base_delay_ms: self.base_delay_ms,
            with_jitter: self.with_jitter,
        }
    }
}

impl RetryPolicy {
    /// A jittered policy with the given retry count and base delay.
    pub fn new(max_retries: usize, base_delay_ms: u64) -> (p: Self)
        ensures
            p.max_retries == max_retries,
            p.base_delay_ms == base_delay_ms,
            p.with_jitter,
    {
        RetryPolicy { max_retries, base_delay_ms, with_jitter: true }
    }

    /// The same policy with jitter switched off.
    pub fn without_jitter(self) -> (p: Self)
        ensures
            p.max_retries == self.max_retries,
            p.base_delay_ms == self.base_delay_ms,
            !p.with_jitter,
    {
        let mut s = self;
        s.with_jitter = false;
        s
    }

    /// The largest backoff in milliseconds for retry `attempt` (0-indexed):
    /// `base_delay_ms * 2^attempt`, saturating at `u64::MAX`.
    pub fn max_delay_ms(&self, attempt: u32) -> (ms: u64)
        ensures
            ms == max_backoff_ms(self.base_delay_ms, attempt),
    {
        saturating_mul_u64(self.base_delay_ms, saturating_pow2(attempt))
    }

    /// The delay in milliseconds for retry `attempt`: the full backoff without
    /// jitter, otherwise a value drawn from `[0, backoff]` with seed 0.
    pub fn calculate_delay_ms(&self, attempt: u32) -> (ms: u64)
        ensures
            !self.with_jitter ==> ms == max_backoff_ms(self.base_delay_ms, attempt),
            ms <= max_backoff_ms(self.base_delay_ms, attempt),
    {
        self.calculate_delay_ms_with_seed(attempt, 0)
    }

    /// As `calculate_delay_ms`, with `seed` mixed into the jitter.
    pub fn calculate_delay_ms_with_seed(&self, attempt: u32, seed: u64) -> (ms: u64)
        ensures
            !self.with_jitter ==> ms == max_backoff_ms(self.base_delay_ms, attempt),
            ms <= max_backoff_ms(self.base_delay_ms, attempt),
            max_backoff_ms(self.base_delay_ms, attempt) == 0 ==> ms == 0,
    {
        let max_delay_ms = self.max_delay_ms(attempt);
        if self.with_jitter {
            rand_jitter_with_seed(max_delay_ms, seed)
        } else {
            max_delay_ms
        }
    }

    /// The delay before retry `attempt` (see `calculate_delay_ms`).
    pub fn calculate_delay(&self, attempt: u32) -> (d: Duration)
        ensures
            exists|ms: u64|
                #![trigger duration_of_millis(ms)]
                d == duration_of_millis(ms) && ms <= max_backoff_ms(self.base_delay_ms, attempt)
                    && (!self.with_jitter ==> ms == max_backoff_ms(self.base_delay_ms, attempt)),
    {
        duration_from_millis(self.calculate_delay_ms(attempt))
    }

    /// The delay before retry `attempt` with `seed` mixed into the jitter.
    pub fn calculate_delay_with_seed(&self, attempt: u32, seed: u64) -> (d: Duration)
        ensures
            exists|ms: u64|
                #![trigger duration_of_millis(ms)]
                d == duration_of_millis(ms) && ms <= max_backoff_ms(self.base_delay_ms, attempt)
                    && (!self.with_jitter ==> ms == max_backoff_ms(self.base_delay_ms, attempt)),
    {
        duration_from_millis(self.calculate_delay_ms_with_seed(attempt, seed))
    }
}

/// The jitter drawn from `hash` for a maximum of `max`: 0 for a zero
/// maximum, `hash` itself for `u64::MAX`, otherwise `hash % (max + 1)`.
pub open spec fn jitter_of(max: u64, hash: u64) -> u64 {
    if max == 0 {
        0
    } else if max == u64::MAX {
        hash
    } else {
        (hash % ((max + 1) as u64)) as u64
    }
}

/// Maps a hash into `[0, max]` (see `jitter_of`).
pub fn jitter_from_hash(max: u64, hash: u64) -> (r: u64)
    ensures
        r == jitter_of(max, hash),
        r <= max,
{
    if max == 0 {
        return 0;
    }
    if max == u64::MAX {
        return hash;
    }
    hash % (max + 1)
}

/// A random value in `[0, max]`, from `seed` and the clock hashed under a
/// per-process random key; 0 when `max` is 0.
pub fn rand_jitter_with_seed(max: u64, seed: u64) -> (r: u64)
    ensures
        r <= max,
        max == 0 ==> r == 0,
        exists|hash: u64| r == jitter_of(max, hash),
{
    let nanos = clock_nanos();
    let hash = random_state_hash(seed, nanos);
    jitter_from_hash(max, hash)
}

/// The value drawn from `hash` for request spacing with a maximum of `max`:
/// 0 for a zero maximum, otherwise `hash` modulo `max + 1`, the bound
/// saturating at `u64::MAX`.
pub open spec fn spacing_of(max: u64, hash: u64) -> u64 {
    if max == 0 {
        0
    } else if max == u64::MAX {
        (hash % u64::MAX) as u64
    } else {
        (hash % ((max + 1) as u64)) as u64
    }
}

/// Maps a hash into `[0, max]` for request spacing (see `spacing_of`).
pub fn spacing_from_hash(max: u64, hash: u64) -> (r: u64)
    ensures
        r == spacing_of(max, hash),
        r <= max,
        max == u64::MAX ==> r < u64::MAX,
{
    if max == 0 {
        return 0;
    }
    let bound = match max.checked_add(1) {
        Some(b) => b,
        None => u64::MAX,
    };
    hash % bound
}

/// A random value in `[0, max]` for request spacing, drawn as in
/// `rand_jitter_with_seed` but reduced by `spacing_from_hash`, so that for
/// `u64::MAX` it stays below `u64::MAX`.
pub fn random_with_seed(max: u64, seed: u64) -> (r: u64)
    ensures
        r <= max,
        max == 0 ==> r == 0,
        max == u64::MAX ==> r < u64::MAX,
        exists|hash: u64| r == spacing_of(max, hash),
{
    if max == 0 {
        assert(0 == spacing_of(max, 0));
        return 0;
    }
    let nanos = clock_nanos();
    let hash = random_state_hash(seed, nanos);
    spacing_from_hash(max, hash)
}

/// Jittered retry delay for a rate-limited request: a value in
/// `[0, base * 2^attempt]` milliseconds (saturating).
pub fn calculate_retry_delay(attempt: u32, base_delay_ms: u64, seed: u64) -> (d: Duration)
    ensures
        exists|ms: u64|
            #![trigger duration_of_millis(ms)]
            d == duration_of_millis(ms) && ms <= max_backoff_ms(base_delay_ms, attempt),
{
    let max_delay_ms = saturating_mul_u64(base_delay_ms, saturating_pow2(attempt));
    duration_from_millis(random_with_seed(max_delay_ms, seed))
}

/// Request timeout by attempt: 30 s for the first, 60 s for the second and
/// 120 s after that.
pub open spec fn timeout_secs(attempt: u32) -> u64 {
    if attempt == 0 {
        30
    } else if attempt == 1 {
        60
    } else {
        120
    }
}

/// The timeout for request `attempt` (see `timeout_secs`).
pub fn timeout_for_attempt(attempt: u32) -> (d: Duration)
    ensures
        d == duration_of_secs(timeout_secs(attempt)),
{
    let secs: u64 = if attempt == 0 {
        30
    } else if attempt == 1 {
        60
    } else {
        120
    };
    duration_from_secs(secs)
}

/// What to do after a failed attempt.
pub enum RetryStep {
    /// Give up and report the error.
    GiveUp,
    /// Wait this many milliseconds, then try again.
    WaitMs(u64),
}

/// The wait before the next try: the backoff, capped by what the error asked
/// for when it asked for something.
pub open spec fn capped_wait(backoff_ms: u64, retry_after_ms: Option<u64>) -> u64 {
    match retry_after_ms {
        Some(r) => if r < backoff_ms {
            r
        } else {
            backoff_ms
        },
        None => backoff_ms,
    }
}

/// Decides the next step of `retry_with_backoff` after attempt number
/// `attempt` (0-indexed) failed: permanent errors and exhausted retries give
/// up; otherwise wait `min(retry_after, backoff)` with the backoff that
/// `policy` gives for this attempt (drawn through `backoff_ms`).
pub fn next_retry_step(
    policy: &RetryPolicy,
    attempt: usize,
    transient: bool,
    retry_after_ms: Option<u64>,
) -> (step: RetryStep)
    ensures
        (!transient || attempt >= policy.max_retries) <==> step is GiveUp,
        step matches RetryStep::WaitMs(w) ==> exists|b: u64|
            #![trigger capped_wait(b, retry_after_ms)]
            b <= max_backoff_ms(policy.base_delay_ms, attempt as u32) && (!policy.with_jitter
                ==> b == max_backoff_ms(policy.base_delay_ms, attempt as u32)) && w
                == capped_wait(b, retry_after_ms),
{
    if !transient {
        return RetryStep::GiveUp;
    }
    if attempt >= policy.max_retries {
        return RetryStep::GiveUp;
    }
    let backoff = policy.calculate_delay_ms(#[verifier::truncate] (attempt as u32));
    let wait = match retry_after_ms {
        Some(r) => if r < backoff {
            r
        } else {
            backoff
        },
        None => backoff,
    };
    assert(wait == capped_wait(backoff, retry_after_ms));
    RetryStep::WaitMs(wait)
}

/// What one call of the retried operation came to.
#[derive(Debug, Clone, Copy, PartialEq, Eq, Structural)]
pub enum AttemptOutcome {
    Success,
    Failure { transient: bool, retry_after_ms: Option<u64> },
}

/// The number of transient failures from call `i` on, up to the first call
/// that is not one.
pub open spec fn transient_run(outs: Seq<AttemptOutcome>, i: int) -> nat
    decreases outs.len() - i,
{
    if 0 <= i < outs.len() && outs[i] matches AttemptOutcome::Failure { transient: true, .. } {
        1 + transient_run(outs, i + 1)
    } else {
        0
    }
}

/// Drives the decisions of `retry_with_backoff` over the outcomes its calls
/// come to, in order, and gives the number of calls made: the loop stops at
/// the first success or permanent failure, or once the retries are spent.
/// The result of the loop is the outcome of the last call made.
pub fn calls_made(policy: &RetryPolicy, outcomes: &Vec<AttemptOutcome>) -> (calls: usize)
    requires
        outcomes@.len() > policy.max_retries,
    ensures
        calls as int == (if transient_run(outcomes@, 0) < policy.max_retries {
            transient_run(outcomes@, 0) + 1
        } else {
            (policy.max_retries + 1) as nat
        }),
{
    let mut i: usize = 0;
    proof {
        lemma_transient_run_bound(outcomes@, 0);
    }
    loop
        invariant
            i <= policy.max_retries,
            outcomes@.len() > policy.max_retries,
            i < outcomes.len(),
            transient_run(outcomes@, 0) == i + transient_run(outcomes@, i as int),
        decreases policy.max_retries - i,
    {
        let n = outcomes.len();
        assert(i + 1 <= n);
        match outcomes[i] {
            AttemptOutcome::Success => {
                return i + 1;
            },
            AttemptOutcome::Failure { transient, retry_after_ms } => {
                match next_retry_step(policy, i, transient, retry_after_ms) {
                    RetryStep::GiveUp => {
                        proof {
                            if transient {
                                lemma_transient_run_bound(outcomes@, i as int + 1);
                            }
                        }
                        return i + 1;
                    },
                    RetryStep::WaitMs(_) => {
                        i = i + 1;
                    },
                }
            },
        }
    }
}

proof fn lemma_transient_run_bound(outs: Seq<AttemptOutcome>, i: int)
    ensures
        transient_run(outs, i) >= 0,
    decreases outs.len() - i,
{
    if 0 <= i < outs.len() {
        lemma_transient_run_bound(outs, i + 1);
    }
}

/// Without jitter, backoff never shrinks from one attempt to the next.
pub proof fn law_backoff_monotone(base_delay_ms: u64, a: u32, b: u32)
    requires
        a <= b,
    ensures
        max_backoff_ms(base_delay_ms, a) <= max_backoff_ms(base_delay_ms, b),
{
    lemma_pow2_monotone(a as nat, b as nat);
    assert(base_delay_ms * sat_u64(pow2(a as nat)) <= base_delay_ms * sat_u64(pow2(b as nat)))
        by (nonlinear_arith)
        requires
            sat_u64(pow2(a as nat)) <= sat_u64(pow2(b as nat)),
            base_delay_ms >= 0,
    ;
}

/// Below saturation, each retry doubles the jitter-free backoff.
pub proof fn law_backoff_doubles(base_delay_ms: u64, a: u32)
    requires
        a < u32::MAX,
        base_delay_ms * pow2((a + 1) as nat) <= u64_max(),
    ensures
        max_backoff_ms(base_delay_ms, (a + 1) as u32) == 2 * max_backoff_ms(base_delay_ms, a),
{
    lemma_pow2_monotone(a as nat, (a + 1) as nat);
    let p = pow2(a as nat);
    let q = pow2((a + 1) as nat);
    assert(q == 2 * p);
    if base_delay_ms > 0 {
        assert(q <= base_delay_ms * q) by (nonlinear_arith)
            requires
                base_delay_ms >= 1,
                q >= 1,
        ;
        assert(sat_u64(q) == q);
        assert(sat_u64(p) == p);
        assert(base_delay_ms * q == 2 * (base_delay_ms * p)) by (nonlinear_arith)
            requires
                q == 2 * p,
        ;
        assert(max_backoff_ms(base_delay_ms, (a + 1) as u32) == base_delay_ms * q);
        assert(max_backoff_ms(base_delay_ms, a) == base_delay_ms * p);
    } else {
        let sp = sat_u64(p);
        let sq = sat_u64(q);
        assert(base_delay_ms * sp == 0 && base_delay_ms * sq == 0) by (nonlinear_arith)
            requires
                base_delay_ms == 0,
        ;
    }
}

} // verus!
