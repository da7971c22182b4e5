use christina::tokenizer::{get_tokenizer, TokenBudget, TokenCount, Tokenizer, TokenizerService};

#[test]
fn tokenizer_count_tokens() {
    let tokenizer = get_tokenizer();

    // Simple text should have tokens
    let count = tokenizer.count_tokens("Hello, world!");
    assert!(count.get() > 0);
    assert!(count.get() < 10); // Reasonable upper bound
}

#[test]
fn tokenizer_slice_to_limit() {
    let tokenizer = get_tokenizer();
    let text = "Hello, world! This is a longer text that has many tokens.";

    // Slicing to 3 tokens should return less text
    let sliced = tokenizer.slice_to_token_limit(text, TokenCount::new_saturating(3));
    assert!(sliced.len() < text.len());
    assert!(tokenizer.count_tokens(&sliced).get() > 0);

    // Slicing with large limit should return full text
    let full = tokenizer.slice_to_token_limit(text, TokenCount::new_saturating(1000));
    assert_eq!(full, text);
}

#[test]
fn tokenizer_slice_empty() {
    let tokenizer = get_tokenizer();

    // Zero limit should return empty string
    let slice = tokenizer.slice_to_token_limit("Hello", TokenCount::new_saturating(1));
    assert!(!slice.is_empty());

    // Empty input should return empty string
    assert_eq!(
        tokenizer.slice_to_token_limit("", TokenCount::new_saturating(1)),
        ""
    );
}

#[test]
fn token_budget_remaining() {
    let budget = TokenBudget::new(
        TokenCount::new_saturating(100_000),
        TokenCount::new_saturating(4_000),
        TokenCount::new_saturating(1_000),
        TokenCount::new_saturating(500),
    );
    let remaining = budget.remaining_for_diff().expect("valid budget");

    // Should be max_input - max_output - reserved_for_prompt - reserved_for_messages
    assert_eq!(remaining.get(), 100_000 - 4_000 - 1_000 - 500);
}

#[test]
fn token_budget_invalid_returns_error() {
    // max_output + reserved exceeds max_input
    let result = TokenBudget::try_new(
        TokenCount::new_saturating(4_096),
        TokenCount::new_saturating(3_000),
        TokenCount::new_saturating(1_000),
        TokenCount::new_saturating(500),
    );

    assert!(result.is_err());
    if let Err(err) = result {
        assert!(err.contains("exceeds max_input"));
    }
}

#[test]
fn token_budget_presets() {
    let small = TokenBudget::small();
    assert_eq!(small.max_input.get(), 32_000);

    let medium = TokenBudget::medium();
    assert_eq!(medium.max_input.get(), 128_000);

    let large = TokenBudget::large();
    assert_eq!(large.max_input.get(), 256_000);

    let massive = TokenBudget::massive();
    assert_eq!(massive.max_input.get(), 1_000_000);
}

#[test]
fn token_budget_error_message_is_exact() {
    let result = TokenBudget::try_new(
        TokenCount::new_saturating(4_096),
        TokenCount::new_saturating(3_000),
        TokenCount::new_saturating(1_000),
        TokenCount::new_saturating(500),
    );
    assert_eq!(
        result.unwrap_err(),
        "Invalid token budget: max_output (3000) + reserved_for_prompt (1000) + reserved_for_messages (500) = 4500 exceeds max_input (4096)"
    );
}

#[test]
fn token_budget_overflow_is_reported() {
    let result = TokenBudget::try_new(
        TokenCount::new_saturating(u32::MAX),
        TokenCount::new_saturating(u32::MAX),
        TokenCount::new_saturating(1),
        TokenCount::new_saturating(1),
    );
    assert_eq!(result.unwrap_err(), "Token budget overflow during calculation");
}

#[test]
fn token_budget_with_nothing_left_underflows() {
    let budget = TokenBudget::try_new(
        TokenCount::new_saturating(1_500),
        TokenCount::new_saturating(1_000),
        TokenCount::new_saturating(300),
        TokenCount::new_saturating(200),
    )
    .expect("reservations equal to the input are accepted");
    assert_eq!(
        budget.remaining_for_diff().unwrap_err(),
        "Token budget underflow during calculation"
    );
}

#[test]
fn token_budget_default_is_medium() {
    let budget = TokenBudget::default();
    assert_eq!(budget, TokenBudget::medium());
    assert_eq!(budget.remaining_for_diff().unwrap().get(), 128_000 - 4_096 - 1_000 - 500);
}

#[test]
fn token_count_is_never_zero() {
    assert_eq!(TokenCount::new(0), None);
    assert_eq!(TokenCount::new(7).map(|t| t.get()), Some(7));
    assert_eq!(TokenCount::new_saturating(0).get(), 1);
    assert_eq!(TokenCount::new_at_least_one(0).get(), 1);
}

#[test]
fn tokenizer_counts_the_encoding() {
    let tokenizer = TokenizerService::new();
    let text = "fn main() { println!(\"hi\"); }";
    let tokens = tokenizer.encode(text).expect("ordinary text encodes");
    assert_eq!(tokenizer.count_tokens(text).get() as usize, tokens.len());
    assert_eq!(tokenizer.decode(&tokens), Some(text.to_string()));
    assert_eq!(tokenizer.count_tokens("").get(), 1);
    assert_eq!(tokenizer.encoding_name(), "o200k_base");
}

#[test]
fn tokenizer_slice_prefers_a_line_end() {
    let tokenizer = TokenizerService::new();
    let text = "alpha beta gamma delta\nepsilon zeta eta theta iota kappa lambda mu nu xi";
    let first_line_tokens = tokenizer.count_tokens("alpha beta gamma delta\n").get();
    let sliced = tokenizer.slice_to_token_limit(text, TokenCount::new_saturating(first_line_tokens + 1));
    assert!(text.starts_with(&sliced));
    assert!(sliced.ends_with('\n'));
}

#[test]
fn tokenizer_service_encoding_name() {
    assert_eq!(get_tokenizer().encoding_name(), "o200k_base");
    assert_eq!(TokenizerService::new().encoding_name(), "o200k_base");
}

#[test]
fn tokenizer_survives_a_huge_whitespace_run() {
    let tokenizer = TokenizerService::new();
    let text = format!("a{}b", " ".repeat(1_500_000));
    let count = tokenizer.count_tokens(&text).get() as usize;
    assert!(count >= 1);
    assert!(count <= text.len());
    if tokenizer.encode(&text).is_none() {
        assert_eq!(count, text.len());
    }
}
