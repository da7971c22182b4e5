use christina::generation::{
    generation_start, git_error_message, next_pipeline_step, progress_stage, start_pipeline, GitErrorKind,
    PipelineStep, StartStep,
};
use christina::chunking::DiffChunk;
use christina::generation::{
    budget_warning, chunks_total_tokens, empty_chunks_error, is_binary_only, merge_chunks,
    message_budget, require_api_key,
};
use christina::tokenizer::{TokenCount, Tokenizer};

struct ByteTokenizer;

impl Tokenizer for ByteTokenizer {
    fn count_tokens(&self, text: &str) -> TokenCount {
        TokenCount::new_saturating(text.len() as u32)
    }

    fn encoding_name(&self) -> &'static str {
        "bytes"
    }

    fn encode(&self, text: &str) -> Option<Vec<u32>> {
        Some(text.chars().map(|c| c as u32).collect())
    }

    fn decode(&self, tokens: &[u32]) -> Option<String> {
        tokens.iter().map(|&t| char::from_u32(t)).collect()
    }
}

fn chunk(content: &str, files: &[&str], tokens: u32) -> DiffChunk {
    DiffChunk {
        content: content.to_string(),
        file_paths: files.iter().map(|f| f.to_string()).collect(),
        token_count: TokenCount::new_saturating(tokens),
    }
}

#[test]
fn require_api_key_accepts_a_key() {
    assert_eq!(require_api_key(&Some("sk-1".to_string())).unwrap(), "sk-1");
}

#[test]
fn require_api_key_rejects_missing_and_empty_keys() {
    for key in [None, Some(String::new())] {
        let err = require_api_key(&key).unwrap_err();
        assert!(err.message.starts_with("API key not found in configuration."));
        assert!(err.message.ends_with("or set `api_key` in your config file."));
    }
}

#[test]
fn message_budget_subtracts_reservations() {
    assert_eq!(message_budget(10_000, 2_000, 1_500).unwrap(), 6_500);
    assert_eq!(message_budget(3_500, 2_000, 1_500).unwrap(), 0);
    assert_eq!(
        message_budget(3_000, 2_000, 1_500).unwrap_err().message,
        "Invalid token budget: max_output (2000) + reserved_for_prompt (1500) exceeds max_input (3000)"
    );
}

#[test]
fn merge_chunks_joins_small_chunks() {
    let chunks = vec![chunk("aaa", &["x", "y"], 3), chunk("bb", &["y", "z"], 2)];
    let merged = merge_chunks(&ByteTokenizer, chunks, TokenCount::new_saturating(10));
    assert_eq!(merged.len(), 1);
    assert_eq!(merged[0].content, "aaa\n\nbb");
    assert_eq!(merged[0].file_paths, vec!["x".to_string(), "y".to_string(), "z".to_string()]);
    assert_eq!(merged[0].token_count.get(), 7);
}

#[test]
fn merge_chunks_keeps_chunks_over_the_limit() {
    let chunks = vec![chunk("aaa", &["x"], 6), chunk("bb", &["y"], 5)];
    let merged = merge_chunks(&ByteTokenizer, chunks, TokenCount::new_saturating(10));
    assert_eq!(merged.len(), 2);
    assert_eq!(merged[1].content, "bb");
}

#[test]
fn merge_chunks_keeps_a_single_chunk() {
    let merged = merge_chunks(&ByteTokenizer, vec![chunk("a", &["x"], 1)], TokenCount::new_saturating(10));
    assert_eq!(merged.len(), 1);
    assert_eq!(merged[0].token_count.get(), 1);
}

#[test]
fn chunks_total_tokens_sums_and_caps() {
    let chunks = vec![chunk("a", &[], 3), chunk("b", &[], 4)];
    assert_eq!(chunks_total_tokens(&chunks).get(), 7);
    assert_eq!(chunks_total_tokens(&vec![]).get(), 1);
    let big = vec![chunk("a", &[], u32::MAX), chunk("b", &[], 2)];
    assert_eq!(chunks_total_tokens(&big).get(), u32::MAX);
}

#[test]
fn binary_only_detection() {
    let chunks = vec![chunk("[Binary file:] a.png", &["a.png"], 5)];
    assert!(is_binary_only(&chunks));
    let mixed = vec![chunk("[Binary file:] a.png", &["a.png"], 5), chunk("diff", &["b"], 1)];
    assert!(!is_binary_only(&mixed));
    assert!(is_binary_only(&vec![]));
}

#[test]
fn empty_chunks_error_names_ignored_files() {
    let diff = "diff --git a/Cargo.lock b/Cargo.lock\n+x\n";
    let ignore = vec!["Cargo.lock".to_string()];
    assert!(empty_chunks_error(diff, &ignore).message.starts_with("All staged files are in ignore_files list."));
    assert_eq!(empty_chunks_error(diff, &vec![]).message, "No processable diff content found");
    assert_eq!(empty_chunks_error("", &ignore).message, "No processable diff content found");
}

#[test]
fn budget_warnings_say_what_happened() {
    assert_eq!(
        budget_warning("User context", true, true, true),
        Some("User context truncated to fit token budget.".to_string())
    );
    assert_eq!(
        budget_warning("Commit history", true, true, false),
        Some("Commit history omitted to fit token budget.".to_string())
    );
    assert_eq!(budget_warning("User context", false, true, false), None);
    assert_eq!(budget_warning("User context", true, false, true), None);
}

#[test]
fn pipeline_steps_in_order() {
    use_pipeline();
}

fn use_pipeline() {
    let (key, mut step) = start_pipeline(&Some("sk-1".to_string())).unwrap();
    assert_eq!(key, "sk-1");
    assert_eq!(step, PipelineStep::Connect);
    assert!(start_pipeline(&None).is_err());
    let mut seen = vec![step];
    while step != PipelineStep::CallModel {
        step = next_pipeline_step(step, true).unwrap();
        seen.push(step);
    }
    assert_eq!(
        seen,
        vec![
            PipelineStep::Connect,
            PipelineStep::ProcessDiff,
            PipelineStep::ReportChunks,
            PipelineStep::ReportTokens,
            PipelineStep::Analyze,
            PipelineStep::Generate,
            PipelineStep::CallModel,
        ]
    );
    assert_eq!(
        next_pipeline_step(PipelineStep::Analyze, false).unwrap_err().message,
        "Progress receiver dropped, aborting generation"
    );
    assert_eq!(progress_stage(PipelineStep::Connect, 3), Some("connecting to provider".to_string()));
    assert_eq!(progress_stage(PipelineStep::Analyze, 1), Some("analyzing 1 chunk".to_string()));
    assert_eq!(progress_stage(PipelineStep::Analyze, 4), Some("analyzing 4 chunks".to_string()));
    assert_eq!(progress_stage(PipelineStep::ReportTokens, 4), None);
}

#[test]
fn generation_start_and_git_errors() {
    assert_eq!(generation_start(None), StartStep::ShowError("No git repository found".to_string()));
    assert_eq!(generation_start(Some("/repo".to_string())), StartStep::Generate("/repo".to_string()));
    assert_eq!(
        git_error_message(&GitErrorKind::NotFound, "\"/repo\""),
        "Repository no longer accessible at \"/repo\". It may have been moved or deleted."
    );
    assert_eq!(
        git_error_message(&GitErrorKind::Locked, "x"),
        "Repository is locked (git operation in progress). Wait and try again."
    );
    assert_eq!(git_error_message(&GitErrorKind::Git("boom".to_string()), "x"), "boom");
}
