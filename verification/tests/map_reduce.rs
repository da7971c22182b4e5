use christina::generation::GenerationError;
use christina::map_reduce::{
    hierarchical_themes, intent_batches, intent_path, plan_generation, tally_map_outcomes,
    with_history, ChunkOutcome, GenerationPath, IntentPath,
};
use christina::orchestrator::{ChunkSummary, SubTheme};

fn summary(text: &str, files: &[&str]) -> ChunkSummary {
    ChunkSummary {
        summary: text.to_string(),
        files: files.iter().map(|f| f.to_string()).collect(),
    }
}

fn ok(response: &str, files: &[&str]) -> ChunkOutcome {
    ChunkOutcome::Summarized {
        response: response.to_string(),
        files: files.iter().map(|f| f.to_string()).collect(),
    }
}

fn failed(systemic: bool, error: &str, files: &[&str]) -> ChunkOutcome {
    ChunkOutcome::Failed {
        systemic,
        error: error.to_string(),
        files: files.iter().map(|f| f.to_string()).collect(),
    }
}

fn sub(title: &str, files: usize, scope: &str) -> SubTheme {
    SubTheme {
        title: title.to_string(),
        description: format!("{title} details"),
        file_count: files,
        scope: scope.to_string(),
    }
}

#[test]
fn plan_generation_paths() {
    match plan_generation(0) {
        Err(GenerationError { message }) => assert_eq!(message, "No diff chunks to process"),
        Ok(_) => panic!("no chunks must fail"),
    }
    assert!(matches!(plan_generation(1), Ok(GenerationPath::Direct)));
    assert!(matches!(plan_generation(7), Ok(GenerationPath::MapReduce)));
}

#[test]
fn intent_path_thresholds() {
    assert_eq!(intent_path(0), IntentPath::Fallback);
    assert_eq!(intent_path(2), IntentPath::Fallback);
    assert_eq!(intent_path(3), IntentPath::Single);
    assert_eq!(intent_path(20), IntentPath::Single);
    assert_eq!(intent_path(21), IntentPath::Hierarchical);
}

#[test]
fn history_is_appended_under_heading() {
    assert_eq!(with_history("Write it.", &None), "Write it.");
    assert_eq!(
        with_history("Write it.", &Some("abc1234 feat: x".to_string())),
        "Write it.\n\nRecent commit history for style reference:\nabc1234 feat: x"
    );
}

#[test]
fn tally_counts_partial_failures() {
    let outcomes = vec![
        ok("  Adds a parser \n", &["src/a.rs"]),
        failed(false, "timeout", &["src/b.rs", "src/c.rs"]),
        ok("Fixes tests", &["tests/t.rs"]),
    ];
    let tally = tally_map_outcomes(&outcomes, 3).unwrap();
    assert_eq!(tally.summaries.len(), 2);
    assert_eq!(tally.summaries[0].summary, "Adds a parser");
    assert_eq!(tally.summaries[0].files, vec!["src/a.rs".to_string()]);
    assert_eq!(tally.summaries[1].summary, "Fixes tests");
    assert_eq!(tally.failed_chunks, 1);
    assert_eq!(tally.failed_files, vec!["src/b.rs".to_string(), "src/c.rs".to_string()]);
    assert_eq!(tally.summaries.len() + tally.failed_chunks, outcomes.len());
}

#[test]
fn tally_aborts_on_systemic_failure() {
    let outcomes = vec![
        ok("Adds a parser", &["src/a.rs"]),
        failed(true, "invalid API key", &["src/b.rs", "src/c.rs"]),
        failed(true, "never reached", &["src/d.rs"]),
    ];
    assert_eq!(
        tally_map_outcomes(&outcomes, 3).unwrap_err(),
        "Systemic provider failure detected - aborting pipeline: invalid API key. Files affected: src/b.rs, src/c.rs. This typically indicates authentication issues, rate limit exhaustion, or invalid API keys."
    );
}

#[test]
fn tally_fails_when_nothing_was_summarized() {
    let outcomes = vec![failed(false, "timeout", &["a.rs"]), failed(false, "timeout", &["b.rs"])];
    assert_eq!(
        tally_map_outcomes(&outcomes, 2).unwrap_err(),
        "All 2 chunks failed to process. Files affected: a.rs, b.rs"
    );
}

#[test]
fn batches_of_twenty() {
    let summaries: Vec<ChunkSummary> =
        (0..45).map(|i| summary(&format!("change {i}"), &["f.rs"])).collect();
    let batches = intent_batches(&summaries);
    assert_eq!(batches.iter().map(|b| b.len()).collect::<Vec<_>>(), vec![20, 20, 5]);
    assert_eq!(batches[1][0].summary, "change 20");
    assert_eq!(batches[2][4].summary, "change 44");
    let joined: Vec<String> = batches.iter().flatten().map(|s| s.summary.clone()).collect();
    let original: Vec<String> = summaries.iter().map(|s| s.summary.clone()).collect();
    assert_eq!(joined, original);
    assert!(intent_batches(&Vec::new()).is_empty());
}

#[test]
fn hierarchical_without_sub_themes_falls_back() {
    let summaries = vec![summary("Adds a parser", &["a.rs", "b.rs"]), summary("Fixes docs", &["c.md"])];
    let (themes, fallback) = hierarchical_themes(&summaries, vec![vec![], vec![]]);
    assert!(fallback);
    assert_eq!(themes.len(), 1);
    assert_eq!(themes[0].title, "Code changes");
    assert_eq!(themes[0].description, "Adds a parser; Fixes docs");
    assert_eq!(themes[0].file_count, 3);
    assert_eq!(themes[0].scope, "chore");
}

#[test]
fn hierarchical_merges_batches_by_scope() {
    let summaries = vec![summary("x", &["a.rs"])];
    let batches = vec![
        vec![sub("Parser", 2, "feat"), sub("Docs", 1, "docs")],
        vec![sub("Parser", 3, "feat")],
    ];
    let (themes, fallback) = hierarchical_themes(&summaries, batches);
    assert!(!fallback);
    assert_eq!(themes.len(), 2);
    assert_eq!(themes[0].scope, "feat");
    assert_eq!(themes[0].title, "Parser");
    assert_eq!(themes[0].file_count, 5);
    assert_eq!(themes[0].description, "Parser details; Parser details");
    assert_eq!(themes[1].scope, "docs");
}
