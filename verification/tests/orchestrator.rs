use christina::orchestrator::{
    extract_json, map_concurrency,
    ChunkSummary, GenerationResult,
};

#[test]
fn extract_json_from_markdown() {

    let response = r#"
```json
{"themes": [{"title": "Test", "description": "Test desc", "fileCount": 1, "scope": "feature"}]}
```
"#;

    let json = extract_json(response);
    assert!(json.starts_with('{'));
    assert!(json.contains("\"themes\""));
}

#[test]
fn extract_json_raw() {

    let response = r#"{"themes": [{"title": "Test", "description": "Test desc", "fileCount": 1, "scope": "feature"}]}"#;

    let json = extract_json(response);
    assert_eq!(json, response);
}

#[test]
fn extract_json_malformed_json_inside_markers() {

    let response = r#"
```json
{"themes": [{"title": "Test", "description": "Missing closing brace"
```
"#;

    let json = extract_json(response);
    assert!(json.contains("\"themes\""));
    assert!(json.contains("Missing closing brace"));
}

#[test]
fn extract_json_missing_closing_marker() {

    let response = r#"
```json
{"themes": [{"title": "Test"}]}
"#;

    let json = extract_json(response);
    assert!(json.starts_with('{'));
    assert!(json.ends_with('}'));
    assert!(json.contains("\"themes\""));
}

#[test]
fn extract_json_multiple_blocks_first_used() {

    let response = r#"
```json
{"themes": [{"title": "First", "description": "First block", "fileCount": 1, "scope": "feat"}]}
```

Some text in between

```json
{"themes": [{"title": "Second", "description": "Second block", "fileCount": 2, "scope": "fix"}]}
```
"#;

    let json = extract_json(response);
    assert!(json.contains("First"));
    assert!(json.contains("First block"));
    assert!(!json.contains("Second"));
}

#[test]
fn extract_json_no_markers_raw_json() {

    let response = r#"{"themes": [{"title": "Raw", "description": "No markers", "fileCount": 1, "scope": "test"}]}"#;

    let json = extract_json(response);
    assert_eq!(json, response);
}

#[test]
fn extract_json_empty_content() {

    let response = "";

    let json = extract_json(response);
    assert_eq!(json, "");
}

#[test]
fn extract_json_non_json_content_inside_markers() {

    let response = r#"
```json
This is not JSON at all, just plain text
```
"#;

    let json = extract_json(response);
    assert_eq!(json.trim(), "This is not JSON at all, just plain text");
}

#[test]
fn extract_json_generic_code_block_with_json() {

    let response = r#"
```
{"themes": [{"title": "Generic", "description": "Generic block", "fileCount": 1, "scope": "feat"}]}
```
"#;

    let json = extract_json(response);
    assert!(json.starts_with('{'));
    assert!(json.contains("\"themes\""));
    assert!(json.contains("Generic"));
}

#[test]
fn extract_json_json_in_text_no_braces() {

    let response = "Here is some text without any JSON content at all";

    let json = extract_json(response);
    assert_eq!(json, response);
}

#[test]
fn extract_json_nested_braces() {

    let response = r#"Some preamble {"outer": {"inner": {"deep": "value"}}} some suffix"#;

    let json = extract_json(response);
    assert_eq!(json, r#"{"outer": {"inner": {"deep": "value"}}}"#);
}

#[test]
fn extract_json_multiple_objects_balanced() {

    let response = r#"{"first": 1} {"second": 2}"#;

    let json = extract_json(response);
    assert_eq!(json, r#"{"first": 1}"#);
}

#[test]
fn extract_json_with_escaped_quotes() {

    let response = r#"{"message": "He said \"hello\"", "count": 1}"#;

    let json = extract_json(response);
    assert_eq!(json, r#"{"message": "He said \"hello\"", "count": 1}"#);
}

#[test]
fn extract_json_with_escaped_backslash() {

    let response = r#"{"path": "C:\\Users\\test", "valid": true}"#;

    let json = extract_json(response);
    assert_eq!(json, r#"{"path": "C:\\Users\\test", "valid": true}"#);
}

#[test]
fn extract_json_unbalanced_braces() {

    let response = r#"{"unclosed": "brace" "#;

    let json = extract_json(response);
    assert_eq!(json, response);
}

#[test]
fn extract_json_braces_in_string() {

    let response = r#"{"code": "if (x) { return y; }", "lang": "js"}"#;

    let json = extract_json(response);
    assert_eq!(json, r#"{"code": "if (x) { return y; }", "lang": "js"}"#);
}

#[test]
fn extract_json_deeply_nested() {

    let response = r#"{"a": {"b": {"c": {"d": {"e": "deep"}}}}}"#;

    let json = extract_json(response);
    assert_eq!(json, r#"{"a": {"b": {"c": {"d": {"e": "deep"}}}}}"#);
}

#[test]
fn extract_json_with_arrays() {

    let response = r#"{"items": [{"id": 1}, {"id": 2}], "count": 2}"#;

    let json = extract_json(response);
    assert_eq!(json, r#"{"items": [{"id": 1}, {"id": 2}], "count": 2}"#);
}

#[test]
fn extract_json_no_json_content() {

    let response = "Just plain text without any braces";

    let json = extract_json(response);
    assert_eq!(json, response);
}

#[test]
fn extract_json_partial_object_in_text() {

    let response = "Error: {code: 404} (not valid JSON)";

    let json = extract_json(response);
    assert_eq!(json, "{code: 404}");
}

#[test]
fn format_summaries_for_prompt() {
    let summaries = vec![
        ChunkSummary {
            summary: "Added authentication".to_string(),
            files: vec!["src/auth.rs".to_string()],
        },
        ChunkSummary {
            summary: "Fixed login bug".to_string(),
            files: vec!["src/login.rs".to_string(), "src/user.rs".to_string()],
        },
    ];

    let formatted = christina::orchestrator::format_summaries_for_prompt(&summaries);

    assert_eq!(formatted.len(), 2);
    assert!(formatted[0].contains("[1 files:"));
    assert!(formatted[0].contains("src/auth.rs"));
    assert!(formatted[0].contains("Added authentication"));
    assert!(formatted[1].contains("[2 files:"));
    assert!(formatted[1].contains("src/login.rs"));
    assert!(formatted[1].contains("Fixed login bug"));
    assert_eq!(formatted[1], "[2 files: src/login.rs, src/user.rs] Fixed login bug");
}

#[test]
fn fallback_sub_themes_from_summaries() {
    let summaries = vec![
        ChunkSummary {
            summary: "Added feature A".to_string(),
            files: vec!["src/a.rs".to_string()],
        },
        ChunkSummary {
            summary: "Added feature B".to_string(),
            files: vec!["src/b.rs".to_string(), "src/c.rs".to_string()],
        },
    ];

    let sub_themes = christina::orchestrator::fallback_sub_themes_from_summaries(&summaries);

    assert_eq!(sub_themes.len(), 1);
    assert_eq!(sub_themes[0].title, "Code changes");
    assert_eq!(sub_themes[0].file_count, 3);
    assert_eq!(sub_themes[0].scope, "chore");
    assert!(sub_themes[0].description.contains("Added feature A"));
    assert!(sub_themes[0].description.contains("Added feature B"));
    assert_eq!(sub_themes[0].description, "Added feature A; Added feature B");
}

#[test]
fn map_concurrency_bounds() {
    assert_eq!(map_concurrency(0, 5), 1);
    assert_eq!(map_concurrency(2, 5), 2);
    assert_eq!(map_concurrency(3, 5), 3);
    assert_eq!(map_concurrency(10, 20), 5);
    assert_eq!(map_concurrency(10, 2), 2);
}

fn result() -> GenerationResult {
    GenerationResult {
        message: "feat: x".to_string(),
        truncated: false,
        salvaged: false,
        failed_chunks: 0,
        failed_files: vec![],
        total_chunks: 4,
        intent_fallback_used: false,
        validation_warnings: vec![],
    }
}

#[test]
fn warning_summary_none_without_warnings() {
    let r = result();
    assert!(!r.has_warnings());
    assert_eq!(r.warning_summary(), None);
}

#[test]
fn warning_summary_lists_all() {
    let mut r = result();
    r.truncated = true;
    r.failed_chunks = 1;
    r.failed_files = vec!["a.rs".to_string(), "b.rs".to_string()];
    r.validation_warnings = vec!["extra".to_string()];
    assert_eq!(
        r.warning_summary().unwrap(),
        "Message was truncated to fit length limit; 1 of 4 chunks failed: a.rs, b.rs; extra"
    );
    let mut q = result();
    q.failed_chunks = 2;
    assert_eq!(q.warning_summary().unwrap(), "2 of 4 chunks failed to process");
}

#[test]
fn clean_response() {
    let response = "Here is the commit message:\nfeat(auth): add login flow\n\nSome extra text";
    let cleaned = christina::orchestrator::clean_response(response);
    assert_eq!(cleaned, "feat(auth): add login flow");
}

#[test]
fn clean_response_with_code_block() {
    let response = "```\nfeat(auth): add login flow\n```";
    let cleaned = christina::orchestrator::clean_response(response);
    assert_eq!(cleaned, "feat(auth): add login flow");
}

#[test]
fn clean_response_preamble_any_case_and_position() {
    let response = "Sure! COMMIT MESSAGE:   fix(core): handle empty diff  \nmore";
    assert_eq!(
        christina::orchestrator::try_clean_response(response),
        Some("fix(core): handle empty diff".to_string())
    );
}

#[test]
fn clean_response_plain_message_is_kept() {
    assert_eq!(
        christina::orchestrator::clean_response("  docs: update readme  "),
        "docs: update readme"
    );
}

#[test]
fn clean_response_refuses_a_cut_inside_a_character() {
    // Lower-casing 'İ' takes three bytes where it had two, so the offset found
    // in the lower-cased text falls inside the next character of the original.
    let response = "İé commit message:éx";
    assert_eq!(christina::orchestrator::try_clean_response(response), None);
}

#[test]
fn detect_contradictions_finds_first_pair() {
    let summaries = vec![
        ChunkSummary { summary: "Add a parser".to_string(), files: vec![] },
        ChunkSummary { summary: "REMOVE the old parser".to_string(), files: vec![] },
    ];
    assert_eq!(
        christina::orchestrator::detect_contradictions(&summaries),
        Some(("add".to_string(), "remove".to_string()))
    );
    let calm = vec![ChunkSummary { summary: "Refactor tests".to_string(), files: vec![] }];
    assert_eq!(christina::orchestrator::detect_contradictions(&calm), None);
}

#[test]
fn fallback_themes_from_summaries_merges_everything() {
    let summaries = vec![
        ChunkSummary { summary: "one".to_string(), files: vec!["a".to_string()] },
        ChunkSummary {
            summary: "two".to_string(),
            files: vec!["b".to_string(), "c".to_string()],
        },
    ];
    let themes = christina::orchestrator::fallback_themes_from_summaries(&summaries);
    assert_eq!(themes.len(), 1);
    assert_eq!(themes[0].title, "Code changes");
    assert_eq!(themes[0].description, "one; two");
    assert_eq!(themes[0].file_count, 3);
    assert_eq!(themes[0].scope, "chore");
}

#[test]
fn commit_candidates_one_per_colon() {
    let message = "Sure! feat: add parser\nDetails: none";
    assert_eq!(
        christina::orchestrator::commit_candidates(message),
        vec!["Sure! feat: add parser".to_string(), "Sure! feat: add parser".to_string()]
    );
}

#[test]
fn commit_candidates_window_of_fifty_bytes() {
    let message = format!("{} fix: handle empty diff\nmore text", "x".repeat(60));
    let expected = format!("{} fix: handle empty diff", "x".repeat(46));
    assert_eq!(christina::orchestrator::commit_candidates(&message), vec![expected]);
    assert!(christina::orchestrator::commit_candidates("no colon here").is_empty());
}
