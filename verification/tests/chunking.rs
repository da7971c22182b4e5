use christina::chunking::{
    should_limit_file, split_by_hunks, split_by_lines, split_recursive, split_recursive_with_lockfile_limit, truncate_to_token_limit,
    DiffChunk, FileDiff,
};
use christina::tokenizer::{TokenCount, Tokenizer};

/// One token per byte; tokens are the characters' code points.
struct ByteTokenizer;

impl Tokenizer for ByteTokenizer {
    fn count_tokens(&self, text: &str) -> TokenCount {
        TokenCount::new_saturating(text.len() as u32)
    }

    fn encoding_name(&self) -> &'static str {
        "bytes"
    }

    fn encode(&self, text: &str) -> Option<Vec<u32>> {
        Some(text.chars().map(|c| c as u32).collect())
    }

    fn decode(&self, tokens: &[u32]) -> Option<String> {
        tokens.iter().map(|&t| char::from_u32(t)).collect()
    }
}

/// Like `ByteTokenizer`, but nothing decodes.
struct NoDecodeTokenizer;

impl Tokenizer for NoDecodeTokenizer {
    fn count_tokens(&self, text: &str) -> TokenCount {
        TokenCount::new_saturating(text.len() as u32)
    }

    fn encoding_name(&self) -> &'static str {
        "bytes-no-decode"
    }

    fn encode(&self, text: &str) -> Option<Vec<u32>> {
        Some(text.chars().map(|c| c as u32).collect())
    }

    fn decode(&self, _tokens: &[u32]) -> Option<String> {
        None
    }
}

fn contents(chunks: &[DiffChunk]) -> Vec<(String, u32)> {
    chunks.iter().map(|c| (c.content.clone(), c.token_count.get())).collect()
}

fn limit(n: u32) -> TokenCount {
    TokenCount::new_saturating(n)
}

#[test]
fn split_by_lines_packs_and_cuts_long_lines() {
    let chunks = split_by_lines(&ByteTokenizer, "f.txt", "aaaa\nbb\ncccccccccc\n", limit(6));
    assert_eq!(
        contents(&chunks),
        vec![
            ("aaaa\n".to_string(), 5),
            ("bb\n".to_string(), 3),
            ("cccccc".to_string(), 6),
            ("cccc".to_string(), 4),
        ]
    );
    assert!(chunks.iter().all(|c| c.file_paths == vec!["f.txt".to_string()]));
}

#[test]
fn split_by_lines_keeps_lines_together_within_limit() {
    let chunks = split_by_lines(&ByteTokenizer, "f", "ab\ncd\nef\n", limit(6));
    assert_eq!(
        contents(&chunks),
        vec![("ab\ncd\n".to_string(), 6), ("ef\n".to_string(), 3)]
    );
}

#[test]
fn split_by_lines_cuts_multibyte_lines_at_character_boundaries() {
    let chunks = split_by_lines(&ByteTokenizer, "u", "ééé\n", limit(3));
    let pieces: Vec<String> = chunks.iter().map(|c| c.content.clone()).collect();
    assert_eq!(pieces.concat(), "ééé");
    assert!(chunks.iter().all(|c| c.token_count.get() <= 3));
}

#[test]
fn split_by_hunks_keeps_small_file_whole() {
    let content = "diff --git a/f b/f\n@@ -1 +1 @@\n-a\n+b\n@@ -5 +5 @@\n-c\n+d\n";
    let chunks = split_by_hunks(&ByteTokenizer, "f", content, limit(100));
    assert_eq!(
        contents(&chunks),
        vec![(
            "diff --git a/f b/f\n@@ -1 +1 @@\n-a\n+b\n\n@@ -5 +5 @@\n-c\n+d\n".to_string(),
            18 + 18 + 1 + 18 + 1
        )]
    );
}

#[test]
fn split_by_hunks_repeats_the_header_for_each_chunk() {
    let content = "diff --git a/f b/f\n@@ -1 +1 @@\n-a\n+b\n@@ -5 +5 @@\n-c\n+d\n";
    let chunks = split_by_hunks(&ByteTokenizer, "f", content, limit(40));
    assert_eq!(
        contents(&chunks),
        vec![
            ("diff --git a/f b/f\n@@ -1 +1 @@\n-a\n+b\n".to_string(), 37),
            ("diff --git a/f b/f\n@@ -5 +5 @@\n-c\n+d\n".to_string(), 37),
        ]
    );
}

#[test]
fn split_by_hunks_without_hunks_is_one_chunk() {
    let chunks = split_by_hunks(&ByteTokenizer, "f", "Binary files differ\n", limit(50));
    assert_eq!(contents(&chunks), vec![("Binary files differ\n".to_string(), 20)]);
}

#[test]
fn split_by_hunks_falls_back_to_lines_for_a_long_header() {
    let chunks = split_by_hunks(&ByteTokenizer, "f", "0123456789\nabc\n", limit(8));
    assert_eq!(
        contents(&chunks),
        vec![
            ("01234567".to_string(), 8),
            ("89".to_string(), 2),
            ("abc\n".to_string(), 4),
        ]
    );
}

#[test]
fn truncate_to_token_limit_ends_at_a_line() {
    let out = truncate_to_token_limit(&ByteTokenizer, "line one\nline two\n", limit(12));
    assert_eq!(out, "line one\n");
}

#[test]
fn truncate_to_token_limit_keeps_short_content() {
    let out = truncate_to_token_limit(&ByteTokenizer, "short", limit(12));
    assert_eq!(out, "short");
}

#[test]
fn truncate_to_token_limit_keeps_partial_line_when_line_end_is_early() {
    let out = truncate_to_token_limit(&ByteTokenizer, "a\nbcdefghijklmnop", limit(10));
    assert_eq!(out, "a\nbcdefghi");
}

#[test]
fn truncate_to_token_limit_falls_back_to_whole_lines() {
    let out = truncate_to_token_limit(&NoDecodeTokenizer, "abc\ndefg\nhij\n", limit(9));
    assert_eq!(out, "abc\ndefg\n");
}

#[test]
fn should_limit_file_matches_suffixes() {
    let patterns = vec!["Cargo.lock".to_string(), ".lock".to_string()];
    assert!(should_limit_file("sub/Cargo.lock", &patterns));
    assert!(should_limit_file("yarn.lock", &patterns));
    assert!(!should_limit_file("src/lock.rs", &patterns));
    assert!(!should_limit_file("anything", &[]));
}

fn file(path: &str, content: &str) -> FileDiff {
    FileDiff {
        path: path.to_string(),
        content: content.to_string(),
        token_count: TokenCount::new_saturating(content.len() as u32),
        truncated: false,
    }
}

#[test]
fn split_recursive_packs_whole_files() {
    let files = vec![file("a", "aaaa"), file("b", "bbb"), file("c", "cccccc")];
    let chunks = split_recursive(&ByteTokenizer, files, limit(8), &[]);
    assert_eq!(
        contents(&chunks),
        vec![("aaaabbb".to_string(), 7), ("cccccc".to_string(), 6)]
    );
    assert_eq!(chunks[0].file_paths, vec!["a".to_string(), "b".to_string()]);
    assert_eq!(chunks[1].file_paths, vec!["c".to_string()]);
}

#[test]
fn split_recursive_caps_lockfiles() {
    let lock = "x".repeat(150);
    let files = vec![file("Cargo.lock", &lock)];
    let chunks = split_recursive(&ByteTokenizer, files, limit(200), &["Cargo.lock".to_string()]);
    assert_eq!(chunks.len(), 1);
    assert_eq!(
        chunks[0].content,
        format!("{}\n[... truncated lockfile ...]\n", "x".repeat(100))
    );
    assert_eq!(chunks[0].token_count.get(), 100);
}

#[test]
fn split_recursive_drops_lockfiles_over_the_limit() {
    let files = vec![file("Cargo.lock", &"x".repeat(150)), file("a", "aa")];
    let chunks = split_recursive(&ByteTokenizer, files, limit(50), &["Cargo.lock".to_string()]);
    assert_eq!(contents(&chunks), vec![("aa".to_string(), 2)]);
}

#[test]
fn split_recursive_splits_large_files_by_hunks() {
    let big = "diff --git a/f b/f\n@@ -1 +1 @@\n-a\n+b\n@@ -5 +5 @@\n-c\n+d\n";
    let files = vec![file("small", "s"), file("f", big)];
    let chunks = split_recursive(&ByteTokenizer, files, limit(40), &[]);
    assert_eq!(
        contents(&chunks),
        vec![
            ("s".to_string(), 1),
            ("diff --git a/f b/f\n@@ -1 +1 @@\n-a\n+b\n".to_string(), 37),
            ("diff --git a/f b/f\n@@ -5 +5 @@\n-c\n+d\n".to_string(), 37),
        ]
    );
}

#[test]
fn split_recursive_caps_lockfiles_at_a_chosen_limit() {
    let lock = "x".repeat(150);
    let files = vec![file("Cargo.lock", &lock), file("a", "aa")];
    let chunks = split_recursive_with_lockfile_limit(
        &ByteTokenizer,
        files,
        limit(200),
        &["Cargo.lock".to_string()],
        limit(30),
    );
    assert_eq!(
        contents(&chunks),
        vec![(format!("{}\n[... truncated lockfile ...]\naa", "x".repeat(30)), 32)]
    );
}

#[test]
fn split_recursive_takes_the_largest_budget() {
    let files = vec![file("a", "aaaa"), file("b", "bbb")];
    let chunks = split_recursive(&ByteTokenizer, files, limit(u32::MAX), &[]);
    assert_eq!(contents(&chunks), vec![("aaaabbb".to_string(), 7)]);
}
