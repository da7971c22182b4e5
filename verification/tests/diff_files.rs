use christina::diff_parsing::{
    extract_file_paths, parse_git_diff_header, split_by_files, MAX_FILE_DIFF_SIZE,
};
use christina::tokenizer::{TokenCount, Tokenizer};

struct MockTokenizer;

impl Tokenizer for MockTokenizer {
    fn count_tokens(&self, text: &str) -> TokenCount {
        TokenCount::new_saturating(text.len() as u32)
    }

    fn encoding_name(&self) -> &'static str {
        "mock-bytes"
    }

    fn encode(&self, text: &str) -> Option<Vec<u32>> {
        Some(text.chars().map(|c| c as u32).collect())
    }

    fn decode(&self, tokens: &[u32]) -> Option<String> {
        tokens
            .iter()
            .filter_map(|&token| char::from_u32(token))
            .collect::<String>()
            .into()
    }
}

#[test]
fn extract_file_paths_from_git_diff() {
    let diff = "\
diff --git a/src/main.rs b/src/main.rs
index 1234567..abcdefg 100644
diff --git \"a/path with space.txt\" \"b/path with space.txt\"
diff --git c/noindex.txt i/noindex.txt
 context diff --git a/fake.txt b/fake.txt
diff --git file.txt file.txt
";

    let paths = extract_file_paths(diff);
    assert_eq!(
        paths,
        vec![
            "src/main.rs".to_string(),
            "path with space.txt".to_string(),
            "noindex.txt".to_string(),
            "file.txt".to_string(),
        ]
    );
}

#[test]
fn parse_git_diff_header_standard() {
    assert_eq!(
        parse_git_diff_header("diff --git a/src/main.rs b/src/main.rs"),
        Some("src/main.rs".to_string())
    );
}

#[test]
fn parse_git_diff_header_with_mnemonic_prefixes() {
    assert_eq!(
        parse_git_diff_header("diff --git c/file.txt i/file.txt"),
        Some("file.txt".to_string())
    );
    assert_eq!(
        parse_git_diff_header("diff --git w/file.txt i/file.txt"),
        Some("file.txt".to_string())
    );
}

#[test]
fn parse_git_diff_header_handles_whitespace() {
    assert_eq!(
        parse_git_diff_header("diff  --git a/file.txt b/file.txt"),
        Some("file.txt".to_string())
    );
    assert_eq!(
        parse_git_diff_header("diff\t--git\ta/file.txt\tb/file.txt"),
        Some("file.txt".to_string())
    );
    assert_eq!(
        parse_git_diff_header("  diff --git a/file.txt b/file.txt  "),
        Some("file.txt".to_string())
    );
}

#[test]
fn parse_git_diff_header_without_prefixes() {
    assert_eq!(
        parse_git_diff_header("diff --git file.txt file.txt"),
        Some("file.txt".to_string())
    );
    assert_eq!(
        parse_git_diff_header("diff --git path/to/file.txt path/to/file.txt"),
        Some("path/to/file.txt".to_string())
    );
}

#[test]
fn parse_git_diff_header_quoted_paths() {
    assert_eq!(
        parse_git_diff_header("diff --git \"a/path with space.txt\" \"b/path with space.txt\""),
        Some("path with space.txt".to_string())
    );
}

#[test]
fn parse_git_diff_header_extracts_rename_destination() {
    assert_eq!(
        parse_git_diff_header("diff --git a/old/path.rs b/new/path.rs"),
        Some("new/path.rs".to_string())
    );
}

#[test]
fn parse_git_diff_header_invalid_inputs() {
    assert_eq!(parse_git_diff_header("diff --git a/onlyone"), None);
    assert_eq!(parse_git_diff_header("not a diff header"), None);
}

#[test]
fn split_diff_by_individual_files() {
    let diff = "\
diff --git a/file1.txt b/file1.txt
index 1234567..abcdefg 100644
--- a/file1.txt
+++ b/file1.txt
@@ -1 +1 @@
-old
+new
diff --git a/file2.txt b/file2.txt
index 2345678..bcdefgh 100644
--- a/file2.txt
+++ b/file2.txt
@@ -1 +1 @@
-old2
+new2
";

    let tokenizer = MockTokenizer;
    let files = split_by_files(diff, &tokenizer);
    assert_eq!(files.len(), 2);
    assert_eq!(files[0].path, "file1.txt".to_string());
    assert_eq!(files[1].path, "file2.txt".to_string());
    assert!(!files[0].truncated);
    assert_eq!(
        files[0].token_count,
        TokenCount::new_saturating(files[0].content.len() as u32)
    );
}

#[test]
fn split_by_files_ignores_inline_headers() {
    let diff = "\
diff --git a/real.txt b/real.txt
+Some content with diff --git a/fake.txt b/fake.txt embedded
More content
";

    let tokenizer = MockTokenizer;
    let files = split_by_files(diff, &tokenizer);
    assert_eq!(files.len(), 1);
    assert_eq!(files[0].path, "real.txt".to_string());
}

#[test]
fn split_by_files_truncates_large_file() {
    let header = "diff --git a/huge.txt b/huge.txt\n";
    let body = "a".repeat(MAX_FILE_DIFF_SIZE + 64);
    let diff = format!("{header}{body}");

    let tokenizer = MockTokenizer;
    let files = split_by_files(&diff, &tokenizer);
    assert_eq!(files.len(), 1);
    assert!(files[0].truncated);
    assert_eq!(files[0].content.len(), MAX_FILE_DIFF_SIZE);
    assert_eq!(
        files[0].token_count,
        TokenCount::new_saturating(MAX_FILE_DIFF_SIZE as u32)
    );
}

#[test]
fn split_by_files_keeps_section_text_exactly() {
    let diff = "preamble\ndiff --git a/x b/x\n+1\ndiff --git a/y b/y\n-2\n";
    let files = split_by_files(diff, &MockTokenizer);
    assert_eq!(files.len(), 2);
    assert_eq!(files[0].content, "diff --git a/x b/x\n+1\n");
    assert_eq!(files[1].content, "diff --git a/y b/y\n-2\n");
    assert_eq!(files[1].token_count.get(), 22);
}

#[test]
fn split_by_files_cuts_at_a_character_boundary() {
    let header = "diff --git a/u.txt b/u.txt\n";
    let filler = "a".repeat(MAX_FILE_DIFF_SIZE - header.len() - 1);
    let diff = format!("{header}{filler}é and more");
    let files = split_by_files(&diff, &MockTokenizer);
    assert_eq!(files.len(), 1);
    assert!(files[0].truncated);
    assert_eq!(files[0].content.len(), MAX_FILE_DIFF_SIZE - 1);
}

#[test]
fn split_by_files_skips_sections_without_a_path() {
    let diff = "diff --git onlyone\n+x\ndiff --git a/k b/k\n";
    let files = split_by_files(diff, &MockTokenizer);
    assert_eq!(files.len(), 1);
    assert_eq!(files[0].path, "k");
}

#[test]
fn parse_git_diff_header_keeps_same_prefixes() {
    assert_eq!(
        parse_git_diff_header("diff --git a/x.txt a/y.txt"),
        Some("a/y.txt".to_string())
    );
    assert_eq!(
        parse_git_diff_header("diff --git ab/x.txt cd/y.txt"),
        Some("cd/y.txt".to_string())
    );
}
