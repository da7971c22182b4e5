use christina::binary_files::is_binary_content;
use christina::chunking::{DiffChunk, LOCKFILE_TOKEN_LIMIT};
use christina::diff_processor::DiffProcessor;
use christina::tokenizer::{TokenCount, Tokenizer};

/// One token per four bytes (at least one).
struct QuarterTokenizer;

impl Tokenizer for QuarterTokenizer {
    fn count_tokens(&self, text: &str) -> TokenCount {
        TokenCount::new_at_least_one((text.len() / 4) as u32)
    }

    fn encoding_name(&self) -> &'static str {
        "mock-4chars"
    }

    fn encode(&self, text: &str) -> Option<Vec<u32>> {
        Some(text.chars().collect::<Vec<_>>().chunks(4).enumerate().map(|(i, _)| i as u32).collect())
    }

    fn decode(&self, tokens: &[u32]) -> Option<String> {
        Some("x".repeat(tokens.len() * 4))
    }
}

/// The size limit these tests run with.
const MAX_DIFF_SIZE: usize = 1024 * 1024;

fn exts() -> Vec<String> {
    [".png", ".jpg", ".jpeg", ".gif", ".pdf", ".zip", ".tar.gz", ".woff", ".mp4"]
        .iter()
        .map(|e| e.to_string())
        .collect()
}

fn create_processor(token_limit: u32) -> DiffProcessor<QuarterTokenizer> {
    DiffProcessor::new(QuarterTokenizer, TokenCount::new_at_least_one(token_limit), MAX_DIFF_SIZE, exts())
}

fn any_contains(chunks: &[DiffChunk], needle: &str) -> bool {
    chunks.iter().any(|c| c.content.contains(needle))
}

#[test]
fn empty_diff_processing() {
    let processor = create_processor(1000);
    let chunks = processor.process("");
    assert_eq!(chunks.len(), 0);
}

#[test]
fn small_diff_single_chunk() {
    let processor = create_processor(10_000);
    let diff = "diff --git a/test.txt b/test.txt\n+new line\n";
    let chunks = processor.process(diff);
    assert_eq!(chunks.len(), 1);
    assert_eq!(chunks[0].content, diff);
    assert_eq!(chunks[0].file_paths, vec!["test.txt".to_string()]);
    assert_eq!(chunks[0].token_count.get(), (diff.len() / 4) as u32);
}

#[test]
fn binary_detection_with_nul_byte_start() {
    let content = "diff --git a/file.bin b/file.bin\n\0binary content";
    assert!(is_binary_content(content, &exts()));
}

#[test]
fn binary_detection_with_nul_byte_middle() {
    let content = "diff --git a/file.bin b/file.bin\nsome text\0more binary stuff";
    assert!(is_binary_content(content, &exts()));
}

#[test]
fn text_file_without_nul_bytes() {
    let content = "diff --git a/file.txt b/file.txt\n+This is a normal text file\n+with multiple lines\n+of UTF-8 content";
    assert!(!is_binary_content(content, &exts()));
}

#[test]
fn empty_file_is_not_binary() {
    let content = "";
    assert!(!is_binary_content(content, &exts()));
}

#[test]
fn utf8_content_is_not_binary() {
    let content = "diff --git a/file.txt b/file.txt\n+Hello 世界 🌍 Привет\n+Γεια σας αΛΛΕΣ";
    assert!(!is_binary_content(content, &exts()));
}

#[test]
fn mixed_content_mostly_text_with_nul() {
    let content = "diff --git a/file.mixed b/file.mixed\n+lots of text\n+and more text\n\0\n+but also binary";
    assert!(is_binary_content(content, &exts()));
}

#[test]
fn binary_detection_git_binary_patch_marker() {
    let content = "diff --git a/image.png b/image.png\nGIT binary patch\nliteral 100";
    assert!(is_binary_content(content, &exts()));
}

#[test]
fn binary_detection_binary_files_marker() {
    let content = "diff --git a/image.png b/image.png\nBinary files a/image.png and b/image.png differ";
    assert!(is_binary_content(content, &exts()));
}

#[test]
fn binary_extension_png() {
    let content = "diff --git a/image.png b/image.png\n+file content";
    assert!(is_binary_content(content, &exts()));
}

#[test]
fn binary_extension_jpg() {
    let content = "diff --git a/photo.jpg b/photo.jpg\n+file content";
    assert!(is_binary_content(content, &exts()));
}

#[test]
fn binary_extension_jpeg() {
    let content = "diff --git a/photo.jpeg b/photo.jpeg\n+file content";
    assert!(is_binary_content(content, &exts()));
}

#[test]
fn binary_extension_gif() {
    let content = "diff --git a/animation.gif b/animation.gif\n+file content";
    assert!(is_binary_content(content, &exts()));
}

#[test]
fn binary_extension_pdf() {
    let content = "diff --git a/document.pdf b/document.pdf\n+file content";
    assert!(is_binary_content(content, &exts()));
}

#[test]
fn binary_extension_zip() {
    let content = "diff --git a/archive.zip b/archive.zip\n+file content";
    assert!(is_binary_content(content, &exts()));
}

#[test]
fn binary_extension_tar_gz() {
    let content = "diff --git a/package.tar.gz b/package.tar.gz\n+file content";
    assert!(is_binary_content(content, &exts()));
}

#[test]
fn binary_extension_woff() {
    let content = "diff --git a/font.woff b/font.woff\n+file content";
    assert!(is_binary_content(content, &exts()));
}

#[test]
fn binary_extension_mp4() {
    let content = "diff --git a/video.mp4 b/video.mp4\n+file content";
    assert!(is_binary_content(content, &exts()));
}

#[test]
fn binary_extension_in_path_a() {
    let content = "diff --git a/src/assets/image.png b/src/assets/image.png\n+content";
    assert!(is_binary_content(content, &exts()));
}

#[test]
fn binary_extension_in_path_b() {
    let content = "diff --git a/src/file.txt b/src/assets/image.jpg\n+content";
    assert!(is_binary_content(content, &exts()));
}

#[test]
fn non_binary_extension_txt() {
    let content = "diff --git a/readme.txt b/readme.txt\n+This is text\n+More text";
    assert!(!is_binary_content(content, &exts()));
}

#[test]
fn non_binary_extension_rs() {
    let content = "diff --git a/main.rs b/main.rs\n+fn main() {\n+    println!(\"Hello\");\n+}";
    assert!(!is_binary_content(content, &exts()));
}

#[test]
fn non_binary_extension_json() {
    let content = "diff --git a/config.json b/config.json\n+{\n+  \"key\": \"value\"\n+}";
    assert!(!is_binary_content(content, &exts()));
}

#[test]
fn non_diff_header_no_binary_detection() {
    let content = "+some content about image.png";
    assert!(!is_binary_content(content, &exts()));
}

#[test]
fn binary_detection_with_nul_byte_late() {
    let mut content = String::with_capacity(4000);
    content.push_str("diff --git a/file.bin b/file.bin\n");
    content.push_str(&"a".repeat(1500));
    content.push('\0');
    content.push_str(&"b".repeat(1500));
    assert!(is_binary_content(&content, &exts()));
}

#[test]
fn process_safe_empty_diff() {
    let processor = create_processor(1000);
    let chunks = processor.process_safe("");
    assert_eq!(chunks.len(), 0);
}

#[test]
fn process_safe_text_file_only() {
    let processor = create_processor(1000);
    let diff = "diff --git a/test.txt b/test.txt\nindex 1234567..abcdefg\n--- a/test.txt\n+++ b/test.txt\n@@ -0,0 +1 @@\n+new line\n";
    let chunks = processor.process_safe(diff);
    assert!(!chunks.is_empty());
}

#[test]
fn process_safe_binary_file_generates_notice() {
    let processor = create_processor(1000);
    let diff = "diff --git a/test.txt b/test.txt\nindex 1234567..abcdefg\n--- a/test.txt\n+++ b/test.txt\n@@ -0,0 +1 @@\n+text content\ndiff --git a/test.bin b/test.bin\nindex 1234567..abcdefg\n--- a/test.bin\n+++ b/test.bin\n@@ -0,0 +1 @@\n\0binary content";
    let chunks = processor.process_safe(diff);
    assert!(any_contains(&chunks, "[Binary file:]"));
    let notice = chunks.iter().find(|c| c.content.contains("[Binary file:]")).unwrap();
    assert_eq!(notice.content, "[Binary file:] test.bin");
    assert_eq!(notice.file_paths, vec!["test.bin".to_string()]);
}

#[test]
fn process_safe_all_binary_files_returns_chunks() {
    let processor = create_processor(1000);
    let diff = "diff --git a/test.bin b/test.bin\n\0binary\n";
    let chunks = processor.process_safe(diff);
    assert!(!chunks.is_empty());
    assert!(any_contains(&chunks, "[Binary file:]"));
}

#[test]
fn process_safe_mixed_binary_and_text() {
    let processor = create_processor(1000);
    let diff = "diff --git a/test.txt b/test.txt\nindex 1234567..abcdefg\n--- a/test.txt\n+++ b/test.txt\n@@ -0,0 +1 @@\n+text content\n";
    let chunks = processor.process_safe(diff);
    assert!(!chunks.is_empty());
}

#[test]
fn process_safe_respects_max_diff_size() {
    let processor = create_processor(1000);
    let huge_diff = "a".repeat(MAX_DIFF_SIZE + 1000);
    let chunks = processor.process_safe(&huge_diff);
    assert!(any_contains(&chunks, "Diff truncated"));
    assert_eq!(
        chunks[0].content,
        format!("[Diff truncated: 1000 bytes omitted; processed first {} bytes]", MAX_DIFF_SIZE)
    );
}

#[test]
fn process_safe_binary_extension_image() {
    let processor = create_processor(1000);
    let diff = "diff --git a/readme.txt b/readme.txt\nindex 1234567..abcdefg\n--- a/readme.txt\n+++ b/readme.txt\n@@ -0,0 +1 @@\n+text\ndiff --git a/logo.png b/logo.png\nindex 1234567..abcdefg\n--- a/logo.png\n+++ b/logo.png\n@@ -0,0 +1 @@\n";
    let chunks = processor.process_safe(diff);
    assert!(any_contains(&chunks, "[Binary file:]"));
}

#[test]
fn processor_new_initializes_defaults() {
    let processor = create_processor(5000);
    assert_eq!(processor.token_limit, TokenCount::new_at_least_one(5000));
    assert_eq!(processor.ignore_files.len(), 0);
    assert_eq!(processor.max_diff_size, MAX_DIFF_SIZE);
    assert_eq!(processor.lockfile_token_limit, TokenCount::new_at_least_one(LOCKFILE_TOKEN_LIMIT));
}

#[test]
fn lockfile_limit_caps_a_lockfile_within_a_chunk() {
    let lock = format!("diff --git a/Cargo.lock b/Cargo.lock\n{}", "+x\n".repeat(200));
    let diff = format!("{}diff --git a/main.rs b/main.rs\n+fn main() {{}}\n", lock);
    let processor = create_processor(100)
        .with_ignore_files(vec!["Cargo.lock".to_string()])
        .with_lockfile_token_limit(TokenCount::new_at_least_one(20));
    let chunks = processor.process(&diff);
    assert_eq!(chunks.len(), 1);
    assert!(chunks[0].content.contains("[... truncated lockfile ...]"));
    assert!(chunks[0].content.len() < lock.len());
    assert_eq!(chunks[0].file_paths, vec!["Cargo.lock".to_string(), "main.rs".to_string()]);
}

#[test]
fn processor_with_ignore_files() {
    let processor = DiffProcessor::new(QuarterTokenizer, TokenCount::new_at_least_one(5000), MAX_DIFF_SIZE, exts())
        .with_ignore_files(vec!["*.lock".to_string(), "*.log".to_string()]);
    assert_eq!(processor.ignore_files.len(), 2);
    assert!(processor.ignore_files.contains(&"*.lock".to_string()));
    assert!(processor.ignore_files.contains(&"*.log".to_string()));
}

#[test]
fn binary_detection_large_file_sampling() {
    let mut content = String::with_capacity(2_000_000);
    content.push_str("diff --git a/large.bin b/large.bin\n");
    content.push_str(&"a".repeat(16));
    content.push('\0');
    content.push_str(&"a".repeat(2_000_000 - content.len()));
    assert!(is_binary_content(&content, &exts()));
}

#[test]
fn binary_detection_large_file_no_nul_bytes() {
    let mut content = String::with_capacity(2_000_000);
    content.push_str("diff --git a/large.txt b/large.txt\n");
    content.push_str(&"a".repeat(2_000_000 - content.len()));
    assert!(!is_binary_content(&content, &exts()));
}

#[test]
fn binary_detection_nul_byte_beyond_8kb() {
    let mut content = String::with_capacity(10_000);
    content.push_str("diff --git a/file.bin b/file.bin\n");
    content.push_str(&"a".repeat(9000));
    content.push('\0');
    content.push_str("more content");
    assert!(is_binary_content(&content, &exts()));
}

#[test]
fn binary_detection_nul_at_8191_boundary() {
    let mut content = String::with_capacity(8200);
    content.push_str("diff --git a/file.bin b/file.bin\n");
    let header_len = content.len();
    content.push_str(&"a".repeat(8192 - header_len - 1));
    content.push('\0');
    assert!(is_binary_content(&content, &exts()));
}

#[test]
fn binary_detection_nul_at_multiple_positions() {
    for nul_position in [100, 1000, 10_000, 50_000, 100_000] {
        let mut content = String::with_capacity(nul_position + 1000);
        content.push_str("diff --git a/file.bin b/file.bin\n");
        content.push_str(&"a".repeat(nul_position - content.len()));
        content.push('\0');
        content.push_str(&"b".repeat(500));
        assert!(is_binary_content(&content, &exts()), "Failed to detect NUL byte at position {}", nul_position);
    }
}

#[test]
fn process_borrowed_truncates_large_diff_with_notice() {
    let mut diff = String::new();
    for i in 0..10 {
        diff.push_str(&format!("diff --git a/file{}.txt b/file{}.txt\n+content\n", i, i));
    }
    let mut processor = create_processor(10_000);
    processor.max_diff_size = 80;
    let chunks = processor.process(&diff);
    assert!(any_contains(&chunks, "diff truncated"));
    let last = chunks.last().unwrap();
    assert_eq!(last.content, "\n[diff truncated: 1 of 10 files shown]");
    assert_eq!(last.file_paths, vec!["file0.txt".to_string()]);
}

#[test]
fn deletion_only_truncation_uses_small_limit() {
    let processor = create_processor(10_000);
    let mut diff = String::from(
        "diff --git a/file.txt b/file.txt\n\
 deleted file mode 100644\n\
 --- a/file.txt\n\
 +++ /dev/null\n\
 @@ -1,120 +0,0 @@\n",
    );
    diff.push_str(&"-line\n".repeat(120));
    let chunks = processor.process(&diff);
    assert_eq!(chunks.len(), 1);
    assert!(chunks[0].content.contains("deleted content truncated"));
    assert_eq!(chunks[0].content.matches("-line\n").count(), 50);
}

#[test]
fn deletion_only_truncation_uses_large_limit_for_big_diff() {
    let processor = create_processor(10_000);
    let mut diff = String::from(
        "diff --git a/file.txt b/file.txt\n\
 deleted file mode 100644\n\
 --- a/file.txt\n\
 +++ /dev/null\n\
 @@ -1,8000 +0,0 @@\n",
    );
    diff.push_str(&"-line\n".repeat(200_000));
    assert!(diff.len() >= 500 * 1024);
    let chunks = processor.process(&diff);
    assert_eq!(chunks.len(), 1);
    assert!(chunks[0].content.contains("deleted content truncated"));
}

#[test]
fn process_owned_respects_max_diff_size() {
    let mut diff = String::new();
    for i in 0..5 {
        diff.push_str(&format!("diff --git a/file{}.txt b/file{}.txt\n+content\n", i, i));
    }
    let mut processor = create_processor(10_000);
    processor.max_diff_size = 20;
    let chunks = processor.process(diff.as_str());
    assert!(!chunks.is_empty());
}

#[test]
fn process_owned_gives_one_chunk_per_file_over_the_size_limit() {
    let mut diff = String::new();
    for i in 0..3 {
        diff.push_str(&format!("diff --git a/file{}.txt b/file{}.txt\n-gone\n", i, i));
    }
    let mut processor = create_processor(10_000);
    processor.max_diff_size = 20;
    let chunks = processor.process_owned(diff.clone());
    assert_eq!(chunks.len(), 3);
    assert_eq!(chunks[1].content, "diff --git a/file1.txt b/file1.txt\n-gone\n");
    assert_eq!(chunks[1].file_paths, vec!["file1.txt".to_string()]);
}

#[test]
fn unsplittable_diff_over_the_size_limit_is_cut_and_marked() {
    let mut processor = create_processor(10_000);
    processor.max_diff_size = 10;
    let chunks = processor.process_borrowed("+just some added text without a header");
    assert_eq!(chunks.len(), 1);
    assert_eq!(chunks[0].content, "+just some\n\n[diff truncated for size]");
    assert!(chunks[0].file_paths.is_empty());
}

#[test]
fn the_largest_token_budget_is_accepted() {
    let processor = create_processor(u32::MAX);
    let diff = "diff --git a/a.txt b/a.txt\n+one\ndiff --git a/b.txt b/b.txt\n+two\n";
    let chunks = processor.process_safe(diff);
    assert_eq!(chunks.len(), 2);
    assert_eq!(chunks[0].file_paths, vec!["a.txt".to_string()]);
    assert_eq!(chunks[1].file_paths, vec!["b.txt".to_string()]);
}
