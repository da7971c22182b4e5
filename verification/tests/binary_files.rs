use christina::binary_files::is_binary_content;

fn exts() -> Vec<String> {
    [".png", ".jpg", ".jpeg", ".gif", ".pdf", ".zip", ".tar.gz", ".woff", ".mp4"]
        .iter()
        .map(|e| e.to_string())
        .collect()
}

#[test]
fn binary_markers_and_nul_bytes() {
    assert!(!is_binary_content("", &exts()));
    assert!(is_binary_content("Binary files a/x and b/x differ", &exts()));
    assert!(is_binary_content("diff --git a/x b/x\nGIT binary patch\n", &exts()));
    assert!(is_binary_content("\0PNG data", &exts()));
    assert!(is_binary_content(&format!("{}\0tail", "a".repeat(9000)), &exts()));
    assert!(!is_binary_content("diff --git a/main.rs b/main.rs\n+fn main() {}\n", &exts()));
    assert!(!is_binary_content("héllo wörld ✓", &exts()));
}

#[test]
fn binary_extensions_in_the_header() {
    assert!(is_binary_content("diff --git a/logo.png b/logo.png\n", &exts()));
    assert!(is_binary_content("diff --git a/Photo.JPG b/Photo.JPG\n", &exts()));
    assert!(is_binary_content("diff --git a/dist.tar.gz b/dist.tar.gz\n", &exts()));
    assert!(!is_binary_content("diff --git a/notes.txt b/notes.txt\n", &exts()));
    assert!(!is_binary_content("diff --git a/data.json b/data.json\n", &exts()));
    assert!(!is_binary_content("just a line mentioning a/logo.png\n", &exts()));
}
