use christina::git_files::{assemble_staged_files, get_delta_path, DeltaKind, GitFile, PatchLine};

fn line(path: &str, origin: char, content: &str) -> PatchLine {
    PatchLine { path: path.to_string(), origin, content: content.to_string() }
}

#[test]
fn assemble_staged_files_collects_each_patch() {
    let files = vec![("a.rs".to_string(), DeltaKind::Modified), ("b.rs".to_string(), DeltaKind::Added)];
    let lines = vec![
        line("a.rs", 'F', "diff --git a/a.rs b/a.rs\n"),
        line("a.rs", 'H', "@@ -1 +1 @@\n"),
        line("a.rs", '-', "old\n"),
        line("a.rs", '+', "new\n"),
        line("b.rs", 'F', "diff --git a/b.rs b/b.rs\n"),
        line("b.rs", '+', "hello\n"),
    ];
    let out = assemble_staged_files(&files, &lines);
    assert_eq!(
        out,
        vec![
            GitFile {
                path: "a.rs".to_string(),
                status: "M".to_string(),
                diff: "diff --git a/a.rs b/a.rs\n@@ -1 +1 @@\n-old\n+new\n".to_string(),
            },
            GitFile {
                path: "b.rs".to_string(),
                status: "A".to_string(),
                diff: "diff --git a/b.rs b/b.rs\n+hello\n".to_string(),
            },
        ]
    );
}

#[test]
fn assemble_staged_files_without_patch_text() {
    let files = vec![("gone.txt".to_string(), DeltaKind::Deleted), ("x".to_string(), DeltaKind::Other)];
    let out = assemble_staged_files(&files, &vec![]);
    assert_eq!(out[0].status, "D");
    assert_eq!(out[0].diff, "");
    assert_eq!(out[1].status, "?");
}

#[test]
fn assemble_staged_files_keeps_the_last_text_of_a_path() {
    let files = vec![("a".to_string(), DeltaKind::Renamed)];
    let lines = vec![line("a", '+', "1\n"), line("b", '+', "2\n"), line("a", ' ', "3\n")];
    let out = assemble_staged_files(&files, &lines);
    assert_eq!(out[0].diff, " 3\n");
    assert_eq!(out[0].status, "R");
}

#[test]
fn delta_path_uses_old_path_for_deletions() {
    assert_eq!(
        get_delta_path(DeltaKind::Deleted, Some("old".to_string()), Some("new".to_string())),
        Some("old".to_string())
    );
    assert_eq!(
        get_delta_path(DeltaKind::Copied, Some("old".to_string()), Some("new".to_string())),
        Some("new".to_string())
    );
    assert_eq!(get_delta_path(DeltaKind::Added, None, None), None);
}
