use christina::diff_parsing::{
    is_all_file_deletions, is_deletion_only, safe_truncate, truncate_deletion_diff,
};

#[test]
fn safe_truncate_ascii() {
    let s = "hello world";
    assert_eq!(safe_truncate(s, 5), "hello");
}

#[test]
fn safe_truncate_utf8_multibyte() {
    let s = "café";
    assert_eq!(safe_truncate(s, 4), "caf");
    assert_eq!(safe_truncate(s, 5), "café");
}

#[test]
fn safe_truncate_emoji_boundary() {
    let s = "hi 👋";
    assert_eq!(safe_truncate(s, 3), "hi ");
    assert_eq!(safe_truncate(s, 6), "hi ");
    assert_eq!(safe_truncate(s, s.len()), s);
}

#[test]
fn safe_truncate_zero_bytes() {
    assert_eq!(safe_truncate("test", 0), "");
}

#[test]
fn is_deletion_only_correctly_identifies_pure_deletions() {
    let deletion_diff = "\
diff --git a/file.txt b/file.txt
--- a/file.txt
+++ b/file.txt
@@ -1,3 +0,0 @@
-line 1
-line 2
-line 3";
    assert!(is_deletion_only(deletion_diff));

    let mixed_diff = "\
diff --git a/file.txt b/file.txt
--- a/file.txt
+++ b/file.txt
@@ -1,3 +1,3 @@
-old line
+new line
 context line";
    assert!(!is_deletion_only(mixed_diff));

    let addition_diff = "\
diff --git a/file.txt b/file.txt
--- a/file.txt
+++ b/file.txt
@@ -0,0 +1,2 @@
+new line 1
+new line 2";
    assert!(!is_deletion_only(addition_diff));

    let empty_diff = "diff --git a/file.txt b/file.txt";
    assert!(!is_deletion_only(empty_diff));
}

#[test]
fn is_all_file_deletions_verifies_multiple_file_states() {
    let single_deletion = "\
diff --git a/file.txt b/file.txt
deleted file mode 100644
index abcdef..0000000";
    assert!(is_all_file_deletions(single_deletion));

    let multi_deletion = "\
diff --git a/file1.txt b/file1.txt
deleted file mode 100644
diff --git a/file2.txt b/file2.txt
deleted file mode 100644";
    assert!(is_all_file_deletions(multi_deletion));

    let mixed = "\
diff --git a/deleted.txt b/deleted.txt
deleted file mode 100644
diff --git a/modified.txt b/modified.txt
--- a/modified.txt
+++ b/modified.txt";
    assert!(!is_all_file_deletions(mixed));

    let no_deletions = "\
diff --git a/file.txt b/file.txt
--- a/file.txt
+++ b/file.txt";
    assert!(!is_all_file_deletions(no_deletions));
}

#[test]
fn truncate_deletion_diff_respects_line_limit_per_hunk() {
    let deletion_diff = "\
diff --git a/file.txt b/file.txt
deleted file mode 100644
index abcdef..0000000
--- a/file.txt
+++ /dev/null
@@ -1,4 +0,0 @@
-line 1
-line 2
-line 3
-line 4
@@ -10,3 +0,0 @@
-line 5
-line 6
-line 7";

    let truncated = truncate_deletion_diff(deletion_diff, 2);

    assert!(truncated.contains("diff --git"));
    assert!(truncated.contains("deleted file mode"));
    assert!(truncated.contains("---"));
    assert!(truncated.contains("+++"));
    assert!(truncated.contains("@@ -1,4 +0,0 @@"));

    assert!(truncated.contains("-line 1"));
    assert!(truncated.contains("-line 2"));
    assert!(!truncated.contains("-line 3"));
    assert!(!truncated.contains("-line 4"));

    assert!(truncated.contains("-line 5"));
    assert!(truncated.contains("-line 6"));
    assert!(!truncated.contains("-line 7"));

    assert!(truncated.contains("[... deleted content truncated"));
    assert!(truncated.contains("Truncated 3 deletion lines"));
}

#[test]
fn truncate_deletion_diff_without_truncation_keeps_content() {
    let deletion_diff = "\
diff --git a/file.txt b/file.txt
deleted file mode 100644
index abcdef..0000000
--- a/file.txt
+++ /dev/null
@@ -1,2 +0,0 @@
-line 1
-line 2";

    let truncated = truncate_deletion_diff(deletion_diff, 5);
    assert!(!truncated.contains("deleted content truncated"));
    assert!(!truncated.contains("Truncated "));
    assert!(truncated.contains("-line 1"));
    assert!(truncated.contains("-line 2"));
}

#[test]
fn truncate_deletion_diff_exact_output() {
    let diff = "@@ -1,3 +0,0 @@\r\n-a\n-b\n-c\n context";
    let out = truncate_deletion_diff(diff, 1);
    assert_eq!(
        out,
        "@@ -1,3 +0,0 @@\n-a\n[... deleted content truncated to save tokens ...]\n context\n\n[Truncated 2 deletion lines - full deletion diff not needed for commit message generation]\n"
    );
}

#[test]
fn truncate_deletion_diff_short_diff_is_line_normalized_copy() {
    let diff = "diff --git a/x b/x\n-one\n-two";
    assert_eq!(truncate_deletion_diff(diff, 2), "diff --git a/x b/x\n-one\n-two\n");
}

#[test]
fn is_deletion_only_ignores_file_markers() {
    assert!(is_deletion_only("--- a/f\n+++ b/f\n-gone\n"));
    assert!(!is_deletion_only("--- a/f\n+++ b/f\n"));
    assert!(!is_deletion_only(""));
}

#[test]
fn is_all_file_deletions_needs_a_header() {
    assert!(!is_all_file_deletions("deleted file mode 100644"));
    assert!(!is_all_file_deletions(""));
}

#[test]
fn safe_truncate_keeps_short_strings() {
    assert_eq!(safe_truncate("abc", 10), "abc");
    assert_eq!(safe_truncate("日本", 4), "日");
}
