use christina::commit_flow::{
    action_for_selection, compute_diff_stats, confirm_commit, gpg_failure_message, is_gpg_signing_failure,
    is_noninteractive_gpg_error, on_commit_action, on_editor_result, CommitAction, CommitStep,
};

#[test]
fn confirm_commit_with_yes_accepts_without_asking() {
    assert_eq!(confirm_commit(true, None), Some(CommitAction::Accept));
    assert_eq!(confirm_commit(true, Some(3)), Some(CommitAction::Accept));
}

#[test]
fn confirm_commit_maps_menu_entries() {
    assert_eq!(confirm_commit(false, None), None);
    assert_eq!(confirm_commit(false, Some(0)), Some(CommitAction::Accept));
    assert_eq!(confirm_commit(false, Some(1)), Some(CommitAction::Edit));
    assert_eq!(confirm_commit(false, Some(2)), Some(CommitAction::Regenerate));
    assert_eq!(confirm_commit(false, Some(3)), Some(CommitAction::Decline));
    assert_eq!(action_for_selection(99), CommitAction::Decline);
}

#[test]
fn commit_steps_follow_the_choice() {
    assert_eq!(
        on_commit_action(CommitAction::Accept, "feat: x".to_string()),
        CommitStep::Finish("feat: x".to_string())
    );
    assert_eq!(on_commit_action(CommitAction::Edit, String::new()), CommitStep::OpenEditor);
    assert_eq!(on_commit_action(CommitAction::Regenerate, String::new()), CommitStep::Generate);
    assert_eq!(on_commit_action(CommitAction::Decline, String::new()), CommitStep::Cancel);
}

#[test]
fn editor_failure_warns_and_regenerates() {
    assert_eq!(
        on_editor_result(Ok("fix: y".to_string())),
        CommitStep::Finish("fix: y".to_string())
    );
    assert_eq!(
        on_editor_result(Err("no editor".to_string())),
        CommitStep::WarnAndGenerate("Editor failed: no editor".to_string())
    );
}

#[test]
fn compute_diff_stats_counts_lines() {
    let diff = "diff --git a/f b/f\n--- a/f\n+++ b/f\n@@ -1,2 +1,2 @@\n-old\n+new\n+more\n context\n";
    let stats = compute_diff_stats(diff);
    assert_eq!(stats.lines_total, 8);
    assert_eq!(stats.additions, 2);
    assert_eq!(stats.deletions, 1);
}

#[test]
fn compute_diff_stats_of_empty_diff() {
    let stats = compute_diff_stats("");
    assert_eq!((stats.lines_total, stats.additions, stats.deletions), (0, 0, 0));
}

#[test]
fn gpg_signing_failure_is_case_insensitive() {
    assert!(is_gpg_signing_failure("error: GPG Signing Failed: no secret key"));
    assert!(!is_gpg_signing_failure("error: signing failed"));
}

#[test]
fn noninteractive_gpg_errors_are_recognised() {
    assert!(is_noninteractive_gpg_error("gpg: signing failed: Inappropriate ioctl for device"));
    assert!(is_noninteractive_gpg_error("gpg: problem with the agent: No Pinentry"));
    assert!(is_noninteractive_gpg_error("cannot open '/dev/tty'"));
    assert!(!is_noninteractive_gpg_error("gpg: signing failed: No secret key"));
}

#[test]
fn gpg_failure_message_adds_hint_for_missing_terminal() {
    assert_eq!(
        gpg_failure_message("  gpg: signing failed: No secret key\n"),
        "GPG signing failed: gpg: signing failed: No secret key"
    );
    let m = gpg_failure_message("gpg: signing failed: Inappropriate ioctl for device\n");
    assert!(m.starts_with("GPG signing failed: gpg: signing failed: Inappropriate ioctl for device (non-interactive"));
    assert!(m.ends_with("git config commit.gpgsign false"));
}
