use christina::history::{
    accept_commit, format_history_context, history_needs_more, select_history, short_id,
    CommitHistoryProvider, CommitInfo, HistoryError, RawCommit,
};

struct MockCommitHistoryProvider {
    commits: Vec<CommitInfo>,
}

impl MockCommitHistoryProvider {
    fn new(commits: Vec<CommitInfo>) -> Self {
        Self { commits }
    }

    fn empty() -> Self {
        Self { commits: Vec::new() }
    }
}

impl CommitHistoryProvider for MockCommitHistoryProvider {
    fn get_commit_history(&self, _repo_path: &str, limit: usize) -> Result<Vec<CommitInfo>, HistoryError> {
        Ok(self.commits.iter().take(limit).cloned().collect())
    }
}

struct FailingCommitHistoryProvider;

impl CommitHistoryProvider for FailingCommitHistoryProvider {
    fn get_commit_history(&self, _repo_path: &str, _limit: usize) -> Result<Vec<CommitInfo>, HistoryError> {
        Err(HistoryError { message: "Failed to retrieve commit history".to_string() })
    }
}

fn commit(sha: &str, subject: &str) -> CommitInfo {
    CommitInfo { sha: sha.to_string(), subject: subject.to_string() }
}

#[test]
fn test_mock_commit_history_provider_empty() {
    let provider = MockCommitHistoryProvider::empty();
    let result = provider.get_commit_history("/fake/path", 10).ok().unwrap();
    assert!(result.is_empty());
}

#[test]
fn test_mock_commit_history_provider_with_commits() {
    let commits = vec![commit("abc1234", "feat: add feature A"), commit("def5678", "fix: resolve bug B")];

    let provider = MockCommitHistoryProvider::new(commits);
    let result = provider.get_commit_history("/fake/path", 10).ok().unwrap();

    assert_eq!(result.len(), 2);
    assert_eq!(result[0].sha, "abc1234");
    assert_eq!(result[0].subject, "feat: add feature A");
    assert_eq!(result[1].sha, "def5678");
    assert_eq!(result[1].subject, "fix: resolve bug B");
}

#[test]
fn test_mock_commit_history_provider_respects_limit() {
    let commits = vec![
        commit("abc1234", "feat: add feature A"),
        commit("def5678", "fix: resolve bug B"),
        commit("ghi9012", "chore: update deps"),
    ];

    let provider = MockCommitHistoryProvider::new(commits);
    let result = provider.get_commit_history("/fake/path", 2).ok().unwrap();

    assert_eq!(result.len(), 2);
    assert_eq!(result[0].sha, "abc1234");
    assert_eq!(result[1].sha, "def5678");
}

#[test]
fn test_failing_commit_history_provider() {
    let provider = FailingCommitHistoryProvider;
    let result = provider.get_commit_history("/fake/path", 10);
    assert!(result.is_err());
    assert!(result.err().unwrap().message.contains("Failed to retrieve commit history"));
}

#[test]
fn test_commit_info_clone() {
    let commit = commit("abc1234", "feat: add feature");

    let cloned = commit.clone();
    assert_eq!(commit.sha, cloned.sha);
    assert_eq!(commit.subject, cloned.subject);
}

fn raw(id: &str, message: &str, parents: usize) -> RawCommit {
    RawCommit { id: id.to_string(), message: message.to_string(), parent_count: parents }
}

#[test]
fn history_selection_skips_merges_and_helpers() {
    let raws = vec![
        raw("0123456789abcdef", "feat: one\n\nbody", 1),
        raw("1111111111111111", "Merge branch 'x'", 2),
        raw("2222222222222222", "fixup! feat: one", 1),
        raw("3333333333333333", "fix: two", 0),
        raw("4444444444444444", "docs: three", 1),
    ];
    let picked = select_history(&raws, 2, false);
    assert_eq!(picked.len(), 2);
    assert_eq!(picked[0].sha, "0123456");
    assert_eq!(picked[0].subject, "feat: one");
    assert_eq!(picked[1].sha, "3333333");
    assert!(!history_needs_more(&raws, 2, false));
    assert!(history_needs_more(&raws, 4, false));
    assert_eq!(select_history(&raws, 10, true).len(), 3);
}

#[test]
fn short_ids_and_single_commits() {
    assert_eq!(short_id("abc"), "abc");
    assert_eq!(short_id("abcdefgh"), "abcdefg");
    assert!(accept_commit(&raw("abcdefgh", "squash! x", 1)).is_none());
    assert!(accept_commit(&raw("abcdefgh", "amend! x", 1)).is_none());
    assert_eq!(accept_commit(&raw("abcdefgh", "", 1)).unwrap().subject, "");
}

#[test]
fn history_context_formatting() {
    assert_eq!(format_history_context(&vec![], 3), None);
    let commits = vec![commit("a1", "feat: a"), commit("b2", "fix: b"), commit("c3", "chore: c")];
    assert_eq!(
        format_history_context(&commits, 5).unwrap(),
        "Recent commits:\n- a1: feat: a\n- b2: fix: b\n- c3: chore: c"
    );
    assert_eq!(
        format_history_context(&commits, 2).unwrap(),
        "Recent commits:\n- a1: feat: a\n- b2: fix: b\n[... 1 older commits omitted ...]"
    );
}

#[test]
fn test_commit_info_debug() {
    let commit = CommitInfo {
        sha: "abc1234".to_string(),
        subject: "feat: add feature".to_string(),
    };

    let debug_str = format!("{:?}", commit);
    assert!(debug_str.contains("abc1234"));
    assert!(debug_str.contains("feat: add feature"));
}
