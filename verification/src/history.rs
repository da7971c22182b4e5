//! Recent commit subjects used as style context for message generation.
use vstd::prelude::*;
use vstd::string::StringSliceAdditionalSpecFns;
use vstd::utf8::*;
use crate::text::{
    decimal, decimal_chars, extend_chars, lines, lit, split_lines, starts_with, str_chars,
    string_from_chars, views,
};

verus! {

broadcast use vstd::utf8::encode_utf8_valid_utf8, vstd::utf8::encode_utf8_decode_utf8;

/// One commit of the history: its abbreviated id and its subject line.
#[derive(Debug)]
pub struct CommitInfo {
    pub sha: String,
    pub subject: String,
}

impl Clone for CommitInfo {
    fn clone(&self) -> (c: Self)
        ensures
            c == *self,
    {
        CommitInfo { sha: self.sha.clone(), subject: self.subject.clone() }
    }
}

/// A failure to read the commit history.
pub struct HistoryError {
    pub message: String,
}

/// Access to the commit history of a repository.
pub trait CommitHistoryProvider {
    /// Up to `limit` recent commits of the repository at `repo_path`.
    fn get_commit_history(&self, repo_path: &str, limit: usize) -> Result<
        Vec<CommitInfo>,
        HistoryError,
    >;
}

/// A commit as the repository stores it.
pub struct RawCommit {
    /// Full object id in hexadecimal.
    pub id: String,
    /// Full commit message.
    pub message: String,
    /// Number of parents.
    pub parent_count: usize,
}

/// Commits kept from a shallow clone at most.
pub const SHALLOW_HISTORY_LIMIT: usize = 3;

/// The number of commits read: `limit`, but at most 3 in a shallow clone.
pub open spec fn effective_limit(limit: usize, shallow: bool) -> nat {
    if shallow && limit > SHALLOW_HISTORY_LIMIT {
        SHALLOW_HISTORY_LIMIT as nat
    } else {
        limit as nat
    }
}

/// The subject: the first line of the message, or empty.
pub open spec fn subject_of(message: Seq<char>) -> Seq<char> {
    if lines(message).len() > 0 {
        lines(message)[0]
    } else {
        Seq::empty()
    }
}

/// Helper commits (`fixup!`, `squash!`, `amend!`) say nothing of style.
pub open spec fn is_helper_subject(subject: Seq<char>) -> bool {
    starts_with(subject, "fixup!"@) || starts_with(subject, "squash!"@) || starts_with(
        subject,
        "amend!"@,
    )
}

/// A commit is kept when it is not a merge and not a helper commit.
pub open spec fn commit_kept(c: RawCommit) -> bool {
    c.parent_count <= 1 && !is_helper_subject(subject_of(c.message@))
}

/// The abbreviated id: the first 7 bytes of the id when they end on a
/// character boundary, else the whole id.
pub open spec fn short_id_bytes(id: Seq<u8>) -> Seq<u8> {
    if id.len() >= 7 && is_char_boundary(id, 7) {
        id.subrange(0, 7)
    } else {
        id
    }
}

/// Abbreviates a commit id (first 7 bytes, see `short_id_bytes`).
pub fn short_id(id: &str) -> (r: String)
    ensures
        r@ == decode_utf8(short_id_bytes(id.spec_bytes())),
{
    let len = id.as_bytes().len();
    if len >= 7 && id.is_char_boundary(7) {
        let (head, _rest) = id.split_at(7);
        head.to_owned()
    } else {
        id.to_owned()
    }
}

/// The commit info kept for a raw commit, when it is kept.
pub fn accept_commit(c: &RawCommit) -> (r: Option<CommitInfo>)
    ensures
        r is Some <==> commit_kept(*c),
        r matches Some(info) ==> info.subject@ == subject_of(c.message@) && info.sha@
            == decode_utf8(short_id_bytes(encode_utf8(c.id@))),
{
    if c.parent_count > 1 {
        return None;
    }
    let ls = split_lines(&str_chars(c.message.as_str()));
    let subject: Vec<char> = if ls.len() > 0 {
        ls[0].clone()
    } else {
        Vec::new()
    };
    assert(subject@ == subject_of(c.message@));
    if crate::text::seq_starts_with(&subject, &lit("fixup!")) || crate::text::seq_starts_with(
        &subject,
        &lit("squash!"),
    ) || crate::text::seq_starts_with(&subject, &lit("amend!")) {
        return None;
    }
    Some(CommitInfo { sha: short_id(c.id.as_str()), subject: string_from_chars(&subject) })
}

/// The commits kept from `raw`, walked newest first, stopping once `limit`
/// commits are kept.
pub open spec fn selected(raw: Seq<RawCommit>, limit: nat) -> Seq<RawCommit>
    decreases raw.len(),
{
    if raw.len() == 0 {
        Seq::empty()
    } else {
        let before = selected(raw.drop_last(), limit);
        if before.len() < limit && commit_kept(raw.last()) {
            before.push(raw.last())
        } else {
            before
        }
    }
}

proof fn lemma_selected_len(raw: Seq<RawCommit>, limit: nat)
    ensures
        selected(raw, limit).len() <= limit || limit == 0 && selected(raw, limit).len() == 0,
        selected(raw, limit).len() <= raw.len(),
    decreases raw.len(),
{
    if raw.len() > 0 {
        lemma_selected_len(raw.drop_last(), limit);
    }
}

/// Picks the style history from commits walked newest first: merges and
/// helper commits are skipped, and at most `limit` commits (3 in a shallow
/// clone) are kept, each as its abbreviated id and subject.
pub fn select_history(raw: &Vec<RawCommit>, limit: usize, shallow: bool) -> (r: Vec<CommitInfo>)
    ensures
        r@.len() == selected(raw@, effective_limit(limit, shallow)).len(),
        r@.len() <= effective_limit(limit, shallow),
        forall|k: int|
            0 <= k < r@.len() ==> {
                let c = #[trigger] selected(raw@, effective_limit(limit, shallow))[k];
                r@[k].subject@ == subject_of(c.message@) && r@[k].sha@ == decode_utf8(
                    short_id_bytes(encode_utf8(c.id@)),
                )
            },
{
    let effective: usize = if shallow && limit > SHALLOW_HISTORY_LIMIT {
        SHALLOW_HISTORY_LIMIT
    } else {
        limit
    };
    let ghost lim = effective_limit(limit, shallow);
    let mut out: Vec<CommitInfo> = Vec::new();
    let mut i: usize = 0;
    while i < raw.len()
        invariant
            i <= raw@.len(),
            effective == lim,
            out@.len() == selected(raw@.take(i as int), lim).len(),
            forall|k: int|
                0 <= k < out@.len() ==> {
                    let c = #[trigger] selected(raw@.take(i as int), lim)[k];
                    out@[k].subject@ == subject_of(c.message@) && out@[k].sha@ == decode_utf8(
                        short_id_bytes(encode_utf8(c.id@)),
                    )
                },
        ensures
            i < raw@.len() ==> out@.len() >= lim,
        decreases raw@.len() - i,
    {
        let ghost pre = raw@.take(i as int);
        assert(raw@.take(i + 1).drop_last() =~= pre);
        if out.len() >= effective {
            break;
        }
        let r = accept_commit(&raw[i]);
        match r {
            Some(info) => {
                out.push(info);
            },
            None => {},
        }
        i = i + 1;
    }
    proof {
        lemma_selected_len(raw@, lim);
        if i < raw@.len() {
            lemma_selected_stops(raw@, i as int, lim);
        } else {
            assert(raw@.take(i as int) =~= raw@);
        }
    }
    out
}

/// The style history holds at most `limit` commits, none of them a merge or
/// a helper commit.
pub proof fn law_history_keeps_only_style_commits(raw: Seq<RawCommit>, limit: nat)
    ensures
        selected(raw, limit).len() <= limit,
        forall|i: int|
            0 <= i < selected(raw, limit).len() ==> commit_kept(#[trigger] selected(raw, limit)[i]),
    decreases raw.len(),
{
    if raw.len() > 0 {
        law_history_keeps_only_style_commits(raw.drop_last(), limit);
    }
}

/// Once `limit` commits are kept, later commits change nothing.
proof fn lemma_selected_stops(raw: Seq<RawCommit>, i: int, limit: nat)
    requires
        0 <= i <= raw.len(),
        selected(raw.take(i), limit).len() >= limit,
    ensures
        selected(raw, limit) == selected(raw.take(i), limit),
    decreases raw.len() - i,
{
    if i < raw.len() {
        assert(raw.take(i + 1).drop_last() =~= raw.take(i));
        lemma_selected_stops(raw, i + 1, limit);
    } else {
        assert(raw.take(i) =~= raw);
    }
}

/// Whether reading more commits can still change the selection.
pub fn history_needs_more(raw: &Vec<RawCommit>, limit: usize, shallow: bool) -> (b: bool)
    ensures
        b == (selected(raw@, effective_limit(limit, shallow)).len() < effective_limit(limit, shallow)),
{
    let kept = select_history(raw, limit, shallow);
    let effective: usize = if shallow && limit > SHALLOW_HISTORY_LIMIT {
        SHALLOW_HISTORY_LIMIT
    } else {
        limit
    };
    kept.len() < effective
}

/// One history line: `- <sha>: <subject>`.
pub open spec fn history_line(c: CommitInfo) -> Seq<char> {
    "- "@ + c.sha@ + ": "@ + c.subject@
}

/// History lines joined by newlines.
pub open spec fn history_lines(cs: Seq<CommitInfo>) -> Seq<char>
    decreases cs.len(),
{
    if cs.len() == 0 {
        Seq::empty()
    } else if cs.len() == 1 {
        history_line(cs[0])
    } else {
        history_lines(cs.drop_last()) + "\n"@ + history_line(cs.last())
    }
}

/// The prompt context for a history: the newest `budget` commits under a
/// heading, with a note of how many older ones were left out.
pub open spec fn history_context(cs: Seq<CommitInfo>, budget: nat) -> Option<Seq<char>> {
    if cs.len() == 0 {
        None
    } else {
        let kept = if cs.len() > budget {
            cs.take(budget as int)
        } else {
            cs
        };
        let omitted = (cs.len() - kept.len()) as nat;
        if omitted > 0 {
            Some(
                "Recent commits:\n"@ + history_lines(kept) + "\n[... "@ + decimal(omitted)
                    + " older commits omitted ...]"@,
            )
        } else {
            Some("Recent commits:\n"@ + history_lines(kept))
        }
    }
}

/// Formats the style history for the prompt (see `history_context`).
pub fn format_history_context(commits: &Vec<CommitInfo>, budget: usize) -> (r: Option<String>)
    ensures
        match history_context(commits@, budget as nat) {
            Some(s) => r matches Some(x) && x@ == s,
            None => r is None,
        },
{
    if commits.len() == 0 {
        return None;
    }
    let kept_len = if commits.len() > budget {
        budget
    } else {
        commits.len()
    };
    let ghost kept = if commits@.len() > budget {
        commits@.take(budget as int)
    } else {
        commits@
    };
    assert(kept =~= commits@.take(kept_len as int));
    let mut out = lit("Recent commits:\n");
    let ghost head = out@;
    let mut i: usize = 0;
    while i < kept_len
        invariant
            i <= kept_len <= commits@.len(),
            out@ == head + history_lines(commits@.take(i as int)),
        decreases kept_len - i,
    {
        let c = &commits[i];
        let ghost before = commits@.take(i as int);
        assert(commits@.take(i + 1).drop_last() =~= before);
        if i > 0 {
            extend_chars(&mut out, &lit("\n"));
        }
        extend_chars(&mut out, &lit("- "));
        extend_chars(&mut out, &str_chars(c.sha.as_str()));
        extend_chars(&mut out, &lit(": "));
        extend_chars(&mut out, &str_chars(c.subject.as_str()));
        proof {
            if i == 0 {
                assert(commits@.take(1) =~= seq![commits@[0]]);
            }
        }
        assert(out@ =~= head + history_lines(commits@.take(i + 1)));
        i = i + 1;
    }
    let omitted = commits.len() - kept_len;
    if omitted > 0 {
        extend_chars(&mut out, &lit("\n[... "));
        extend_chars(&mut out, &decimal_chars(omitted));
        extend_chars(&mut out, &lit(" older commits omitted ...]"));
    }
    Some(string_from_chars(&out))
}

} // verus!
