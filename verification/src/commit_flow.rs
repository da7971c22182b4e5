//! Decisions of the interactive commit command: what the user's choice leads
//! to, what a diff's line statistics are, and how commit failures are read.
use vstd::prelude::*;
use crate::diff_parsing::{is_addition_line, is_deletion_line};
use crate::text::{extend_chars, string_from_chars, trim, trim_chars, lowercase_chars, lowercase_of, contains, lines, lit, seq_contains, split_lines, starts_with, seq_starts_with, str_chars, views};

verus! {

/// What the user chose to do with a proposed commit message.
#[derive(Debug, Clone, Copy, PartialEq, Eq, Structural)]
pub enum CommitAction {
    Accept,
    Edit,
    Regenerate,
    Decline,
}

/// The action for an index of the menu `accept, edit, regenerate, decline`;
/// any index past the last one declines.
pub open spec fn action_at(index: nat) -> CommitAction {
    if index == 0 {
        CommitAction::Accept
    } else if index == 1 {
        CommitAction::Edit
    } else if index == 2 {
        CommitAction::Regenerate
    } else {
        CommitAction::Decline
    }
}

/// The menu entry chosen at `index`.
pub fn action_for_selection(index: usize) -> (a: CommitAction)
    ensures
        a == action_at(index as nat),
{
    match index {
        0 => CommitAction::Accept,
        1 => CommitAction::Edit,
        2 => CommitAction::Regenerate,
        _ => CommitAction::Decline,
    }
}

/// Confirms a proposed message: with `yes` it is accepted without asking;
/// otherwise the answer is the menu entry the user selected, and `None`
/// means the menu still has to be shown.
pub fn confirm_commit(yes: bool, selection: Option<usize>) -> (r: Option<CommitAction>)
    ensures
        yes ==> r == Some(CommitAction::Accept),
        !yes ==> match selection {
            Some(i) => r == Some(action_at(i as nat)),
            None => r.is_none(),
        },
{
    if yes {
        return Some(CommitAction::Accept);
    }
    match selection {
        Some(i) => Some(action_for_selection(i)),
        None => None,
    }
}

/// The next step of the commit command.
#[derive(Debug, Clone, PartialEq, Eq)]
pub enum CommitStep {
    /// Commit with this message.
    Finish(String),
    /// Open the message in the user's editor.
    OpenEditor,
    /// Generate a fresh message.
    Generate,
    /// Stop without committing.
    Cancel,
    /// Tell the user the editor failed, then generate a fresh message.
    WarnAndGenerate(String),
}

/// What follows the user's choice on `message`.
pub fn on_commit_action(action: CommitAction, message: String) -> (s: CommitStep)
    ensures
        action == CommitAction::Accept ==> s == CommitStep::Finish(message),
        action == CommitAction::Edit ==> s == CommitStep::OpenEditor,
        action == CommitAction::Regenerate ==> s == CommitStep::Generate,
        action == CommitAction::Decline ==> s == CommitStep::Cancel,
{
    match action {
        CommitAction::Accept => CommitStep::Finish(message),
        CommitAction::Edit => CommitStep::OpenEditor,
        CommitAction::Regenerate => CommitStep::Generate,
        CommitAction::Decline => CommitStep::Cancel,
    }
}

/// The warning shown when the editor could not be used.
pub open spec fn editor_warning(err: Seq<char>) -> Seq<char> {
    "Editor failed: "@ + err
}

/// What follows the editor: its text is committed, and a failure is reported
/// before a fresh message is generated.
pub fn on_editor_result(result: Result<String, String>) -> (s: CommitStep)
    ensures
        match result {
            Ok(edited) => s == CommitStep::Finish(edited),
            Err(err) => s matches CommitStep::WarnAndGenerate(w) && w@ == editor_warning(err@),
        },
{
    match result {
        Ok(edited) => CommitStep::Finish(edited),
        Err(err) => {
            let mut w = lit("Editor failed: ");
            let e = str_chars(err.as_str());
            crate::text::extend_chars(&mut w, &e);
            proof {
                reveal_strlit("Editor failed: ");
            }
            CommitStep::WarnAndGenerate(crate::text::string_from_chars(&w))
        },
    }
}

/// Line statistics of a diff.
#[derive(Debug, Clone, Copy, PartialEq, Eq, Structural)]
pub struct DiffStats {
    pub lines_total: usize,
    pub additions: usize,
    pub deletions: usize,
}

/// How many of `ls` satisfy `p`.
pub open spec fn count_lines(ls: Seq<Seq<char>>, p: spec_fn(Seq<char>) -> bool) -> nat
    decreases ls.len(),
{
    if ls.len() == 0 {
        0
    } else {
        count_lines(ls.drop_last(), p) + if p(ls.last()) { 1nat } else { 0nat }
    }
}

proof fn lemma_count_lines_bound(ls: Seq<Seq<char>>, p: spec_fn(Seq<char>) -> bool)
    ensures
        count_lines(ls, p) <= ls.len(),
    decreases ls.len(),
{
    if ls.len() > 0 {
        lemma_count_lines_bound(ls.drop_last(), p);
    }
}

/// The statistics of `diff`: every line counts toward the total, additions
/// and deletions leave out the `+++` and `---` file headers.
pub fn compute_diff_stats(diff: &str) -> (s: DiffStats)
    ensures
        s.lines_total == lines(diff@).len(),
        s.additions == count_lines(lines(diff@), |l: Seq<char>| is_addition_line(l)),
        s.deletions == count_lines(lines(diff@), |l: Seq<char>| is_deletion_line(l)),
{
    let chars = str_chars(diff);
    let ls = split_lines(&chars);
    let plus = lit("+");
    let minus = lit("-");
    let plus3 = vec!['+', '+', '+'];
    let minus3 = vec!['-', '-', '-'];
    proof {
        reveal_strlit("+");
        reveal_strlit("-");
    }
    assert(plus3@ =~= seq!['+', '+', '+']);
    assert(minus3@ =~= seq!['-', '-', '-']);
    let ghost all = lines(diff@);
    let ghost add_p = |l: Seq<char>| is_addition_line(l);
    let ghost del_p = |l: Seq<char>| is_deletion_line(l);
    let mut stats = DiffStats { lines_total: 0, additions: 0, deletions: 0 };
    let mut i: usize = 0;
    while i < ls.len()
        invariant
            0 <= i <= ls.len(),
            views(ls@) == all,
            plus@ == seq!['+'],
            minus@ == seq!['-'],
            plus3@ == seq!['+', '+', '+'],
            minus3@ == seq!['-', '-', '-'],
            stats.lines_total == i,
            stats.additions == count_lines(all.take(i as int), add_p),
            stats.deletions == count_lines(all.take(i as int), del_p),
            add_p == (|l: Seq<char>| is_addition_line(l)),
            del_p == (|l: Seq<char>| is_deletion_line(l)),
        decreases ls.len() - i,
    {
        let line = &ls[i];
        assert(line@ == all[i as int]);
        let ghost pre = all.take(i as int);
        assert(all.take(i + 1).drop_last() =~= pre);
        assert(all.take(i + 1).last() == line@);
        proof {
            lemma_count_lines_bound(pre, add_p);
            lemma_count_lines_bound(pre, del_p);
        }
        let is_plus3 = seq_starts_with(line, &plus3);
        let is_minus3 = seq_starts_with(line, &minus3);
        if !is_plus3 && !is_minus3 {
            if seq_starts_with(line, &plus) {
                stats.additions = stats.additions + 1;
            } else if seq_starts_with(line, &minus) {
                stats.deletions = stats.deletions + 1;
            }
        }
        proof {
            if starts_with(line@, seq!['+', '+', '+']) {
                assert(line@.subrange(0, 1) =~= seq!['+', '+', '+'].subrange(0, 1));
            }
            if starts_with(line@, seq!['-', '-', '-']) {
                assert(line@.subrange(0, 1) =~= seq!['-', '-', '-'].subrange(0, 1));
            }
            assert(add_p(line@) == is_addition_line(line@));
            assert(del_p(line@) == is_deletion_line(line@));
            if is_addition_line(line@) {
                assert(line@.subrange(0, 1)[0] == line@[0]);
                assert(line@[0] == '+');
            }
            if is_deletion_line(line@) {
                assert(line@.subrange(0, 1)[0] == line@[0]);
                assert(line@[0] == '-');
            }
        }
        stats.lines_total = stats.lines_total + 1;
        i = i + 1;
    }
    assert(all.take(i as int) =~= all);
    stats
}

/// The message names a failed GPG signature, in any letter case.
pub fn is_gpg_signing_failure(message: &str) -> (b: bool)
    ensures
        b == contains(lowercase_of(message@), "gpg signing failed"@),
{
    let lower = lowercase_chars(message);
    seq_contains(&lower, &lit("gpg signing failed"))
}

/// The words by which `git`'s GPG output shows that no passphrase prompt
/// could be opened.
pub open spec fn noninteractive_markers() -> Seq<Seq<char>> {
    seq![
        "pinentry"@,
        "no pinentry"@,
        "batchmode"@,
        "inappropriate ioctl"@,
        "no tty"@,
        "cannot open"@,
        "tty"@,
    ]
}

/// GPG's error output shows that signing needed a terminal it did not have.
pub fn is_noninteractive_gpg_error(stderr: &str) -> (b: bool)
    ensures
        b == exists|k: int|
            0 <= k < noninteractive_markers().len() && contains(
                lowercase_of(stderr@),
                #[trigger] noninteractive_markers()[k],
            ),
{
    let lower = lowercase_chars(stderr);
    let markers = vec![
        lit("pinentry"),
        lit("no pinentry"),
        lit("batchmode"),
        lit("inappropriate ioctl"),
        lit("no tty"),
        lit("cannot open"),
        lit("tty"),
    ];
    let ghost ms = noninteractive_markers();
    assert(markers@.len() == ms.len());
    assert forall|k: int| 0 <= k < ms.len() implies #[trigger] markers@[k]@ == ms[k] by {
        if k == 0 {} else if k == 1 {} else if k == 2 {} else if k == 3 {} else if k == 4 {} else if k == 5 {} else {}
    }
    let mut i: usize = 0;
    while i < markers.len()
        invariant
            0 <= i <= markers@.len(),
            markers@.len() == ms.len(),
            ms == noninteractive_markers(),
            forall|k: int| 0 <= k < ms.len() ==> #[trigger] markers@[k]@ == ms[k],
            forall|k: int| 0 <= k < i ==> !contains(lower@, #[trigger] ms[k]),
            lower@ == lowercase_of(stderr@),
        decreases markers.len() - i,
    {
        if seq_contains(&lower, &markers[i]) {
            assert(contains(lower@, ms[i as int]));
            return true;
        }
        i = i + 1;
    }
    false
}

/// The hint added when GPG could not prompt for a passphrase.
pub open spec fn noninteractive_hint() -> Seq<char> {
    " (non-interactive signing failed). Configure gpg-agent/pinentry for loopback mode, set GPG_TTY if running in a terminal, or disable signing with: git config commit.gpgsign false"@
}

/// The error reported when GPG refuses to sign: its trimmed error output,
/// with a hint where that output shows that no prompt could be opened.
pub open spec fn gpg_failure_text(stderr: Seq<char>) -> Seq<char> {
    let t = trim(stderr);
    let base = "GPG signing failed: "@ + t;
    if exists|k: int| 0 <= k < noninteractive_markers().len() && contains(
        lowercase_of(t),
        #[trigger] noninteractive_markers()[k],
    ) {
        base + noninteractive_hint()
    } else {
        base
    }
}

/// The message for a failed GPG signature (see `gpg_failure_text`).
pub fn gpg_failure_message(stderr: &str) -> (r: String)
    ensures
        r@ == gpg_failure_text(stderr@),
{
    let t = trim_chars(&str_chars(stderr));
    let ts = string_from_chars(&t);
    let mut m = lit("GPG signing failed: ");
    extend_chars(&mut m, &t);
    if is_noninteractive_gpg_error(ts.as_str()) {
        extend_chars(
            &mut m,
            &lit(
                " (non-interactive signing failed). Configure gpg-agent/pinentry for loopback mode, set GPG_TTY if running in a terminal, or disable signing with: git config commit.gpgsign false",
            ),
        );
    }
    string_from_chars(&m)
}

} // verus!
