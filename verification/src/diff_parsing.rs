//! Line-level inspection and shrinking of unified Git diffs.
use vstd::prelude::*;
use vstd::utf8::*;
use vstd::string::StringSliceAdditionalSpecFns;
use crate::chunking::{FileDiff, FileDiffV, file_views, last_within};
use crate::tokenizer::Tokenizer;
use crate::text::{byte_offsets, seq_occurs_at, utf8_len, occurs_at, find_first, find_first_exec, is_ws, is_ws_exec, lemma_find_first_found, slice_chars, trim, trim_chars, trim_start, trim_start_chars, with_newlines, decimal, decimal_chars, extend_chars, lit, string_from_chars, lines, seq_starts_with, split_lines, starts_with, str_chars, views};

verus! {

broadcast use vstd::utf8::encode_utf8_valid_utf8, vstd::utf8::encode_utf8_decode_utf8;

/// The largest char boundary of `bytes` that is at most `max`.
pub open spec fn is_last_boundary_within(bytes: Seq<u8>, max: int, e: int) -> bool {
    &&& 0 <= e <= max
    &&& is_char_boundary(bytes, e)
    &&& forall|k: int| e < k <= max ==> !is_char_boundary(bytes, k)
}

/// Truncates `s` to at most `max_bytes` bytes without splitting a character.
///
/// When `s` is longer than `max_bytes`, the result is the prefix ending at the
/// last character boundary at or before `max_bytes`.
pub fn safe_truncate(s: &str, max_bytes: usize) -> (r: &str)
    ensures
        s.spec_bytes().len() <= max_bytes ==> r@ == s@,
        s.spec_bytes().len() > max_bytes ==> exists|e: int|
            is_last_boundary_within(s.spec_bytes(), max_bytes as int, e)
                && r.spec_bytes() == s.spec_bytes().subrange(0, e),
        r.spec_bytes().len() <= max_bytes || r@ == s@,
        r@.len() <= s@.len(),
        r@ == s@.subrange(0, r@.len() as int),
{
    let len = s.as_bytes().len();
    if len <= max_bytes {
        return s;
    }
    let ghost bytes = s.spec_bytes();
    let mut end = max_bytes;
    while end > 0 && !s.is_char_boundary(end)
        invariant
            end <= max_bytes,
            max_bytes < bytes.len(),
            bytes == s.spec_bytes(),
            forall|k: int| end < k <= max_bytes ==> !is_char_boundary(bytes, k),
        decreases end,
    {
        end -= 1;
    }
    proof {
        assert(valid_utf8(bytes));
        assert(is_char_boundary(bytes, end as int));
    }
    let (head, _tail) = s.split_at(end);
    proof {
        assert(is_last_boundary_within(bytes, max_bytes as int, end as int));
        vstd::utf8::decode_utf8_split(bytes, end as int);
        assert(head@ == decode_utf8(head.spec_bytes()));
        assert(s@ == decode_utf8(bytes));
        let tail_bytes = bytes.subrange(end as int, bytes.len() as int);
        assert(s@ =~= head@ + decode_utf8(tail_bytes));
        assert(head@ =~= s@.subrange(0, head@.len() as int));
    }
    head
}

/// The `diff --git ` file header marker.
pub open spec fn file_header() -> Seq<char> {
    "diff --git "@
}

/// A line that adds content (`+`, but not the `+++` file marker).
pub open spec fn is_addition_line(l: Seq<char>) -> bool {
    starts_with(l, seq!['+']) && !starts_with(l, seq!['+', '+', '+'])
}

/// A line that removes content (`-`, but not the `---` file marker).
pub open spec fn is_deletion_line(l: Seq<char>) -> bool {
    starts_with(l, seq!['-']) && !starts_with(l, seq!['-', '-', '-'])
}

/// The diff removes content and adds none.
pub open spec fn deletion_only(ls: Seq<Seq<char>>) -> bool {
    &&& forall|i: int| 0 <= i < ls.len() ==> !is_addition_line(#[trigger] ls[i])
    &&& exists|i: int| 0 <= i < ls.len() && is_deletion_line(#[trigger] ls[i])
}

fn is_addition_line_exec(l: &Vec<char>) -> (b: bool)
    ensures
        b == is_addition_line(l@),
{
    let one = vec!['+'];
    let three = vec!['+', '+', '+'];
    assert(one@ =~= seq!['+']);
    assert(three@ =~= seq!['+', '+', '+']);
    seq_starts_with(l, &one) && !seq_starts_with(l, &three)
}

fn is_deletion_line_exec(l: &Vec<char>) -> (b: bool)
    ensures
        b == is_deletion_line(l@),
{
    let one = vec!['-'];
    let three = vec!['-', '-', '-'];
    assert(one@ =~= seq!['-']);
    assert(three@ =~= seq!['-', '-', '-']);
    seq_starts_with(l, &one) && !seq_starts_with(l, &three)
}

/// Whether the diff only deletes lines: it has at least one deleted line and
/// no added line (the `+++`/`---` file markers do not count).
pub fn is_deletion_only(content: &str) -> (b: bool)
    ensures
        b == deletion_only(lines(content@)),
{
    let chars = str_chars(content);
    let ls = split_lines(&chars);
    let ghost l = lines(content@);
    let mut has_deletion = false;
    let mut i: usize = 0;
    while i < ls.len()
        invariant
            views(ls@) == l,
            l == lines(content@),
            i <= ls.len(),
            forall|j: int| 0 <= j < i ==> !is_addition_line(#[trigger] l[j]),
            has_deletion == exists|j: int| 0 <= j < i && is_deletion_line(#[trigger] l[j]),
        decreases ls.len() - i,
    {
        assert(ls@[i as int]@ == l[i as int]);
        if is_addition_line_exec(&ls[i]) {
            assert(is_addition_line(l[i as int]));
            return false;
        }
        if is_deletion_line_exec(&ls[i]) {
            has_deletion = true;
        }
        i = i + 1;
    }
    has_deletion
}

/// Number of lines that begin with `p`.
pub open spec fn count_starting(ls: Seq<Seq<char>>, p: Seq<char>) -> nat
    decreases ls.len(),
{
    if ls.len() == 0 {
        0
    } else {
        count_starting(ls.drop_last(), p) + if starts_with(ls.last(), p) {
            1nat
        } else {
            0nat
        }
    }
}

/// The `deleted file mode` marker.
pub open spec fn deleted_file_mode() -> Seq<char> {
    "deleted file mode"@
}

fn count_lines_starting(ls: &Vec<Vec<char>>, p: &Vec<char>) -> (n: usize)
    ensures
        n == count_starting(views(ls@), p@),
{
    let mut n: usize = 0;
    let mut i: usize = 0;
    while i < ls.len()
        invariant
            i <= ls.len(),
            n == count_starting(views(ls@).take(i as int), p@),
            n <= i,
        decreases ls.len() - i,
    {
        assert(views(ls@).take(i + 1).drop_last() =~= views(ls@).take(i as int));
        if seq_starts_with(&ls[i], p) {
            n = n + 1;
        }
        i = i + 1;
    }
    assert(views(ls@).take(ls.len() as int) =~= views(ls@));
    n
}

/// Whether every file in the diff is a whole-file deletion: there is at least
/// one `diff --git ` header, and as many `deleted file mode` lines as headers.
pub fn is_all_file_deletions(content: &str) -> (b: bool)
    ensures
        b == (count_starting(lines(content@), file_header()) > 0 && count_starting(
            lines(content@),
            file_header(),
        ) == count_starting(lines(content@), deleted_file_mode())),
{
    let chars = str_chars(content);
    let ls = split_lines(&chars);
    let header = lit("diff --git ");
    let file_count = count_lines_starting(&ls, &header);
    if file_count == 0 {
        return false;
    }
    let marker = lit("deleted file mode");
    let deletion_count = count_lines_starting(&ls, &marker);
    file_count == deletion_count
}

/// A header line that `truncate_deletion_diff` always keeps.
pub open spec fn is_metadata_line(l: Seq<char>) -> bool {
    ||| starts_with(l, file_header())
    ||| starts_with(l, "index "@)
    ||| starts_with(l, "---"@)
    ||| starts_with(l, "+++"@)
    ||| starts_with(l, "@@"@)
    ||| starts_with(l, "deleted file mode"@)
    ||| starts_with(l, "new file mode"@)
    ||| starts_with(l, "similarity index"@)
    ||| starts_with(l, "rename from"@)
    ||| starts_with(l, "rename to"@)
    ||| starts_with(l, "copy from"@)
    ||| starts_with(l, "copy to"@)
}

/// Progress of `truncate_deletion_diff` through the lines of a diff.
pub struct TruncState {
    pub out: Seq<char>,
    pub shown: nat,
    pub notice: bool,
    pub skipped: nat,
}

/// The notice written once per hunk where deleted lines were dropped.
pub open spec fn hunk_notice() -> Seq<char> {
    "[... deleted content truncated to save tokens ...]\n"@
}

/// Effect of one line on the truncation state.
pub open spec fn trunc_step(st: TruncState, l: Seq<char>, max: nat) -> TruncState {
    if is_metadata_line(l) {
        let out = st.out + l + seq!['\n'];
        if starts_with(l, "@@"@) {
            TruncState { out, shown: 0, notice: false, skipped: st.skipped }
        } else {
            TruncState { out, ..st }
        }
    } else if is_deletion_line(l) {
        if st.shown < max {
            TruncState { out: st.out + l + seq!['\n'], shown: st.shown + 1, ..st }
        } else if st.notice {
            TruncState { skipped: st.skipped + 1, ..st }
        } else {
            TruncState {
                out: st.out + hunk_notice(),
                notice: true,
                skipped: st.skipped + 1,
                ..st
            }
        }
    } else {
        TruncState { out: st.out + l + seq!['\n'], ..st }
    }
}

/// The truncation state after all of `ls`.
pub open spec fn trunc_fold(ls: Seq<Seq<char>>, max: nat) -> TruncState
    decreases ls.len(),
{
    if ls.len() == 0 {
        TruncState { out: Seq::<char>::empty(), shown: 0, notice: false, skipped: 0 }
    } else {
        trunc_step(trunc_fold(ls.drop_last(), max), ls.last(), max)
    }
}

/// The text of a deletion-only diff with at most `max` deleted lines kept
/// per hunk, each line newline-terminated, and a closing summary line when
/// deleted lines were dropped.
pub open spec fn truncated_deletion_diff(content: Seq<char>, max: nat) -> Seq<char> {
    let st = trunc_fold(lines(content), max);
    if st.skipped > 0 {
        st.out + "\n[Truncated "@ + decimal(st.skipped) + " deletion lines - full deletion diff not needed for commit message generation]\n"@
    } else {
        st.out
    }
}

fn is_metadata_exec(l: &Vec<char>) -> (b: bool)
    ensures
        b == is_metadata_line(l@),
{
    seq_starts_with(l, &lit("diff --git ")) || seq_starts_with(l, &lit("index "))
        || seq_starts_with(l, &lit("---")) || seq_starts_with(l, &lit("+++"))
        || seq_starts_with(l, &lit("@@")) || seq_starts_with(l, &lit("deleted file mode"))
        || seq_starts_with(l, &lit("new file mode")) || seq_starts_with(
        l,
        &lit("similarity index"),
    ) || seq_starts_with(l, &lit("rename from")) || seq_starts_with(l, &lit("rename to"))
        || seq_starts_with(l, &lit("copy from")) || seq_starts_with(l, &lit("copy to"))
}

fn push_line(out: &mut Vec<char>, l: &Vec<char>)
    ensures
        final(out)@ == old(out)@ + l@ + seq!['\n'],
{
    extend_chars(out, l);
    out.push('\n');
}

/// Shrinks a deletion-only diff: keeps every header line and at most
/// `max_deletion_lines` deleted lines per hunk, marks each hunk where lines
/// were dropped, and closes with the total number of dropped lines.
pub fn truncate_deletion_diff(content: &str, max_deletion_lines: usize) -> (r: String)
    ensures
        r@ == truncated_deletion_diff(content@, max_deletion_lines as nat),
{
    let chars = str_chars(content);
    let ls = split_lines(&chars);
    let ghost l = lines(content@);
    let ghost max = max_deletion_lines as nat;
    let mut out: Vec<char> = Vec::new();
    let mut shown: usize = 0;
    let mut notice = false;
    let mut skipped: usize = 0;
    let mut i: usize = 0;
    assert(l.take(0) =~= Seq::<Seq<char>>::empty());
    while i < ls.len()
        invariant
            views(ls@) == l,
            l == lines(content@),
            max == max_deletion_lines as nat,
            i <= ls.len(),
            skipped <= i,
            shown <= i,
            trunc_fold(l.take(i as int), max) == (TruncState {
                out: out@,
                shown: shown as nat,
                notice,
                skipped: skipped as nat,
            }),
        decreases ls.len() - i,
    {
        let line = &ls[i];
        assert(l.take(i + 1).drop_last() =~= l.take(i as int));
        assert(l.take(i + 1).last() == line@);
        if is_metadata_exec(line) {
            push_line(&mut out, line);
            if seq_starts_with(line, &lit("@@")) {
                shown = 0;
                notice = false;
            }
        } else if is_deletion_line_exec(line) {
            if shown < max_deletion_lines {
                push_line(&mut out, line);
                shown = shown + 1;
            } else {
                skipped = skipped + 1;
                if !notice {
                    extend_chars(&mut out, &lit("[... deleted content truncated to save tokens ...]\n"));
                    notice = true;
                }
            }
        } else {
            push_line(&mut out, line);
        }
        i = i + 1;
    }
    assert(l.take(ls.len() as int) =~= l);
    if skipped > 0 {
        extend_chars(&mut out, &lit("\n[Truncated "));
        extend_chars(&mut out, &decimal_chars(skipped));
        extend_chars(
            &mut out,
            &lit(" deletion lines - full deletion diff not needed for commit message generation]\n"),
        );
    }
    string_from_chars(&out)
}

proof fn lemma_trunc_fold_bounds(ls: Seq<Seq<char>>, max: nat)
    ensures
        trunc_fold(ls, max).shown <= ls.len(),
        max >= ls.len() ==> trunc_fold(ls, max).skipped == 0,
        trunc_fold(ls, max).skipped == 0 ==> trunc_fold(ls, max).out == with_newlines(ls),
    decreases ls.len(),
{
    if ls.len() > 0 {
        lemma_trunc_fold_bounds(ls.drop_last(), max);
    }
}

/// A deletion-only diff in which no hunk has more than `max` deleted lines
/// (in particular any diff with at most `max` lines) comes back unchanged,
/// apart from every line being newline-terminated.
pub proof fn law_truncate_keeps_short_diffs(content: Seq<char>, max: nat)
    requires
        max >= lines(content).len(),
    ensures
        truncated_deletion_diff(content, max) == with_newlines(lines(content)),
{
    lemma_trunc_fold_bounds(lines(content), max);
}

/// When nothing is dropped, the output is the input's lines, each followed
/// by a newline.
pub proof fn law_truncate_without_skips_is_identity(content: Seq<char>, max: nat)
    requires
        trunc_fold(lines(content), max).skipped == 0,
    ensures
        truncated_deletion_diff(content, max) == with_newlines(lines(content)),
{
    lemma_trunc_fold_bounds(lines(content), max);
}

/// The deleted lines of `ls` since its last hunk header (`@@`).
pub open spec fn hunk_deletions(ls: Seq<Seq<char>>) -> nat
    decreases ls.len(),
{
    if ls.len() == 0 {
        0
    } else {
        let l = ls.last();
        let prev = hunk_deletions(ls.drop_last());
        if is_metadata_line(l) {
            if starts_with(l, "@@"@) {
                0
            } else {
                prev
            }
        } else if is_deletion_line(l) {
            prev + 1
        } else {
            prev
        }
    }
}

proof fn lemma_no_skip_within_hunk_bound(ls: Seq<Seq<char>>, max: nat)
    requires
        forall|k: int| 0 <= k <= ls.len() ==> #[trigger] hunk_deletions(ls.take(k)) <= max,
    ensures
        trunc_fold(ls, max).skipped == 0,
        trunc_fold(ls, max).shown == hunk_deletions(ls),
    decreases ls.len(),
{
    if ls.len() > 0 {
        let init = ls.drop_last();
        assert forall|k: int| 0 <= k <= init.len() implies #[trigger] hunk_deletions(init.take(k))
            <= max by {
            assert(init.take(k) =~= ls.take(k));
        }
        lemma_no_skip_within_hunk_bound(init, max);
        assert(ls.take(ls.len() as int) =~= ls);
        assert(hunk_deletions(ls.take(ls.len() as int)) <= max);
    }
}

/// A deletion-only diff in which no hunk has more than `max` deleted lines
/// comes back line for line, each line newline-terminated, with no notice
/// and no summary.
pub proof fn law_truncate_keeps_hunks_within_bound(content: Seq<char>, max: nat)
    requires
        forall|k: int|
            0 <= k <= lines(content).len() ==> #[trigger] hunk_deletions(lines(content).take(k))
                <= max,
    ensures
        truncated_deletion_diff(content, max) == with_newlines(lines(content)),
{
    lemma_no_skip_within_hunk_bound(lines(content), max);
    lemma_trunc_fold_bounds(lines(content), max);
}

// ---------------------------------------------------------------------------
// File headers.
// ---------------------------------------------------------------------------

/// The index of the first whitespace character of `t` at or after `i`, or
/// its length.
pub open spec fn first_ws_from(t: Seq<char>, i: int) -> int
    decreases t.len() - i,
{
    if i < 0 || i >= t.len() {
        t.len() as int
    } else if is_ws(t[i]) {
        i
    } else {
        first_ws_from(t, i + 1)
    }
}

/// One path of a header and what follows it: a quoted path runs to the
/// closing quote (the character after it is skipped), an unquoted one to the
/// next whitespace.
pub open spec fn header_path(s: Seq<char>) -> Option<(Seq<char>, Seq<char>)> {
    let t = trim_start(s);
    if t.len() == 0 {
        None
    } else if t[0] == '"' {
        let inner = t.drop_first();
        match find_first(inner, seq!['"'], 0) {
            Some(e) => Some((inner.take(e), t.subrange(e + 2, t.len() as int))),
            None => None,
        }
    } else {
        let w = first_ws_from(t, 0);
        Some((t.take(w), t.subrange(w, t.len() as int)))
    }
}

/// The part before and after the first `/`.
pub open spec fn split_slash(p: Seq<char>) -> Option<(Seq<char>, Seq<char>)> {
    match find_first(p, seq!['/'], 0) {
        Some(k) => Some((p.take(k), p.subrange(k + 1, p.len() as int))),
        None => None,
    }
}

/// A one-letter prefix that git puts before paths (`a/`, `b/`, and the
/// mnemonic `c/`, `i/`, `w/`).
pub open spec fn is_known_prefix(p: Seq<char>) -> bool {
    p.len() == 1 && (p[0] == 'a' || p[0] == 'b' || p[0] == 'c' || p[0] == 'i' || p[0] == 'w')
}

/// The destination path of a header with sides `a` and `b`: without its
/// prefix where both sides carry different known prefixes.
pub open spec fn destination_path(a: Seq<char>, b: Seq<char>) -> Seq<char> {
    match (split_slash(a), split_slash(b)) {
        (Some((pa, _ra)), Some((pb, rb))) => if is_known_prefix(pa) && is_known_prefix(pb) && pa
            != pb {
            rb
        } else {
            b
        },
        _ => b,
    }
}

/// The destination path named by a `diff --git` header line, if the line
/// is one.
pub open spec fn diff_header_path(line: Seq<char>) -> Option<Seq<char>> {
    let t = trim(line);
    if !starts_with(t, "diff"@) {
        None
    } else {
        let s1 = trim_start(t.subrange(4, t.len() as int));
        if !starts_with(s1, "--git"@) {
            None
        } else {
            let s2 = trim_start(s1.subrange(5, s1.len() as int));
            if s2.len() == 0 {
                None
            } else {
                match header_path(s2) {
                    Some((a, rest)) => match header_path(rest) {
                        Some((b, _)) => Some(destination_path(a, b)),
                        None => None,
                    },
                    None => None,
                }
            }
        }
    }
}

fn header_path_exec(s: &Vec<char>) -> (r: Option<(Vec<char>, Vec<char>)>)
    ensures
        match header_path(s@) {
            Some((p, rest)) => r matches Some((x, y)) && x@ == p && y@ == rest,
            None => r is None,
        },
{
    let t = trim_start_chars(s);
    if t.len() == 0 {
        return None;
    }
    if t[0] == '"' {
        let inner = slice_chars(&t, 1, t.len());
        assert(inner@ =~= t@.drop_first());
        let quote = vec!['"'];
        assert(quote@ =~= seq!['"']);
        proof {
            lemma_find_first_found(inner@, quote@, 0);
        }
        match find_first_exec(&inner, &quote, 0) {
            Some(e) => {
                let p = slice_chars(&inner, 0, e);
                assert(p@ =~= inner@.take(e as int));
                let rest = slice_chars(&t, e + 2, t.len());
                Some((p, rest))
            },
            None => None,
        }
    } else {
        let mut w: usize = 0;
        while w < t.len() && !is_ws_exec(t[w])
            invariant
                w <= t@.len(),
                first_ws_from(t@, w as int) == first_ws_from(t@, 0),
            decreases t.len() - w,
        {
            w = w + 1;
        }
        let p = slice_chars(&t, 0, w);
        assert(p@ =~= t@.take(w as int));
        let rest = slice_chars(&t, w, t.len());
        Some((p, rest))
    }
}

fn split_slash_exec(p: &Vec<char>) -> (r: Option<(Vec<char>, Vec<char>)>)
    ensures
        match split_slash(p@) {
            Some((x, y)) => r matches Some((a, b)) && a@ == x && b@ == y,
            None => r is None,
        },
{
    let slash = vec!['/'];
    assert(slash@ =~= seq!['/']);
    proof {
        lemma_find_first_found(p@, slash@, 0);
    }
    assert(slash@.len() == 1);
    match find_first_exec(p, &slash, 0) {
        Some(k) => {
            assert(k + 1 <= p@.len());
            assert(p@.len() == p.len());
            let a = slice_chars(p, 0, k);
            assert(a@ =~= p@.take(k as int));
            let b = slice_chars(p, k + 1, p.len());
            Some((a, b))
        },
        None => None,
    }
}

fn is_known_prefix_exec(p: &Vec<char>) -> (b: bool)
    ensures
        b == is_known_prefix(p@),
{
    p.len() == 1 && (p[0] == 'a' || p[0] == 'b' || p[0] == 'c' || p[0] == 'i' || p[0] == 'w')
}

fn chars_equal(a: &Vec<char>, b: &Vec<char>) -> (r: bool)
    ensures
        r == (a@ == b@),
{
    if a.len() != b.len() {
        return false;
    }
    let mut i: usize = 0;
    while i < a.len()
        invariant
            a@.len() == b@.len(),
            i <= a@.len(),
            forall|k: int| 0 <= k < i ==> a@[k] == b@[k],
        decreases a.len() - i,
    {
        if a[i] != b[i] {
            return false;
        }
        i = i + 1;
    }
    assert(a@ =~= b@);
    true
}

/// The destination path of a `diff --git` header line: the `b` side, with
/// the prefix stripped where both sides carry different one-letter git
/// prefixes; `None` for any other line.
pub fn parse_git_diff_header(line: &str) -> (r: Option<String>)
    ensures
        match diff_header_path(line@) {
            Some(p) => r matches Some(x) && x@ == p,
            None => r is None,
        },
{
    let t = trim_chars(&str_chars(line));
    let diff_kw = lit("diff");
    let git_kw = lit("--git");
    proof {
        reveal_strlit("diff");
        reveal_strlit("--git");
    }
    if !seq_starts_with(&t, &diff_kw) {
        return None;
    }
    let s1 = trim_start_chars(&slice_chars(&t, 4, t.len()));
    if !seq_starts_with(&s1, &git_kw) {
        return None;
    }
    let s2 = trim_start_chars(&slice_chars(&s1, 5, s1.len()));
    if s2.len() == 0 {
        return None;
    }
    let (a, rest) = match header_path_exec(&s2) {
        Some(x) => x,
        None => {
            return None;
        },
    };
    let (b, _tail) = match header_path_exec(&rest) {
        Some(x) => x,
        None => {
            return None;
        },
    };
    let dest = match (split_slash_exec(&a), split_slash_exec(&b)) {
        (Some((pa, _ra)), Some((pb, rb))) => {
            if is_known_prefix_exec(&pa) && is_known_prefix_exec(&pb) && !chars_equal(&pa, &pb) {
                rb
            } else {
                b
            }
        },
        _ => b,
    };
    Some(string_from_chars(&dest))
}

/// The destination paths of the header lines among `ls`, in order.
pub open spec fn header_paths(ls: Seq<Seq<char>>) -> Seq<Seq<char>>
    decreases ls.len(),
{
    if ls.len() == 0 {
        Seq::empty()
    } else {
        let prev = header_paths(ls.drop_last());
        let l = ls.last();
        if starts_with(l, file_header()) {
            match diff_header_path(l) {
                Some(p) => prev.push(p),
                None => prev,
            }
        } else {
            prev
        }
    }
}

/// The paths of the files a diff touches: the destination path of each
/// line that starts with `diff --git `.
pub fn extract_file_paths(diff: &str) -> (r: Vec<String>)
    ensures
        r@.map_values(|s: String| s@) == header_paths(lines(diff@)),
{
    let chars = str_chars(diff);
    let ls = split_lines(&chars);
    let ghost lv = lines(diff@);
    let header = lit("diff --git ");
    proof {
        reveal_strlit("diff --git ");
    }
    let mut out: Vec<String> = Vec::new();
    let mut i: usize = 0;
    assert(lv.take(0) =~= Seq::<Seq<char>>::empty());
    while i < ls.len()
        invariant
            views(ls@) == lv,
            i <= ls@.len(),
            header@ == file_header(),
            out@.map_values(|s: String| s@) == header_paths(lv.take(i as int)),
        decreases ls.len() - i,
    {
        let l = &ls[i];
        assert(l@ == lv[i as int]);
        assert(lv.take(i + 1).drop_last() =~= lv.take(i as int));
        assert(lv.take(i + 1).last() == lv[i as int]);
        let ghost before = out@;
        if seq_starts_with(l, &header) {
            let ls_str = string_from_chars(l);
            match parse_git_diff_header(ls_str.as_str()) {
                Some(p) => {
                    out.push(p);
                    assert(out@.map_values(|s: String| s@) =~= before.map_values(|s: String| s@).push(
                        diff_header_path(lv[i as int]).unwrap(),
                    ));
                },
                None => {},
            }
        }
        i = i + 1;
    }
    assert(lv.take(i as int) =~= lv);
    out
}

// ---------------------------------------------------------------------------
// Splitting a diff into files.
// ---------------------------------------------------------------------------

/// Bytes of one file's diff kept before it is cut.
pub const MAX_FILE_DIFF_SIZE: usize = 1048576;

/// A file's diff starts at `k`: a `diff --git ` header at the very start or
/// at the start of a line.
pub open spec fn is_file_start(d: Seq<char>, k: int) -> bool {
    ||| k == 0 && starts_with(d, file_header())
    ||| 1 <= k < d.len() && d[k - 1] == '\n' && starts_with(d.subrange(k, d.len() as int), file_header())
}

/// The positions at or after `k` where a file's diff starts.
pub open spec fn file_starts(d: Seq<char>, k: int) -> Seq<int>
    decreases d.len() - k,
{
    if k < 0 || k >= d.len() {
        Seq::empty()
    } else {
        (if is_file_start(d, k) {
            seq![k]
        } else {
            Seq::empty()
        }) + file_starts(d, k + 1)
    }
}

/// The first line of `raw`, or nothing.
pub open spec fn first_line(raw: Seq<char>) -> Seq<char> {
    if lines(raw).len() > 0 {
        lines(raw)[0]
    } else {
        Seq::empty()
    }
}

/// The per-file diffs of the first `i` sections of `d`: each section runs to
/// the next start; one whose header names no path is skipped, and one over
/// `MAX_FILE_DIFF_SIZE` bytes is cut at the last character boundary within
/// that size.
pub open spec fn file_entries<T: Tokenizer>(tok: T, d: Seq<char>, starts: Seq<int>, i: int) -> Seq<FileDiffV>
    decreases i,
{
    if i <= 0 || i > starts.len() {
        Seq::empty()
    } else {
        let prev = file_entries(tok, d, starts, i - 1);
        let start = starts[i - 1];
        let end = if i < starts.len() {
            starts[i]
        } else {
            d.len() as int
        };
        let raw = d.subrange(start, end);
        match diff_header_path(first_line(raw)) {
            None => prev,
            Some(path) => {
                let truncated = utf8_len(raw) > MAX_FILE_DIFF_SIZE;
                let content = if truncated {
                    raw.take(last_within(raw, MAX_FILE_DIFF_SIZE as int, raw.len() as int) as int)
                } else {
                    raw
                };
                prev.push((path, content, tok.count_spec(content), truncated))
            },
        }
    }
}

/// The per-file diffs of `d`.
pub open spec fn files_of<T: Tokenizer>(tok: T, d: Seq<char>) -> Seq<FileDiffV> {
    let st = file_starts(d, 0);
    file_entries(tok, d, st, st.len() as int)
}

proof fn lemma_file_starts(d: Seq<char>, k: int)
    requires
        0 <= k,
    ensures
        forall|j: int|
            0 <= j < file_starts(d, k).len() ==> k <= #[trigger] file_starts(d, k)[j] < d.len(),
        forall|j: int|
            0 <= j < file_starts(d, k).len() - 1 ==> #[trigger] file_starts(d, k)[j] < file_starts(
                d,
                k,
            )[j + 1],
    decreases d.len() - k,
{
    if k < d.len() {
        lemma_file_starts(d, k + 1);
        let rest = file_starts(d, k + 1);
        let all = file_starts(d, k);
        if is_file_start(d, k) {
            assert(all =~= seq![k] + rest);
            assert forall|j: int| 0 <= j < all.len() implies k <= #[trigger] all[j] < d.len() by {
                if j > 0 {
                    assert(all[j] == rest[j - 1]);
                }
            }
            assert forall|j: int| 0 <= j < all.len() - 1 implies #[trigger] all[j] < all[j + 1] by {
                assert(all[j + 1] == rest[j]);
                if j > 0 {
                    assert(all[j] == rest[j - 1]);
                }
            }
        } else {
            assert(all =~= rest);
        }
    }
}

fn file_start_positions(chars: &Vec<char>, header: &Vec<char>) -> (r: Vec<usize>)
    requires
        header@ == file_header(),
    ensures
        r@.len() == file_starts(chars@, 0).len(),
        forall|j: int| 0 <= j < r@.len() ==> r@[j] as int == #[trigger] file_starts(chars@, 0)[j],
{
    let ghost d = chars@;
    let n = chars.len();
    let mut r: Vec<usize> = Vec::new();
    let mut k: usize = 0;
    while k < n
        invariant
            d == chars@,
            n == d.len(),
            header@ == file_header(),
            k <= n,
            r@.map_values(|x: usize| x as int) + file_starts(d, k as int) =~= file_starts(d, 0),
        decreases n - k,
    {
        let ghost before = r@.map_values(|x: usize| x as int);
        let start = if k == 0 {
            seq_starts_with(chars, header)
        } else {
            chars[k - 1] == '\n' && seq_occurs_at(chars, header, k)
        };
        proof {
            if k > 0 {
                let tail = d.subrange(k as int, d.len() as int);
                if occurs_at(d, header@, k as int) {
                    assert(tail.subrange(0, header@.len() as int) =~= d.subrange(
                        k as int,
                        k + header@.len(),
                    ));
                }
                if starts_with(tail, header@) {
                    assert(tail.subrange(0, header@.len() as int) =~= d.subrange(
                        k as int,
                        k + header@.len(),
                    ));
                }
            }
            assert(start == is_file_start(d, k as int));
            assert(file_starts(d, k as int) == (if is_file_start(d, k as int) {
                seq![k as int]
            } else {
                Seq::<int>::empty()
            }) + file_starts(d, k + 1));
        }
        if start {
            r.push(k);
            assert(r@.map_values(|x: usize| x as int) =~= before.push(k as int));
        }
        k = k + 1;
    }
    let ghost all = file_starts(d, 0);
    assert(file_starts(d, n as int) =~= Seq::<int>::empty());
    assert forall|j: int| 0 <= j < r@.len() implies r@[j] as int == #[trigger] all[j] by {
        assert(r@.map_values(|x: usize| x as int)[j] == r@[j] as int);
    }
    r
}

fn prefix_within_bytes(offs: &Vec<usize>, chars: &Vec<char>, x: usize) -> (k: usize)
    requires
        offs@.len() == chars@.len() + 1,
        forall|j: int| 0 <= j <= chars@.len() ==> #[trigger] offs@[j] == utf8_len(chars@.take(j)),
    ensures
        k == last_within(chars@, x as int, chars@.len() as int),
        k <= chars@.len(),
{
    let n = chars.len();
    let mut k = n;
    while k > 0 && offs[k] > x
        invariant
            k <= n,
            n == chars@.len(),
            offs@.len() == n + 1,
            forall|j: int| 0 <= j <= n ==> #[trigger] offs@[j] == utf8_len(chars@.take(j)),
            last_within(chars@, x as int, k as int) == last_within(chars@, x as int, n as int),
        decreases k,
    {
        k = k - 1;
    }
    k
}

/// Splits a diff into per-file diffs at the `diff --git ` headers that start
/// a line (see `files_of`); each gets its destination path and token count.
pub fn split_by_files<T: Tokenizer>(diff: &str, tokenizer: &T) -> (r: Vec<FileDiff>)
    ensures
        file_views(r@) == files_of(*tokenizer, diff@),
{
    let chars = str_chars(diff);
    let ghost d = diff@;
    let header = lit("diff --git ");
    proof {
        reveal_strlit("diff --git ");
    }
    let positions = file_start_positions(&chars, &header);
    let ghost starts = file_starts(d, 0);
    proof {
        lemma_file_starts(d, 0);
    }
    let n = chars.len();
    let m = positions.len();
    let mut files: Vec<FileDiff> = Vec::new();
    let mut i: usize = 0;
    while i < m
        invariant
            chars@ == d,
            n == d.len(),
            m == starts.len(),
            m == positions@.len(),
            forall|j: int| 0 <= j < m ==> positions@[j] as int == #[trigger] starts[j],
            forall|j: int| 0 <= j < m ==> 0 <= #[trigger] starts[j] < n,
            forall|j: int| 0 <= j < m - 1 ==> #[trigger] starts[j] < starts[j + 1],
            starts == file_starts(d, 0),
            i <= m,
            file_views(files@) == file_entries(*tokenizer, d, starts, i as int),
        decreases m - i,
    {
        let start = positions[i];
        let end = if i + 1 < m {
            positions[i + 1]
        } else {
            n
        };
        let raw = slice_chars(&chars, start, end);
        let ghost rawv = d.subrange(start as int, end as int);
        assert(raw@ == rawv);
        let rls = split_lines(&raw);
        let first = if rls.len() > 0 {
            slice_chars(&rls[0], 0, rls[0].len())
        } else {
            Vec::new()
        };
        proof {
            if rls@.len() > 0 {
                assert(rls@[0]@ == lines(rawv)[0]);
                assert(rls@[0]@.subrange(0, rls@[0]@.len() as int) =~= rls@[0]@);
            }
            assert(first@ =~= first_line(rawv));
        }
        let ghost prev = file_entries(*tokenizer, d, starts, i as int);
        match parse_git_diff_header(string_from_chars(&first).as_str()) {
            None => {},
            Some(path) => {
                let raw_str = string_from_chars(&raw);
                let (rc, offs) = byte_offsets(raw_str.as_str());
                let total = offs[rc.len()];
                proof {
                    assert(rawv.take(rawv.len() as int) =~= rawv);
                }
                let (content, truncated) = if total > MAX_FILE_DIFF_SIZE {
                    let k = prefix_within_bytes(&offs, &rc, MAX_FILE_DIFF_SIZE);
                    let c = slice_chars(&rc, 0, k);
                    assert(c@ =~= rawv.take(k as int));
                    (string_from_chars(&c), true)
                } else {
                    (raw_str, false)
                };
                let token_count = tokenizer.count_tokens(content.as_str());
                let fd = FileDiff { path, content, token_count, truncated };
                let ghost before = files@;
                files.push(fd);
                assert(file_views(files@) =~= file_views(before).push(fd@));
            },
        }
        i = i + 1;
    }
    files
}

proof fn lemma_last_within_fits(s: Seq<char>, x: int, from: int)
    requires
        x >= 0,
        from <= s.len(),
    ensures
        utf8_len(s.take(last_within(s, x, from) as int)) <= x,
    decreases from,
{
    if from <= 0 {
        assert(s.take(0) =~= Seq::<char>::empty());
    } else if utf8_len(s.take(from)) > x {
        lemma_last_within_fits(s, x, from - 1);
    }
}

proof fn lemma_file_entries_bounded<T: Tokenizer>(tok: T, d: Seq<char>, starts: Seq<int>, i: int)
    ensures
        forall|j: int|
            0 <= j < file_entries(tok, d, starts, i).len() ==> utf8_len(
                #[trigger] file_entries(tok, d, starts, i)[j].1,
            ) <= MAX_FILE_DIFF_SIZE && file_entries(tok, d, starts, i)[j].2 == tok.count_spec(
                file_entries(tok, d, starts, i)[j].1,
            ),
    decreases i,
{
    if 0 < i <= starts.len() {
        lemma_file_entries_bounded(tok, d, starts, i - 1);
        let start = starts[i - 1];
        let end = if i < starts.len() {
            starts[i]
        } else {
            d.len() as int
        };
        let raw = d.subrange(start, end);
        lemma_last_within_fits(raw, MAX_FILE_DIFF_SIZE as int, raw.len() as int);
        let prev = file_entries(tok, d, starts, i - 1);
        let all = file_entries(tok, d, starts, i);
        assert forall|j: int| 0 <= j < all.len() implies utf8_len(#[trigger] all[j].1)
            <= MAX_FILE_DIFF_SIZE && all[j].2 == tok.count_spec(all[j].1) by {
            if j < prev.len() {
                assert(all[j] == prev[j]);
            }
        }
    }
}

/// Every file section `split_by_files` gives is at most
/// `MAX_FILE_DIFF_SIZE` bytes long and carries the token count of its
/// content.
pub proof fn law_file_sections_bounded<T: Tokenizer>(tok: T, d: Seq<char>)
    ensures
        forall|j: int|
            0 <= j < files_of(tok, d).len() ==> utf8_len(#[trigger] files_of(tok, d)[j].1)
                <= MAX_FILE_DIFF_SIZE && files_of(tok, d)[j].2 == tok.count_spec(files_of(tok, d)[j].1),
{
    let st = file_starts(d, 0);
    lemma_file_entries_bounded(tok, d, st, st.len() as int);
}

} // verus!
