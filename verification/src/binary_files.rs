//! Recognising the diff of a binary file: git's binary markers, a NUL
//! character, or a path with a binary extension in the `diff --git` header.
//! The list of binary extensions is given by the caller.
use vstd::prelude::*;
use crate::text::{
    contains, ends_with, is_ws, is_ws_exec, lines, lit, lowercase_chars,
    seq_contains, seq_occurs_at, seq_starts_with, slice_chars, split_lines, starts_with,
    str_chars, string_from_chars, string_views, lowercase_of,
};

verus! {

/// `s` cut at every whitespace character (empty pieces included).
pub open spec fn ws_pieces(s: Seq<char>) -> Seq<Seq<char>>
    decreases s.len(),
{
    if s.len() == 0 {
        seq![Seq::<char>::empty()]
    } else {
        let init = ws_pieces(s.drop_last());
        if is_ws(s.last()) {
            init.push(Seq::<char>::empty())
        } else {
            init.update(init.len() - 1, init.last().push(s.last()))
        }
    }
}

proof fn lemma_ws_pieces_nonempty(s: Seq<char>)
    ensures
        ws_pieces(s).len() > 0,
    decreases s.len(),
{
    if s.len() > 0 {
        lemma_ws_pieces_nonempty(s.drop_last());
    }
}

/// A header word naming a binary file: `a/` or `b/` and a path whose
/// lower-cased form ends with one of `exts`.
pub open spec fn binary_path_word(w: Seq<char>, exts: Seq<Seq<char>>) -> bool {
    (starts_with(w, "a/"@) || starts_with(w, "b/"@)) && exists|k: int|
        #[trigger] ext_at(lowercase_of(w.skip(2)), exts, k)
}

/// `p` ends with the extension `exts[k]`.
pub open spec fn ext_at(p: Seq<char>, exts: Seq<Seq<char>>, k: int) -> bool {
    0 <= k < exts.len() && ends_with(p, exts[k])
}

/// The first line of `c` is a `diff --git` header naming a binary file.
pub open spec fn has_binary_extension(c: Seq<char>, exts: Seq<Seq<char>>) -> bool {
    lines(c).len() > 0 && starts_with(lines(c)[0], "diff --git"@) && exists|j: int|
        #[trigger] binary_word_at(ws_pieces(lines(c)[0]), exts, j)
}

/// The `j`th word of `ws` names a binary file.
pub open spec fn binary_word_at(ws: Seq<Seq<char>>, exts: Seq<Seq<char>>, j: int) -> bool {
    0 <= j < ws.len() && binary_path_word(ws[j], exts)
}

/// `c` holds a NUL character.
pub open spec fn has_nul(c: Seq<char>) -> bool {
    exists|i: int| #[trigger] nul_at(c, i)
}

/// `c` holds a NUL character at `i`.
pub open spec fn nul_at(c: Seq<char>, i: int) -> bool {
    0 <= i < c.len() && c[i] == '\0'
}

/// The diff `c` is of a binary file: it is not empty, and it carries one of
/// git's binary markers, a NUL character, or a binary file's header.
pub open spec fn binary_content(c: Seq<char>, exts: Seq<Seq<char>>) -> bool {
    c.len() > 0 && (contains(c, "Binary files"@) || contains(c, "GIT binary patch"@) || has_nul(c)
        || has_binary_extension(c, exts))
}

fn ends_with_exec(s: &Vec<char>, p: &Vec<char>) -> (b: bool)
    ensures
        b == ends_with(s@, p@),
{
    if p.len() > s.len() {
        return false;
    }
    let r = seq_occurs_at(s, p, s.len() - p.len());
    r
}

fn binary_word_exec(w: &Vec<char>, exts: &Vec<String>) -> (b: bool)
    ensures
        b == binary_path_word(w@, string_views(exts@)),
{
    proof {
        reveal_strlit("a/");
        reveal_strlit("b/");
    }
    if !(seq_starts_with(w, &lit("a/")) || seq_starts_with(w, &lit("b/"))) {
        return false;
    }
    assert(w@.len() >= 2);
    let path = string_from_chars(&slice_chars(w, 2, w.len()));
    assert(path@ =~= w@.skip(2));
    let low = lowercase_chars(path.as_str());
    let mut k: usize = 0;
    while k < exts.len()
        invariant
            k <= exts@.len(),
            low@ == lowercase_of(w@.skip(2)),
            starts_with(w@, "a/"@) || starts_with(w@, "b/"@),
            forall|i: int| 0 <= i < k ==> !#[trigger] ext_at(low@, string_views(exts@), i),
        decreases exts@.len() - k,
    {
        let e = str_chars(exts[k].as_str());
        if ends_with_exec(&low, &e) {
            assert(string_views(exts@)[k as int] == e@);
            assert(ext_at(lowercase_of(w@.skip(2)), string_views(exts@), k as int));
            return true;
        }
        k = k + 1;
    }
    false
}

fn ws_pieces_exec(s: &Vec<char>) -> (r: Vec<Vec<char>>)
    ensures
        crate::text::views(r@) == ws_pieces(s@),
{
    let mut parts: Vec<Vec<char>> = Vec::new();
    let mut cur: Vec<char> = Vec::new();
    let mut i: usize = 0;
    assert(s@.take(0) =~= Seq::<char>::empty());
    while i < s.len()
        invariant
            i <= s.len(),
            ws_pieces(s@.take(i as int)) == crate::text::views(parts@).push(cur@),
        decreases s.len() - i,
    {
        let c = s[i];
        let ghost before = s@.take(i as int);
        assert(s@.take(i + 1).drop_last() =~= before);
        assert(s@.take(i + 1).last() == c);
        if is_ws_exec(c) {
            let done = cur;
            cur = Vec::new();
            parts.push(done);
            assert(crate::text::views(parts@).push(cur@) =~= ws_pieces(before).push(
                Seq::<char>::empty(),
            ));
        } else {
            cur.push(c);
            assert(crate::text::views(parts@).push(cur@) =~= ws_pieces(before).update(
                ws_pieces(before).len() - 1,
                ws_pieces(before).last().push(c),
            ));
        }
        i = i + 1;
    }
    assert(s@.take(s.len() as int) =~= s@);
    parts.push(cur);
    parts
}

/// Whether the diff's first line is a `diff --git` header naming a file
/// with one of `exts` (see `has_binary_extension`).
fn binary_extension_exec(c: &Vec<char>, exts: &Vec<String>) -> (b: bool)
    ensures
        b == has_binary_extension(c@, string_views(exts@)),
{
    let ls = split_lines(c);
    if ls.len() == 0 {
        return false;
    }
    let first = &ls[0];
    assert(first@ == lines(c@)[0]);
    if !seq_starts_with(first, &lit("diff --git")) {
        return false;
    }
    let words = ws_pieces_exec(first);
    let ghost ws = ws_pieces(lines(c@)[0]);
    let mut j: usize = 0;
    while j < words.len()
        invariant
            j <= words@.len(),
            crate::text::views(words@) == ws,
            lines(c@).len() > 0,
            starts_with(lines(c@)[0], "diff --git"@),
            ws == ws_pieces(lines(c@)[0]),
            forall|i: int| 0 <= i < j ==> !#[trigger] binary_word_at(ws, string_views(exts@), i),
        decreases words@.len() - j,
    {
        assert(ws[j as int] == words@[j as int]@);
        if binary_word_exec(&words[j], exts) {
            assert(binary_word_at(ws_pieces(lines(c@)[0]), string_views(exts@), j as int));
            return true;
        }
        j = j + 1;
    }
    false
}

/// Whether `content`, one file's diff, is of a binary file (see
/// `binary_content`), with `binary_extensions` the lower-case file
/// extensions taken as binary.
pub fn is_binary_content(content: &str, binary_extensions: &Vec<String>) -> (b: bool)
    ensures
        b == binary_content(content@, string_views(binary_extensions@)),
{
    let c = str_chars(content);
    if c.len() == 0 {
        return false;
    }
    if seq_contains(&c, &lit("Binary files")) || seq_contains(&c, &lit("GIT binary patch")) {
        return true;
    }
    let mut i: usize = 0;
    while i < c.len()
        invariant
            i <= c@.len(),
            c@ == content@,
            c@.len() > 0,
            forall|k: int| 0 <= k < i ==> !#[trigger] nul_at(c@, k),
        decreases c@.len() - i,
    {
        if c[i] == '\0' {
            assert(nul_at(c@, i as int));
            return true;
        }
        i = i + 1;
    }
    binary_extension_exec(&c, binary_extensions)
}

} // verus!
