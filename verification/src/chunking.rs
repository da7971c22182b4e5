//! Splitting a diff into chunks that fit a model's token limit: whole files
//! are packed first, then a file is split at its hunks, then at its lines,
//! and a line that is too long on its own is cut into pieces.
use vstd::prelude::*;
use crate::text::{string_views, 
    byte_offsets, ends_with, extend_chars, find_first, find_first_exec, lemma_find_first_found,
    find_last_char, lines, lit, rfind_char, slice_chars, split_lines, str_chars,
    string_from_chars, utf8_len, views, with_newlines,
};
use crate::tokenizer::{TokenCount, Tokenizer};

verus! {

/// A piece of a diff sent to the model on its own.
#[derive(Debug, Clone)]
pub struct DiffChunk {
    pub content: String,
    pub file_paths: Vec<String>,
    pub token_count: TokenCount,
}

/// A chunk as content, file paths and token count.
pub type ChunkV = (Seq<char>, Seq<Seq<char>>, nat);

impl View for DiffChunk {
    type V = ChunkV;

    open spec fn view(&self) -> ChunkV {
        (self.content@, string_views(self.file_paths@), self.token_count.count())
    }
}

/// The views of a list of chunks.
pub open spec fn chunk_views(v: Seq<DiffChunk>) -> Seq<ChunkV> {
    v.map_values(|c: DiffChunk| c@)
}

/// The token count a chunk records for a running total: at least one.
pub open spec fn at_least_one(n: nat) -> nat {
    if n == 0 {
        1
    } else {
        n
    }
}

/// The path of a file is limited when it ends with one of the patterns.
pub open spec fn limited_path(path: Seq<char>, patterns: Seq<Seq<char>>) -> bool {
    exists|k: int| 0 <= k < patterns.len() && ends_with(path, #[trigger] patterns[k])
}

fn chars_end_with(s: &Vec<char>, p: &Vec<char>) -> (b: bool)
    ensures
        b == ends_with(s@, p@),
{
    let slen = s.len();
    let plen = p.len();
    if plen > slen {
        return false;
    }
    let off = slen - plen;
    let mut i: usize = 0;
    while i < plen
        invariant
            plen == p@.len(),
            slen == s@.len(),
            plen <= slen,
            off + plen == slen,
            i <= plen,
            forall|k: int| 0 <= k < i ==> s@[off + k] == p@[k],
        decreases plen - i,
    {
        if s[off + i] != p[i] {
            assert(s@.subrange(off as int, slen as int)[i as int] != p@[i as int]);
            return false;
        }
        i = i + 1;
    }
    assert(s@.subrange(off as int, slen as int) =~= p@);
    true
}

/// Whether the file at `path` is one whose tokens are capped (a lockfile):
/// its path ends with one of `ignore_patterns`.
pub fn should_limit_file(path: &str, ignore_patterns: &[String]) -> (b: bool)
    ensures
        b == limited_path(path@, string_views(ignore_patterns@)),
{
    let p = str_chars(path);
    let ghost pats = string_views(ignore_patterns@);
    let mut i: usize = 0;
    while i < ignore_patterns.len()
        invariant
            p@ == path@,
            pats == string_views(ignore_patterns@),
            i <= ignore_patterns@.len(),
            forall|k: int| 0 <= k < i ==> !ends_with(path@, #[trigger] pats[k]),
        decreases ignore_patterns.len() - i,
    {
        let pat = str_chars(ignore_patterns[i].as_str());
        if chars_end_with(&p, &pat) {
            assert(ends_with(path@, pats[i as int]));
            return true;
        }
        i = i + 1;
    }
    false
}

// ---------------------------------------------------------------------------
// Cutting one oversized line.
// ---------------------------------------------------------------------------

/// The largest `k <= from` whose prefix of `s` is at most `x` bytes long.
pub open spec fn last_within(s: Seq<char>, x: int, from: int) -> nat
    decreases from,
{
    if from <= 0 {
        0
    } else if utf8_len(s.take(from)) <= x {
        from as nat
    } else {
        last_within(s, x, from - 1)
    }
}

/// The end (in characters) of a probe at byte `mid` for a piece starting at
/// character `ks`: the last character boundary at or before `mid`, but at
/// least one character past `ks`.
pub open spec fn probe_end(s: Seq<char>, ks: int, mid: int) -> nat {
    let k = last_within(s, mid, s.len() as int);
    if k > ks {
        k
    } else {
        (ks + 1) as nat
    }
}

/// The binary search for the end of the piece that starts at character `ks`:
/// byte positions `low..=high` are probed, and the last probe whose piece
/// stays within `limit` tokens wins.
pub open spec fn piece_search<T: Tokenizer>(tok: T, s: Seq<char>, limit: nat, ks: int, low: int, high: int, best: nat) -> nat
    decreases high - low + 1,
{
    if low <= high {
        let mid = (low + high) / 2;
        let e = probe_end(s, ks, mid);
        if tok.count_spec(s.subrange(ks, e as int)) <= limit {
            piece_search(tok, s, limit, ks, mid + 1, high, e)
        } else {
            piece_search(tok, s, limit, ks, low, mid - 1, best)
        }
    } else {
        best
    }
}

/// Where the piece starting at character `ks` ends.
pub open spec fn piece_end<T: Tokenizer>(tok: T, s: Seq<char>, limit: nat, ks: int) -> nat {
    piece_search(tok, s, limit, ks, utf8_len(s.take(ks)) + 1int, utf8_len(s) as int, (ks + 1) as nat)
}

/// The pieces of `s` from character `ks` on, for the file at `path`.
pub open spec fn pieces_from<T: Tokenizer>(tok: T, path: Seq<char>, s: Seq<char>, limit: nat, ks: int) -> Seq<ChunkV>
    decreases s.len() - ks,
{
    if ks < 0 || ks >= s.len() {
        Seq::empty()
    } else {
        let e = piece_end(tok, s, limit, ks);
        if e <= ks || e > s.len() {
            Seq::empty()
        } else {
            let piece = s.subrange(ks, e as int);
            seq![(piece, seq![path], tok.count_spec(piece))] + pieces_from(tok, path, s, limit, e as int)
        }
    }
}

proof fn lemma_last_within_bound(s: Seq<char>, x: int, from: int)
    requires
        from <= s.len(),
    ensures
        last_within(s, x, from) <= from || from < 0,
        last_within(s, x, from) <= s.len(),
    decreases from,
{
    if from > 0 && utf8_len(s.take(from)) > x {
        lemma_last_within_bound(s, x, from - 1);
    }
}

proof fn lemma_piece_search_bound<T: Tokenizer>(tok: T, s: Seq<char>, limit: nat, ks: int, low: int, high: int, best: nat)
    requires
        0 <= ks < s.len(),
        ks + 1 <= best <= s.len(),
    ensures
        ks + 1 <= piece_search(tok, s, limit, ks, low, high, best) <= s.len(),
    decreases high - low + 1,
{
    if low <= high {
        let mid = (low + high) / 2;
        lemma_last_within_bound(s, mid, s.len() as int);
        let e = probe_end(s, ks, mid);
        if tok.count_spec(s.subrange(ks, e as int)) <= limit {
            lemma_piece_search_bound(tok, s, limit, ks, mid + 1, high, e);
        } else {
            lemma_piece_search_bound(tok, s, limit, ks, low, mid - 1, best);
        }
    }
}

/// The pieces of a line put back together give the line.
proof fn lemma_pieces_concat<T: Tokenizer>(tok: T, path: Seq<char>, s: Seq<char>, limit: nat, ks: int)
    requires
        0 <= ks <= s.len(),
    ensures
        chunk_contents(pieces_from(tok, path, s, limit, ks)) == s.subrange(ks, s.len() as int),
    decreases s.len() - ks,
{
    if ks < s.len() {
        let e = piece_end(tok, s, limit, ks);
        lemma_piece_search_bound(tok, 
            s,
            limit,
            ks,
            utf8_len(s.take(ks)) + 1int,
            utf8_len(s) as int,
            (ks + 1) as nat,
        );
        lemma_pieces_concat(tok, path, s, limit, e as int);
        let piece = s.subrange(ks, e as int);
        let head = seq![(piece, seq![path], tok.count_spec(piece))];
        let rest = pieces_from(tok, path, s, limit, e as int);
        lemma_chunk_contents_concat(head, rest);
        assert(chunk_contents(head) =~= piece) by {
            assert(head.drop_last() =~= Seq::<ChunkV>::empty());
            assert(head.last().0 == piece);
            assert(chunk_contents(Seq::<ChunkV>::empty()) =~= Seq::<char>::empty());
            assert(chunk_contents(head) == chunk_contents(head.drop_last()) + head.last().0);
        }
        assert(piece + s.subrange(e as int, s.len() as int) =~= s.subrange(ks, s.len() as int));
    } else {
        assert(s.subrange(ks, s.len() as int) =~= Seq::<char>::empty());
    }
}

/// The contents of chunks, one after another.
pub open spec fn chunk_contents(cs: Seq<ChunkV>) -> Seq<char>
    decreases cs.len(),
{
    if cs.len() == 0 {
        Seq::empty()
    } else {
        chunk_contents(cs.drop_last()) + cs.last().0
    }
}

/// `chunk_contents` adds up over concatenation.
pub proof fn lemma_chunk_contents_concat(a: Seq<ChunkV>, b: Seq<ChunkV>)
    ensures
        chunk_contents(a + b) == chunk_contents(a) + chunk_contents(b),
    decreases b.len(),
{
    if b.len() == 0 {
        assert(a + b =~= a);
        assert(chunk_contents(b) == Seq::<char>::empty());
        assert(chunk_contents(a) + Seq::<char>::empty() =~= chunk_contents(a));
    } else {
        lemma_chunk_contents_concat(a, b.drop_last());
        assert((a + b).drop_last() =~= a + b.drop_last());
        assert((a + b).last() == b.last());
        assert(chunk_contents(a) + chunk_contents(b.drop_last()) + b.last().0 =~= chunk_contents(a)
            + (chunk_contents(b.drop_last()) + b.last().0));
    }
}

fn path_list(path: &str) -> (v: Vec<String>)
    ensures
        string_views(v@) == seq![path@],
{
    let mut v: Vec<String> = Vec::new();
    v.push(string_from_chars(&str_chars(path)));
    assert(string_views(v@) =~= seq![path@]);
    v
}

fn push_chunk(chunks: &mut Vec<DiffChunk>, c: DiffChunk)
    ensures
        chunk_views(final(chunks)@) == chunk_views(old(chunks)@).push(c@),
{
    chunks.push(c);
    assert(chunk_views(chunks@) =~= chunk_views(old(chunks)@).push(c@));
}

fn append_chunks(chunks: &mut Vec<DiffChunk>, more: Vec<DiffChunk>)
    ensures
        chunk_views(final(chunks)@) == chunk_views(old(chunks)@) + chunk_views(more@),
{
    let mut more = more;
    let ghost m = more@;
    chunks.append(&mut more);
    assert(chunk_views(chunks@) =~= chunk_views(old(chunks)@) + chunk_views(m));
}

fn probe_end_exec(offs: &Vec<usize>, chars: &Vec<char>, ks: usize, mid: u128) -> (e: usize)
    requires
        offs@.len() == chars@.len() + 1,
        forall|k: int| 0 <= k <= chars@.len() ==> #[trigger] offs@[k] == utf8_len(chars@.take(k)),
        ks < chars@.len(),
    ensures
        e == probe_end(chars@, ks as int, mid as int),
        ks < e <= chars@.len(),
{
    let n = chars.len();
    let mut k = n;
    proof {
        lemma_last_within_bound(chars@, mid as int, n as int);
    }
    while k > 0 && (offs[k] as u128) > mid
        invariant
            k <= n,
            n == chars@.len(),
            offs@.len() == n + 1,
            forall|j: int| 0 <= j <= n ==> #[trigger] offs@[j] == utf8_len(chars@.take(j)),
            last_within(chars@, mid as int, k as int) == last_within(chars@, mid as int, n as int),
        decreases k,
    {
        k = k - 1;
    }
    if k > ks {
        k
    } else {
        ks + 1
    }
}

/// Cuts a line that is too long for one chunk into pieces: each piece is
/// the longest the binary search finds within `token_limit` tokens, and at
/// least one character.
fn split_oversized_line<T: Tokenizer>(
    tokenizer: &T,
    file_path: &str,
    line: &Vec<char>,
    token_limit: TokenCount,
) -> (r: Vec<DiffChunk>)
    ensures
        chunk_views(r@) == pieces_from(*tokenizer, file_path@, line@, token_limit.count(), 0),
{
    let lstr = string_from_chars(line);
    let (chars, offs) = byte_offsets(lstr.as_str());
    let ghost s = line@;
    let ghost path = file_path@;
    let n = chars.len();
    let total = offs[n];
    let lim = token_limit.get();
    let ghost limit = token_limit.count();
    proof {
        assert(s.take(n as int) =~= s);
    }
    let mut chunks: Vec<DiffChunk> = Vec::new();
    let mut ks: usize = 0;
    while ks < n
        invariant
            chars@ == s,
            n == s.len(),
            offs@.len() == n + 1,
            forall|k: int| 0 <= k <= n ==> #[trigger] offs@[k] == utf8_len(s.take(k)),
            total == utf8_len(s),
            ks <= n,
            lim == limit,
            path == file_path@,
            chunk_views(chunks@) + pieces_from(*tokenizer, path, s, limit, ks as int) == pieces_from(*tokenizer, path, s, limit, 0),
        decreases n - ks,
    {
        let start = offs[ks];
        let mut low: u128 = start as u128 + 1;
        let mut high: u128 = total as u128;
        let mut best: usize = ks + 1;
        let ghost goal = piece_end(*tokenizer, s, limit, ks as int);
        while low <= high
            invariant
                chars@ == s,
                n == s.len(),
                offs@.len() == n + 1,
                forall|k: int| 0 <= k <= n ==> #[trigger] offs@[k] == utf8_len(s.take(k)),
                ks < n,
                ks + 1 <= best <= n,
                high <= total,
                low >= 1,
                lim == limit,
                piece_search(*tokenizer, s, limit, ks as int, low as int, high as int, best as nat) == goal,
            decreases high + 1 - low,
        {
            let mid = low + (high - low) / 2;
            assert(mid == (low + high) / 2);
            let e = probe_end_exec(&offs, &chars, ks, mid);
            let piece = slice_chars(&chars, ks, e);
            let ps = string_from_chars(&piece);
            let cnt = tokenizer.count_tokens(ps.as_str());
            if cnt.get() <= lim {
                best = e;
                low = mid + 1;
            } else {
                high = mid - 1;
            }
        }
        proof {
            lemma_piece_search_bound(*tokenizer, 
                s,
                limit,
                ks as int,
                utf8_len(s.take(ks as int)) + 1int,
                utf8_len(s) as int,
                (ks + 1) as nat,
            );
        }
        let piece = slice_chars(&chars, ks, best);
        let ps = string_from_chars(&piece);
        let cnt = tokenizer.count_tokens(ps.as_str());
        let chunk = DiffChunk { content: ps, file_paths: path_list(file_path), token_count: cnt };
        let ghost before = chunk_views(chunks@);
        push_chunk(&mut chunks, chunk);
        proof {
            let x = (s.subrange(ks as int, best as int), seq![path], tokenizer.count_spec(s.subrange(ks as int, best as int)));
            assert(pieces_from(*tokenizer, path, s, limit, ks as int) == seq![x] + pieces_from(*tokenizer, path, s, limit, best as int));
            assert(before.push(x) + pieces_from(*tokenizer, path, s, limit, best as int) =~= before + (seq![x]
                + pieces_from(*tokenizer, path, s, limit, best as int)));
        }
        ks = best;
    }
    proof {
        assert(pieces_from(*tokenizer, path, s, limit, n as int) =~= Seq::<ChunkV>::empty());
        assert(chunk_views(chunks@) + Seq::<ChunkV>::empty() =~= chunk_views(chunks@));
    }
    chunks
}

// ---------------------------------------------------------------------------
// Packing lines.
// ---------------------------------------------------------------------------

/// Packing state: finished chunks, pending text and the tokens counted for it.
pub type PackState = (Seq<ChunkV>, Seq<char>, nat);

/// A count held to what a `u32` holds.
pub open spec fn held_count(n: nat) -> nat {
    if n > 0xffff_ffff {
        0xffff_ffff
    } else {
        n
    }
}

/// The pending text as a chunk of the file at `path`, if there is any; its
/// token count is the count taken, held to what a `u32` holds.
pub open spec fn flush(path: Seq<char>, st: PackState) -> Seq<ChunkV> {
    if st.1.len() > 0 {
        st.0.push((st.1, seq![path], at_least_one(held_count(st.2))))
    } else {
        st.0
    }
}

/// The state after packing the first `i` lines of a file: each line with its
/// newline joins the pending text unless that would pass `limit` tokens
/// (counted line by line), in which case the pending text becomes a chunk
/// first; a line over the limit on its own is cut into pieces.
pub open spec fn line_pack<T: Tokenizer>(tok: T, path: Seq<char>, ls: Seq<Seq<char>>, limit: nat, i: int) -> PackState
    decreases i,
{
    if i <= 0 || i > ls.len() {
        (Seq::empty(), Seq::empty(), 0)
    } else {
        let prev = line_pack(tok, path, ls, limit, i - 1);
        let l = ls[i - 1];
        let lw = l.push('\n');
        let t = tok.count_spec(lw);
        if t > limit {
            if prev.1.len() > 0 {
                (flush(path, prev) + pieces_from(tok, path, l, limit, 0), Seq::empty(), 0)
            } else {
                (prev.0 + pieces_from(tok, path, l, limit, 0), prev.1, prev.2)
            }
        } else if prev.2 + t > limit && prev.1.len() > 0 {
            (flush(path, prev), lw, t)
        } else {
            (prev.0, prev.1 + lw, prev.2 + t)
        }
    }
}

/// The chunks `split_by_lines` makes of `content`.
pub open spec fn lines_chunks<T: Tokenizer>(tok: T, path: Seq<char>, content: Seq<char>, limit: nat) -> Seq<ChunkV> {
    let ls = lines(content);
    flush(path, line_pack(tok, path, ls, limit, ls.len() as int))
}

fn flush_chunk(chunks: &mut Vec<DiffChunk>, buf: &Vec<char>, file_path: &str, cur: u64)
    ensures
        chunk_views(final(chunks)@) == flush(file_path@, (chunk_views(old(chunks)@), buf@, cur as nat)),
{
    if buf.len() > 0 {
        let held: u32 = if cur > 0xffff_ffff {
            0xffff_ffff
        } else {
            cur as u32
        };
        let c = DiffChunk {
            content: string_from_chars(buf),
            file_paths: path_list(file_path),
            token_count: TokenCount::new_saturating(held),
        };
        push_chunk(chunks, c);
    }
}

fn with_newline(line: &Vec<char>) -> (r: Vec<char>)
    ensures
        r@ == line@.push('\n'),
{
    let mut r: Vec<char> = Vec::new();
    extend_chars(&mut r, line);
    r.push('\n');
    assert(r@ =~= line@.push('\n'));
    r
}

/// Splits `content` at its lines into chunks of at most `token_limit`
/// tokens (see `lines_chunks`).
pub fn split_by_lines<T: Tokenizer>(
    tokenizer: &T,
    file_path: &str,
    content: &str,
    token_limit: TokenCount,
) -> (r: Vec<DiffChunk>)
    ensures
        chunk_views(r@) == lines_chunks(*tokenizer, file_path@, content@, token_limit.count()),
{
    let chars = str_chars(content);
    let ls = split_lines(&chars);
    let ghost lsv = lines(content@);
    let ghost path = file_path@;
    let lim = token_limit.get();
    let ghost limit = token_limit.count();
    let mut chunks: Vec<DiffChunk> = Vec::new();
    let mut buf: Vec<char> = Vec::new();
    let mut cur: u32 = 0;
    let mut i: usize = 0;
    while i < ls.len()
        invariant
            views(ls@) == lsv,
            i <= ls@.len(),
            lim == limit,
            limit == token_limit.count(),
            path == file_path@,
            chunk_views(chunks@) == line_pack(*tokenizer, path, lsv, limit, i as int).0,
            buf@ == line_pack(*tokenizer, path, lsv, limit, i as int).1,
            cur as nat == line_pack(*tokenizer, path, lsv, limit, i as int).2,
            cur <= lim,
            buf@.len() == 0 ==> cur == 0,
        decreases ls.len() - i,
    {
        let line = &ls[i];
        assert(line@ == lsv[i as int]);
        let lw = with_newline(line);
        let t = tokenizer.count_tokens(string_from_chars(&lw).as_str()).get();
        let ghost prev = line_pack(*tokenizer, path, lsv, limit, i as int);
        assert(lsv.len() == ls@.len());
        assert(line_pack(*tokenizer, path, lsv, limit, i + 1) == {
            let l = lsv[i as int];
            let lw = l.push('\n');
            let t = tokenizer.count_spec(lw);
            if t > limit {
                if prev.1.len() > 0 {
                    (flush(path, prev) + pieces_from(*tokenizer, path, l, limit, 0), Seq::<char>::empty(), 0nat)
                } else {
                    (prev.0 + pieces_from(*tokenizer, path, l, limit, 0), prev.1, prev.2)
                }
            } else if prev.2 + t > limit && prev.1.len() > 0 {
                (flush(path, prev), lw, t)
            } else {
                (prev.0, prev.1 + lw, prev.2 + t)
            }
        });
        if t > lim {
            if buf.len() > 0 {
                flush_chunk(&mut chunks, &buf, file_path, cur as u64);
                buf = Vec::new();
                cur = 0;
            }
            let pieces = split_oversized_line(tokenizer, file_path, line, token_limit);
            append_chunks(&mut chunks, pieces);
        } else {
            if (cur as u64) + (t as u64) > lim as u64 && buf.len() > 0 {
                flush_chunk(&mut chunks, &buf, file_path, cur as u64);
                buf = Vec::new();
                cur = 0;
            }
            extend_chars(&mut buf, &lw);
            cur = cur + t;
        }
        assert(buf@ =~= line_pack(*tokenizer, path, lsv, limit, i + 1).1);
        i = i + 1;
    }
    flush_chunk(&mut chunks, &buf, file_path, cur as u64);
    chunks
}

// ---------------------------------------------------------------------------
// Packing hunks.
// ---------------------------------------------------------------------------

/// The text before each hunk header `@@` that starts a line.
pub open spec fn hunk_marker() -> Seq<char> {
    seq!['\n', '@', '@']
}

/// Where the hunks of `s` start, searching from `from`: just after each
/// newline that is followed by `@@`.
pub open spec fn hunk_starts(s: Seq<char>, from: int) -> Seq<int>
    decreases s.len() + 1 - from,
{
    match find_first(s, hunk_marker(), from) {
        Some(k) => if from <= k && k + 3 <= s.len() {
            seq![k + 1] + hunk_starts(s, k + 3)
        } else {
            Seq::empty()
        },
        None => Seq::empty(),
    }
}

proof fn lemma_hunk_starts(s: Seq<char>, from: int)
    requires
        0 <= from,
    ensures
        forall|j: int|
            0 <= j < hunk_starts(s, from).len() ==> from < #[trigger] hunk_starts(s, from)[j]
                && hunk_starts(s, from)[j] + 2 <= s.len(),
        forall|j: int|
            0 <= j < hunk_starts(s, from).len() - 1 ==> #[trigger] hunk_starts(s, from)[j] + 3
                <= hunk_starts(s, from)[j + 1],
    decreases s.len() + 1 - from,
{
    match find_first(s, hunk_marker(), from) {
        Some(k) => if from <= k && k + 3 <= s.len() {
            lemma_hunk_starts(s, k + 3);
            let rest = hunk_starts(s, k + 3);
            let all = hunk_starts(s, from);
            assert(all == seq![k + 1] + rest);
            assert forall|j: int| 0 <= j < all.len() implies from < #[trigger] all[j] && all[j] + 2
                <= s.len() by {
                if j > 0 {
                    assert(all[j] == rest[j - 1]);
                }
            }
            assert forall|j: int| 0 <= j < all.len() - 1 implies #[trigger] all[j] + 3 <= all[j
                + 1] by {
                assert(all[j + 1] == rest[j]);
                if j > 0 {
                    assert(all[j] == rest[j - 1]);
                }
            }
        },
        None => {},
    }
}

/// Where hunk `i` of `starts` ends: where the next one starts, or at the end.
pub open spec fn hunk_end(starts: Seq<int>, n: int, i: int) -> int {
    if i + 1 < starts.len() {
        starts[i + 1]
    } else {
        n
    }
}

/// The state after packing the first `i` hunks of `s`: a hunk joins the
/// pending text, after a newline, unless that would pass `limit` tokens, in
/// which case the pending text becomes a chunk and the hunk starts a new one
/// behind the file header; a hunk over the limit on its own is split at its
/// lines.
pub open spec fn hunk_pack<T: Tokenizer>(tok: T, 
    path: Seq<char>,
    s: Seq<char>,
    header: Seq<char>,
    ht: nat,
    starts: Seq<int>,
    limit: nat,
    i: int,
) -> PackState
    decreases i,
{
    if i <= 0 || i > starts.len() {
        (Seq::empty(), header, ht)
    } else {
        let prev = hunk_pack(tok, path, s, header, ht, starts, limit, i - 1);
        let hunk = s.subrange(starts[i - 1], hunk_end(starts, s.len() as int, i - 1));
        let htok = tok.count_spec(hunk);
        if htok > limit {
            if prev.1.len() > 0 {
                (flush(path, prev) + lines_chunks(tok, path, hunk, limit), Seq::empty(), 0)
            } else {
                (prev.0 + lines_chunks(tok, path, hunk, limit), prev.1, prev.2)
            }
        } else if prev.2 + htok > limit {
            (flush(path, prev), header + seq!['\n'] + hunk, ht + htok + 1)
        } else {
            (prev.0, prev.1 + seq!['\n'] + hunk, prev.2 + htok + 1)
        }
    }
}

/// Where the file header of `s` ends: at its first hunk, or at its end.
pub open spec fn header_end(s: Seq<char>) -> int {
    match find_first(s, hunk_marker(), 0) {
        Some(k) => k,
        None => s.len() as int,
    }
}

/// The chunks `split_by_hunks` makes of the diff `s` of one file.
pub open spec fn hunks_chunks<T: Tokenizer>(tok: T, path: Seq<char>, s: Seq<char>, limit: nat) -> Seq<ChunkV> {
    let header = s.take(header_end(s));
    let ht = tok.count_spec(header);
    if ht > limit {
        lines_chunks(tok, path, s, limit)
    } else {
        let starts = hunk_starts(s, 0);
        if starts.len() == 0 {
            if tok.count_spec(s) <= limit {
                seq![(s, seq![path], tok.count_spec(s))]
            } else {
                lines_chunks(tok, path, s, limit)
            }
        } else {
            flush(path, hunk_pack(tok, path, s, header, ht, starts, limit, starts.len() as int))
        }
    }
}

fn hunk_positions(chars: &Vec<char>, marker: &Vec<char>) -> (r: Vec<usize>)
    requires
        marker@ == hunk_marker(),
    ensures
        r@.len() == hunk_starts(chars@, 0).len(),
        forall|j: int| 0 <= j < r@.len() ==> r@[j] as int == #[trigger] hunk_starts(chars@, 0)[j],
{
    let ghost s = chars@;
    let mut r: Vec<usize> = Vec::new();
    let mut from: usize = 0;
    let mut more = true;
    while more
        invariant
            marker@ == hunk_marker(),
            s == chars@,
            from <= s.len() + 3,
            more ==> from <= s.len() + 1 || hunk_starts(s, from as int) =~= Seq::<int>::empty(),
            r@.map_values(|x: usize| x as int) + (if more { hunk_starts(s, from as int) } else { Seq::<int>::empty() }) =~= hunk_starts(s, 0),
        decreases (if more { s.len() + 4 - from } else { 0 }),
    {
        let ghost before = r@.map_values(|x: usize| x as int);
        proof {
            lemma_find_first_found(s, marker@, from as int);
        }
        assert(marker@.len() == 3);
        match find_first_exec(chars, marker, from) {
            Some(k) => {
                assert(k + 3 <= chars@.len());
                assert(chars@.len() == chars.len());
                assert(hunk_starts(s, from as int) == seq![k + 1] + hunk_starts(s, k + 3));
                r.push(k + 1);
                assert(r@.map_values(|x: usize| x as int) =~= before.push(k + 1));
                from = k + 3;
            },
            None => {
                more = false;
            },
        }
    }
    let ghost all = hunk_starts(s, 0);
    assert forall|j: int| 0 <= j < r@.len() implies r@[j] as int == #[trigger] all[j] by {
        assert(r@.map_values(|x: usize| x as int)[j] == r@[j] as int);
    }
    r
}

/// Splits the diff of one file at its hunks into chunks of at most
/// `token_limit` tokens (see `hunks_chunks`).
pub fn split_by_hunks<T: Tokenizer>(
    tokenizer: &T,
    file_path: &str,
    content: &str,
    token_limit: TokenCount,
) -> (r: Vec<DiffChunk>)
    ensures
        chunk_views(r@) == hunks_chunks(*tokenizer, file_path@, content@, token_limit.count()),
{
    let chars = str_chars(content);
    let ghost s = content@;
    let ghost path = file_path@;
    let lim = token_limit.get();
    let ghost limit = token_limit.count();
    let marker = lit("\n@@");
    proof {
        reveal_strlit("\n@@");
        assert(marker@ =~= hunk_marker());
    }
    proof {
        lemma_find_first_found(s, hunk_marker(), 0);
    }
    let hend = match find_first_exec(&chars, &marker, 0) {
        Some(k) => k,
        None => chars.len(),
    };
    let header = slice_chars(&chars, 0, hend);
    assert(header@ =~= s.take(header_end(s)));
    let header_str = string_from_chars(&header);
    let ht = tokenizer.count_tokens(header_str.as_str()).get();
    if ht > lim {
        return split_by_lines(tokenizer, file_path, content, token_limit);
    }
    let positions = hunk_positions(&chars, &marker);
    let ghost starts = hunk_starts(s, 0);
    proof {
        lemma_hunk_starts(s, 0);
    }
    let mut chunks: Vec<DiffChunk> = Vec::new();
    if positions.len() == 0 {
        let tc = tokenizer.count_tokens(content);
        if tc.get() <= lim {
            let c = DiffChunk {
                content: string_from_chars(&chars),
                file_paths: path_list(file_path),
                token_count: tc,
            };
            push_chunk(&mut chunks, c);
            assert(chunk_views(chunks@) =~= seq![(s, seq![path], tokenizer.count_spec(s))]);
            return chunks;
        } else {
            return split_by_lines(tokenizer, file_path, content, token_limit);
        }
    }
    let n = chars.len();
    let m = positions.len();
    let mut buf: Vec<char> = header.clone();
    assert(buf@ == header@);
    let mut cur: u64 = ht as u64;
    let mut i: usize = 0;
    while i < m
        invariant
            chars@ == s,
            n == s.len(),
            m == starts.len(),
            m == positions@.len(),
            m > 0,
            forall|j: int| 0 <= j < m ==> positions@[j] as int == #[trigger] starts[j],
            forall|j: int| 0 <= j < m ==> 0 < #[trigger] starts[j] && starts[j] + 2 <= n,
            forall|j: int| 0 <= j < m - 1 ==> #[trigger] starts[j] + 3 <= starts[j + 1],
            i <= m,
            lim == limit,
            limit == token_limit.count(),
            path == file_path@,
            header@ == s.take(header_end(s)),
            ht == tokenizer.count_spec(header@),
            ht <= lim,
            chunk_views(chunks@) == hunk_pack(*tokenizer, path, s, header@, ht as nat, starts, limit, i as int).0,
            buf@ == hunk_pack(*tokenizer, path, s, header@, ht as nat, starts, limit, i as int).1,
            cur as nat == hunk_pack(*tokenizer, path, s, header@, ht as nat, starts, limit, i as int).2,
            cur <= 2 * lim + 1,
        decreases m - i,
    {
        let hs = positions[i];
        let he = if i + 1 < m {
            positions[i + 1]
        } else {
            n
        };
        assert(he as int == hunk_end(starts, n as int, i as int));
        let hunk = slice_chars(&chars, hs, he);
        let hunk_str = string_from_chars(&hunk);
        let htok = tokenizer.count_tokens(hunk_str.as_str()).get();
        let ghost prev = hunk_pack(*tokenizer, path, s, header@, ht as nat, starts, limit, i as int);
        if htok > lim {
            if buf.len() > 0 {
                flush_chunk(&mut chunks, &buf, file_path, cur);
                buf = Vec::new();
                cur = 0;
            }
            let more = split_by_lines(tokenizer, file_path, hunk_str.as_str(), token_limit);
            append_chunks(&mut chunks, more);
        } else if cur + htok as u64 > lim as u64 {
            flush_chunk(&mut chunks, &buf, file_path, cur);
            let mut nb = header.clone();
            assert(nb@ == header@);
            nb.push('\n');
            extend_chars(&mut nb, &hunk);
            buf = nb;
            cur = ht as u64 + htok as u64 + 1;
        } else {
            buf.push('\n');
            extend_chars(&mut buf, &hunk);
            cur = cur + htok as u64 + 1;
        }
        assert(buf@ =~= hunk_pack(*tokenizer, path, s, header@, ht as nat, starts, limit, i + 1).1);
        i = i + 1;
    }
    flush_chunk(&mut chunks, &buf, file_path, cur);
    chunks
}

// ---------------------------------------------------------------------------
// Truncating to a token limit.
// ---------------------------------------------------------------------------

/// How many of the lines `ls[i..]` fit, line by line with their newlines,
/// when `sum` tokens are already taken.
pub open spec fn lines_fitting<T: Tokenizer>(tok: T, ls: Seq<Seq<char>>, limit: nat, i: int, sum: nat) -> nat
    decreases ls.len() - i,
{
    if i < 0 || i >= ls.len() {
        ls.len()
    } else {
        let t = tok.count_spec(ls[i].push('\n'));
        if sum + t > limit {
            i as nat
        } else {
            lines_fitting(tok, ls, limit, i + 1, sum + t)
        }
    }
}

/// The leading whole lines of `content` that fit within `limit` tokens,
/// counted line by line.
pub open spec fn truncated_by_lines<T: Tokenizer>(tok: T, content: Seq<char>, limit: nat) -> Seq<char> {
    let ls = lines(content);
    with_newlines(ls.take(lines_fitting(tok, ls, limit, 0, 0) as int))
}

/// `content` cut to its first `limit` tokens: decoded back to text and, where
/// the last line end keeps at least four fifths of it (by bytes), cut there;
/// where the content cannot be encoded or the tokens do not decode, the
/// leading lines that fit.
pub open spec fn truncated_to_limit<T: Tokenizer>(tok: T, content: Seq<char>, limit: nat) -> Seq<char> {
    match tok.encode_spec(content) {
        None => truncated_by_lines(tok, content, limit),
        Some(tokens) => truncated_tokens(tok, content, tokens, limit),
    }
}

/// `truncated_to_limit` for content that encodes to `tokens`.
pub open spec fn truncated_tokens<T: Tokenizer>(tok: T, content: Seq<char>, tokens: Seq<u32>, limit: nat) -> Seq<char> {
    if tokens.len() <= limit {
        content
    } else {
        match tok.decode_spec(tokens.take(limit as int)) {
            Some(result) => match find_last_char(result, '\n', result.len() as int) {
                Some(last) => if (utf8_len(result.take(last + 1)) * limit) / utf8_len(result) >= (
                limit * 4) / 5 {
                    result.take(last + 1)
                } else {
                    result
                },
                None => result,
            },
            None => truncated_by_lines(tok, content, limit),
        }
    }
}

proof fn lemma_lines_fitting_bound<T: Tokenizer>(tok: T, ls: Seq<Seq<char>>, limit: nat, i: int, sum: nat)
    requires
        0 <= i <= ls.len(),
    ensures
        i <= lines_fitting(tok, ls, limit, i, sum) <= ls.len(),
    decreases ls.len() - i,
{
    if i < ls.len() {
        let t = tok.count_spec(ls[i].push('\n'));
        if sum + t <= limit {
            lemma_lines_fitting_bound(tok, ls, limit, i + 1, sum + t);
        }
    }
}

/// Tokens of the first `k` lines of `ls`, each counted with its newline.
pub open spec fn line_token_sum<T: Tokenizer>(tok: T, ls: Seq<Seq<char>>, k: int) -> nat
    decreases k,
{
    if k <= 0 || k > ls.len() {
        0
    } else {
        line_token_sum(tok, ls, k - 1) + tok.count_spec(ls[k - 1].push('\n'))
    }
}

proof fn lemma_lines_fitting_sum<T: Tokenizer>(tok: T, ls: Seq<Seq<char>>, limit: nat, i: int)
    requires
        0 <= i <= ls.len(),
        line_token_sum(tok, ls, i) <= limit,
    ensures
        i <= lines_fitting(tok, ls, limit, i, line_token_sum(tok, ls, i)) <= ls.len(),
        line_token_sum(tok, ls, lines_fitting(tok, ls, limit, i, line_token_sum(tok, ls, i)) as int)
            <= limit,
    decreases ls.len() - i,
{
    if i < ls.len() {
        let t = tok.count_spec(ls[i].push('\n'));
        if line_token_sum(tok, ls, i) + t <= limit {
            assert(line_token_sum(tok, ls, i + 1) == line_token_sum(tok, ls, i) + t);
            lemma_lines_fitting_sum(tok, ls, limit, i + 1);
        }
    }
}

/// Cutting by lines never goes past the limit: the lines kept, each counted
/// with its newline, take at most `limit` tokens.
pub proof fn law_truncate_by_lines_within_limit<T: Tokenizer>(tok: T, content: Seq<char>, limit: nat)
    ensures
        line_token_sum(
            tok,
            lines(content),
            lines_fitting(tok, lines(content), limit, 0, 0) as int,
        ) <= limit,
{
    lemma_lines_fitting_sum(tok, lines(content), limit, 0);
}

/// Content already within the limit is returned unchanged.
pub proof fn law_truncate_keeps_content_within_limit<T: Tokenizer>(tok: T, content: Seq<char>, limit: nat)
    requires
        tok.encode_spec(content) matches Some(t) && t.len() <= limit,
    ensures
        truncated_to_limit(tok, content, limit) == content,
{
}

fn truncate_to_token_limit_fallback<T: Tokenizer>(
    tokenizer: &T,
    content: &str,
    limit: TokenCount,
) -> (r: String)
    ensures
        r@ == truncated_by_lines(*tokenizer, content@, limit.count()),
{
    let chars = str_chars(content);
    let ls = split_lines(&chars);
    let ghost lsv = lines(content@);
    let lim = limit.get();
    let mut out: Vec<char> = Vec::new();
    let mut sum: u64 = 0;
    let mut i: usize = 0;
    proof {
        lemma_lines_fitting_bound(*tokenizer, lsv, lim as nat, 0, 0);
        assert(lsv.take(0) =~= Seq::<Seq<char>>::empty());
    }
    while i < ls.len()
        invariant
            views(ls@) == lsv,
            lsv == lines(content@),
            i <= ls@.len(),
            lim == limit.count(),
            sum <= lim,
            lines_fitting(*tokenizer, lsv, lim as nat, i as int, sum as nat) == lines_fitting(*tokenizer, lsv, lim as nat, 0, 0),
            out@ == with_newlines(lsv.take(i as int)),
        decreases ls.len() - i,
    {
        let lw = with_newline(&ls[i]);
        assert(lw@ == lsv[i as int].push('\n'));
        let t = tokenizer.count_tokens(string_from_chars(&lw).as_str()).get();
        if sum + t as u64 > lim as u64 {
            assert(lines_fitting(*tokenizer, lsv, lim as nat, 0, 0) == i);
            return string_from_chars(&out);
        }
        extend_chars(&mut out, &lw);
        proof {
            assert(lsv.take(i + 1).drop_last() =~= lsv.take(i as int));
            assert(lsv.take(i + 1).last() == lsv[i as int]);
            assert(out@ =~= with_newlines(lsv.take(i + 1)));
        }
        sum = sum + t as u64;
        i = i + 1;
    }
    assert(lines_fitting(*tokenizer, lsv, lim as nat, i as int, sum as nat) == lsv.len());
    string_from_chars(&out)
}

/// Cuts `content` to at most `limit` tokens (see `truncated_to_limit`).
pub fn truncate_to_token_limit<T: Tokenizer>(
    tokenizer: &T,
    content: &str,
    limit: TokenCount,
) -> (r: String)
    ensures
        r@ == truncated_to_limit(*tokenizer, content@, limit.count()),
{
    let tokens = match tokenizer.encode(content) {
        Some(t) => t,
        None => return truncate_to_token_limit_fallback(tokenizer, content, limit),
    };
    let lim = limit.get();
    if tokens.len() <= lim as usize {
        return string_from_chars(&str_chars(content));
    }
    let mut head: Vec<u32> = Vec::new();
    let mut i: usize = 0;
    while i < lim as usize
        invariant
            i <= lim,
            lim < tokens@.len(),
            head@ == tokens@.take(i as int),
        decreases lim - i,
    {
        head.push(tokens[i]);
        assert(tokens@.take(i + 1) =~= tokens@.take(i as int).push(tokens@[i as int]));
        i = i + 1;
    }
    match tokenizer.decode(head.as_slice()) {
        Some(result) => {
            let (rchars, offs) = byte_offsets(result.as_str());
            match rfind_char(&rchars, '\n') {
                Some(last) => {
                    let n = rchars.len();
                    let line_bytes = offs[last + 1];
                    let total = offs[n];
                    proof {
                        crate::text::lemma_utf8_len_take(result@, last + 1, n as int);
                        crate::text::lemma_utf8_len_take(result@, 0, last + 1);
                        assert(result@.take(n as int) =~= result@);
                    }
                    let lb = line_bytes as u128;
                    let lm = lim as u128;
                    assert(lb * lm <= 0xffff_ffff_ffff_ffffu128 * 0xffff_ffffu128) by (nonlinear_arith)
                        requires
                            lb <= 0xffff_ffff_ffff_ffffu128,
                            lm <= 0xffff_ffffu128,
                    ;
                    let prod: u128 = lb * lm;
                    let kept = prod / (total as u128);
                    if kept >= (lim as u128 * 4) / 5 {
                        let line = slice_chars(&rchars, 0, last + 1);
                        assert(line@ =~= result@.take(last + 1));
                        string_from_chars(&line)
                    } else {
                        result
                    }
                },
                None => result,
            }
        },
        None => truncate_to_token_limit_fallback(tokenizer, content, limit),
    }
}

// ---------------------------------------------------------------------------
// Packing files.
// ---------------------------------------------------------------------------

/// Tokens a lockfile may take up in a chunk.
pub const LOCKFILE_TOKEN_LIMIT: u32 = 100;

/// The diff of one file.
#[derive(Debug, Clone)]
pub struct FileDiff {
    pub path: String,
    pub content: String,
    pub token_count: TokenCount,
    pub truncated: bool,
}

/// A file diff as path, content, token count and truncation flag.
pub type FileDiffV = (Seq<char>, Seq<char>, nat, bool);

impl View for FileDiff {
    type V = FileDiffV;

    open spec fn view(&self) -> FileDiffV {
        (self.path@, self.content@, self.token_count.count(), self.truncated)
    }
}

/// The views of a list of file diffs.
pub open spec fn file_views(v: Seq<FileDiff>) -> Seq<FileDiffV> {
    v.map_values(|f: FileDiff| f@)
}

/// File packing state: finished chunks, pending content, pending paths and
/// the running token count.
pub type FileState = (Seq<ChunkV>, Seq<char>, Seq<Seq<char>>, Option<nat>);

/// The pending files as a chunk, if there are any.
pub open spec fn flush_files(st: FileState) -> Seq<ChunkV> {
    if st.1.len() > 0 || st.2.len() > 0 {
        st.0.push(
            (
                st.1,
                st.2,
                match st.3 {
                    Some(c) => c,
                    None => 1,
                },
            ),
        )
    } else {
        st.0
    }
}

/// The marker appended to a lockfile that was cut.
pub open spec fn lockfile_marker() -> Seq<char> {
    "\n[... truncated lockfile ...]\n"@
}

/// The text a file contributes to a packed chunk: a lockfile over its token
/// allowance `lock` is cut to it and marked.
pub open spec fn packed_text<T: Tokenizer>(tok: T, f: FileDiffV, is_lock: bool, lock: nat) -> Seq<char> {
    if is_lock && f.2 > lock {
        truncated_to_limit(tok, f.1, lock) + lockfile_marker()
    } else {
        f.1
    }
}

/// The state after packing the first `i` files: a file joins the pending
/// chunk while the running count stays within `limit`, otherwise it starts a
/// new chunk; a file over the limit on its own is split at its hunks, and a
/// lockfile over the limit is left out. Splitting a file does not reset the
/// running count.
pub open spec fn file_pack<T: Tokenizer>(tok: T, fs: Seq<FileDiffV>, limit: nat, patterns: Seq<Seq<char>>, lock: nat, i: int) -> FileState
    decreases i,
{
    if i <= 0 || i > fs.len() {
        (Seq::empty(), Seq::empty(), Seq::empty(), None)
    } else {
        let prev = file_pack(tok, fs, limit, patterns, lock, i - 1);
        let f = fs[i - 1];
        let is_lock = limited_path(f.0, patterns);
        let eff = if is_lock && f.2 > lock {
            lock
        } else {
            f.2
        };
        if eff <= limit {
            let combined = match prev.3 {
                Some(c) => c + eff,
                None => eff,
            };
            if combined <= limit {
                (
                    prev.0,
                    prev.1 + packed_text(tok, f, is_lock, lock),
                    prev.2.push(f.0),
                    if combined >= 1 { Some(combined) } else { None },
                )
            } else {
                (flush_files(prev), packed_text(tok, f, is_lock, lock), seq![f.0], Some(eff))
            }
        } else if !is_lock {
            (flush_files(prev) + hunks_chunks(tok, f.0, f.1, limit), Seq::empty(), Seq::empty(), prev.3)
        } else {
            prev
        }
    }
}

/// The chunks `split_recursive_with_lockfile_limit` makes of a list of file
/// diffs, with lockfiles allowed `lock` tokens.
pub open spec fn packed_chunks<T: Tokenizer>(tok: T, fs: Seq<FileDiffV>, limit: nat, patterns: Seq<Seq<char>>, lock: nat) -> Seq<ChunkV> {
    flush_files(file_pack(tok, fs, limit, patterns, lock, fs.len() as int))
}

/// The chunks `split_recursive` makes of a list of file diffs: lockfiles
/// are allowed `LOCKFILE_TOKEN_LIMIT` tokens.
pub open spec fn recursive_chunks<T: Tokenizer>(tok: T, fs: Seq<FileDiffV>, limit: nat, patterns: Seq<Seq<char>>) -> Seq<ChunkV> {
    packed_chunks(tok, fs, limit, patterns, LOCKFILE_TOKEN_LIMIT as nat)
}

/// What one file contributes to the text of the packed chunks: a file that
/// fits the budget is sent whole, except a lockfile over its allowance
/// `lock`, which is sent cut to that allowance (see
/// `truncate_to_token_limit`) and marked; any other file over the budget is
/// sent as the chunks of its hunks; a lockfile that does not fit even when
/// cut is left out.
pub open spec fn file_share<T: Tokenizer>(
    tok: T,
    f: FileDiffV,
    limit: nat,
    patterns: Seq<Seq<char>>,
    lock: nat,
) -> Seq<char> {
    let is_lock = limited_path(f.0, patterns);
    if is_lock && f.2 > lock {
        if lock <= limit {
            truncated_to_limit(tok, f.1, lock) + lockfile_marker()
        } else {
            Seq::empty()
        }
    } else if f.2 <= limit {
        f.1
    } else if !is_lock {
        chunk_contents(hunks_chunks(tok, f.0, f.1, limit))
    } else {
        Seq::empty()
    }
}

/// The contributions of the first `k` files, one after another.
pub open spec fn file_shares<T: Tokenizer>(
    tok: T,
    fs: Seq<FileDiffV>,
    limit: nat,
    patterns: Seq<Seq<char>>,
    lock: nat,
    k: int,
) -> Seq<char>
    decreases k,
{
    if k <= 0 || k > fs.len() {
        Seq::empty()
    } else {
        file_shares(tok, fs, limit, patterns, lock, k - 1) + file_share(tok, fs[k - 1], limit, patterns, lock)
    }
}

proof fn lemma_flush_files_contents(st: FileState)
    ensures
        chunk_contents(flush_files(st)) == chunk_contents(st.0) + st.1,
{
    if st.1.len() > 0 || st.2.len() > 0 {
        let x = (st.1, st.2, match st.3 {
            Some(c) => c,
            None => 1,
        });
        assert(st.0.push(x).drop_last() =~= st.0);
    } else {
        assert(chunk_contents(st.0) + st.1 =~= chunk_contents(st.0));
    }
}

proof fn lemma_file_pack_contents<T: Tokenizer>(
    tok: T,
    fs: Seq<FileDiffV>,
    limit: nat,
    patterns: Seq<Seq<char>>,
    lock: nat,
    i: int,
)
    requires
        0 <= i <= fs.len(),
    ensures
        chunk_contents(file_pack(tok, fs, limit, patterns, lock, i).0) + file_pack(
            tok,
            fs,
            limit,
            patterns,
            lock,
            i,
        ).1 == file_shares(tok, fs, limit, patterns, lock, i),
    decreases i,
{
    if i == 0 {
        assert(chunk_contents(Seq::<ChunkV>::empty()) + Seq::<char>::empty() =~= Seq::<char>::empty());
    } else {
        lemma_file_pack_contents(tok, fs, limit, patterns, lock, i - 1);
        let prev = file_pack(tok, fs, limit, patterns, lock, i - 1);
        let f = fs[i - 1];
        let st = file_pack(tok, fs, limit, patterns, lock, i);
        let before = file_shares(tok, fs, limit, patterns, lock, i - 1);
        let share = file_share(tok, f, limit, patterns, lock);
        lemma_flush_files_contents(prev);
        let is_lock = limited_path(f.0, patterns);
        let eff = if is_lock && f.2 > lock {
            lock
        } else {
            f.2
        };
        if eff <= limit {
            assert(packed_text(tok, f, is_lock, lock) == share);
            assert(chunk_contents(st.0) + st.1 =~= before + share);
        } else if !is_lock {
            let hs = hunks_chunks(tok, f.0, f.1, limit);
            lemma_chunk_contents_concat(flush_files(prev), hs);
            assert(chunk_contents(st.0) + st.1 =~= before + share);
        } else {
            assert(share =~= Seq::<char>::empty());
            assert(chunk_contents(st.0) + st.1 =~= before + share);
        }
    }
}

/// Packing loses and adds nothing but what each file is meant to
/// contribute: the chunks' texts, one after another, are the files'
/// contributions in order (see `file_share`). In particular a lockfile over
/// its allowance is only ever sent cut to the allowance and marked.
pub proof fn law_packed_chunks_hold_file_shares<T: Tokenizer>(
    tok: T,
    fs: Seq<FileDiffV>,
    limit: nat,
    patterns: Seq<Seq<char>>,
    lock: nat,
)
    ensures
        chunk_contents(packed_chunks(tok, fs, limit, patterns, lock)) == file_shares(
            tok,
            fs,
            limit,
            patterns,
            lock,
            fs.len() as int,
        ),
{
    lemma_file_pack_contents(tok, fs, limit, patterns, lock, fs.len() as int);
    lemma_flush_files_contents(file_pack(tok, fs, limit, patterns, lock, fs.len() as int));
}

/// The file paths of chunks, one chunk's after another's.
pub open spec fn chunk_paths(cs: Seq<ChunkV>) -> Seq<Seq<char>>
    decreases cs.len(),
{
    if cs.len() == 0 {
        Seq::empty()
    } else {
        chunk_paths(cs.drop_last()) + cs.last().1
    }
}

proof fn lemma_chunk_paths_concat(a: Seq<ChunkV>, b: Seq<ChunkV>)
    ensures
        chunk_paths(a + b) == chunk_paths(a) + chunk_paths(b),
    decreases b.len(),
{
    if b.len() == 0 {
        assert(a + b =~= a);
        assert(chunk_paths(a) + Seq::<Seq<char>>::empty() =~= chunk_paths(a));
    } else {
        lemma_chunk_paths_concat(a, b.drop_last());
        assert((a + b).drop_last() =~= a + b.drop_last());
        assert((a + b).last() == b.last());
        assert(chunk_paths(a) + chunk_paths(b.drop_last()) + b.last().1 =~= chunk_paths(a)
            + (chunk_paths(b.drop_last()) + b.last().1));
    }
}

/// The paths one file puts on the packed chunks: its own path once when it
/// is sent in a shared chunk (a lockfile cut to its allowance included),
/// the paths of its hunk chunks when it is split, nothing when it is left
/// out.
pub open spec fn file_path_share<T: Tokenizer>(
    tok: T,
    f: FileDiffV,
    limit: nat,
    patterns: Seq<Seq<char>>,
    lock: nat,
) -> Seq<Seq<char>> {
    let is_lock = limited_path(f.0, patterns);
    let eff = if is_lock && f.2 > lock {
        lock
    } else {
        f.2
    };
    if eff <= limit {
        seq![f.0]
    } else if !is_lock {
        chunk_paths(hunks_chunks(tok, f.0, f.1, limit))
    } else {
        Seq::empty()
    }
}

/// The path shares of the first `k` files, one after another.
pub open spec fn file_path_shares<T: Tokenizer>(
    tok: T,
    fs: Seq<FileDiffV>,
    limit: nat,
    patterns: Seq<Seq<char>>,
    lock: nat,
    k: int,
) -> Seq<Seq<char>>
    decreases k,
{
    if k <= 0 || k > fs.len() {
        Seq::empty()
    } else {
        file_path_shares(tok, fs, limit, patterns, lock, k - 1) + file_path_share(
            tok,
            fs[k - 1],
            limit,
            patterns,
            lock,
        )
    }
}

proof fn lemma_flush_files_paths(st: FileState)
    ensures
        chunk_paths(flush_files(st)) == chunk_paths(st.0) + st.2,
{
    if st.1.len() > 0 || st.2.len() > 0 {
        let x = (st.1, st.2, match st.3 {
            Some(c) => c,
            None => 1,
        });
        assert(st.0.push(x).drop_last() =~= st.0);
    } else {
        assert(chunk_paths(st.0) + st.2 =~= chunk_paths(st.0));
    }
}

proof fn lemma_file_pack_paths<T: Tokenizer>(
    tok: T,
    fs: Seq<FileDiffV>,
    limit: nat,
    patterns: Seq<Seq<char>>,
    lock: nat,
    i: int,
)
    requires
        0 <= i <= fs.len(),
    ensures
        chunk_paths(file_pack(tok, fs, limit, patterns, lock, i).0) + file_pack(
            tok,
            fs,
            limit,
            patterns,
            lock,
            i,
        ).2 == file_path_shares(tok, fs, limit, patterns, lock, i),
    decreases i,
{
    if i == 0 {
        assert(chunk_paths(Seq::<ChunkV>::empty()) + Seq::<Seq<char>>::empty()
            =~= Seq::<Seq<char>>::empty());
    } else {
        lemma_file_pack_paths(tok, fs, limit, patterns, lock, i - 1);
        let prev = file_pack(tok, fs, limit, patterns, lock, i - 1);
        let f = fs[i - 1];
        let st = file_pack(tok, fs, limit, patterns, lock, i);
        let before = file_path_shares(tok, fs, limit, patterns, lock, i - 1);
        let share = file_path_share(tok, f, limit, patterns, lock);
        lemma_flush_files_paths(prev);
        let is_lock = limited_path(f.0, patterns);
        let eff = if is_lock && f.2 > lock {
            lock
        } else {
            f.2
        };
        if eff <= limit {
            assert(chunk_paths(st.0) + st.2 =~= before + share);
        } else if !is_lock {
            let hs = hunks_chunks(tok, f.0, f.1, limit);
            lemma_chunk_paths_concat(flush_files(prev), hs);
            assert(chunk_paths(st.0) + st.2 =~= before + share);
        } else {
            assert(chunk_paths(st.0) + st.2 =~= before + share);
        }
    }
}

/// Packing names every file it sends, once and in order: the chunks' paths,
/// one after another, are the files' path shares (see `file_path_share`).
pub proof fn law_packed_chunks_name_their_files<T: Tokenizer>(
    tok: T,
    fs: Seq<FileDiffV>,
    limit: nat,
    patterns: Seq<Seq<char>>,
    lock: nat,
)
    ensures
        chunk_paths(packed_chunks(tok, fs, limit, patterns, lock)) == file_path_shares(
            tok,
            fs,
            limit,
            patterns,
            lock,
            fs.len() as int,
        ),
{
    lemma_file_pack_paths(tok, fs, limit, patterns, lock, fs.len() as int);
    lemma_flush_files_paths(file_pack(tok, fs, limit, patterns, lock, fs.len() as int));
}

/// Every chunk names the one file at `path`.
pub open spec fn all_for_path(cs: Seq<ChunkV>, path: Seq<char>) -> bool {
    forall|j: int| 0 <= j < cs.len() ==> (#[trigger] cs[j]).1 == seq![path]
}

proof fn lemma_all_for_path_concat(a: Seq<ChunkV>, b: Seq<ChunkV>, path: Seq<char>)
    requires
        all_for_path(a, path),
        all_for_path(b, path),
    ensures
        all_for_path(a + b, path),
{
    assert forall|j: int| 0 <= j < (a + b).len() implies (#[trigger] (a + b)[j]).1 == seq![path] by {
        if j < a.len() {
            assert((a + b)[j] == a[j]);
        } else {
            assert((a + b)[j] == b[j - a.len()]);
        }
    }
}

proof fn lemma_flush_for_path(path: Seq<char>, st: PackState)
    requires
        all_for_path(st.0, path),
    ensures
        all_for_path(flush(path, st), path),
{
    if st.1.len() > 0 {
        let c = (st.1, seq![path], at_least_one(held_count(st.2)));
        assert forall|j: int| 0 <= j < st.0.push(c).len() implies (#[trigger] st.0.push(c)[j]).1
            == seq![path] by {
            if j < st.0.len() {
                assert(st.0.push(c)[j] == st.0[j]);
            }
        }
    }
}

proof fn lemma_pieces_for_path<T: Tokenizer>(tok: T, path: Seq<char>, s: Seq<char>, limit: nat, ks: int)
    ensures
        all_for_path(pieces_from(tok, path, s, limit, ks), path),
    decreases s.len() - ks,
{
    if !(ks < 0 || ks >= s.len()) {
        let e = piece_end(tok, s, limit, ks);
        if !(e <= ks || e > s.len()) {
            let piece = s.subrange(ks, e as int);
            lemma_pieces_for_path(tok, path, s, limit, e as int);
            let one = seq![(piece, seq![path], tok.count_spec(piece))];
            assert(all_for_path(one, path));
            lemma_all_for_path_concat(one, pieces_from(tok, path, s, limit, e as int), path);
        }
    }
}

proof fn lemma_line_pack_for_path<T: Tokenizer>(
    tok: T,
    path: Seq<char>,
    ls: Seq<Seq<char>>,
    limit: nat,
    i: int,
)
    ensures
        all_for_path(line_pack(tok, path, ls, limit, i).0, path),
    decreases i,
{
    if !(i <= 0 || i > ls.len()) {
        lemma_line_pack_for_path(tok, path, ls, limit, i - 1);
        let prev = line_pack(tok, path, ls, limit, i - 1);
        let l = ls[i - 1];
        lemma_flush_for_path(path, prev);
        lemma_pieces_for_path(tok, path, l, limit, 0);
        lemma_all_for_path_concat(flush(path, prev), pieces_from(tok, path, l, limit, 0), path);
        lemma_all_for_path_concat(prev.0, pieces_from(tok, path, l, limit, 0), path);
    }
}

proof fn lemma_lines_for_path<T: Tokenizer>(tok: T, path: Seq<char>, content: Seq<char>, limit: nat)
    ensures
        all_for_path(lines_chunks(tok, path, content, limit), path),
{
    let ls = lines(content);
    lemma_line_pack_for_path(tok, path, ls, limit, ls.len() as int);
    lemma_flush_for_path(path, line_pack(tok, path, ls, limit, ls.len() as int));
}

proof fn lemma_hunk_pack_for_path<T: Tokenizer>(
    tok: T,
    path: Seq<char>,
    s: Seq<char>,
    header: Seq<char>,
    ht: nat,
    starts: Seq<int>,
    limit: nat,
    i: int,
)
    ensures
        all_for_path(hunk_pack(tok, path, s, header, ht, starts, limit, i).0, path),
    decreases i,
{
    if !(i <= 0 || i > starts.len()) {
        lemma_hunk_pack_for_path(tok, path, s, header, ht, starts, limit, i - 1);
        let prev = hunk_pack(tok, path, s, header, ht, starts, limit, i - 1);
        let hunk = s.subrange(starts[i - 1], hunk_end(starts, s.len() as int, i - 1));
        lemma_flush_for_path(path, prev);
        lemma_lines_for_path(tok, path, hunk, limit);
        lemma_all_for_path_concat(flush(path, prev), lines_chunks(tok, path, hunk, limit), path);
        lemma_all_for_path_concat(prev.0, lines_chunks(tok, path, hunk, limit), path);
    }
}

/// Every chunk of a split at hunks names the one file that was split.
pub proof fn law_hunk_chunks_name_their_file<T: Tokenizer>(
    tok: T,
    path: Seq<char>,
    s: Seq<char>,
    limit: nat,
)
    ensures
        all_for_path(hunks_chunks(tok, path, s, limit), path),
{
    let header = s.take(header_end(s));
    let ht = tok.count_spec(header);
    let starts = hunk_starts(s, 0);
    lemma_lines_for_path(tok, path, s, limit);
    lemma_hunk_pack_for_path(tok, path, s, header, ht, starts, limit, starts.len() as int);
    lemma_flush_for_path(path, hunk_pack(tok, path, s, header, ht, starts, limit, starts.len() as int));
    assert(all_for_path(seq![(s, seq![path], tok.count_spec(s))], path));
}

/// Whether `c` names only a file of `fs` that is over the limit and is not
/// a lockfile: such a file is split at its hunks.
pub open spec fn names_split_file(
    c: ChunkV,
    fs: Seq<FileDiffV>,
    limit: nat,
    patterns: Seq<Seq<char>>,
) -> bool {
    exists|idx: int|
        0 <= idx < fs.len() && !limited_path(fs[idx].0, patterns) && fs[idx].2 > limit && c.1
            == seq![#[trigger] fs[idx].0]
}

proof fn lemma_file_pack_counts<T: Tokenizer>(
    tok: T,
    fs: Seq<FileDiffV>,
    limit: nat,
    patterns: Seq<Seq<char>>,
    lock: nat,
    i: int,
)
    requires
        0 <= i <= fs.len(),
        limit >= 1,
    ensures
        file_pack(tok, fs, limit, patterns, lock, i).3 matches Some(c) ==> c <= limit,
        forall|j: int|
            0 <= j < file_pack(tok, fs, limit, patterns, lock, i).0.len() ==> (#[trigger] file_pack(
                tok,
                fs,
                limit,
                patterns,
                lock,
                i,
            ).0[j]).2 <= limit || names_split_file(
                file_pack(tok, fs, limit, patterns, lock, i).0[j],
                fs,
                limit,
                patterns,
            ),
    decreases i,
{
    if i > 0 {
        lemma_file_pack_counts(tok, fs, limit, patterns, lock, i - 1);
        let prev = file_pack(tok, fs, limit, patterns, lock, i - 1);
        let st = file_pack(tok, fs, limit, patterns, lock, i);
        let f = fs[i - 1];
        let is_lock = limited_path(f.0, patterns);
        let eff = if is_lock && f.2 > lock {
            lock
        } else {
            f.2
        };
        let fl = flush_files(prev);
        assert forall|j: int| 0 <= j < fl.len() implies (#[trigger] fl[j]).2 <= limit || names_split_file(
            fl[j],
            fs,
            limit,
            patterns,
        ) by {
            if j < prev.0.len() {
                assert(fl[j] == prev.0[j]);
            }
        }
        if eff > limit && !is_lock {
            let hs = hunks_chunks(tok, f.0, f.1, limit);
            law_hunk_chunks_name_their_file(tok, f.0, f.1, limit);
            assert forall|j: int| 0 <= j < st.0.len() implies (#[trigger] st.0[j]).2 <= limit
                || names_split_file(st.0[j], fs, limit, patterns) by {
                if j < fl.len() {
                    assert(st.0[j] == fl[j]);
                } else {
                    assert(st.0[j] == hs[j - fl.len()]);
                    assert(hs[j - fl.len()].1 == seq![f.0]);
                    assert(fs[i - 1].0 == f.0);
                }
            }
        }
    }
}

/// Every chunk of the packing records at most `limit` tokens, except the
/// chunks of a file that is over the limit on its own and is not a lockfile,
/// which is split at its hunks and named alone on each of them.
pub proof fn law_packed_chunk_counts<T: Tokenizer>(
    tok: T,
    fs: Seq<FileDiffV>,
    limit: nat,
    patterns: Seq<Seq<char>>,
    lock: nat,
)
    requires
        limit >= 1,
    ensures
        forall|j: int|
            0 <= j < packed_chunks(tok, fs, limit, patterns, lock).len() ==> (
            #[trigger] packed_chunks(tok, fs, limit, patterns, lock)[j]).2 <= limit
                || names_split_file(packed_chunks(tok, fs, limit, patterns, lock)[j], fs, limit, patterns),
{
    let n = fs.len() as int;
    lemma_file_pack_counts(tok, fs, limit, patterns, lock, n);
    let st = file_pack(tok, fs, limit, patterns, lock, n);
    let out = packed_chunks(tok, fs, limit, patterns, lock);
    assert forall|j: int| 0 <= j < out.len() implies (#[trigger] out[j]).2 <= limit
        || names_split_file(out[j], fs, limit, patterns) by {
        if j < st.0.len() {
            assert(out[j] == st.0[j]);
        }
    }
}

fn flush_pending(chunks: &mut Vec<DiffChunk>, content: &Vec<char>, paths: &Vec<String>, cur: Option<u32>)
    requires
        cur matches Some(c) ==> c >= 1,
    ensures
        chunk_views(final(chunks)@) == flush_files(
            (
                chunk_views(old(chunks)@),
                content@,
                string_views(paths@),
                match cur {
                    Some(c) => Some(c as nat),
                    None => None,
                },
            ),
        ),
{
    if content.len() > 0 || paths.len() > 0 {
        let tc = match cur {
            Some(c) => TokenCount::new_saturating(c),
            None => TokenCount::new_saturating(1),
        };
        let mut ps: Vec<String> = Vec::new();
        let mut k: usize = 0;
        while k < paths.len()
            invariant
                k <= paths@.len(),
                string_views(ps@) == string_views(paths@.take(k as int)),
            decreases paths.len() - k,
        {
            let ghost before = ps@;
            ps.push(string_from_chars(&str_chars(paths[k].as_str())));
            assert(paths@.take(k + 1) =~= paths@.take(k as int).push(paths@[k as int]));
            assert(string_views(ps@) =~= string_views(before).push(paths@[k as int]@));
            assert(string_views(paths@.take(k + 1)) =~= string_views(paths@.take(k as int)).push(
                paths@[k as int]@,
            ));
            k = k + 1;
        }
        assert(paths@.take(k as int) =~= paths@);
        let c = DiffChunk { content: string_from_chars(content), file_paths: ps, token_count: tc };
        push_chunk(chunks, c);
    }
}

/// Packs file diffs into chunks of at most `token_limit` tokens, whole files
/// first, splitting the files that do not fit alone (see `recursive_chunks`).
pub fn split_recursive<T: Tokenizer>(
    tokenizer: &T,
    file_diffs: Vec<FileDiff>,
    token_limit: TokenCount,
    ignore_patterns: &[String],
) -> (r: Vec<DiffChunk>)
    ensures
        chunk_views(r@) == recursive_chunks(*tokenizer, 
            file_views(file_diffs@),
            token_limit.count(),
            string_views(ignore_patterns@),
        ),
{
    split_recursive_with_lockfile_limit(
        tokenizer,
        file_diffs,
        token_limit,
        ignore_patterns,
        TokenCount::new_saturating(LOCKFILE_TOKEN_LIMIT),
    )
}

/// As `split_recursive`, with lockfiles allowed `lockfile_token_limit`
/// tokens (see `packed_chunks`).
pub fn split_recursive_with_lockfile_limit<T: Tokenizer>(
    tokenizer: &T,
    file_diffs: Vec<FileDiff>,
    token_limit: TokenCount,
    ignore_patterns: &[String],
    lockfile_token_limit: TokenCount,
) -> (r: Vec<DiffChunk>)
    ensures
        chunk_views(r@) == packed_chunks(*tokenizer, 
            file_views(file_diffs@),
            token_limit.count(),
            string_views(ignore_patterns@),
            lockfile_token_limit.count(),
        ),
{
    let ghost fs = file_views(file_diffs@);
    let ghost pats = string_views(ignore_patterns@);
    let lim = token_limit.get();
    let ghost limit = token_limit.count();
    let marker = lit("\n[... truncated lockfile ...]\n");
    let lock_limit = lockfile_token_limit;
    let lock = lock_limit.get();
    let ghost lockn = lock_limit.count();
    let mut chunks: Vec<DiffChunk> = Vec::new();
    let mut content: Vec<char> = Vec::new();
    let mut paths: Vec<String> = Vec::new();
    let mut cur: Option<u32> = None;
    let mut i: usize = 0;
    while i < file_diffs.len()
        invariant
            fs == file_views(file_diffs@),
            pats == string_views(ignore_patterns@),
            i <= file_diffs@.len(),
            lim == limit,
            limit == token_limit.count(),
            marker@ == lockfile_marker(),
            lock_limit.count() == lock,
            lockn == lock,
            lock >= 1,
            cur matches Some(c) ==> 1 <= c <= lim,
            chunk_views(chunks@) == file_pack(*tokenizer, fs, limit, pats, lockn, i as int).0,
            content@ == file_pack(*tokenizer, fs, limit, pats, lockn, i as int).1,
            string_views(paths@) == file_pack(*tokenizer, fs, limit, pats, lockn, i as int).2,
            (match cur {
                Some(c) => Some(c as nat),
                None => None,
            }) == file_pack(*tokenizer, fs, limit, pats, lockn, i as int).3,
        decreases file_diffs.len() - i,
    {
        let fd = &file_diffs[i];
        assert(fd@ == fs[i as int]);
        let ghost prev = file_pack(*tokenizer, fs, limit, pats, lockn, i as int);
        let is_lock = should_limit_file(fd.path.as_str(), ignore_patterns);
        let tokens = fd.token_count.get();
        let eff = if is_lock && tokens > lock {
            lock
        } else {
            tokens
        };
        if eff <= lim {
            let combined: u64 = match cur {
                Some(c) => c as u64 + eff as u64,
                None => eff as u64,
            };
            let mut text: Vec<char> = if is_lock && tokens > lock {
                let t = truncate_to_token_limit(tokenizer, fd.content.as_str(), lock_limit);
                let mut tc = str_chars(t.as_str());
                extend_chars(&mut tc, &marker);
                tc
            } else {
                str_chars(fd.content.as_str())
            };
            assert(text@ == packed_text(*tokenizer, fs[i as int], is_lock, lockn));
            let p = string_from_chars(&str_chars(fd.path.as_str()));
            if combined <= lim as u64 {
                extend_chars(&mut content, &text);
                let ghost old_paths = paths@;
                paths.push(p);
                assert(string_views(paths@) =~= string_views(old_paths).push(fd.path@));
                cur = Some(combined as u32);
            } else {
                flush_pending(&mut chunks, &content, &paths, cur);
                content = text;
                let mut np: Vec<String> = Vec::new();
                np.push(p);
                assert(string_views(np@) =~= seq![fd.path@]);
                paths = np;
                cur = Some(eff);
            }
        } else if !is_lock {
            flush_pending(&mut chunks, &content, &paths, cur);
            content = Vec::new();
            paths = Vec::new();
            assert(string_views(paths@) =~= Seq::<Seq<char>>::empty());
            let more = split_by_hunks(tokenizer, fd.path.as_str(), fd.content.as_str(), token_limit);
            append_chunks(&mut chunks, more);
        }
        assert(content@ =~= file_pack(*tokenizer, fs, limit, pats, lockn, i + 1).1);
        i = i + 1;
    }
    flush_pending(&mut chunks, &content, &paths, cur);
    chunks
}

// ---------------------------------------------------------------------------
// Laws of line splitting.
// ---------------------------------------------------------------------------

/// A chunk that fits `limit`: its recorded tokens are within the limit, or it
/// is a single character that could not be cut further.
pub open spec fn fits(c: ChunkV, limit: nat) -> bool {
    c.2 <= limit || c.0.len() == 1
}

proof fn lemma_piece_search_fits<T: Tokenizer>(
    tok: T,
    s: Seq<char>,
    limit: nat,
    ks: int,
    low: int,
    high: int,
    best: nat,
)
    requires
        0 <= ks < s.len(),
        ks + 1 <= best <= s.len(),
        best == ks + 1 || tok.count_spec(s.subrange(ks, best as int)) <= limit,
    ensures
        ({
            let e = piece_search(tok, s, limit, ks, low, high, best);
            e == ks + 1 || tok.count_spec(s.subrange(ks, e as int)) <= limit
        }),
    decreases high - low + 1,
{
    if low <= high {
        let mid = (low + high) / 2;
        lemma_last_within_bound(s, mid, s.len() as int);
        let e = probe_end(s, ks, mid);
        if tok.count_spec(s.subrange(ks, e as int)) <= limit {
            lemma_piece_search_fits(tok, s, limit, ks, mid + 1, high, e);
        } else {
            lemma_piece_search_fits(tok, s, limit, ks, low, mid - 1, best);
        }
    }
}

proof fn lemma_pieces_fit<T: Tokenizer>(tok: T, path: Seq<char>, s: Seq<char>, limit: nat, ks: int)
    requires
        0 <= ks <= s.len(),
    ensures
        forall|j: int|
            0 <= j < pieces_from(tok, path, s, limit, ks).len() ==> fits(
                #[trigger] pieces_from(tok, path, s, limit, ks)[j],
                limit,
            ),
    decreases s.len() - ks,
{
    if ks < s.len() {
        let low = utf8_len(s.take(ks)) + 1int;
        let high = utf8_len(s) as int;
        lemma_piece_search_bound(tok, s, limit, ks, low, high, (ks + 1) as nat);
        lemma_piece_search_fits(tok, s, limit, ks, low, high, (ks + 1) as nat);
        let e = piece_end(tok, s, limit, ks);
        lemma_pieces_fit(tok, path, s, limit, e as int);
        let piece = s.subrange(ks, e as int);
        let rest = pieces_from(tok, path, s, limit, e as int);
        let all = pieces_from(tok, path, s, limit, ks);
        assert(all == seq![(piece, seq![path], tok.count_spec(piece))] + rest);
        assert forall|j: int| 0 <= j < all.len() implies fits(#[trigger] all[j], limit) by {
            if j > 0 {
                assert(all[j] == rest[j - 1]);
            }
        }
    }
}

/// Each piece of a line cut by `split_oversized_line` stays within the token
/// limit, unless it is a single character.
pub proof fn law_line_pieces_fit<T: Tokenizer>(tok: T, path: Seq<char>, line: Seq<char>, limit: nat)
    ensures
        forall|j: int|
            0 <= j < pieces_from(tok, path, line, limit, 0).len() ==> fits(
                #[trigger] pieces_from(tok, path, line, limit, 0)[j],
                limit,
            ),
{
    lemma_pieces_fit(tok, path, line, limit, 0);
}

/// The pieces of a line, put back together, are the line.
pub proof fn law_line_pieces_reassemble<T: Tokenizer>(tok: T, path: Seq<char>, line: Seq<char>, limit: nat)
    ensures
        chunk_contents(pieces_from(tok, path, line, limit, 0)) == line,
{
    lemma_pieces_concat(tok, path, line, limit, 0);
    assert(line.subrange(0, line.len() as int) =~= line);
}

/// The text that line splitting keeps of the first `i` lines: each line with
/// its newline, except that a line too long for one chunk loses its newline
/// when it is cut.
pub open spec fn kept_lines<T: Tokenizer>(tok: T, ls: Seq<Seq<char>>, limit: nat, i: int) -> Seq<char>
    decreases i,
{
    if i <= 0 || i > ls.len() {
        Seq::empty()
    } else {
        let l = ls[i - 1];
        let lw = l.push('\n');
        kept_lines(tok, ls, limit, i - 1) + if tok.count_spec(lw) > limit {
            l
        } else {
            lw
        }
    }
}

proof fn lemma_flush_contents(path: Seq<char>, st: PackState)
    ensures
        chunk_contents(flush(path, st)) == chunk_contents(st.0) + st.1,
{
    if st.1.len() > 0 {
        let x = (st.1, seq![path], at_least_one(held_count(st.2)));
        assert(st.0.push(x).drop_last() =~= st.0);
    } else {
        assert(chunk_contents(st.0) + st.1 =~= chunk_contents(st.0));
    }
}

proof fn lemma_line_pack<T: Tokenizer>(tok: T, path: Seq<char>, ls: Seq<Seq<char>>, limit: nat, i: int)
    requires
        0 <= i <= ls.len(),
        limit >= 1,
    ensures
        ({
            let st = line_pack(tok, path, ls, limit, i);
            &&& chunk_contents(st.0) + st.1 == kept_lines(tok, ls, limit, i)
            &&& st.2 <= limit
            &&& (st.1.len() == 0 ==> st.2 == 0)
            &&& forall|j: int| 0 <= j < st.0.len() ==> fits(#[trigger] st.0[j], limit)
        }),
    decreases i,
{
    if i == 0 {
        assert(chunk_contents(Seq::<ChunkV>::empty()) + Seq::<char>::empty() =~= Seq::<char>::empty());
    }
    if i > 0 {
        lemma_line_pack(tok, path, ls, limit, i - 1);
        let prev = line_pack(tok, path, ls, limit, i - 1);
        let l = ls[i - 1];
        let lw = l.push('\n');
        let t = tok.count_spec(lw);
        let st = line_pack(tok, path, ls, limit, i);
        let pieces = pieces_from(tok, path, l, limit, 0);
        law_line_pieces_reassemble(tok, path, l, limit);
        law_line_pieces_fit(tok, path, l, limit);
        lemma_flush_contents(path, prev);
        let fl = flush(path, prev);
        assert forall|j: int| 0 <= j < fl.len() implies fits(#[trigger] fl[j], limit) by {
            if j < prev.0.len() {
                assert(fl[j] == prev.0[j]);
            }
        }
        if t > limit {
            let base = if prev.1.len() > 0 { fl } else { prev.0 };
            lemma_chunk_contents_concat(base, pieces);
            assert(st.0 == base + pieces);
            assert forall|j: int| 0 <= j < st.0.len() implies fits(#[trigger] st.0[j], limit) by {
                if j >= base.len() {
                    assert(st.0[j] == pieces[j - base.len()]);
                } else {
                    assert(st.0[j] == base[j]);
                }
            }
            if prev.1.len() > 0 {
                assert(chunk_contents(st.0) + st.1 =~= chunk_contents(prev.0) + prev.1 + l);
            } else {
                assert(prev.1 =~= Seq::<char>::empty());
                assert(chunk_contents(st.0) + st.1 =~= chunk_contents(prev.0) + prev.1 + l);
            }
        } else if prev.2 + t > limit && prev.1.len() > 0 {
            assert(chunk_contents(st.0) + st.1 =~= chunk_contents(prev.0) + prev.1 + lw);
        } else {
            assert(chunk_contents(st.0) + st.1 =~= chunk_contents(prev.0) + prev.1 + lw);
        }
    }
}

/// Splitting by lines loses no text: the chunks, one after another, are the
/// lines of the content with their newlines, where a line cut into pieces
/// loses only its newline.
pub proof fn law_split_by_lines_keeps_text<T: Tokenizer>(
    tok: T,
    path: Seq<char>,
    content: Seq<char>,
    limit: nat,
)
    requires
        limit >= 1,
    ensures
        chunk_contents(lines_chunks(tok, path, content, limit)) == kept_lines(
            tok,
            lines(content),
            limit,
            lines(content).len() as int,
        ),
{
    let ls = lines(content);
    lemma_line_pack(tok, path, ls, limit, ls.len() as int);
    lemma_flush_contents(path, line_pack(tok, path, ls, limit, ls.len() as int));
}

/// Every chunk of a split by lines fits the token limit (see `fits`).
pub proof fn law_split_by_lines_fits<T: Tokenizer>(
    tok: T,
    path: Seq<char>,
    content: Seq<char>,
    limit: nat,
)
    requires
        limit >= 1,
    ensures
        forall|j: int|
            0 <= j < lines_chunks(tok, path, content, limit).len() ==> fits(
                #[trigger] lines_chunks(tok, path, content, limit)[j],
                limit,
            ),
{
    let ls = lines(content);
    lemma_line_pack(tok, path, ls, limit, ls.len() as int);
    let st = line_pack(tok, path, ls, limit, ls.len() as int);
    let all = lines_chunks(tok, path, content, limit);
    assert forall|j: int| 0 <= j < all.len() implies fits(#[trigger] all[j], limit) by {
        if j < st.0.len() {
            assert(all[j] == st.0[j]);
        }
    }
}

} // verus!
