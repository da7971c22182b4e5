//! Turning a staged diff into the chunks sent to the model: a diff over the
//! size limit is cut (with a notice saying so), binary files are announced
//! rather than sent, deletion-only diffs are shrunk first, and what fits the
//! token budget whole is sent whole.
use vstd::prelude::*;
use crate::binary_files::{binary_content, is_binary_content};
use crate::chunking::{
    LOCKFILE_TOKEN_LIMIT, ChunkV, DiffChunk, FileDiff, FileDiffV, chunk_views, file_views, packed_chunks,
    split_recursive_with_lockfile_limit,
};
use crate::diff_parsing::{
    count_starting, file_starts, deleted_file_mode, deletion_only, extract_file_paths, file_header, files_of,
    header_paths, is_all_file_deletions, is_deletion_only, split_by_files,
    truncate_deletion_diff, truncated_deletion_diff,
};
use crate::text::{
    byte_offsets, decimal, decimal_chars, extend_chars, lines, lit, slice_chars, str_chars,
    string_from_chars, string_views, utf8_len,
};
use crate::tokenizer::{TokenCount, Tokenizer};

verus! {

/// Splits diffs into chunks that fit a token budget. `max_diff_size` is the
/// largest diff, in bytes, that is processed whole, `binary_extensions` the
/// lower-case file extensions taken as binary, and `lockfile_token_limit`
/// the tokens a file matching `ignore_files` may take up in a chunk.
pub struct DiffProcessor<T: Tokenizer> {
    pub tokenizer: T,
    pub token_limit: TokenCount,
    pub ignore_files: Vec<String>,
    pub max_diff_size: usize,
    pub binary_extensions: Vec<String>,
    pub lockfile_token_limit: TokenCount,
}

/// The longest prefix of `s` whose UTF-8 encoding has at most `max` bytes.
pub open spec fn bytes_prefix(s: Seq<char>, max: nat) -> Seq<char>
    decreases s.len(),
{
    if s.len() == 0 || utf8_len(s) <= max {
        s
    } else {
        bytes_prefix(s.drop_last(), max)
    }
}

/// Whether every file of the diff is deleted whole (see
/// `is_all_file_deletions`).
pub open spec fn all_file_deletions(d: Seq<char>) -> bool {
    count_starting(lines(d), file_header()) > 0 && count_starting(lines(d), file_header())
        == count_starting(lines(d), deleted_file_mode())
}

/// A chunk of `content` for the files `paths`, with its token count.
pub open spec fn chunk_of<T: Tokenizer>(tok: T, content: Seq<char>, paths: Seq<Seq<char>>) -> ChunkV {
    (content, paths, tok.count_spec(content))
}

/// One chunk per file diff, holding that file's diff.
pub open spec fn file_chunks<T: Tokenizer>(tok: T, fs: Seq<FileDiffV>) -> Seq<ChunkV>
    decreases fs.len(),
{
    if fs.len() == 0 {
        Seq::empty()
    } else {
        file_chunks(tok, fs.drop_last()).push(chunk_of(tok, fs.last().1, seq![fs.last().0]))
    }
}

/// A diff within the size limit: one chunk of the whole diff where its
/// tokens fit the budget, else the files packed by `split_recursive`.
pub open spec fn fitted_chunks<T: Tokenizer>(tok: T, d: Seq<char>, limit: nat, pats: Seq<Seq<char>>, lock: nat) -> Seq<ChunkV> {
    if tok.count_spec(d) <= limit {
        seq![chunk_of(tok, d, header_paths(lines(d)))]
    } else {
        packed_chunks(tok, files_of(tok, d), limit, pats, lock)
    }
}

/// A diff that was shrunk already: over the size limit, one chunk per file;
/// else as `fitted_chunks`.
pub open spec fn owned_chunks<T: Tokenizer>(
    tok: T,
    d: Seq<char>,
    limit: nat,
    pats: Seq<Seq<char>>,
    lock: nat,
    max: nat,
) -> Seq<ChunkV> {
    if utf8_len(d) > max {
        file_chunks(tok, files_of(tok, d))
    } else {
        fitted_chunks(tok, d, limit, pats, lock)
    }
}

/// How many of the files from the `i`-th on still fit in `max` bytes with
/// `acc` bytes taken, counted up to the first that does not: the result is
/// the index where the files kept end.
pub open spec fn files_within(fs: Seq<FileDiffV>, max: nat, i: nat, acc: nat) -> nat
    decreases fs.len() - i,
{
    if i >= fs.len() || acc + utf8_len(fs[i as int].1) > max {
        i
    } else {
        files_within(fs, max, i + 1, acc + utf8_len(fs[i as int].1))
    }
}

/// The notice appended when only the first `kept` of `total` files are sent.
pub open spec fn files_notice(kept: nat, total: nat) -> Seq<char> {
    "\n[diff truncated: "@ + decimal(kept) + " of "@ + decimal(total) + " files shown]"@
}

/// The paths of file diffs.
pub open spec fn file_paths(fs: Seq<FileDiffV>) -> Seq<Seq<char>> {
    fs.map_values(|f: FileDiffV| f.0)
}

/// The marker appended to a diff cut for size when no file could be told
/// apart in it.
pub open spec fn size_marker() -> Seq<char> {
    "\n\n[diff truncated for size]"@
}

/// A diff as it is given: over the size limit, the files that fit in it
/// from the first on, one chunk each, followed by a notice when files were
/// left out (or, where no file can be told apart, the diff cut to the limit
/// and marked); within it, as `fitted_chunks`.
pub open spec fn borrowed_chunks<T: Tokenizer>(
    tok: T,
    d: Seq<char>,
    limit: nat,
    pats: Seq<Seq<char>>,
    lock: nat,
    max: nat,
) -> Seq<ChunkV> {
    if utf8_len(d) > max {
        let fs = files_of(tok, d);
        if fs.len() == 0 {
            let t = bytes_prefix(d, max);
            seq![chunk_of(tok, t + size_marker(), header_paths(lines(t)))]
        } else {
            let n = files_within(fs, max, 0, 0);
            let cs = file_chunks(tok, fs.take(n as int));
            if n < fs.len() {
                cs.push(chunk_of(tok, files_notice(n, fs.len()), file_paths(fs.take(n as int))))
            } else {
                cs
            }
        }
    } else {
        fitted_chunks(tok, d, limit, pats, lock)
    }
}

/// The number of deleted lines kept per hunk of a deletion-only diff: 100
/// for a diff of 500 KiB or more, else 50.
pub open spec fn deletion_line_limit(d: Seq<char>) -> nat {
    if utf8_len(d) >= 500 * 1024 {
        100
    } else {
        50
    }
}

/// The chunks `process` makes of a diff: none of an empty diff; a diff that
/// only deletes is shrunk (see `truncate_deletion_diff`) and then chunked as
/// `owned_chunks`; any other as `borrowed_chunks`.
pub open spec fn process_chunks<T: Tokenizer>(
    tok: T,
    d: Seq<char>,
    limit: nat,
    pats: Seq<Seq<char>>,
    lock: nat,
    max: nat,
) -> Seq<ChunkV> {
    if d.len() == 0 {
        Seq::empty()
    } else if all_file_deletions(d) || deletion_only(lines(d)) {
        owned_chunks(tok, truncated_deletion_diff(d, deletion_line_limit(d)), limit, pats, lock, max)
    } else {
        borrowed_chunks(tok, d, limit, pats, lock, max)
    }
}

/// The notice for a binary file.
pub open spec fn binary_notice(path: Seq<char>) -> Seq<char> {
    "[Binary file:] "@ + path
}

/// The chunks of the first `k` files in `process_safe`: a binary file is one
/// notice naming it, any other file is processed on its own.
pub open spec fn safe_file_chunks<T: Tokenizer>(
    tok: T,
    fs: Seq<FileDiffV>,
    limit: nat,
    pats: Seq<Seq<char>>,
    lock: nat,
    max: nat,
    exts: Seq<Seq<char>>,
    k: int,
) -> Seq<ChunkV>
    decreases k,
{
    if k <= 0 || k > fs.len() {
        Seq::empty()
    } else {
        let f = fs[k - 1];
        let prev = safe_file_chunks(tok, fs, limit, pats, lock, max, exts, k - 1);
        if binary_content(f.1, exts) {
            prev.push(chunk_of(tok, binary_notice(f.0), seq![f.0]))
        } else {
            prev + process_chunks(tok, f.1, limit, pats, lock, max)
        }
    }
}

/// The notice that heads the chunks of a diff cut to `max` bytes.
pub open spec fn size_notice(omitted: nat, kept: nat) -> Seq<char> {
    "[Diff truncated: "@ + decimal(omitted) + " bytes omitted; processed first "@ + decimal(kept)
        + " bytes]"@
}

/// The chunks `process_safe` makes of a diff: a diff over `max` bytes is cut
/// to its longest prefix within them and a notice saying how many bytes were
/// left out comes first; then each file of what is left, in order, as
/// `safe_file_chunks` says.
pub open spec fn safe_chunks<T: Tokenizer>(
    tok: T,
    d: Seq<char>,
    limit: nat,
    pats: Seq<Seq<char>>,
    lock: nat,
    max: nat,
    exts: Seq<Seq<char>>,
) -> Seq<ChunkV> {
    let over = utf8_len(d) > max;
    let t = if over {
        bytes_prefix(d, max)
    } else {
        d
    };
    let head = if over {
        let notice = size_notice((utf8_len(d) - utf8_len(t)) as nat, utf8_len(t));
        seq![chunk_of(tok, notice, Seq::empty())]
    } else {
        Seq::empty()
    };
    let fs = files_of(tok, t);
    head + safe_file_chunks(tok, fs, limit, pats, lock, max, exts, fs.len() as int)
}

proof fn lemma_bytes_prefix_fits(s: Seq<char>, max: nat, j: int)
    requires
        0 <= j <= s.len(),
        utf8_len(s.take(j)) <= max,
        forall|k: int| j < k <= s.len() ==> utf8_len(#[trigger] s.take(k)) > max,
    ensures
        bytes_prefix(s, max) == s.take(j),
    decreases s.len(),
{
    if j == s.len() {
        assert(s.take(j) =~= s);
    } else {
        assert(s.take(s.len() as int) =~= s);
        assert(utf8_len(s) > max);
        let s2 = s.drop_last();
        assert forall|k: int| j < k <= s2.len() implies utf8_len(#[trigger] s2.take(k)) > max by {
            assert(s2.take(k) =~= s.take(k));
        }
        assert(s2.take(j) =~= s.take(j));
        lemma_bytes_prefix_fits(s2, max, j);
    }
}

/// The longest prefix of `s` within `max` bytes, and the byte length of `s`.
fn prefix_within(s: &str, max: usize) -> (r: (String, usize, usize))
    ensures
        r.0@ == bytes_prefix(s@, max as nat),
        r.1 == utf8_len(r.0@),
        r.2 == utf8_len(s@),
{
    let (chars, offs) = byte_offsets(s);
    let n = chars.len();
    let mut j = n;
    assert(s@.take(n as int) =~= s@);
    while j > 0 && offs[j] > max
        invariant
            chars@ == s@,
            n == s@.len(),
            j <= n,
            offs@.len() == n + 1,
            forall|i: int| 0 <= i <= n ==> #[trigger] offs@[i] == utf8_len(s@.take(i)),
            forall|k: int| j < k <= n ==> utf8_len(#[trigger] s@.take(k)) > max,
        decreases j,
    {
        j = j - 1;
    }
    proof {
        if j == 0 {
            assert(s@.take(0) =~= Seq::<char>::empty());
            assert(utf8_len(s@.take(0)) == 0);
        }
        lemma_bytes_prefix_fits(s@, max as nat, j as int);
    }
    let p = slice_chars(&chars, 0, j);
    assert(p@ =~= s@.take(j as int));
    (string_from_chars(&p), offs[j], offs[n])
}

fn byte_len(s: &str) -> (n: usize)
    ensures
        n == utf8_len(s@),
{
    let (_chars, offs) = byte_offsets(s);
    assert(s@.take(s@.len() as int) =~= s@);
    offs[offs.len() - 1]
}

fn copy_string(s: &str) -> (r: String)
    ensures
        r@ == s@,
{
    string_from_chars(&str_chars(s))
}

fn push_chunk(out: &mut Vec<DiffChunk>, c: DiffChunk)
    ensures
        chunk_views(final(out)@) == chunk_views(old(out)@).push(c@),
{
    out.push(c);
    assert(chunk_views(out@) =~= chunk_views(old(out)@).push(c@));
}

fn append_chunks(out: &mut Vec<DiffChunk>, more: Vec<DiffChunk>)
    ensures
        chunk_views(final(out)@) == chunk_views(old(out)@) + chunk_views(more@),
{
    let ghost m = chunk_views(more@);
    let mut more = more;
    out.append(&mut more);
    assert(chunk_views(out@) =~= chunk_views(old(out)@) + m);
}

fn one_path(p: &str) -> (r: Vec<String>)
    ensures
        string_views(r@) == seq![p@],
{
    let mut v: Vec<String> = Vec::new();
    v.push(copy_string(p));
    assert(string_views(v@) =~= seq![p@]);
    v
}

impl<T: Tokenizer> DiffProcessor<T> {
    /// A processor with no files ignored and lockfiles allowed
    /// `LOCKFILE_TOKEN_LIMIT` tokens.
    pub fn new(
        tokenizer: T,
        token_limit: TokenCount,
        max_diff_size: usize,
        binary_extensions: Vec<String>,
    ) -> (p: Self)
        ensures
            p.token_limit == token_limit,
            p.ignore_files@.len() == 0,
            p.max_diff_size == max_diff_size,
            p.binary_extensions@ == binary_extensions@,
            p.tokenizer == tokenizer,
            p.lockfile_token_limit.count() == LOCKFILE_TOKEN_LIMIT,
    {
        DiffProcessor {
            tokenizer,
            token_limit,
            ignore_files: Vec::new(),
            max_diff_size,
            binary_extensions,
            lockfile_token_limit: TokenCount::new_saturating(LOCKFILE_TOKEN_LIMIT),
        }
    }

    /// The same processor with lockfiles allowed `limit` tokens.
    pub fn with_lockfile_token_limit(self, limit: TokenCount) -> (p: Self)
        ensures
            p.lockfile_token_limit == limit,
            p.ignore_files@ == self.ignore_files@,
            p.token_limit == self.token_limit,
            p.max_diff_size == self.max_diff_size,
            p.binary_extensions@ == self.binary_extensions@,
            p.tokenizer == self.tokenizer,
    {
        DiffProcessor { lockfile_token_limit: limit, ..self }
    }

    /// The same processor with `ignore_files` as the patterns of files
    /// whose share of a chunk is limited.
    pub fn with_ignore_files(self, ignore_files: Vec<String>) -> (p: Self)
        ensures
            p.ignore_files@ == ignore_files@,
            p.lockfile_token_limit == self.lockfile_token_limit,
            p.token_limit == self.token_limit,
            p.max_diff_size == self.max_diff_size,
            p.binary_extensions@ == self.binary_extensions@,
            p.tokenizer == self.tokenizer,
    {
        DiffProcessor { ignore_files, ..self }
    }

    fn chunk(&self, content: String, paths: Vec<String>) -> (c: DiffChunk)
        ensures
            c@ == chunk_of(self.tokenizer, content@, string_views(paths@)),
    {
        let tc = self.tokenizer.count_tokens(content.as_str());
        DiffChunk { content, file_paths: paths, token_count: tc }
    }

    fn each_file(&self, fs: Vec<FileDiff>) -> (r: Vec<DiffChunk>)
        ensures
            chunk_views(r@) == file_chunks(self.tokenizer, file_views(fs@)),
    {
        let ghost fv = file_views(fs@);
        let mut out: Vec<DiffChunk> = Vec::new();
        let mut i: usize = 0;
        assert(fv.take(0) =~= Seq::<FileDiffV>::empty());
        while i < fs.len()
            invariant
                i <= fs@.len(),
                fv == file_views(fs@),
                chunk_views(out@) == file_chunks(self.tokenizer, fv.take(i as int)),
            decreases fs.len() - i,
        {
            let f = &fs[i];
            assert(fv.take(i + 1).drop_last() =~= fv.take(i as int));
            assert(fv.take(i + 1).last() == f@);
            let c = self.chunk(copy_string(f.content.as_str()), one_path(f.path.as_str()));
            push_chunk(&mut out, c);
            i = i + 1;
        }
        assert(fv.take(fs.len() as int) =~= fv);
        out
    }

    fn fitted(&self, d: &str) -> (r: Vec<DiffChunk>)
        ensures
            chunk_views(r@) == fitted_chunks(
                self.tokenizer,
                d@,
                self.token_limit.count(),
                string_views(self.ignore_files@),
                self.lockfile_token_limit.count(),
            ),
    {
        let tc = self.tokenizer.count_tokens(d);
        if tc.get() <= self.token_limit.get() {
            let paths = extract_file_paths(d);
            assert(string_views(paths@) == header_paths(lines(d@)));
            let c = DiffChunk { content: copy_string(d), file_paths: paths, token_count: tc };
            let mut out: Vec<DiffChunk> = Vec::new();
            push_chunk(&mut out, c);
            assert(chunk_views(out@) =~= seq![chunk_of(self.tokenizer, d@, header_paths(lines(d@)))]);
            out
        } else {
            let fs = split_by_files(d, &self.tokenizer);
            split_recursive_with_lockfile_limit(
                &self.tokenizer,
                fs,
                self.token_limit,
                self.ignore_files.as_slice(),
                self.lockfile_token_limit,
            )
        }
    }

    /// Chunks a diff that was already shrunk (see `owned_chunks`).
    pub fn process_owned(&self, diff: String) -> (r: Vec<DiffChunk>)
        ensures
            chunk_views(r@) == owned_chunks(
                self.tokenizer,
                diff@,
                self.token_limit.count(),
                string_views(self.ignore_files@),
                self.lockfile_token_limit.count(),
                self.max_diff_size as nat,
            ),
    {
        if byte_len(diff.as_str()) > self.max_diff_size {
            let fs = split_by_files(diff.as_str(), &self.tokenizer);
            self.each_file(fs)
        } else {
            self.fitted(diff.as_str())
        }
    }

    /// Chunks a diff as it is given (see `borrowed_chunks`).
    pub fn process_borrowed(&self, diff: &str) -> (r: Vec<DiffChunk>)
        ensures
            chunk_views(r@) == borrowed_chunks(
                self.tokenizer,
                diff@,
                self.token_limit.count(),
                string_views(self.ignore_files@),
                self.lockfile_token_limit.count(),
                self.max_diff_size as nat,
            ),
    {
        let max = self.max_diff_size;
        if byte_len(diff) <= max {
            return self.fitted(diff);
        }
        let fs = split_by_files(diff, &self.tokenizer);
        let ghost fv = file_views(fs@);
        if fs.len() == 0 {
            let (t, _tl, _dl) = prefix_within(diff, max);
            let paths = extract_file_paths(t.as_str());
            assert(string_views(paths@) == header_paths(lines(t@)));
            let mut content = str_chars(t.as_str());
            let marker = lit("\n\n[diff truncated for size]");
            extend_chars(&mut content, &marker);
            let c = self.chunk(string_from_chars(&content), paths);
            let mut out: Vec<DiffChunk> = Vec::new();
            push_chunk(&mut out, c);
            assert(chunk_views(out@) =~= seq![
                chunk_of(self.tokenizer, t@ + size_marker(), header_paths(lines(t@))),
            ]);
            return out;
        }
        let total = fs.len();
        let mut acc: usize = 0;
        let mut n: usize = 0;
        let mut stop = false;
        while n < total && !stop
            invariant
                total == fs@.len(),
                fv == file_views(fs@),
                n <= total,
                acc <= max,
                files_within(fv, max as nat, 0, 0) == files_within(fv, max as nat, n as nat, acc as nat),
                stop ==> files_within(fv, max as nat, n as nat, acc as nat) == n,
            decreases total - n + if stop { 0int } else { 1int },
        {
            let size = byte_len(fs[n].content.as_str());
            assert(fv[n as int] == fs@[n as int]@);
            if size > max - acc {
                stop = true;
            } else {
                acc = acc + size;
                n = n + 1;
            }
        }
        assert(files_within(fv, max as nat, n as nat, acc as nat) == n);
        let mut kept: Vec<FileDiff> = Vec::new();
        let mut paths: Vec<String> = Vec::new();
        let mut i: usize = 0;
        while i < n
            invariant
                n <= fs@.len(),
                fv == file_views(fs@),
                i <= n,
                file_views(kept@) == fv.take(i as int),
                string_views(paths@) == file_paths(fv.take(i as int)),
            decreases n - i,
        {
            let f = &fs[i];
            let nf = FileDiff {
                path: copy_string(f.path.as_str()),
                content: copy_string(f.content.as_str()),
                token_count: f.token_count,
                truncated: f.truncated,
            };
            let ghost kb = kept@;
            let ghost pb = paths@;
            kept.push(nf);
            paths.push(copy_string(f.path.as_str()));
            assert(file_views(kept@) =~= file_views(kb).push(fv[i as int]));
            assert(fv.take(i + 1) =~= fv.take(i as int).push(fv[i as int]));
            assert(string_views(paths@) =~= string_views(pb).push(fv[i as int].0));
            assert(file_paths(fv.take(i + 1)) =~= file_paths(fv.take(i as int)).push(fv[i as int].0));
            i = i + 1;
        }
        let mut out = self.each_file(kept);
        if n < total {
            let mut notice = lit("\n[diff truncated: ");
            extend_chars(&mut notice, &decimal_chars(n));
            extend_chars(&mut notice, &lit(" of "));
            extend_chars(&mut notice, &decimal_chars(total));
            extend_chars(&mut notice, &lit(" files shown]"));
            assert(notice@ =~= files_notice(n as nat, total as nat));
            let c = self.chunk(string_from_chars(&notice), paths);
            push_chunk(&mut out, c);
        }
        out
    }

    /// Chunks a diff (see `process_chunks`): a diff that only deletes lines,
    /// or only deletes whole files, is first shrunk to 50 deleted lines per
    /// hunk, or 100 for a diff of 500 KiB or more.
    pub fn process(&self, diff: &str) -> (r: Vec<DiffChunk>)
        ensures
            chunk_views(r@) == process_chunks(
                self.tokenizer,
                diff@,
                self.token_limit.count(),
                string_views(self.ignore_files@),
                self.lockfile_token_limit.count(),
                self.max_diff_size as nat,
            ),
    {
        if str_chars(diff).len() == 0 {
            let out: Vec<DiffChunk> = Vec::new();
            assert(chunk_views(out@) =~= Seq::<ChunkV>::empty());
            return out;
        }
        if is_all_file_deletions(diff) || is_deletion_only(diff) {
            let limit: usize = if byte_len(diff) >= 500 * 1024 {
                100
            } else {
                50
            };
            return self.process_owned(truncate_deletion_diff(diff, limit));
        }
        self.process_borrowed(diff)
    }

    /// Chunks a diff for the model (see `safe_chunks`): a diff over the size
    /// limit is cut and announced first, a binary file is announced by a
    /// notice naming it, and every other file is processed on its own.
    pub fn process_safe(&self, diff: &str) -> (r: Vec<DiffChunk>)
        ensures
            chunk_views(r@) == safe_chunks(
                self.tokenizer,
                diff@,
                self.token_limit.count(),
                string_views(self.ignore_files@),
                self.lockfile_token_limit.count(),
                self.max_diff_size as nat,
                string_views(self.binary_extensions@),
            ),
    {
        let max = self.max_diff_size;
        let (t, tl, dl) = prefix_within(diff, max);
        let over = dl > max;
        let mut out: Vec<DiffChunk> = Vec::new();
        let body: String = if over {
            proof {
                lemma_bytes_prefix_within(diff@, max as nat);
            }
            let mut notice = lit("[Diff truncated: ");
            extend_chars(&mut notice, &decimal_chars(dl - tl));
            extend_chars(&mut notice, &lit(" bytes omitted; processed first "));
            extend_chars(&mut notice, &decimal_chars(tl));
            extend_chars(&mut notice, &lit(" bytes]"));
            assert(notice@ =~= size_notice((utf8_len(diff@) - utf8_len(t@)) as nat, utf8_len(t@)));
            let no_paths: Vec<String> = Vec::new();
            assert(string_views(no_paths@) =~= Seq::<Seq<char>>::empty());
            let c = self.chunk(string_from_chars(&notice), no_paths);
            push_chunk(&mut out, c);
            t
        } else {
            copy_string(diff)
        };
        let ghost head = chunk_views(out@);
        let fs = split_by_files(body.as_str(), &self.tokenizer);
        let ghost fv = file_views(fs@);
        let ghost pats = string_views(self.ignore_files@);
        let ghost exts = string_views(self.binary_extensions@);
        let ghost limit = self.token_limit.count();
        let ghost lock = self.lockfile_token_limit.count();
        let mut i: usize = 0;
        while i < fs.len()
            invariant
                i <= fs@.len(),
                fv == file_views(fs@),
                max == self.max_diff_size,
                limit == self.token_limit.count(),
                lock == self.lockfile_token_limit.count(),
                pats == string_views(self.ignore_files@),
                exts == string_views(self.binary_extensions@),
                chunk_views(out@) == head + safe_file_chunks(
                    self.tokenizer,
                    fv,
                    limit,
                    pats,
                    lock,
                    max as nat,
                    exts,
                    i as int,
                ),
            decreases fs.len() - i,
        {
            let f = &fs[i];
            assert(fv[i as int] == f@);
            let ghost prev = safe_file_chunks(self.tokenizer, fv, limit, pats, lock, max as nat, exts, i as int);
            let ghost next = safe_file_chunks(self.tokenizer, fv, limit, pats, lock, max as nat, exts, i + 1);
            if is_binary_content(f.content.as_str(), &self.binary_extensions) {
                let mut notice = lit("[Binary file:] ");
                extend_chars(&mut notice, &str_chars(f.path.as_str()));
                assert(notice@ =~= binary_notice(f.path@));
                let c = self.chunk(string_from_chars(&notice), one_path(f.path.as_str()));
                assert(next == prev.push(chunk_of(self.tokenizer, binary_notice(f.path@), seq![f.path@])));
                push_chunk(&mut out, c);
                assert(chunk_views(out@) =~= head + next);
            } else {
                let more = self.process(f.content.as_str());
                assert(next == prev + process_chunks(self.tokenizer, f.content@, limit, pats, lock, max as nat));
                append_chunks(&mut out, more);
                assert(chunk_views(out@) =~= head + next);
            }
            i = i + 1;
        }
        out
    }
}

proof fn lemma_bytes_prefix_within(s: Seq<char>, max: nat)
    ensures
        utf8_len(bytes_prefix(s, max)) <= utf8_len(s),
    decreases s.len(),
{
    if s.len() > 0 && utf8_len(s) > max {
        lemma_bytes_prefix_within(s.drop_last(), max);
    }
}

/// The part of a diff kept when it is cut for size fits within the limit.
pub proof fn lemma_bytes_prefix_fits_limit(s: Seq<char>, max: nat)
    ensures
        utf8_len(bytes_prefix(s, max)) <= max,
        bytes_prefix(s, max).len() <= s.len(),
        bytes_prefix(s, max) == s.take(bytes_prefix(s, max).len() as int),
    decreases s.len(),
{
    if s.len() > 0 && utf8_len(s) > max {
        lemma_bytes_prefix_fits_limit(s.drop_last(), max);
        let p = bytes_prefix(s.drop_last(), max);
        assert(s.drop_last().take(p.len() as int) =~= s.take(p.len() as int));
    } else if s.len() == 0 {
        assert(s.take(0) =~= s);
    } else {
        assert(s.take(s.len() as int) =~= s);
    }
}

/// `process_safe` makes no chunk of an empty diff.
pub proof fn law_process_safe_empty<T: Tokenizer>(
    tok: T,
    limit: nat,
    pats: Seq<Seq<char>>,
    lock: nat,
    max: nat,
    exts: Seq<Seq<char>>,
)
    ensures
        safe_chunks(tok, Seq::empty(), limit, pats, lock, max, exts) == Seq::<ChunkV>::empty(),
{
    let d = Seq::<char>::empty();
    assert(utf8_len(d) == 0);
    assert(file_starts(d, 0) =~= Seq::<int>::empty());
    assert(files_of(tok, d) =~= Seq::<FileDiffV>::empty());
    assert(Seq::<ChunkV>::empty() + Seq::<ChunkV>::empty() =~= Seq::<ChunkV>::empty());
}

/// A diff over the size limit gets, as its first chunk, the notice of how
/// many bytes were left out and how many were processed, naming no file;
/// the bytes processed are within the limit and are a prefix of the diff.
pub proof fn law_process_safe_size_notice<T: Tokenizer>(
    tok: T,
    d: Seq<char>,
    limit: nat,
    pats: Seq<Seq<char>>,
    lock: nat,
    max: nat,
    exts: Seq<Seq<char>>,
)
    requires
        utf8_len(d) > max,
    ensures
        ({
            let t = bytes_prefix(d, max);
            let r = safe_chunks(tok, d, limit, pats, lock, max, exts);
            &&& r.len() >= 1
            &&& r[0] == chunk_of(
                tok,
                size_notice((utf8_len(d) - utf8_len(t)) as nat, utf8_len(t)),
                Seq::empty(),
            )
            &&& utf8_len(t) <= max
            &&& t == d.take(t.len() as int)
        }),
{
    lemma_bytes_prefix_fits_limit(d, max);
}

/// Where every file of a diff within the size limit is binary, each file
/// gets exactly one chunk, in order: the notice naming it, for it alone.
pub proof fn law_process_safe_binary_files<T: Tokenizer>(
    tok: T,
    d: Seq<char>,
    limit: nat,
    pats: Seq<Seq<char>>,
    lock: nat,
    max: nat,
    exts: Seq<Seq<char>>,
)
    requires
        utf8_len(d) <= max,
        forall|i: int|
            0 <= i < files_of(tok, d).len() ==> binary_content(
                #[trigger] files_of(tok, d)[i].1,
                exts,
            ),
    ensures
        ({
            let fs = files_of(tok, d);
            let r = safe_chunks(tok, d, limit, pats, lock, max, exts);
            &&& r.len() == fs.len()
            &&& forall|i: int|
                0 <= i < fs.len() ==> #[trigger] r[i] == chunk_of(
                    tok,
                    binary_notice(fs[i].0),
                    seq![fs[i].0],
                )
        }),
{
    let fs = files_of(tok, d);
    lemma_binary_chunks(tok, fs, limit, pats, lock, max, exts, fs.len() as int);
    assert(Seq::<ChunkV>::empty() + safe_file_chunks(tok, fs, limit, pats, lock, max, exts, fs.len() as int)
        =~= safe_file_chunks(tok, fs, limit, pats, lock, max, exts, fs.len() as int));
}

proof fn lemma_binary_chunks<T: Tokenizer>(
    tok: T,
    fs: Seq<FileDiffV>,
    limit: nat,
    pats: Seq<Seq<char>>,
    lock: nat,
    max: nat,
    exts: Seq<Seq<char>>,
    k: int,
)
    requires
        0 <= k <= fs.len(),
        forall|i: int| 0 <= i < fs.len() ==> binary_content(#[trigger] fs[i].1, exts),
    ensures
        safe_file_chunks(tok, fs, limit, pats, lock, max, exts, k).len() == k,
        forall|i: int|
            0 <= i < k ==> #[trigger] safe_file_chunks(tok, fs, limit, pats, lock, max, exts, k)[i]
                == chunk_of(tok, binary_notice(fs[i].0), seq![fs[i].0]),
    decreases k,
{
    if k > 0 {
        lemma_binary_chunks(tok, fs, limit, pats, lock, max, exts, k - 1);
        assert(binary_content(fs[k - 1].1, exts));
    }
}

} // verus!
