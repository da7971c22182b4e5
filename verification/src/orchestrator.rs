//! Handling of model responses and chunk summaries in the map-reduce pipeline.
use vstd::prelude::*;
use crate::text::{byte_offsets, seq_starts_with, starts_with, utf8_len, string_views, lowercase_chars, lowercase_of, views, 
    concat, contains, decimal, decimal_chars, extend_chars, find_first, find_first_exec,
    find_last_char, lemma_find_first_found, lemma_find_last_char_found, lit, rfind_char,
    seq_contains, slice_chars, str_chars, string_from_chars, trim, trim_chars, trim_start,
    trim_start_chars,
};

verus! {

/// Whether `text` is a JSON document, as `serde_json` parses one.
pub uninterp spec fn json_parses(text: Seq<char>) -> bool;

/// `serde_json::from_str::<serde_json::Value>` succeeds on `text`.
#[verifier::external_body]
fn json_value_parses(text: &str) -> (b: bool)
    ensures
        b == json_parses(text@),
{
    serde_json::from_str::<serde_json::Value>(text).is_ok()
}

/// The text between the first fence and the next closing fence, trimmed:
/// a ```` ```json ```` fence first, otherwise a plain fence whose content
/// starts with `{`.
pub open spec fn markdown_json(r: Seq<char>) -> Option<Seq<char>> {
    let fenced_json = match find_first(r, "```json"@, 0) {
        Some(start) => {
            let after = r.subrange(start + 7, r.len() as int);
            match find_first(after, "```"@, 0) {
                Some(end) => Some(trim(after.subrange(0, end))),
                None => None,
            }
        },
        None => None,
    };
    match fenced_json {
        Some(c) => Some(c),
        None => match find_first(r, "```"@, 0) {
            Some(start) => {
                let after = r.subrange(start + 3, r.len() as int);
                match find_first(after, "```"@, 0) {
                    Some(end) => {
                        let content = trim(after.subrange(0, end));
                        if content.len() > 0 && content[0] == '{' {
                            Some(content)
                        } else {
                            None
                        }
                    },
                    None => None,
                }
            },
            None => None,
        },
    }
}

/// The fenced JSON of a markdown answer (see `markdown_json`).
pub fn extract_from_markdown(response: &str) -> (r: Option<String>)
    ensures
        match markdown_json(response@) {
            Some(c) => r matches Some(x) && x@ == c,
            None => r is None,
        },
{
    let s = str_chars(response);
    let fence = lit("```");
    proof {
        reveal_strlit("```");
        reveal_strlit("```json");
    }
    let json_fence = lit("```json");
    assert(json_fence@.len() == 7);
    assert(fence@.len() == 3);
    let found = find_first_exec(&s, &json_fence, 0);
    if let Some(start) = found {
        let n = s.len();
        let after = slice_chars(&s, start + 7, n);
        if let Some(end) = find_first_exec(&after, &fence, 0) {
            let inner = slice_chars(&after, 0, end);
            let t = trim_chars(&inner);
            return Some(string_from_chars(&t));
        }
    }
    let found2 = find_first_exec(&s, &fence, 0);
    if let Some(start) = found2 {
        let n = s.len();
        let after = slice_chars(&s, start + 3, n);
        if let Some(end) = find_first_exec(&after, &fence, 0) {
            let inner = slice_chars(&after, 0, end);
            let t = trim_chars(&inner);
            if t.len() > 0 && t[0] == '{' {
                return Some(string_from_chars(&t));
            }
        }
    }
    None
}

/// The span from the first `{` to the last `}`, when it is valid JSON.
pub open spec fn simplified_json(r: Seq<char>) -> Option<Seq<char>> {
    match (find_first(r, seq!['{'], 0), find_last_char(r, '}', r.len() as int)) {
        (Some(start), Some(end)) => if start >= end {
            None
        } else {
            let candidate = r.subrange(start, end + 1);
            if json_parses(candidate) {
                Some(candidate)
            } else {
                None
            }
        },
        _ => None,
    }
}

/// The outermost braces of the answer, when they enclose valid JSON.
pub fn extract_json_simplified(response: &str) -> (r: Option<String>)
    ensures
        match simplified_json(response@) {
            Some(c) => r matches Some(x) && x@ == c,
            None => r is None,
        },
{
    let s = str_chars(response);
    let open = vec!['{'];
    assert(open@ =~= seq!['{']);
    let start = match find_first_exec(&s, &open, 0) {
        Some(k) => k,
        None => return None,
    };
    let end = match rfind_char(&s, '}') {
        Some(k) => k,
        None => return None,
    };
    if start >= end {
        return None;
    }
    proof {
        lemma_find_last_char_found(s@, '}');
    }
    let candidate = slice_chars(&s, start, end + 1);
    let text = string_from_chars(&candidate);
    if !json_value_parses(text.as_str()) {
        return None;
    }
    Some(text)
}

/// Progress of the balanced-brace scan.
pub struct BraceScan {
    pub start: Option<int>,
    pub depth: int,
    pub in_string: bool,
    pub escape_next: bool,
    pub found: Option<(int, int)>,
}

/// Effect of the character at position `i` on the scan.
pub open spec fn brace_step(st: BraceScan, c: char, i: int) -> BraceScan {
    if st.found is Some {
        st
    } else if st.escape_next {
        BraceScan { escape_next: false, ..st }
    } else if c == '\\' && st.in_string {
        BraceScan { escape_next: true, ..st }
    } else if c == '"' {
        BraceScan { in_string: !st.in_string, ..st }
    } else if st.in_string {
        st
    } else if c == '{' {
        BraceScan {
            start: if st.depth == 0 {
                Some(i)
            } else {
                st.start
            },
            depth: st.depth + 1,
            ..st
        }
    } else if c == '}' {
        let d = st.depth - 1;
        if d == 0 && st.start is Some {
            BraceScan { depth: d, found: Some((st.start.unwrap(), i)), ..st }
        } else {
            BraceScan { depth: d, ..st }
        }
    } else {
        st
    }
}

/// The scan after the first `n` characters of `r`.
pub open spec fn brace_scan(r: Seq<char>, n: nat) -> BraceScan
    decreases n,
{
    if n == 0 || n > r.len() {
        BraceScan { start: None, depth: 0, in_string: false, escape_next: false, found: None }
    } else {
        brace_step(brace_scan(r, (n - 1) as nat), r[n - 1], n - 1)
    }
}

/// The first complete top-level `{...}` of the answer, skipping braces
/// inside JSON strings.
pub open spec fn balanced_json(r: Seq<char>) -> Option<Seq<char>> {
    match brace_scan(r, r.len()).found {
        Some((s, e)) => Some(r.subrange(s, e + 1)),
        None => None,
    }
}

proof fn lemma_brace_scan_frozen(r: Seq<char>, m: nat, n: nat)
    requires
        m <= n <= r.len(),
        brace_scan(r, m).found is Some,
    ensures
        brace_scan(r, n).found == brace_scan(r, m).found,
    decreases n - m,
{
    if n > m {
        lemma_brace_scan_frozen(r, m, (n - 1) as nat);
    }
}

proof fn lemma_brace_scan_bounds(r: Seq<char>, n: nat)
    requires
        n <= r.len(),
    ensures
        -(n as int) <= brace_scan(r, n).depth <= n,
        brace_scan(r, n).start matches Some(s) ==> 0 <= s < n,
        brace_scan(r, n).found matches Some((s, e)) ==> 0 <= s <= e < n,
    decreases n,
{
    if n > 0 {
        lemma_brace_scan_bounds(r, (n - 1) as nat);
    }
}

/// A character that stands for itself between the strings of a JSON
/// object: not a brace, a quote or a backslash.
pub open spec fn plain_json_char(c: char) -> bool {
    c != '{' && c != '}' && c != '"' && c != '\\'
}

/// The inside of a JSON string: no bare quote, and every backslash escapes
/// the character after it, whatever it is.
pub open spec fn escaped_text(b: Seq<char>) -> bool
    decreases b.len(),
{
    if b.len() == 0 {
        true
    } else if b[0] == '\\' {
        b.len() >= 2 && escaped_text(b.subrange(2, b.len() as int))
    } else {
        b[0] != '"' && escaped_text(b.subrange(1, b.len() as int))
    }
}

/// A JSON string literal: quotes around escaped text.
pub open spec fn json_string_text(s: Seq<char>) -> bool {
    &&& s.len() >= 2
    &&& s[0] == '"'
    &&& s[s.len() - 1] == '"'
    &&& escaped_text(s.subrange(1, s.len() - 1))
}

/// A piece of JSON text, as far as the brace scan needs it: a run of plain
/// characters, a string literal, or an object made of pieces.
pub enum JsonPiece {
    Plain(Seq<char>),
    Str(Seq<char>),
    Obj(Seq<JsonPiece>),
}

/// The text of a piece.
pub open spec fn piece_text(p: JsonPiece) -> Seq<char>
    decreases p,
{
    match p {
        JsonPiece::Plain(s) => s,
        JsonPiece::Str(s) => s,
        JsonPiece::Obj(ps) => seq!['{'] + pieces_text(ps) + seq!['}'],
    }
}

/// The texts of pieces, one after another.
pub open spec fn pieces_text(ps: Seq<JsonPiece>) -> Seq<char>
    decreases ps,
{
    if ps.len() == 0 {
        Seq::empty()
    } else {
        pieces_text(ps.subrange(0, ps.len() - 1)) + piece_text(ps[ps.len() - 1])
    }
}

/// Whether a piece is well formed: plain runs hold only plain characters,
/// strings are string literals, and objects are made of well-formed pieces.
pub open spec fn piece_ok(p: JsonPiece) -> bool
    decreases p,
{
    match p {
        JsonPiece::Plain(s) => forall|i: int| 0 <= i < s.len() ==> plain_json_char(#[trigger] s[i]),
        JsonPiece::Str(s) => json_string_text(s),
        JsonPiece::Obj(ps) => pieces_ok(ps),
    }
}

/// Whether every piece is well formed.
pub open spec fn pieces_ok(ps: Seq<JsonPiece>) -> bool
    decreases ps,
{
    if ps.len() == 0 {
        true
    } else {
        pieces_ok(ps.subrange(0, ps.len() - 1)) && piece_ok(ps[ps.len() - 1])
    }
}

/// The scan does not move over `r[a..b]` when it is outside a string and
/// no character there is a brace or a quote.
proof fn lemma_scan_quiet(r: Seq<char>, a: nat, b: nat)
    requires
        a <= b <= r.len(),
        !brace_scan(r, a).in_string,
        !brace_scan(r, a).escape_next,
        brace_scan(r, a).found is None,
        forall|i: int| a <= i < b ==> r[i] != '{' && r[i] != '}' && r[i] != '"',
    ensures
        brace_scan(r, b) == brace_scan(r, a),
    decreases b - a,
{
    if b > a {
        lemma_scan_quiet(r, a, (b - 1) as nat);
    }
}

/// Inside a string, the scan passes over escaped text unchanged.
proof fn lemma_scan_escaped(r: Seq<char>, a: nat, b: nat)
    requires
        a <= b <= r.len(),
        brace_scan(r, a).in_string,
        !brace_scan(r, a).escape_next,
        brace_scan(r, a).found is None,
        escaped_text(r.subrange(a as int, b as int)),
    ensures
        brace_scan(r, b) == brace_scan(r, a),
    decreases b - a,
{
    if b > a {
        let t = r.subrange(a as int, b as int);
        assert(t[0] == r[a as int]);
        if r[a as int] == '\\' {
            assert(t.subrange(2, t.len() as int) =~= r.subrange(a + 2int, b as int));
            assert(brace_scan(r, a + 1) == BraceScan { escape_next: true, ..brace_scan(r, a) });
            assert(brace_scan(r, a + 2) == brace_scan(r, a));
            lemma_scan_escaped(r, a + 2, b);
        } else {
            assert(t.subrange(1, t.len() as int) =~= r.subrange(a + 1int, b as int));
            assert(brace_scan(r, a + 1) == brace_scan(r, a));
            lemma_scan_escaped(r, a + 1, b);
        }
    }
}

/// Outside a string, the scan passes over a string literal unchanged.
proof fn lemma_scan_string(r: Seq<char>, a: nat, b: nat)
    requires
        a <= b <= r.len(),
        !brace_scan(r, a).in_string,
        !brace_scan(r, a).escape_next,
        brace_scan(r, a).found is None,
        json_string_text(r.subrange(a as int, b as int)),
    ensures
        brace_scan(r, b) == brace_scan(r, a),
{
    let t = r.subrange(a as int, b as int);
    assert(t[0] == r[a as int]);
    assert(t[t.len() - 1] == r[b - 1]);
    assert(t.subrange(1, t.len() - 1) =~= r.subrange(a + 1int, b - 1int));
    assert(brace_scan(r, a + 1) == BraceScan { in_string: true, ..brace_scan(r, a) });
    lemma_scan_escaped(r, a + 1, (b - 1) as nat);
}

/// Outside a string and inside an object, the scan passes over a
/// well-formed piece unchanged.
proof fn lemma_scan_piece(r: Seq<char>, a: nat, p: JsonPiece)
    requires
        a + piece_text(p).len() <= r.len(),
        r.subrange(a as int, (a + piece_text(p).len()) as int) == piece_text(p),
        !brace_scan(r, a).in_string,
        !brace_scan(r, a).escape_next,
        brace_scan(r, a).found is None,
        brace_scan(r, a).depth >= 1,
        piece_ok(p),
    ensures
        brace_scan(r, a + piece_text(p).len()) == brace_scan(r, a),
    decreases p,
{
    let t = piece_text(p);
    let e = a + t.len();
    match p {
        JsonPiece::Plain(s) => {
            assert forall|i: int| a <= i < e implies r[i] != '{' && r[i] != '}' && r[i] != '"' by {
                assert(r[i] == r.subrange(a as int, e as int)[i - a]);
                assert(plain_json_char(s[i - a]));
            }
            lemma_scan_quiet(r, a, e);
        },
        JsonPiece::Str(s) => {
            lemma_scan_string(r, a, e);
        },
        JsonPiece::Obj(ps) => {
            let inner = pieces_text(ps);
            let m = a + 1 + inner.len();
            assert(r[a as int] == r.subrange(a as int, e as int)[0]);
            assert(r[a as int] == '{');
            let st1 = brace_scan(r, a + 1);
            assert(st1 == BraceScan { depth: brace_scan(r, a).depth + 1, ..brace_scan(r, a) });
            assert(r.subrange(a + 1int, m as int) =~= inner) by {
                assert(r.subrange(a + 1int, m as int) =~= r.subrange(a as int, e as int).subrange(
                    1,
                    1 + inner.len() as int,
                ));
            }
            lemma_scan_pieces(r, a + 1, ps);
            assert(r[m as int] == r.subrange(a as int, e as int)[1 + inner.len() as int]);
            assert(r[m as int] == '}');
        },
    }
}

/// Outside a string and inside an object, the scan passes over well-formed
/// pieces unchanged.
proof fn lemma_scan_pieces(r: Seq<char>, a: nat, ps: Seq<JsonPiece>)
    requires
        a + pieces_text(ps).len() <= r.len(),
        r.subrange(a as int, (a + pieces_text(ps).len()) as int) == pieces_text(ps),
        !brace_scan(r, a).in_string,
        !brace_scan(r, a).escape_next,
        brace_scan(r, a).found is None,
        brace_scan(r, a).depth >= 1,
        pieces_ok(ps),
    ensures
        brace_scan(r, a + pieces_text(ps).len()) == brace_scan(r, a),
    decreases ps,
{
    if ps.len() > 0 {
        let init = ps.subrange(0, ps.len() - 1);
        let last = ps[ps.len() - 1];
        let all = pieces_text(ps);
        let m = a + pieces_text(init).len();
        let e = m + piece_text(last).len();
        assert(all == pieces_text(init) + piece_text(last));
        assert(r.subrange(a as int, m as int) =~= pieces_text(init)) by {
            assert(r.subrange(a as int, m as int) =~= all.subrange(0, pieces_text(init).len() as int));
        }
        assert(r.subrange(m as int, e as int) =~= piece_text(last)) by {
            assert(r.subrange(m as int, e as int) =~= all.subrange(
                pieces_text(init).len() as int,
                all.len() as int,
            ));
        }
        lemma_scan_pieces(r, a, init);
        lemma_scan_piece(r, m, last);
    }
}

/// For an answer that opens with text holding no brace or quote and then
/// holds a well-formed JSON object (nested objects allowed; in strings a
/// backslash escapes the next character, so an escaped quote does not end
/// the string, and braces in strings do not count), the first balanced
/// object is exactly that object, whatever follows it.
pub proof fn law_balanced_finds_first_object(p: Seq<char>, parts: Seq<JsonPiece>, s: Seq<char>)
    requires
        forall|i: int| 0 <= i < p.len() ==> #[trigger] p[i] != '{' && p[i] != '}' && p[i] != '"',
        pieces_ok(parts),
    ensures
        balanced_json(p + piece_text(JsonPiece::Obj(parts)) + s) == Some(
            piece_text(JsonPiece::Obj(parts)),
        ),
{
    let o = piece_text(JsonPiece::Obj(parts));
    let r = p + o + s;
    let n0 = p.len();
    let j = pieces_text(parts).len();
    assert(o == seq!['{'] + pieces_text(parts) + seq!['}']);
    assert forall|i: int| 0 <= i < n0 implies r[i] != '{' && r[i] != '}' && r[i] != '"' by {
        assert(r[i] == p[i]);
    }
    lemma_scan_quiet(r, 0, n0);
    assert(r[n0 as int] == '{');
    let st1 = brace_scan(r, n0 + 1);
    assert(st1.start == Some(n0 as int) && st1.depth == 1 && !st1.in_string && !st1.escape_next
        && st1.found is None);
    assert(r.subrange(n0 + 1int, n0 + 1int + j) =~= pieces_text(parts));
    lemma_scan_pieces(r, n0 + 1, parts);
    assert(r[n0 + 1int + j] == '}');
    assert(brace_scan(r, n0 + 2 + j).found == Some((n0 as int, (n0 + 1 + j) as int)));
    lemma_brace_scan_frozen(r, n0 + 2 + j, r.len());
    assert(r.subrange(n0 as int, n0 + 2int + j) =~= o);
}

proof fn lemma_brace_scan_marks(r: Seq<char>, n: nat)
    requires
        n <= r.len(),
    ensures
        brace_scan(r, n).start matches Some(s) ==> 0 <= s < n && r[s] == '{',
        brace_scan(r, n).found matches Some((s, e)) ==> 0 <= s < e < n && r[s] == '{' && r[e]
            == '}',
    decreases n,
{
    if n > 0 {
        lemma_brace_scan_marks(r, (n - 1) as nat);
    }
}

/// What the balanced scan finds is a piece of the answer that opens with
/// `{` and closes with `}`.
pub proof fn law_balanced_is_braced_span(r: Seq<char>)
    ensures
        balanced_json(r) matches Some(c) ==> c.len() >= 2 && c[0] == '{' && c[c.len() - 1] == '}'
            && exists|s: int| 0 <= s && s + c.len() <= r.len() && #[trigger] r.subrange(s, s + c.len()) == c,
{
    lemma_brace_scan_marks(r, r.len());
    if let Some((s, e)) = brace_scan(r, r.len()).found {
        let c = r.subrange(s, e + 1);
        assert(c[0] == r[s]);
        assert(c[c.len() - 1] == r[e]);
        assert(r.subrange(s, s + c.len()) == c);
    }
}

/// The first balanced top-level object (see `balanced_json`).
pub fn extract_balanced_json(response: &str) -> (r: Option<String>)
    ensures
        match balanced_json(response@) {
            Some(c) => r matches Some(x) && x@ == c,
            None => r is None,
        },
{
    let s = str_chars(response);
    let mut start: Option<usize> = None;
    let mut depth: i128 = 0;
    let mut in_string = false;
    let mut escape_next = false;
    let mut i: usize = 0;
    while i < s.len()
        invariant
            i <= s@.len(),
            s@ == response@,
            ({
                let st = brace_scan(s@, i as nat);
                &&& st.found is None
                &&& st.depth == depth as int
                &&& st.in_string == in_string
                &&& st.escape_next == escape_next
                &&& match start {
                    Some(k) => st.start == Some(k as int),
                    None => st.start is None,
                }
            }),
        decreases s@.len() - i,
    {
        proof {
            lemma_brace_scan_bounds(s@, i as nat);
        }
        let c = s[i];
        if escape_next {
            escape_next = false;
        } else if c == '\\' && in_string {
            escape_next = true;
        } else if c == '"' {
            in_string = !in_string;
        } else if in_string {
        } else if c == '{' {
            if depth == 0 {
                start = Some(i);
            }
            depth = depth + 1;
        } else if c == '}' {
            depth = depth - 1;
            if depth == 0 {
                if let Some(st) = start {
                    proof {
                        lemma_brace_scan_bounds(s@, (i + 1) as nat);
                        lemma_brace_scan_frozen(s@, (i + 1) as nat, s@.len());
                    }
                    let out = slice_chars(&s, st, i + 1);
                    return Some(string_from_chars(&out));
                }
            }
        }
        i = i + 1;
    }
    None
}

/// The JSON part of a model answer: fenced JSON, else the outermost braces
/// when they are valid JSON, else the first balanced object, else the whole
/// answer.
pub open spec fn json_part(r: Seq<char>) -> Seq<char> {
    match markdown_json(r) {
        Some(c) => c,
        None => match simplified_json(r) {
            Some(c) => c,
            None => match balanced_json(r) {
                Some(c) => c,
                None => r,
            },
        },
    }
}

/// Extracts the JSON part of a model answer (see `json_part`).
pub fn extract_json(response: &str) -> (r: String)
    ensures
        r@ == json_part(response@),
{
    if let Some(content) = extract_from_markdown(response) {
        return content;
    }
    if let Some(json) = extract_json_simplified(response) {
        return json;
    }
    if let Some(json) = extract_balanced_json(response) {
        return json;
    }
    response.to_owned()
}

/// The summary of one diff chunk and the files it covers.
#[derive(Debug)]
pub struct ChunkSummary {
    pub summary: String,
    pub files: Vec<String>,
}

/// Strings joined with a separator.
pub open spec fn join(parts: Seq<Seq<char>>, sep: Seq<char>) -> Seq<char>
    decreases parts.len(),
{
    if parts.len() == 0 {
        Seq::empty()
    } else if parts.len() == 1 {
        parts[0]
    } else {
        join(parts.drop_last(), sep) + sep + parts.last()
    }
}

/// Joins strings with a separator.
pub fn join_strings(parts: &Vec<String>, sep: &str) -> (r: Vec<char>)
    ensures
        r@ == join(string_views(parts@), sep@),
{
    let mut out: Vec<char> = Vec::new();
    let mut i: usize = 0;
    while i < parts.len()
        invariant
            i <= parts@.len(),
            out@ == join(string_views(parts@).take(i as int), sep@),
        decreases parts@.len() - i,
    {
        let ghost pre = string_views(parts@).take(i as int);
        assert(string_views(parts@).take(i + 1).drop_last() =~= pre);
        assert(string_views(parts@).take(i + 1).last() == parts@[i as int]@);
        if i > 0 {
            extend_chars(&mut out, &str_chars(sep));
        } else {
            assert(string_views(parts@).take(1) =~= seq![parts@[0]@]);
        }
        extend_chars(&mut out, &str_chars(parts[i].as_str()));
        i = i + 1;
    }
    assert(string_views(parts@).take(parts@.len() as int) =~= string_views(parts@));
    out
}

/// The prompt line of one summary: `[<n> files: <paths>] <summary>`.
pub open spec fn summary_line(s: ChunkSummary) -> Seq<char> {
    "["@ + decimal(s.files@.len()) + " files: "@ + join(string_views(s.files@), ", "@) + "] "@
        + s.summary@
}

/// The prompt lines of the summaries, in order.
pub fn format_summaries_for_prompt(summaries: &Vec<ChunkSummary>) -> (r: Vec<String>)
    ensures
        r@.len() == summaries@.len(),
        forall|i: int| 0 <= i < r@.len() ==> #[trigger] r@[i]@ == summary_line(summaries@[i]),
{
    let mut out: Vec<String> = Vec::new();
    let mut i: usize = 0;
    while i < summaries.len()
        invariant
            i <= summaries@.len(),
            out@.len() == i,
            forall|k: int| 0 <= k < i ==> #[trigger] out@[k]@ == summary_line(summaries@[k]),
        decreases summaries@.len() - i,
    {
        let s = &summaries[i];
        let mut line = lit("[");
        extend_chars(&mut line, &decimal_chars(s.files.len()));
        extend_chars(&mut line, &lit(" files: "));
        extend_chars(&mut line, &join_strings(&s.files, ", "));
        extend_chars(&mut line, &lit("] "));
        extend_chars(&mut line, &str_chars(s.summary.as_str()));
        out.push(string_from_chars(&line));
        i = i + 1;
    }
    out
}

/// A theme found in (or made up from) the chunk summaries.
pub struct SubTheme {
    pub title: String,
    pub description: String,
    pub file_count: usize,
    pub scope: String,
}

/// Total number of files over the summaries.
pub open spec fn total_files(s: Seq<ChunkSummary>) -> int
    decreases s.len(),
{
    if s.len() == 0 {
        0
    } else {
        total_files(s.drop_last()) + s.last().files@.len()
    }
}

/// The summaries' texts.
pub open spec fn summary_texts(s: Seq<ChunkSummary>) -> Seq<Seq<char>> {
    s.map_values(|c: ChunkSummary| c.summary@)
}

proof fn lemma_total_files_monotone(s: Seq<ChunkSummary>, i: int)
    requires
        0 <= i <= s.len(),
    ensures
        total_files(s.take(i)) <= total_files(s),
        total_files(s.take(i)) >= 0,
    decreases s.len() - i,
{
    lemma_total_files_nonneg(s.take(i));
    if i < s.len() {
        lemma_total_files_monotone(s, i + 1);
        assert(s.take(i + 1).drop_last() =~= s.take(i));
    } else {
        assert(s.take(i) =~= s);
        lemma_total_files_nonneg(s);
    }
}

proof fn lemma_total_files_nonneg(s: Seq<ChunkSummary>)
    ensures
        total_files(s) >= 0,
    decreases s.len(),
{
    if s.len() > 0 {
        lemma_total_files_nonneg(s.drop_last());
    }
}

/// The single catch-all theme used when theme extraction fails: all
/// summaries joined by `; `, counting every file, scoped `chore`.
pub fn fallback_sub_themes_from_summaries(batch: &Vec<ChunkSummary>) -> (r: Vec<SubTheme>)
    requires
        total_files(batch@) <= usize::MAX,
    ensures
        r@.len() == 1,
        r@[0].title@ == "Code changes"@,
        r@[0].description@ == join(summary_texts(batch@), "; "@),
        r@[0].file_count == total_files(batch@),
        r@[0].scope@ == "chore"@,
{
    let mut total: usize = 0;
    let mut desc: Vec<char> = Vec::new();
    let mut i: usize = 0;
    while i < batch.len()
        invariant
            i <= batch@.len(),
            total_files(batch@) <= usize::MAX,
            total == total_files(batch@.take(i as int)),
            desc@ == join(summary_texts(batch@).take(i as int), "; "@),
        decreases batch@.len() - i,
    {
        let ghost pre = batch@.take(i as int);
        assert(batch@.take(i + 1).drop_last() =~= pre);
        assert(summary_texts(batch@).take(i + 1).drop_last() =~= summary_texts(batch@).take(
            i as int,
        ));
        proof {
            lemma_total_files_monotone(batch@, i + 1);
        }
        total = total + batch[i].files.len();
        if i > 0 {
            extend_chars(&mut desc, &lit("; "));
        } else {
            assert(summary_texts(batch@).take(1) =~= seq![batch@[0].summary@]);
        }
        extend_chars(&mut desc, &str_chars(batch[i].summary.as_str()));
        i = i + 1;
    }
    assert(batch@.take(batch@.len() as int) =~= batch@);
    assert(summary_texts(batch@).take(batch@.len() as int) =~= summary_texts(batch@));
    let theme = SubTheme {
        title: "Code changes".to_owned(),
        description: string_from_chars(&desc),
        file_count: total,
        scope: "chore".to_owned(),
    };
    vec![theme]
}

/// A theme of the final commit message.
#[derive(Debug, Clone, PartialEq, Eq)]
pub struct Theme {
    pub title: String,
    pub description: String,
    pub file_count: usize,
    pub scope: String,
}

/// The single catch-all theme used when intent extraction fails: the same
/// title, description, file count and scope as the fallback sub-theme.
pub fn fallback_themes_from_summaries(summaries: &Vec<ChunkSummary>) -> (r: Vec<Theme>)
    requires
        total_files(summaries@) <= usize::MAX,
    ensures
        r@.len() == 1,
        r@[0].title@ == "Code changes"@,
        r@[0].description@ == join(summary_texts(summaries@), "; "@),
        r@[0].file_count == total_files(summaries@),
        r@[0].scope@ == "chore"@,
{
    let mut sub = fallback_sub_themes_from_summaries(summaries);
    let st = sub.pop().unwrap();
    vec![Theme { title: st.title, description: st.description, file_count: st.file_count, scope: st.scope }]
}

/// The byte at which the window looked at before a colon at byte `b`
/// starts: 50 bytes earlier, or the start of the text.
pub open spec fn window_start(b: int) -> int {
    if b >= 50 {
        b - 50
    } else {
        0
    }
}

/// The first line of `s`, trimmed.
pub open spec fn first_line_trimmed(s: Seq<char>) -> Seq<char> {
    match find_first(s, seq!['\n'], 0) {
        Some(e) => trim(s.take(e)),
        None => trim(s),
    }
}

/// The commit line that the colon at character `p` of `m` may end the type
/// of: the text from the window's start, without leading whitespace, cut to
/// its first line and trimmed. `None` where the window would start inside a
/// character.
pub open spec fn colon_candidate(m: Seq<char>, p: int) -> Option<Seq<char>> {
    match char_at_byte(m, window_start(utf8_len(m.take(p)) as int), 0) {
        Some(j) => Some(first_line_trimmed(trim_start(m.skip(j)))),
        None => None,
    }
}

/// Every colon's window starts on a character boundary.
pub open spec fn windows_on_boundaries(m: Seq<char>) -> bool {
    forall|p: int| 0 <= p < m.len() && m[p] == ':' ==> #[trigger] colon_candidate(m, p) is Some
}

/// The candidates of the colons among the first `n` characters, in order.
pub open spec fn colon_candidates(m: Seq<char>, n: int) -> Seq<Seq<char>>
    decreases n,
{
    if n <= 0 {
        Seq::empty()
    } else {
        let init = colon_candidates(m, n - 1);
        if m[n - 1] == ':' {
            match colon_candidate(m, n - 1) {
                Some(c) => init.push(c),
                None => init,
            }
        } else {
            init
        }
    }
}

/// The lines in which a commit message may hide in a model's answer, one
/// for each colon in order: the validator of commit messages takes the first
/// it accepts. A colon's window must not start inside a character.
pub fn commit_candidates(message: &str) -> (r: Vec<String>)
    requires
        windows_on_boundaries(message@),
    ensures
        string_views(r@) == colon_candidates(message@, message@.len() as int),
{
    let (m, offs) = byte_offsets(message);
    let mut newline: Vec<char> = Vec::new();
    newline.push('\n');
    let mut out: Vec<String> = Vec::new();
    let mut p: usize = 0;
    while p < m.len()
        invariant
            m@ == message@,
            offs@.len() == m@.len() + 1,
            forall|j: int| 0 <= j <= m@.len() ==> #[trigger] offs@[j] == utf8_len(m@.take(j)),
            windows_on_boundaries(m@),
            newline@ == seq!['\n'],
            p <= m@.len(),
            string_views(out@) == colon_candidates(m@, p as int),
        decreases m@.len() - p,
    {
        if m[p] == ':' {
            let b = offs[p];
            let start = if b >= 50 {
                b - 50
            } else {
                0
            };
            assert(colon_candidate(m@, p as int) is Some);
            match char_at_byte_exec(&offs, &m, start) {
                Some(j) => {
                    let tail = slice_chars(&m, j, m.len());
                    assert(tail@ =~= m@.skip(j as int));
                    let rest = trim_start_chars(&tail);
                    let line = match find_first_exec(&rest, &newline, 0) {
                        Some(e) => slice_chars(&rest, 0, e),
                        None => slice_chars(&rest, 0, rest.len()),
                    };
                    assert(rest@.subrange(0, rest@.len() as int) =~= rest@);
                    let c = string_from_chars(&trim_chars(&line));
                    let ghost before = out@;
                    out.push(c);
                    assert(string_views(out@) =~= string_views(before).push(c@));
                },
                None => {},
            }
        }
        p = p + 1;
    }
    out
}

/// Pairs of operations whose joint presence in the summaries suggests that
/// they contradict each other.
pub open spec fn contradictory_pairs() -> Seq<(Seq<char>, Seq<char>)> {
    seq![
        ("add"@, "remove"@),
        ("create"@, "delete"@),
        ("implement"@, "remove"@),
        ("introduce"@, "delete"@),
        ("new"@, "delete"@),
    ]
}

/// Some lower-cased summary contains `w`.
pub open spec fn any_contains(texts: Seq<Seq<char>>, w: Seq<char>) -> bool {
    exists|i: int| 0 <= i < texts.len() && contains(#[trigger] texts[i], w)
}

/// The first pair, in the order of `contradictory_pairs`, whose operation and
/// counter-operation both occur in some lower-cased summary.
pub open spec fn first_contradiction(texts: Seq<Seq<char>>, k: int) -> Option<(Seq<char>, Seq<char>)>
    decreases 5 - k,
{
    if k < 0 || k >= 5 {
        None
    } else {
        let p = contradictory_pairs()[k];
        if any_contains(texts, p.0) && any_contains(texts, p.1) {
            Some(p)
        } else {
            first_contradiction(texts, k + 1)
        }
    }
}

/// The summaries, lower-cased.
pub open spec fn lowered_summaries(s: Seq<ChunkSummary>) -> Seq<Seq<char>> {
    s.map_values(|c: ChunkSummary| lowercase_of(c.summary@))
}

fn any_contains_exec(texts: &Vec<Vec<char>>, w: &Vec<char>) -> (b: bool)
    ensures
        b == any_contains(views(texts@), w@),
{
    let ghost tv = views(texts@);
    let mut i: usize = 0;
    while i < texts.len()
        invariant
            tv == views(texts@),
            i <= texts@.len(),
            forall|j: int| 0 <= j < i ==> !contains(#[trigger] tv[j], w@),
        decreases texts.len() - i,
    {
        assert(tv[i as int] == texts@[i as int]@);
        if seq_contains(&texts[i], w) {
            return true;
        }
        i = i + 1;
    }
    false
}

/// The contradiction the summaries suggest, if any (see
/// `first_contradiction`), as the pair of operations to warn about.
pub fn detect_contradictions(summaries: &Vec<ChunkSummary>) -> (r: Option<(String, String)>)
    ensures
        match first_contradiction(lowered_summaries(summaries@), 0) {
            Some((a, c)) => r matches Some((x, y)) && x@ == a && y@ == c,
            None => r is None,
        },
{
    let mut texts: Vec<Vec<char>> = Vec::new();
    let mut i: usize = 0;
    while i < summaries.len()
        invariant
            i <= summaries@.len(),
            views(texts@) == lowered_summaries(summaries@).take(i as int),
        decreases summaries.len() - i,
    {
        let ghost before = texts@;
        texts.push(lowercase_chars(summaries[i].summary.as_str()));
        assert(views(texts@) =~= views(before).push(lowercase_of(summaries@[i as int].summary@)));
        assert(lowered_summaries(summaries@).take(i + 1) =~= lowered_summaries(summaries@).take(
            i as int,
        ).push(lowercase_of(summaries@[i as int].summary@)));
        i = i + 1;
    }
    assert(lowered_summaries(summaries@).take(i as int) =~= lowered_summaries(summaries@));
    let ghost tv = views(texts@);
    let pairs = vec![
        (lit("add"), lit("remove")),
        (lit("create"), lit("delete")),
        (lit("implement"), lit("remove")),
        (lit("introduce"), lit("delete")),
        (lit("new"), lit("delete")),
    ];
    let ghost ps = contradictory_pairs();
    assert forall|k: int| 0 <= k < 5 implies (#[trigger] pairs@[k]).0@ == ps[k].0 && pairs@[k].1@
        == ps[k].1 by {
        if k == 0 {} else if k == 1 {} else if k == 2 {} else if k == 3 {} else {}
    }
    let mut k: usize = 0;
    while k < 5
        invariant
            pairs@.len() == 5,
            ps == contradictory_pairs(),
            forall|j: int| 0 <= j < 5 ==> (#[trigger] pairs@[j]).0@ == ps[j].0 && pairs@[j].1@ == ps[j].1,
            tv == views(texts@),
            tv == lowered_summaries(summaries@),
            k <= 5,
            first_contradiction(tv, k as int) == first_contradiction(tv, 0),
        decreases 5 - k,
    {
        let has_action = any_contains_exec(&texts, &pairs[k].0);
        let has_counter = any_contains_exec(&texts, &pairs[k].1);
        if has_action && has_counter {
            return Some((string_from_chars(&pairs[k].0), string_from_chars(&pairs[k].1)));
        }
        k = k + 1;
    }
    None
}

/// The preambles a model may put before the commit message.
pub open spec fn preambles() -> Seq<Seq<char>> {
    seq![
        "Here is the commit message:"@,
        "Here's the commit message:"@,
        "Commit message:"@,
        "The commit message is:"@,
    ]
}

/// The preambles in lower case, as they are searched for.
pub open spec fn lower_preambles() -> Seq<Seq<char>> {
    seq![
        "here is the commit message:"@,
        "here's the commit message:"@,
        "commit message:"@,
        "the commit message is:"@,
    ]
}

/// The character index of `m` at which its first `b` bytes end, if `b` falls
/// on a character boundary (searching from `j`).
pub open spec fn char_at_byte(m: Seq<char>, b: int, j: int) -> Option<int>
    decreases m.len() + 1 - j,
{
    if j < 0 || j > m.len() {
        None
    } else if utf8_len(m.take(j)) == b {
        Some(j)
    } else {
        char_at_byte(m, b, j + 1)
    }
}

/// Removes preamble `k` and what precedes it, where the lower-cased message
/// contains it; the cut is made at the byte offset found in the lower-cased
/// text. `None` where that offset does not fall on a character boundary of
/// the message.
pub open spec fn strip_preamble(m: Seq<char>, k: int) -> Option<Seq<char>> {
    let low = lowercase_of(m);
    match find_first(low, lower_preambles()[k], 0) {
        None => Some(m),
        Some(pos) => match char_at_byte(
            m,
            (utf8_len(low.take(pos)) + preambles()[k].len()) as int,
            0,
        ) {
            Some(j) => Some(trim(m.subrange(j, m.len() as int))),
            None => None,
        },
    }
}

/// Removes the preambles `k..` in turn.
pub open spec fn strip_preambles(m: Seq<char>, k: int) -> Option<Seq<char>>
    decreases 4 - k,
{
    if k < 0 || k >= 4 {
        Some(m)
    } else {
        match strip_preamble(m, k) {
            Some(m2) => strip_preambles(m2, k + 1),
            None => None,
        }
    }
}

/// A generated commit message cleaned up: trimmed, taken out of a code
/// fence, with known preambles removed, cut to its first line. `None` where
/// removing a preamble would cut inside a character.
pub open spec fn cleaned(response: Seq<char>) -> Option<Seq<char>> {
    let m0 = trim(response);
    let m1 = if starts_with(m0, "```"@) {
        match find_first(m0.subrange(3, m0.len() as int), "```"@, 0) {
            Some(e) => trim(m0.subrange(3, 3 + e)),
            None => m0,
        }
    } else {
        m0
    };
    match strip_preambles(m1, 0) {
        Some(m2) => Some(
            match find_first(m2, seq!['\n'], 0) {
                Some(nl) => trim(m2.take(nl)),
                None => m2,
            },
        ),
        None => None,
    }
}

fn char_at_byte_exec(offs: &Vec<usize>, m: &Vec<char>, b: usize) -> (r: Option<usize>)
    requires
        offs@.len() == m@.len() + 1,
        forall|j: int| 0 <= j <= m@.len() ==> #[trigger] offs@[j] == utf8_len(m@.take(j)),
    ensures
        r matches Some(j) ==> char_at_byte(m@, b as int, 0) == Some(j as int) && j <= m@.len(),
        r is None ==> char_at_byte(m@, b as int, 0) is None,
{
    let mut j: usize = 0;
    while j < offs.len()
        invariant
            j <= m@.len() + 1,
            offs@.len() == m@.len() + 1,
            forall|k: int| 0 <= k <= m@.len() ==> #[trigger] offs@[k] == utf8_len(m@.take(k)),
            char_at_byte(m@, b as int, j as int) == char_at_byte(m@, b as int, 0),
        decreases m@.len() + 1 - j,
    {
        if offs[j] == b {
            return Some(j);
        }
        j = j + 1;
    }
    None
}

fn strip_preamble_exec(m: &Vec<char>, k: usize) -> (r: Option<Vec<char>>)
    requires
        k < 4,
    ensures
        match strip_preamble(m@, k as int) {
            Some(x) => r matches Some(v) && v@ == x,
            None => r is None,
        },
{
    let lower_p = match k {
        0 => lit("here is the commit message:"),
        1 => lit("here's the commit message:"),
        2 => lit("commit message:"),
        _ => lit("the commit message is:"),
    };
    let plen: usize = match k {
        0 => 27,
        1 => 26,
        2 => 15,
        _ => 22,
    };
    proof {
        reveal_strlit("Here is the commit message:");
        reveal_strlit("Here's the commit message:");
        reveal_strlit("Commit message:");
        reveal_strlit("The commit message is:");
        assert(lower_p@ == lower_preambles()[k as int]);
        assert(plen == preambles()[k as int].len());
    }
    let ms = string_from_chars(m);
    let low = lowercase_chars(ms.as_str());
    match find_first_exec(&low, &lower_p, 0) {
        None => {
            let same = slice_chars(m, 0, m.len());
            assert(same@ =~= m@);
            Some(same)
        },
        Some(pos) => {
            let low_s = string_from_chars(&low);
            let (_lc, loffs) = byte_offsets(low_s.as_str());
            let (_mc, moffs) = byte_offsets(ms.as_str());
            let start = loffs[pos];
            proof {
                assert(m@.take(m@.len() as int) =~= m@);
            }
            match start.checked_add(plen) {
                Some(b) => match char_at_byte_exec(&moffs, m, b) {
                    Some(j) => {
                        let rest = slice_chars(m, j, m.len());
                        let t = trim_chars(&rest);
                        let ghost lowv = lowercase_of(m@);
                        assert(low@ == lowv);
                        assert(find_first(lowv, lower_preambles()[k as int], 0) == Some(pos as int));
                        assert(start == utf8_len(lowv.take(pos as int)));
                        assert(b == utf8_len(lowv.take(pos as int)) + preambles()[k as int].len());
                        assert(char_at_byte(m@, b as int, 0) == Some(j as int));
                        assert(Some(t@) == strip_preamble(m@, k as int));
                        Some(t)
                    },
                    None => None,
                },
                None => {
                    proof {
                        let bb = utf8_len(low@.take(pos as int)) + plen;
                        assert(utf8_len(m@.take(m@.len() as int)) == moffs@[m@.len() as int]);
                        assert forall|j: int| 0 <= j <= m@.len() implies utf8_len(m@.take(j)) != bb by {
                            crate::text::lemma_utf8_len_take(m@, j, m@.len() as int);
                        }
                        lemma_char_at_byte_none(m@, bb, 0);
                    }
                    None
                },
            }
        },
    }
}

proof fn lemma_char_at_byte_none(m: Seq<char>, b: int, j: int)
    requires
        0 <= j,
        forall|k: int| 0 <= k <= m.len() ==> utf8_len(m.take(k)) != b,
    ensures
        char_at_byte(m, b, j) is None,
    decreases m.len() + 1 - j,
{
    if j <= m.len() {
        lemma_char_at_byte_none(m, b, j + 1);
    }
}

fn clean_steps(response: &str) -> (r: Option<String>)
    ensures
        match cleaned(response@) {
            Some(x) => r matches Some(s) && s@ == x,
            None => r is None,
        },
{
    let m0 = trim_chars(&str_chars(response));
    let fence = lit("```");
    proof {
        reveal_strlit("```");
    }
    let mut m = if seq_starts_with(&m0, &fence) {
        let after = slice_chars(&m0, 3, m0.len());
        proof {
            reveal_strlit("```");
        }
        match find_first_exec(&after, &fence, 0) {
            Some(e) => trim_chars(&slice_chars(&after, 0, e)),
            None => m0,
        }
    } else {
        m0
    };
    proof {
        reveal_strlit("```");
        if starts_with(trim(response@), "```"@) {
            let m0v = trim(response@);
            match find_first(m0v.subrange(3, m0v.len() as int), "```"@, 0) {
                Some(e) => {
                    assert(m0v.subrange(3, m0v.len() as int).subrange(0, e) =~= m0v.subrange(3, 3 + e));
                },
                None => {},
            }
        }
    }
    let ghost m1 = m@;
    proof {
        let m0v = trim(response@);
        let spec_m1 = if starts_with(m0v, "```"@) {
            match find_first(m0v.subrange(3, m0v.len() as int), "```"@, 0) {
                Some(e) => trim(m0v.subrange(3, 3 + e)),
                None => m0v,
            }
        } else {
            m0v
        };
        assert(m1 == spec_m1);
    }
    let mut k: usize = 0;
    while k < 4
        invariant
            k <= 4,
            strip_preambles(m@, k as int) == strip_preambles(m1, 0),
            strip_preambles(m1, 0) is None ==> cleaned(response@) is None,
        decreases 4 - k,
    {
        match strip_preamble_exec(&m, k) {
            Some(next) => {
                m = next;
            },
            None => {
                return None;
            },
        }
        k = k + 1;
    }
    let nl = vec!['\n'];
    assert(nl@ =~= seq!['\n']);
    let out = match find_first_exec(&m, &nl, 0) {
        Some(i) => {
            let head = slice_chars(&m, 0, i);
            assert(head@ =~= m@.take(i as int));
            trim_chars(&head)
        },
        None => m,
    };
    Some(string_from_chars(&out))
}

/// A generated message cleaned up (see `cleaned`), for messages on which no
/// preamble cut falls inside a character.
pub fn clean_response(response: &str) -> (r: String)
    requires
        cleaned(response@) is Some,
    ensures
        Some(r@) == cleaned(response@),
{
    match clean_steps(response) {
        Some(s) => s,
        None => String::new(),
    }
}

/// `clean_response` where it applies; `None` where removing a preamble would
/// cut inside a character of the message.
pub fn try_clean_response(response: &str) -> (r: Option<String>)
    ensures
        match cleaned(response@) {
            Some(x) => r matches Some(s) && s@ == x,
            None => r is None,
        },
{
    if clean_steps(response).is_some() {
        Some(clean_response(response))
    } else {
        None
    }
}

/// Requests that summarize chunks in parallel, at most.
pub const MAX_CONCURRENT_REQUESTS: usize = 5;

/// Parallelism of the map phase: up to 3 chunks get one request each, more
/// chunks get 5, always capped by the configured limit and at least 1.
pub open spec fn map_parallelism(chunk_count: usize, limit: usize) -> usize {
    let base = if chunk_count <= 3 {
        chunk_count
    } else {
        MAX_CONCURRENT_REQUESTS
    };
    let capped = if base < limit {
        base
    } else {
        limit
    };
    if capped < 1 {
        1
    } else {
        capped
    }
}

/// Number of chunk summaries requested at once (see `map_parallelism`).
pub fn map_concurrency(chunk_count: usize, concurrency_limit: usize) -> (n: usize)
    ensures
        n == map_parallelism(chunk_count, concurrency_limit),
        1 <= n <= MAX_CONCURRENT_REQUESTS || (1 <= n && n <= 3),
{
    let base = if chunk_count <= 3 {
        if chunk_count < 3 {
            chunk_count
        } else {
            3
        }
    } else {
        MAX_CONCURRENT_REQUESTS
    };
    let capped = if base < concurrency_limit {
        base
    } else {
        concurrency_limit
    };
    if capped < 1 {
        1
    } else {
        capped
    }
}

/// Outcome of a whole generation run.
pub struct GenerationResult {
    pub message: String,
    pub truncated: bool,
    pub salvaged: bool,
    pub failed_chunks: usize,
    pub failed_files: Vec<String>,
    pub total_chunks: usize,
    pub intent_fallback_used: bool,
    pub validation_warnings: Vec<String>,
}

/// Whether the run should be flagged to the user.
pub open spec fn result_has_warnings(r: GenerationResult) -> bool {
    r.truncated || r.salvaged || r.failed_chunks > 0 || r.intent_fallback_used
        || r.validation_warnings@.len() > 0
}

/// The warnings of a run, in the order they are reported.
pub open spec fn result_warnings(r: GenerationResult) -> Seq<Seq<char>> {
    let w1: Seq<Seq<char>> = if r.truncated {
        seq!["Message was truncated to fit length limit"@]
    } else {
        Seq::empty()
    };
    let w2: Seq<Seq<char>> = if r.salvaged {
        seq!["Message was extracted from malformed LLM output"@]
    } else {
        Seq::empty()
    };
    let w3: Seq<Seq<char>> = if r.failed_chunks > 0 {
        if r.failed_files@.len() == 0 {
            seq![
                decimal(r.failed_chunks as nat) + " of "@ + decimal(r.total_chunks as nat)
                    + " chunks failed to process"@,
            ]
        } else {
            seq![
                decimal(r.failed_chunks as nat) + " of "@ + decimal(r.total_chunks as nat)
                    + " chunks failed: "@ + join(string_views(r.failed_files@), ", "@),
            ]
        }
    } else {
        Seq::empty()
    };
    let w4: Seq<Seq<char>> = if r.intent_fallback_used {
        seq!["Used fallback themes without intent extraction"@]
    } else {
        Seq::empty()
    };
    w1 + w2 + w3 + w4 + string_views(r.validation_warnings@)
}

impl GenerationResult {
    /// Whether anything about the run deserves a warning.
    pub fn has_warnings(&self) -> (b: bool)
        ensures
            b == result_has_warnings(*self),
    {
        self.truncated || self.salvaged || self.failed_chunks > 0 || self.intent_fallback_used
            || self.validation_warnings.len() > 0
    }

    /// All warnings joined by `; `, or `None` when there are none.
    pub fn warning_summary(&self) -> (r: Option<String>)
        ensures
            result_has_warnings(*self) ==> (r matches Some(s) && s@ == join(
                result_warnings(*self),
                "; "@,
            )),
            !result_has_warnings(*self) ==> r is None,
    {
        if !self.has_warnings() {
            return None;
        }
        let mut warnings: Vec<String> = Vec::new();
        if self.truncated {
            warnings.push("Message was truncated to fit length limit".to_owned());
        }
        if self.salvaged {
            warnings.push("Message was extracted from malformed LLM output".to_owned());
        }
        if self.failed_chunks > 0 {
            let mut line = decimal_chars(self.failed_chunks);
            extend_chars(&mut line, &lit(" of "));
            extend_chars(&mut line, &decimal_chars(self.total_chunks));
            if self.failed_files.len() == 0 {
                extend_chars(&mut line, &lit(" chunks failed to process"));
            } else {
                extend_chars(&mut line, &lit(" chunks failed: "));
                extend_chars(&mut line, &join_strings(&self.failed_files, ", "));
            }
            warnings.push(string_from_chars(&line));
        }
        if self.intent_fallback_used {
            warnings.push("Used fallback themes without intent extraction".to_owned());
        }
        let ghost head = string_views(warnings@);
        let mut k: usize = 0;
        while k < self.validation_warnings.len()
            invariant
                k <= self.validation_warnings@.len(),
                string_views(warnings@) == head + string_views(self.validation_warnings@).take(
                    k as int,
                ),
            decreases self.validation_warnings@.len() - k,
        {
            let ghost old_w = warnings@;
            warnings.push(self.validation_warnings[k].clone());
            assert(string_views(warnings@) =~= string_views(old_w).push(self.validation_warnings@[k as int]@));
            assert(string_views(self.validation_warnings@).take(k + 1) =~= string_views(self.validation_warnings@).take(k as int).push(self.validation_warnings@[k as int]@));
            assert(string_views(warnings@) =~= head + string_views(
                self.validation_warnings@,
            ).take(k + 1));
            k = k + 1;
        }
        assert(string_views(self.validation_warnings@).take(
            self.validation_warnings@.len() as int,
        ) =~= string_views(self.validation_warnings@));
        assert(string_views(warnings@) =~= result_warnings(*self));
        let joined = join_strings(&warnings, "; ");
        Some(string_from_chars(&joined))
    }
}

} // verus!
