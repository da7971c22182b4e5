//! Merging the sub-themes found in batches of chunk summaries into the
//! themes of the final commit message.
use vstd::prelude::*;
use crate::orchestrator::{SubTheme, Theme, join};
use crate::text::{extend_chars, lit, slice_chars, str_chars, string_from_chars};

verus! {

/// A theme as title, description, file count and scope.
pub type ThemeV = (Seq<char>, Seq<char>, nat, Seq<char>);

/// The view of a sub-theme.
pub open spec fn sub_view(t: SubTheme) -> ThemeV {
    (t.title@, t.description@, t.file_count as nat, t.scope@)
}

/// The views of sub-themes.
pub open spec fn sub_views(v: Seq<SubTheme>) -> Seq<ThemeV> {
    v.map_values(|t: SubTheme| sub_view(t))
}

/// The views of themes.
pub open spec fn theme_views(v: Seq<Theme>) -> Seq<ThemeV> {
    v.map_values(|t: Theme| (t.title@, t.description@, t.file_count as nat, t.scope@))
}

/// The scopes of `ts`, each once, in order of first appearance.
pub open spec fn scopes_in_order(ts: Seq<ThemeV>) -> Seq<Seq<char>>
    decreases ts.len(),
{
    if ts.len() == 0 {
        Seq::empty()
    } else {
        let prev = scopes_in_order(ts.drop_last());
        if prev.contains(ts.last().3) {
            prev
        } else {
            prev.push(ts.last().3)
        }
    }
}

/// The sub-themes of scope `s`, in order.
pub open spec fn group_of(ts: Seq<ThemeV>, s: Seq<char>) -> Seq<ThemeV>
    decreases ts.len(),
{
    if ts.len() == 0 {
        Seq::empty()
    } else if ts.last().3 == s {
        group_of(ts.drop_last(), s).push(ts.last())
    } else {
        group_of(ts.drop_last(), s)
    }
}

/// How many of `g` carry the title `t`.
pub open spec fn title_count(g: Seq<ThemeV>, t: Seq<char>) -> nat
    decreases g.len(),
{
    if g.len() == 0 {
        0
    } else {
        title_count(g.drop_last(), t) + if g.last().0 == t { 1nat } else { 0nat }
    }
}

/// The first index from `i` on, compared with `best`, whose title occurs
/// most often in `g`.
pub open spec fn most_frequent_from(g: Seq<ThemeV>, i: int, best: int) -> int
    decreases g.len() - i,
{
    if i < 0 || i >= g.len() {
        best
    } else if title_count(g, g[i].0) > title_count(g, g[best].0) {
        most_frequent_from(g, i + 1, i)
    } else {
        most_frequent_from(g, i + 1, best)
    }
}

/// The most frequent title of a group; ties go to the title met first.
pub open spec fn group_title(g: Seq<ThemeV>) -> Seq<char> {
    g[most_frequent_from(g, 1, 0)].0
}

/// The file counts of a group, added up.
pub open spec fn group_files(g: Seq<ThemeV>) -> nat
    decreases g.len(),
{
    if g.len() == 0 {
        0
    } else {
        group_files(g.drop_last()) + g.last().2
    }
}

/// The descriptions of a group.
pub open spec fn descriptions(g: Seq<ThemeV>) -> Seq<Seq<char>> {
    g.map_values(|t: ThemeV| t.1)
}

/// The theme merged from the sub-themes of scope `s`.
pub open spec fn merged_theme(ts: Seq<ThemeV>, s: Seq<char>) -> ThemeV {
    let g = group_of(ts, s);
    (group_title(g), join(descriptions(g), "; "@), group_files(g), s)
}

/// One merged theme per scope, in order of the scopes' first appearance.
pub open spec fn merged_themes(ts: Seq<ThemeV>) -> Seq<ThemeV> {
    scopes_in_order(ts).map_values(|s: Seq<char>| merged_theme(ts, s))
}

/// The first index from `i` on, compared with `best`, with the most files.
pub open spec fn first_largest(ts: Seq<ThemeV>, i: int, best: int) -> int
    decreases ts.len() - i,
{
    if i < 0 || i >= ts.len() {
        best
    } else if ts[i].2 > ts[best].2 {
        first_largest(ts, i + 1, i)
    } else {
        first_largest(ts, i + 1, best)
    }
}

/// The `k` themes with the most files, largest first, ties in their order:
/// what a stable sort by descending file count followed by keeping `k`
/// gives.
pub open spec fn top_themes(ts: Seq<ThemeV>, k: nat) -> Seq<ThemeV>
    decreases k,
{
    if k == 0 || ts.len() == 0 {
        Seq::empty()
    } else {
        let m = first_largest(ts, 1, 0);
        seq![ts[m]] + top_themes(ts.remove(m), (k - 1) as nat)
    }
}

/// The themes `aggregate_sub_themes` gives.
pub open spec fn aggregated(ts: Seq<ThemeV>) -> Seq<ThemeV> {
    top_themes(merged_themes(ts), 3)
}

/// All file counts added up.
pub open spec fn all_files(ts: Seq<ThemeV>) -> nat {
    group_files(ts)
}

proof fn lemma_first_largest_bound(ts: Seq<ThemeV>, i: int, best: int)
    requires
        0 <= best < ts.len(),
        0 <= i,
    ensures
        0 <= first_largest(ts, i, best) < ts.len(),
    decreases ts.len() - i,
{
    if i < ts.len() {
        if ts[i].2 > ts[best].2 {
            lemma_first_largest_bound(ts, i + 1, i);
        } else {
            lemma_first_largest_bound(ts, i + 1, best);
        }
    }
}

proof fn lemma_most_frequent_bound(g: Seq<ThemeV>, i: int, best: int)
    requires
        0 <= best < g.len(),
        0 <= i,
    ensures
        0 <= most_frequent_from(g, i, best) < g.len(),
    decreases g.len() - i,
{
    if i < g.len() {
        if title_count(g, g[i].0) > title_count(g, g[best].0) {
            lemma_most_frequent_bound(g, i + 1, i);
        } else {
            lemma_most_frequent_bound(g, i + 1, best);
        }
    }
}

proof fn lemma_group_files_bound(ts: Seq<ThemeV>, s: Seq<char>)
    ensures
        group_files(group_of(ts, s)) <= group_files(ts),
    decreases ts.len(),
{
    if ts.len() > 0 {
        lemma_group_files_bound(ts.drop_last(), s);
        if ts.last().3 == s {
            let g = group_of(ts.drop_last(), s);
            assert(g.push(ts.last()).drop_last() =~= g);
        }
    }
}

proof fn lemma_scopes_nonempty_groups(ts: Seq<ThemeV>, s: Seq<char>)
    requires
        scopes_in_order(ts).contains(s),
    ensures
        group_of(ts, s).len() > 0,
    decreases ts.len(),
{
    if ts.len() > 0 {
        let prev = scopes_in_order(ts.drop_last());
        if prev.contains(s) {
            lemma_scopes_nonempty_groups(ts.drop_last(), s);
        } else {
            assert(ts.last().3 == s);
        }
    }
}

fn chars_eq(a: &Vec<char>, b: &Vec<char>) -> (r: bool)
    ensures
        r == (a@ == b@),
{
    if a.len() != b.len() {
        return false;
    }
    let mut i: usize = 0;
    while i < a.len()
        invariant
            a@.len() == b@.len(),
            i <= a@.len(),
            forall|k: int| 0 <= k < i ==> a@[k] == b@[k],
        decreases a.len() - i,
    {
        if a[i] != b[i] {
            return false;
        }
        i = i + 1;
    }
    assert(a@ =~= b@);
    true
}

fn contains_chars(v: &Vec<Vec<char>>, x: &Vec<char>) -> (b: bool)
    ensures
        b == v@.map_values(|c: Vec<char>| c@).contains(x@),
{
    let ghost vv = v@.map_values(|c: Vec<char>| c@);
    let mut i: usize = 0;
    while i < v.len()
        invariant
            vv == v@.map_values(|c: Vec<char>| c@),
            i <= v@.len(),
            forall|k: int| 0 <= k < i ==> vv[k] != x@,
        decreases v.len() - i,
    {
        assert(vv[i as int] == v@[i as int]@);
        if chars_eq(&v[i], x) {
            return true;
        }
        i = i + 1;
    }
    false
}

/// The flat view of sub-themes, as characters.
struct Flat {
    title: Vec<char>,
    description: Vec<char>,
    file_count: usize,
    scope: Vec<char>,
}

spec fn flat_view(f: Flat) -> ThemeV {
    (f.title@, f.description@, f.file_count as nat, f.scope@)
}

spec fn flat_views(v: Seq<Flat>) -> Seq<ThemeV> {
    v.map_values(|f: Flat| flat_view(f))
}

fn flatten(subs: &Vec<SubTheme>) -> (r: Vec<Flat>)
    ensures
        flat_views(r@) == sub_views(subs@),
{
    let mut r: Vec<Flat> = Vec::new();
    let mut i: usize = 0;
    while i < subs.len()
        invariant
            i <= subs@.len(),
            flat_views(r@) == sub_views(subs@).take(i as int),
        decreases subs.len() - i,
    {
        let t = &subs[i];
        let f = Flat {
            title: str_chars(t.title.as_str()),
            description: str_chars(t.description.as_str()),
            file_count: t.file_count,
            scope: str_chars(t.scope.as_str()),
        };
        let ghost before = r@;
        r.push(f);
        assert(flat_views(r@) =~= flat_views(before).push(sub_view(subs@[i as int])));
        assert(sub_views(subs@).take(i + 1) =~= sub_views(subs@).take(i as int).push(
            sub_view(subs@[i as int]),
        ));
        i = i + 1;
    }
    assert(sub_views(subs@).take(i as int) =~= sub_views(subs@));
    r
}

fn scopes_of(ts: &Vec<Flat>) -> (r: Vec<Vec<char>>)
    ensures
        r@.map_values(|c: Vec<char>| c@) == scopes_in_order(flat_views(ts@)),
{
    let ghost tv = flat_views(ts@);
    let mut r: Vec<Vec<char>> = Vec::new();
    let mut i: usize = 0;
    assert(tv.take(0) =~= Seq::<ThemeV>::empty());
    while i < ts.len()
        invariant
            tv == flat_views(ts@),
            i <= ts@.len(),
            r@.map_values(|c: Vec<char>| c@) == scopes_in_order(tv.take(i as int)),
        decreases ts.len() - i,
    {
        assert(tv.take(i + 1).drop_last() =~= tv.take(i as int));
        assert(tv.take(i + 1).last() == flat_view(ts@[i as int]));
        if !contains_chars(&r, &ts[i].scope) {
            let ghost before = r@;
            let s = copy_chars(&ts[i].scope);
            r.push(s);
            assert(r@.map_values(|c: Vec<char>| c@) =~= before.map_values(|c: Vec<char>| c@).push(
                ts@[i as int].scope@,
            ));
        }
        i = i + 1;
    }
    assert(tv.take(i as int) =~= tv);
    r
}

fn copy_chars(v: &Vec<char>) -> (r: Vec<char>)
    ensures
        r@ == v@,
{
    let r = slice_chars(v, 0, v.len());
    assert(r@ =~= v@);
    r
}

spec fn index_views(tv: Seq<ThemeV>, idx: Seq<usize>) -> Seq<ThemeV> {
    idx.map_values(|k: usize| tv[k as int])
}

fn merge_scope(ts: &Vec<Flat>, s: &Vec<char>) -> (r: Theme)
    requires
        group_of(flat_views(ts@), s@).len() > 0,
        group_files(flat_views(ts@)) <= usize::MAX,
    ensures
        (r.title@, r.description@, r.file_count as nat, r.scope@) == merged_theme(flat_views(ts@), s@),
{
    let ghost tv = flat_views(ts@);
    let ghost g = group_of(tv, s@);
    // The members of the group, by index.
    let mut idx: Vec<usize> = Vec::new();
    let mut i: usize = 0;
    assert(tv.take(0) =~= Seq::<ThemeV>::empty());
    while i < ts.len()
        invariant
            tv == flat_views(ts@),
            i <= ts@.len(),
            forall|q: int| 0 <= q < idx@.len() ==> #[trigger] idx@[q] < ts@.len(),
            index_views(tv, idx@) == group_of(tv.take(i as int), s@),
        decreases ts.len() - i,
    {
        assert(tv.take(i + 1).drop_last() =~= tv.take(i as int));
        assert(tv.take(i + 1).last() == tv[i as int]);
        assert(tv[i as int] == flat_view(ts@[i as int]));
        if chars_eq(&ts[i].scope, s) {
            let ghost before = idx@;
            idx.push(i);
            assert(index_views(tv, idx@) =~= index_views(tv, before).push(tv[i as int]));
        }
        i = i + 1;
    }
    assert(tv.take(i as int) =~= tv);
    assert(index_views(tv, idx@) == g);
    let n = idx.len();
    proof {
        lemma_group_files_bound(tv, s@);
    }
    // Files and descriptions.
    let mut total: usize = 0;
    let mut desc: Vec<char> = Vec::new();
    let mut j: usize = 0;
    assert(g.take(0) =~= Seq::<ThemeV>::empty());
    while j < n
        invariant
            tv == flat_views(ts@),
            n == idx@.len(),
            g == index_views(tv, idx@),
            forall|q: int| 0 <= q < idx@.len() ==> #[trigger] idx@[q] < ts@.len(),
            group_files(g) <= usize::MAX,
            j <= n,
            total == group_files(g.take(j as int)),
            desc@ == join(descriptions(g.take(j as int)), "; "@),
        decreases n - j,
    {
        let k = idx[j];
        assert(g[j as int] == tv[k as int]);
        assert(tv[k as int] == flat_view(ts@[k as int]));
        assert(g.take(j + 1).drop_last() =~= g.take(j as int));
        assert(g.take(j + 1).last() == g[j as int]);
        assert(descriptions(g.take(j + 1)) =~= descriptions(g.take(j as int)).push(g[j as int].1));
        assert(descriptions(g.take(j + 1)).drop_last() =~= descriptions(g.take(j as int)));
        assert(descriptions(g.take(j + 1)).last() == g[j as int].1);
        assert(g[j as int].1 == ts@[k as int].description@);
        proof {
            lemma_group_files_take(g, j + 1);
        }
        total = total + ts[k].file_count;
        if j > 0 {
            extend_chars(&mut desc, &lit("; "));
        } else {
            assert(descriptions(g.take(1)) =~= seq![g[0].1]);
        }
        extend_chars(&mut desc, &ts[k].description);
        j = j + 1;
    }
    assert(g.take(n as int) =~= g);
    // The most frequent title.
    let mut best: usize = 0;
    let mut best_count: usize = 0;
    let mut q: usize = 0;
    while q < n
        invariant
            tv == flat_views(ts@),
            n == idx@.len(),
            n > 0,
            g == index_views(tv, idx@),
            forall|p: int| 0 <= p < idx@.len() ==> #[trigger] idx@[p] < ts@.len(),
            q <= n,
            best < n,
            q == 0 ==> best == 0,
            q > 0 ==> best < q && best_count == title_count(g, g[best as int].0),
            q > 0 ==> most_frequent_from(g, q as int, best as int) == most_frequent_from(g, 1, 0),
        decreases n - q,
    {
        let t = &ts[idx[q]].title;
        assert(g[q as int].0 == t@);
        let mut c: usize = 0;
        let mut p: usize = 0;
        while p < n
            invariant
                tv == flat_views(ts@),
                n == idx@.len(),
                g == index_views(tv, idx@),
                forall|w: int| 0 <= w < idx@.len() ==> #[trigger] idx@[w] < ts@.len(),
                p <= n,
                c <= p,
                c == title_count(g.take(p as int), t@),
            decreases n - p,
        {
            assert(g.take(p + 1).drop_last() =~= g.take(p as int));
            assert(g.take(p + 1).last() == g[p as int]);
            assert(g[p as int] == flat_view(ts@[idx@[p as int] as int]));
            if chars_eq(&ts[idx[p]].title, t) {
                c = c + 1;
            }
            p = p + 1;
        }
        assert(g.take(n as int) =~= g);
        if q == 0 {
            best = 0;
            best_count = c;
        } else if c > best_count {
            best = q;
            best_count = c;
        }
        q = q + 1;
    }
    proof {
        lemma_most_frequent_bound(g, 1, 0);
    }
    let title = copy_chars(&ts[idx[best]].title);
    assert(g[best as int].0 == title@);
    Theme {
        title: string_from_chars(&title),
        description: string_from_chars(&desc),
        file_count: total,
        scope: string_from_chars(s),
    }
}

proof fn lemma_group_files_take(g: Seq<ThemeV>, j: int)
    requires
        0 <= j <= g.len(),
    ensures
        group_files(g.take(j)) <= group_files(g),
    decreases g.len() - j,
{
    if j < g.len() {
        lemma_group_files_take(g, j + 1);
        assert(g.take(j + 1).drop_last() =~= g.take(j));
    } else {
        assert(g.take(j) =~= g);
    }
}

/// Merges sub-themes into themes: one per scope (scopes in order of first
/// appearance), titled by the scope's most frequent title (ties to the first),
/// described by the scope's descriptions joined with `; `, counting the
/// scope's files; then keeps the three with the most files, largest first,
/// ties in scope order (see `aggregated`).
pub fn aggregate_sub_themes(sub_themes: &Vec<SubTheme>) -> (r: Vec<Theme>)
    requires
        all_files(sub_views(sub_themes@)) <= usize::MAX,
    ensures
        theme_views(r@) == aggregated(sub_views(sub_themes@)),
{
    let ts = flatten(sub_themes);
    let ghost tv = flat_views(ts@);
    let scopes = scopes_of(&ts);
    let ghost sv = scopes@.map_values(|c: Vec<char>| c@);
    let ghost all = merged_themes(tv);
    let mut merged: Vec<Theme> = Vec::new();
    let mut j: usize = 0;
    while j < scopes.len()
        invariant
            tv == flat_views(ts@),
            tv == sub_views(sub_themes@),
            group_files(tv) <= usize::MAX,
            sv == scopes@.map_values(|c: Vec<char>| c@),
            sv == scopes_in_order(tv),
            all == merged_themes(tv),
            j <= scopes@.len(),
            theme_views(merged@) == all.take(j as int),
        decreases scopes.len() - j,
    {
        assert(sv[j as int] == scopes@[j as int]@);
        proof {
            lemma_scopes_nonempty_groups(tv, sv[j as int]);
        }
        let t = merge_scope(&ts, &scopes[j]);
        let ghost before = merged@;
        merged.push(t);
        assert(theme_views(merged@) =~= theme_views(before).push(merged_theme(tv, sv[j as int])));
        assert(all.take(j + 1) =~= all.take(j as int).push(all[j as int]));
        j = j + 1;
    }
    assert(all.take(j as int) =~= all);
    let mut rest = merged;
    let mut out: Vec<Theme> = Vec::new();
    let mut k: usize = 0;
    while k < 3 && rest.len() > 0
        invariant
            k <= 3,
            theme_views(out@) + top_themes(theme_views(rest@), (3 - k) as nat) == top_themes(all, 3),
        decreases 3 - k,
    {
        let ghost rv = theme_views(rest@);
        let mut m: usize = 0;
        let mut i: usize = 1;
        while i < rest.len()
            invariant
                rv == theme_views(rest@),
                rest@.len() > 0,
                1 <= i <= rest@.len(),
                m < rest@.len(),
                first_largest(rv, i as int, m as int) == first_largest(rv, 1, 0),
            decreases rest.len() - i,
        {
            if rest[i].file_count > rest[m].file_count {
                m = i;
            }
            i = i + 1;
        }
        let t = rest.remove(m);
        proof {
            assert(theme_views(rest@) =~= rv.remove(m as int));
            assert(top_themes(rv, (3 - k) as nat) == seq![rv[m as int]] + top_themes(rv.remove(m as int), (3 - k - 1) as nat));
        }
        let ghost before = out@;
        out.push(t);
        assert(theme_views(out@) =~= theme_views(before).push(rv[m as int]));
        assert(theme_views(out@) + top_themes(theme_views(rest@), (3 - (k + 1)) as nat) =~= theme_views(before)
            + (seq![rv[m as int]] + top_themes(rv.remove(m as int), (3 - k - 1) as nat)));
        k = k + 1;
    }
    proof {
        assert(top_themes(theme_views(rest@), (3 - k) as nat) =~= Seq::<ThemeV>::empty());
        assert(theme_views(out@) + Seq::<ThemeV>::empty() =~= theme_views(out@));
    }
    out
}

proof fn lemma_first_largest_max(ts: Seq<ThemeV>, i: int, best: int)
    requires
        0 <= best < ts.len(),
        1 <= i,
        forall|x: int| 0 <= x < i && x < ts.len() ==> (#[trigger] ts[x]).2 <= ts[best].2,
    ensures
        forall|x: int| 0 <= x < ts.len() ==> (#[trigger] ts[x]).2 <= ts[first_largest(ts, i, best)].2,
    decreases ts.len() - i,
{
    if i < ts.len() {
        if ts[i].2 > ts[best].2 {
            lemma_first_largest_max(ts, i + 1, i);
        } else {
            lemma_first_largest_max(ts, i + 1, best);
        }
    }
}

proof fn lemma_top_from(ts: Seq<ThemeV>, k: nat)
    ensures
        top_themes(ts, k).len() <= k,
        top_themes(ts, k).len() <= ts.len(),
        forall|j: int| 0 <= j < top_themes(ts, k).len() ==> ts.contains(#[trigger] top_themes(ts, k)[j]),
        forall|i: int, j: int|
            0 <= i < j < top_themes(ts, k).len() ==> #[trigger] top_themes(ts, k)[i].2 >= #[trigger] top_themes(ts, k)[j].2,
    decreases k,
{
    if k > 0 && ts.len() > 0 {
        let m = first_largest(ts, 1, 0);
        lemma_first_largest_bound(ts, 1, 0);
        lemma_first_largest_max(ts, 1, 0);
        let rest = ts.remove(m);
        lemma_top_from(rest, (k - 1) as nat);
        let t = top_themes(rest, (k - 1) as nat);
        let all = top_themes(ts, k);
        assert(all == seq![ts[m]] + t);
        assert forall|j: int| 0 <= j < all.len() implies ts.contains(#[trigger] all[j]) by {
            if j == 0 {
                assert(ts[m] == all[0]);
            } else {
                assert(all[j] == t[j - 1]);
                assert(rest.contains(t[j - 1]));
                let w = choose|w: int| 0 <= w < rest.len() && rest[w] == t[j - 1];
                if w < m {
                    assert(ts[w] == rest[w]);
                } else {
                    assert(ts[w + 1] == rest[w]);
                }
            }
        }
        assert forall|i: int, j: int| 0 <= i < j < all.len() implies #[trigger] all[i].2 >= #[trigger] all[j].2 by {
            assert(all[j] == t[j - 1]);
            if i == 0 {
                let w = choose|w: int| 0 <= w < rest.len() && rest[w] == t[j - 1];
                if w < m {
                    assert(ts[w] == rest[w]);
                } else {
                    assert(ts[w + 1] == rest[w]);
                }
            } else {
                assert(all[i] == t[i - 1]);
            }
        }
    }
}

/// At most three themes come out of the aggregation, ranked by their file
/// counts, largest first; each is one of the merged themes of the scopes.
pub proof fn law_aggregate_ranks_top_three(ts: Seq<ThemeV>)
    ensures
        aggregated(ts).len() <= 3,
        forall|i: int, j: int|
            0 <= i < j < aggregated(ts).len() ==> #[trigger] aggregated(ts)[i].2 >= #[trigger] aggregated(ts)[j].2,
        forall|j: int| 0 <= j < aggregated(ts).len() ==> merged_themes(ts).contains(#[trigger] aggregated(ts)[j]),
{
    lemma_top_from(merged_themes(ts), 3);
}

/// Nothing is left out when there are three scopes or fewer: every scope's
/// merged theme is among the results.
pub proof fn law_aggregate_keeps_few_scopes(ts: Seq<ThemeV>)
    requires
        scopes_in_order(ts).len() <= 3,
    ensures
        aggregated(ts).len() == scopes_in_order(ts).len(),
{
    lemma_top_len(merged_themes(ts), 3);
}

proof fn lemma_top_len(ts: Seq<ThemeV>, k: nat)
    requires
        ts.len() <= k,
    ensures
        top_themes(ts, k).len() == ts.len(),
    decreases k,
{
    if k > 0 && ts.len() > 0 {
        let m = first_largest(ts, 1, 0);
        lemma_first_largest_bound(ts, 1, 0);
        lemma_top_len(ts.remove(m), (k - 1) as nat);
    }
}

} // verus!
