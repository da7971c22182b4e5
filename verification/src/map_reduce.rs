//! The decisions of the map-reduce pipeline that writes a commit message
//! from many diff chunks: which path a diff takes, how the outcomes of the
//! map phase are tallied, how summaries are batched for theme extraction and
//! what the batches' themes become. The model calls themselves are made by
//! the caller, which hands their results to these functions.
use vstd::prelude::*;
use crate::generation::GenerationError;
use crate::orchestrator::{
    ChunkSummary, SubTheme, Theme, fallback_themes_from_summaries, join, join_strings,
    summary_texts, total_files,
};
use crate::text::{
    decimal, decimal_chars, extend_chars, lit, str_chars, string_from_chars, string_views, trim,
    trim_chars,
};
use crate::themes::{ThemeV, aggregate_sub_themes, aggregated, all_files, sub_views, theme_views};

verus! {

/// How a commit message is generated from the chunks of a diff.
#[derive(Debug, Clone, Copy, PartialEq, Eq, Structural)]
pub enum GenerationPath {
    /// One chunk: a single request writes the message.
    Direct,
    /// Several chunks: summarize each, extract themes, then write the message.
    MapReduce,
}

/// The message when there is no chunk to generate from.
pub open spec fn no_chunks_message() -> Seq<char> {
    "No diff chunks to process"@
}

/// The path for `chunk_count` chunks: none is an error, one is direct, more
/// go through map and reduce.
pub fn plan_generation(chunk_count: usize) -> (r: Result<GenerationPath, GenerationError>)
    ensures
        chunk_count == 0 <==> r is Err,
        r matches Err(e) ==> e.message@ == no_chunks_message(),
        chunk_count == 1 ==> r == Ok::<GenerationPath, GenerationError>(GenerationPath::Direct),
        chunk_count > 1 ==> r == Ok::<GenerationPath, GenerationError>(GenerationPath::MapReduce),
{
    if chunk_count == 0 {
        Err(GenerationError { message: string_from_chars(&lit("No diff chunks to process")) })
    } else if chunk_count == 1 {
        Ok(GenerationPath::Direct)
    } else {
        Ok(GenerationPath::MapReduce)
    }
}

/// The most summaries sent in one theme-extraction request.
pub const MAX_SUMMARIES_PER_INTENT_BATCH: usize = 20;

/// How themes are found in the chunk summaries.
#[derive(Debug, Clone, Copy, PartialEq, Eq, Structural)]
pub enum IntentPath {
    /// Too few summaries to be worth a request: one catch-all theme.
    Fallback,
    /// One theme-extraction request for all summaries.
    Single,
    /// Summaries in batches, each batch's sub-themes merged afterwards.
    Hierarchical,
}

/// The path for `summary_count` summaries: at most two use the catch-all
/// theme, more than a batch's worth are batched.
pub fn intent_path(summary_count: usize) -> (r: IntentPath)
    ensures
        summary_count <= 2 ==> r == IntentPath::Fallback,
        2 < summary_count <= MAX_SUMMARIES_PER_INTENT_BATCH ==> r == IntentPath::Single,
        summary_count > MAX_SUMMARIES_PER_INTENT_BATCH ==> r == IntentPath::Hierarchical,
{
    if summary_count <= 2 {
        IntentPath::Fallback
    } else if summary_count <= MAX_SUMMARIES_PER_INTENT_BATCH {
        IntentPath::Single
    } else {
        IntentPath::Hierarchical
    }
}

/// The heading put before the commit history in a prompt.
pub open spec fn history_heading() -> Seq<char> {
    "\n\nRecent commit history for style reference:\n"@
}

/// The prompt with the commit history, where there is one, appended under
/// its heading.
pub fn with_history(prompt: &str, history: &Option<String>) -> (r: String)
    ensures
        r@ == match history {
            Some(h) => prompt@ + history_heading() + h@,
            None => prompt@,
        },
{
    let mut out = str_chars(prompt);
    match history {
        Some(h) => {
            extend_chars(&mut out, &lit("\n\nRecent commit history for style reference:\n"));
            extend_chars(&mut out, &str_chars(h.as_str()));
        },
        None => {},
    }
    string_from_chars(&out)
}

/// What became of one chunk in the map phase.
#[derive(Debug)]
pub enum ChunkOutcome {
    /// The model summarized the chunk.
    Summarized { response: String, files: Vec<String> },
    /// The request failed; a systemic failure (such as a rejected key) would
    /// fail every other chunk too.
    Failed { systemic: bool, error: String, files: Vec<String> },
}

/// What the map phase produced: the summaries, and the failed chunks with
/// their files.
#[derive(Debug)]
pub struct MapTally {
    pub summaries: Vec<ChunkSummary>,
    pub failed_chunks: usize,
    pub failed_files: Vec<String>,
}

/// A summary as its text and its files.
pub type SummaryV = (Seq<char>, Seq<Seq<char>>);

/// A tally as its summaries, its number of failed chunks and their files.
pub struct TallyV {
    pub summaries: Seq<SummaryV>,
    pub failed: nat,
    pub failed_files: Seq<Seq<char>>,
}

/// The view of a summary.
pub open spec fn summary_view(c: ChunkSummary) -> SummaryV {
    (c.summary@, string_views(c.files@))
}

/// The view of a tally.
pub open spec fn tally_view(t: MapTally) -> TallyV {
    TallyV {
        summaries: t.summaries@.map_values(|c: ChunkSummary| summary_view(c)),
        failed: t.failed_chunks as nat,
        failed_files: string_views(t.failed_files@),
    }
}

/// The message that aborts the pipeline on a systemic failure.
pub open spec fn systemic_message(error: Seq<char>, files: Seq<Seq<char>>) -> Seq<char> {
    "Systemic provider failure detected - aborting pipeline: "@ + error + ". Files affected: "@
        + join(files, ", "@)
        + ". This typically indicates authentication issues, rate limit exhaustion, or invalid API keys."@
}

/// The message when no chunk could be summarized.
pub open spec fn all_failed_message(chunk_count: nat, files: Seq<Seq<char>>) -> Seq<char> {
    "All "@ + decimal(chunk_count) + " chunks failed to process. Files affected: "@ + join(
        files,
        ", "@,
    )
}

/// The outcomes taken in the order they arrived: each summary trimmed and
/// kept, each ordinary failure counted with its files; the first systemic
/// failure aborts with its message.
pub open spec fn tally(outs: Seq<ChunkOutcome>) -> Result<TallyV, Seq<char>>
    decreases outs.len(),
{
    if outs.len() == 0 {
        Ok(TallyV { summaries: Seq::empty(), failed: 0, failed_files: Seq::empty() })
    } else {
        match tally(outs.drop_last()) {
            Err(e) => Err(e),
            Ok(t) => match outs.last() {
                ChunkOutcome::Summarized { response, files } => Ok(
                    TallyV {
                        summaries: t.summaries.push((trim(response@), string_views(files@))),
                        ..t
                    },
                ),
                ChunkOutcome::Failed { systemic, error, files } => if systemic {
                    Err(systemic_message(error@, string_views(files@)))
                } else {
                    Ok(
                        TallyV {
                            failed: t.failed + 1,
                            failed_files: t.failed_files + string_views(files@),
                            ..t
                        },
                    )
                },
            },
        }
    }
}

/// The result of the map phase over `chunk_count` chunks: the tally, unless
/// a systemic failure aborted it or no chunk was summarized.
pub open spec fn map_result(outs: Seq<ChunkOutcome>, chunk_count: nat) -> Result<TallyV, Seq<char>> {
    match tally(outs) {
        Err(e) => Err(e),
        Ok(t) => if t.summaries.len() == 0 {
            Err(all_failed_message(chunk_count, t.failed_files))
        } else {
            Ok(t)
        },
    }
}

fn clone_strings(v: &Vec<String>) -> (r: Vec<String>)
    ensures
        string_views(r@) == string_views(v@),
{
    let mut r: Vec<String> = Vec::new();
    let mut i: usize = 0;
    while i < v.len()
        invariant
            i <= v@.len(),
            r@.len() == i,
            string_views(r@) == string_views(v@).take(i as int),
        decreases v@.len() - i,
    {
        let c = v[i].clone();
        assert(c@ == v@[i as int]@);
        r.push(c);
        assert(string_views(r@) =~= string_views(v@).take(i + 1));
        i = i + 1;
    }
    assert(string_views(v@).take(v@.len() as int) =~= string_views(v@));
    r
}

/// Tallies the map phase's outcomes, in the order they arrived, for
/// `chunk_count` chunks (see `map_result`). Whether too large a share of the
/// chunks failed is a fraction that the caller checks on the tally.
pub fn tally_map_outcomes(outcomes: &Vec<ChunkOutcome>, chunk_count: usize) -> (r: Result<
    MapTally,
    String,
>)
    ensures
        match r {
            Ok(t) => map_result(outcomes@, chunk_count as nat) == Ok::<TallyV, Seq<char>>(
                tally_view(t),
            ),
            Err(e) => map_result(outcomes@, chunk_count as nat) == Err::<TallyV, Seq<char>>(e@),
        },
{
    let mut summaries: Vec<ChunkSummary> = Vec::new();
    let mut failed: usize = 0;
    let mut failed_files: Vec<String> = Vec::new();
    let mut i: usize = 0;
    assert(outcomes@.take(0) =~= Seq::<ChunkOutcome>::empty());
    proof {
        let tv = tally_view(MapTally { summaries, failed_chunks: failed, failed_files });
        assert(tv.summaries =~= Seq::<SummaryV>::empty());
        assert(tv.failed_files =~= Seq::<Seq<char>>::empty());
    }
    while i < outcomes.len()
        invariant
            i <= outcomes@.len(),
            failed <= i,
            tally(outcomes@.take(i as int)) == Ok::<TallyV, Seq<char>>(
                tally_view(MapTally { summaries, failed_chunks: failed, failed_files }),
            ),
        decreases outcomes@.len() - i,
    {
        let ghost before = tally_view(MapTally { summaries, failed_chunks: failed, failed_files });
        assert(outcomes@.take(i + 1).drop_last() =~= outcomes@.take(i as int));
        assert(outcomes@.take(i + 1).last() == outcomes@[i as int]);
        match &outcomes[i] {
            ChunkOutcome::Summarized { response, files } => {
                let text = string_from_chars(&trim_chars(&str_chars(response.as_str())));
                let kept = clone_strings(files);
                summaries.push(ChunkSummary { summary: text, files: kept });
                assert(tally_view(MapTally { summaries, failed_chunks: failed, failed_files }).summaries
                    =~= before.summaries.push((trim(response@), string_views(files@))));
            },
            ChunkOutcome::Failed { systemic, error, files } => {
                if *systemic {
                    let mut m = lit("Systemic provider failure detected - aborting pipeline: ");
                    extend_chars(&mut m, &str_chars(error.as_str()));
                    extend_chars(&mut m, &lit(". Files affected: "));
                    extend_chars(&mut m, &join_strings(files, ", "));
                    extend_chars(
                        &mut m,
                        &lit(
                            ". This typically indicates authentication issues, rate limit exhaustion, or invalid API keys.",
                        ),
                    );
                    proof {
                        lemma_tally_err_sticks(outcomes@, i as int + 1);
                    }
                    return Err(string_from_chars(&m));
                }
                failed = failed + 1;
                let mut j: usize = 0;
                let ghost base = failed_files@;
                while j < files.len()
                    invariant
                        j <= files@.len(),
                        failed_files@.len() == base.len() + j,
                        string_views(failed_files@) == string_views(base) + string_views(
                            files@,
                        ).take(j as int),
                    decreases files@.len() - j,
                {
                    let c = files[j].clone();
                    assert(c@ == files@[j as int]@);
                    let ghost old_f = failed_files@;
                    failed_files.push(c);
                    assert forall|k: int| 0 <= k < failed_files@.len() implies #[trigger] string_views(
                        failed_files@,
                    )[k] == (string_views(base) + string_views(files@).take(j + 1))[k] by {
                        if k < old_f.len() {
                            assert(string_views(old_f)[k] == (string_views(base) + string_views(
                                files@,
                            ).take(j as int))[k]);
                        }
                    }
                    assert(string_views(failed_files@) =~= string_views(base) + string_views(
                        files@,
                    ).take(j + 1));
                    j = j + 1;
                }
                assert(string_views(files@).take(files@.len() as int) =~= string_views(files@));
            },
        }
        i = i + 1;
    }
    assert(outcomes@.take(outcomes@.len() as int) =~= outcomes@);
    if summaries.len() == 0 {
        let mut m = lit("All ");
        extend_chars(&mut m, &decimal_chars(chunk_count));
        extend_chars(&mut m, &lit(" chunks failed to process. Files affected: "));
        extend_chars(&mut m, &join_strings(&failed_files, ", "));
        return Err(string_from_chars(&m));
    }
    Ok(MapTally { summaries, failed_chunks: failed, failed_files })
}

/// Once the tally of a prefix fails, the tally of every longer prefix fails
/// the same way.
proof fn lemma_tally_err_sticks(outs: Seq<ChunkOutcome>, k: int)
    requires
        0 <= k <= outs.len(),
        tally(outs.take(k)) is Err,
    ensures
        tally(outs) == tally(outs.take(k)),
    decreases outs.len() - k,
{
    if k < outs.len() {
        assert(outs.take(k + 1).drop_last() =~= outs.take(k));
        lemma_tally_err_sticks(outs, k + 1);
    } else {
        assert(outs.take(k) =~= outs);
    }
}

/// The views of summaries.
pub open spec fn summary_views(s: Seq<ChunkSummary>) -> Seq<SummaryV> {
    s.map_values(|c: ChunkSummary| summary_view(c))
}

/// `s` cut into consecutive batches of `size`, the last one possibly
/// shorter (as `slice::chunks` cuts it).
pub open spec fn in_batches<A>(s: Seq<A>, size: nat) -> Seq<Seq<A>>
    decreases s.len(),
{
    if s.len() == 0 || size == 0 {
        Seq::empty()
    } else if s.len() <= size {
        seq![s]
    } else {
        seq![s.take(size as int)] + in_batches(s.skip(size as int), size)
    }
}

fn clone_summary(c: &ChunkSummary) -> (r: ChunkSummary)
    ensures
        summary_view(r) == summary_view(*c),
{
    ChunkSummary { summary: c.summary.clone(), files: clone_strings(&c.files) }
}

/// The summaries in batches of at most `MAX_SUMMARIES_PER_INTENT_BATCH`,
/// in order.
pub fn intent_batches(summaries: &Vec<ChunkSummary>) -> (r: Vec<Vec<ChunkSummary>>)
    ensures
        r@.map_values(|b: Vec<ChunkSummary>| summary_views(b@)) == in_batches(
            summary_views(summaries@),
            MAX_SUMMARIES_PER_INTENT_BATCH as nat,
        ),
{
    let ghost all = summary_views(summaries@);
    let n = summaries.len();
    let mut out: Vec<Vec<ChunkSummary>> = Vec::new();
    let mut start: usize = 0;
    assert(all.skip(0) =~= all);
    while start < n
        invariant
            n == summaries@.len(),
            all == summary_views(summaries@),
            start <= n,
            out@.map_values(|b: Vec<ChunkSummary>| summary_views(b@)) + in_batches(
                all.skip(start as int),
                MAX_SUMMARIES_PER_INTENT_BATCH as nat,
            ) == in_batches(all, MAX_SUMMARIES_PER_INTENT_BATCH as nat),
        decreases n - start,
    {
        let end = if n - start <= MAX_SUMMARIES_PER_INTENT_BATCH {
            n
        } else {
            start + MAX_SUMMARIES_PER_INTENT_BATCH
        };
        let mut batch: Vec<ChunkSummary> = Vec::new();
        let mut k = start;
        while k < end
            invariant
                start <= k <= end <= n,
                n == summaries@.len(),
                all == summary_views(summaries@),
                batch@.len() == k - start,
                summary_views(batch@) == all.subrange(start as int, k as int),
            decreases end - k,
        {
            let c = clone_summary(&summaries[k]);
            batch.push(c);
            assert(summary_views(batch@) =~= all.subrange(start as int, k + 1));
            k = k + 1;
        }
        let ghost rest = all.skip(start as int);
        let ghost old_out = out@.map_values(|b: Vec<ChunkSummary>| summary_views(b@));
        proof {
            if end == n {
                assert(rest =~= all.subrange(start as int, end as int));
                assert(in_batches(rest, MAX_SUMMARIES_PER_INTENT_BATCH as nat) == seq![rest]);
                assert(all.skip(n as int) =~= Seq::<SummaryV>::empty());
            } else {
                assert(rest.take(MAX_SUMMARIES_PER_INTENT_BATCH as int) =~= all.subrange(
                    start as int,
                    end as int,
                ));
                assert(rest.skip(MAX_SUMMARIES_PER_INTENT_BATCH as int) =~= all.skip(end as int));
            }
        }
        out.push(batch);
        assert(out@.map_values(|b: Vec<ChunkSummary>| summary_views(b@)) =~= old_out.push(
            all.subrange(start as int, end as int),
        ));
        assert(old_out.push(all.subrange(start as int, end as int)) + in_batches(
            all.skip(end as int),
            MAX_SUMMARIES_PER_INTENT_BATCH as nat,
        ) =~= old_out + in_batches(rest, MAX_SUMMARIES_PER_INTENT_BATCH as nat));
        start = end;
    }
    assert(all.skip(n as int) =~= Seq::<SummaryV>::empty());
    assert(out@.map_values(|b: Vec<ChunkSummary>| summary_views(b@)) + Seq::<Seq<SummaryV>>::empty()
        =~= out@.map_values(|b: Vec<ChunkSummary>| summary_views(b@)));
    out
}

/// The sub-themes of all batches, batch after batch.
pub open spec fn all_sub_themes(bs: Seq<Vec<SubTheme>>) -> Seq<SubTheme>
    decreases bs.len(),
{
    if bs.len() == 0 {
        Seq::empty()
    } else {
        bs[0]@ + all_sub_themes(bs.drop_first())
    }
}

/// The catch-all theme made from the summaries.
pub open spec fn fallback_theme(s: Seq<ChunkSummary>) -> ThemeV {
    ("Code changes"@, join(summary_texts(s), "; "@), total_files(s) as nat, "chore"@)
}

/// The themes of a batched extraction: the batches' sub-themes merged,
/// unless no batch gave any, when the catch-all theme stands in for them and
/// the second result says so.
pub fn hierarchical_themes(summaries: &Vec<ChunkSummary>, batch_themes: Vec<Vec<SubTheme>>) -> (r:
    (Vec<Theme>, bool))
    requires
        total_files(summaries@) <= usize::MAX,
        all_files(sub_views(all_sub_themes(batch_themes@))) <= usize::MAX,
    ensures
        all_sub_themes(batch_themes@).len() == 0 ==> r.1 && theme_views(r.0@) == seq![
            fallback_theme(summaries@),
        ],
        all_sub_themes(batch_themes@).len() > 0 ==> !r.1 && theme_views(r.0@) == aggregated(
            sub_views(all_sub_themes(batch_themes@)),
        ),
{
    let ghost whole = all_sub_themes(batch_themes@);
    let mut rest = batch_themes;
    let mut all: Vec<SubTheme> = Vec::new();
    while rest.len() > 0
        invariant
            all@ + all_sub_themes(rest@) == whole,
        decreases rest@.len(),
    {
        let ghost before = rest@;
        let mut b = rest.remove(0);
        assert(rest@ =~= before.drop_first());
        all.append(&mut b);
        assert(all@ + all_sub_themes(rest@) =~= whole);
    }
    assert(all@ + Seq::<SubTheme>::empty() =~= all@);
    if all.len() == 0 {
        let themes = fallback_themes_from_summaries(summaries);
        assert(theme_views(themes@) =~= seq![fallback_theme(summaries@)]);
        (themes, true)
    } else {
        (aggregate_sub_themes(&all), false)
    }
}

/// Batching loses, repeats and reorders nothing: the batches, joined, are
/// the input, and each batch holds between one and `size` items.
pub proof fn law_batches_partition<A>(s: Seq<A>, size: nat)
    requires
        size > 0,
    ensures
        in_batches(s, size).flatten() == s,
        forall|b: int|
            0 <= b < in_batches(s, size).len() ==> 0 < #[trigger] in_batches(s, size)[b].len()
                <= size,
    decreases s.len(),
{
    if s.len() == 0 {
    } else if s.len() <= size {
        let bs = in_batches(s, size);
        assert(bs.drop_first() =~= Seq::<Seq<A>>::empty());
        assert(bs.drop_first().flatten() =~= Seq::<A>::empty());
        assert(bs.first() == s);
        assert(bs.first() + bs.drop_first().flatten() =~= s);
    } else {
        let rest = s.skip(size as int);
        law_batches_partition(rest, size);
        let bs = in_batches(s, size);
        assert(bs.drop_first() =~= in_batches(rest, size));
        assert(bs.first() == s.take(size as int));
        assert(s.take(size as int) + rest =~= s);
        assert forall|b: int| 0 <= b < bs.len() implies 0 < #[trigger] bs[b].len() <= size by {
            if b > 0 {
                assert(bs[b] == in_batches(rest, size)[b - 1]);
            }
        }
    }
}

/// Without a systemic failure, every outcome is accounted for: each is
/// either a kept summary or a failed chunk.
pub proof fn law_tally_accounts_for_every_chunk(outs: Seq<ChunkOutcome>)
    ensures
        tally(outs) matches Ok(t) ==> t.summaries.len() + t.failed == outs.len(),
    decreases outs.len(),
{
    if outs.len() > 0 {
        law_tally_accounts_for_every_chunk(outs.drop_last());
    }
}

} // verus!
