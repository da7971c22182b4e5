//! Decisions of the generation pipeline around the model calls: the API key
//! check, the message budget, the single-prompt fast path for chunks, and the
//! errors and warnings reported about the diff.
use vstd::prelude::*;
use crate::chunking::{ChunkV, DiffChunk, chunk_views, limited_path, should_limit_file};
use crate::diff_parsing::{extract_file_paths, header_paths};
use crate::orchestrator::{join, join_strings};
use crate::text::{
    decimal, decimal_chars, extend_chars, lines, lit, seq_starts_with, starts_with, str_chars,
    string_from_chars, string_views,
};
use crate::tokenizer::{TokenCount, Tokenizer};

verus! {

/// Why generation could not start, with the message shown to the user.
#[derive(Debug, Clone, PartialEq, Eq)]
pub struct GenerationError {
    pub message: String,
}

/// The message for a configuration without an API key.
pub open spec fn missing_key_message() -> Seq<char> {
    "API key not found in configuration. Add one with `christina profile add <name> --provider <provider> --model <model> --api-key <key>` or set `api_key` in your config file."@
}

/// The configured API key, which must be present and non-empty.
pub fn require_api_key(api_key: &Option<String>) -> (r: Result<String, GenerationError>)
    ensures
        match api_key {
            Some(k) => if k@.len() > 0 {
                r matches Ok(x) && x@ == k@
            } else {
                r matches Err(e) && e.message@ == missing_key_message()
            },
            None => r matches Err(e) && e.message@ == missing_key_message(),
        },
{
    match api_key {
        Some(k) => {
            let c = str_chars(k.as_str());
            if c.len() > 0 {
                return Ok(string_from_chars(&c));
            }
        },
        None => {},
    }
    Err(
        GenerationError {
            message: string_from_chars(
                &lit(
                    "API key not found in configuration. Add one with `christina profile add <name> --provider <provider> --model <model> --api-key <key>` or set `api_key` in your config file.",
                ),
            ),
        },
    )
}

/// The message for output and prompt reservations larger than the input.
pub open spec fn budget_message(input: nat, output: nat, prompt: nat) -> Seq<char> {
    "Invalid token budget: max_output ("@ + decimal(output) + ") + reserved_for_prompt ("@
        + decimal(prompt) + ") exceeds max_input ("@ + decimal(input) + ")"@
}

/// The tokens left for the user's context and the history: the input less
/// the output and the prompt reservation, which must not exceed it.
pub fn message_budget(max_input: u32, max_output: u32, reserved_for_prompt: u32) -> (r: Result<
    u32,
    GenerationError,
>)
    ensures
        max_output + reserved_for_prompt <= max_input ==> r == Ok::<u32, GenerationError>(
            (max_input - max_output - reserved_for_prompt) as u32,
        ),
        max_output + reserved_for_prompt > max_input ==> (r matches Err(e) && e.message@
            == budget_message(max_input as nat, max_output as nat, reserved_for_prompt as nat)),
{
    let rest = match max_input.checked_sub(max_output) {
        Some(a) => a.checked_sub(reserved_for_prompt),
        None => None,
    };
    match rest {
        Some(v) => Ok(v),
        None => {
            let mut m = lit("Invalid token budget: max_output (");
            extend_chars(&mut m, &decimal_chars(max_output as usize));
            extend_chars(&mut m, &lit(") + reserved_for_prompt ("));
            extend_chars(&mut m, &decimal_chars(reserved_for_prompt as usize));
            extend_chars(&mut m, &lit(") exceeds max_input ("));
            extend_chars(&mut m, &decimal_chars(max_input as usize));
            extend_chars(&mut m, &lit(")"));
            Err(GenerationError { message: string_from_chars(&m) })
        },
    }
}

/// The sum of the chunks' token counts.
pub open spec fn chunk_token_sum(cs: Seq<ChunkV>) -> nat
    decreases cs.len(),
{
    if cs.len() == 0 {
        0
    } else {
        chunk_token_sum(cs.drop_last()) + cs.last().2
    }
}

/// The total a token count reports for chunks: their sum, capped at the
/// largest `u32`, and at least one.
pub open spec fn chunks_total(cs: Seq<ChunkV>) -> nat {
    let s = chunk_token_sum(cs);
    let capped = if s > u32::MAX {
        u32::MAX as nat
    } else {
        s
    };
    if capped == 0 {
        1
    } else {
        capped
    }
}

/// The total token count of the chunks (see `chunks_total`).
pub fn chunks_total_tokens(chunks: &Vec<DiffChunk>) -> (t: TokenCount)
    ensures
        t.count() == chunks_total(chunk_views(chunks@)),
{
    let ghost cv = chunk_views(chunks@);
    let mut sum: u64 = 0;
    let mut capped = false;
    let mut i: usize = 0;
    while i < chunks.len()
        invariant
            cv == chunk_views(chunks@),
            i <= chunks@.len(),
            !capped ==> sum == chunk_token_sum(cv.take(i as int)) && sum <= u32::MAX,
            capped ==> chunk_token_sum(cv.take(i as int)) > u32::MAX,
        decreases chunks.len() - i,
    {
        assert(cv.take(i + 1).drop_last() =~= cv.take(i as int));
        assert(cv.take(i + 1).last() == chunks@[i as int]@);
        let t = chunks[i].token_count.get() as u64;
        if !capped {
            if sum + t > 0xffff_ffff {
                capped = true;
            } else {
                sum = sum + t;
            }
        }
        i = i + 1;
    }
    assert(cv.take(i as int) =~= cv);
    if capped {
        TokenCount::new_saturating(0xffff_ffff)
    } else {
        TokenCount::new_saturating(sum as u32)
    }
}

/// The file paths of the chunks, in order, with repeats.
pub open spec fn all_paths(cs: Seq<ChunkV>) -> Seq<Seq<char>>
    decreases cs.len(),
{
    if cs.len() == 0 {
        Seq::empty()
    } else {
        all_paths(cs.drop_last()) + cs.last().1
    }
}

/// The paths without repeats, each where it first occurs.
pub open spec fn first_occurrences(ps: Seq<Seq<char>>) -> Seq<Seq<char>>
    decreases ps.len(),
{
    if ps.len() == 0 {
        Seq::empty()
    } else {
        let prev = first_occurrences(ps.drop_last());
        if prev.contains(ps.last()) {
            prev
        } else {
            prev.push(ps.last())
        }
    }
}

/// The chunk contents.
pub open spec fn contents_of(cs: Seq<ChunkV>) -> Seq<Seq<char>> {
    cs.map_values(|c: ChunkV| c.0)
}

/// The single-prompt fast path: several chunks whose total fits the limit
/// become one chunk, their contents joined by blank lines, their files
/// without repeats, counted anew; otherwise the chunks stay as they are.
pub open spec fn merged_chunks<T: Tokenizer>(tok: T, cs: Seq<ChunkV>, limit: nat) -> Seq<ChunkV> {
    if cs.len() > 1 && chunks_total(cs) <= limit {
        let content = join(contents_of(cs), "\n\n"@);
        seq![(content, first_occurrences(all_paths(cs)), tok.count_spec(content))]
    } else {
        cs
    }
}

fn contains_string(v: &Vec<String>, s: &String) -> (b: bool)
    ensures
        b == string_views(v@).contains(s@),
{
    let sc = str_chars(s.as_str());
    let ghost sv = string_views(v@);
    let mut i: usize = 0;
    while i < v.len()
        invariant
            sv == string_views(v@),
            sc@ == s@,
            i <= v@.len(),
            forall|k: int| 0 <= k < i ==> sv[k] != s@,
        decreases v.len() - i,
    {
        let c = str_chars(v[i].as_str());
        assert(sv[i as int] == v@[i as int]@);
        if c.len() == sc.len() {
            let mut j: usize = 0;
            let mut same = true;
            while j < c.len() && same
                invariant
                    c@.len() == sc@.len(),
                    j <= c@.len(),
                    same ==> forall|q: int| 0 <= q < j ==> c@[q] == sc@[q],
                    !same ==> c@ != sc@,
                decreases c.len() - j,
            {
                if c[j] != sc[j] {
                    same = false;
                }
                j = j + 1;
            }
            if same {
                assert(c@ =~= sc@);
                assert(sv[i as int] == s@);
                return true;
            }
        }
        i = i + 1;
    }
    false
}

/// Applies the fast path (see `merged_chunks`).
pub fn merge_chunks<T: Tokenizer>(tokenizer: &T, chunks: Vec<DiffChunk>, token_limit: TokenCount) -> (r: Vec<DiffChunk>)
    ensures
        chunk_views(r@) == merged_chunks(*tokenizer, chunk_views(chunks@), token_limit.count()),
{
    let ghost cv = chunk_views(chunks@);
    let total = chunks_total_tokens(&chunks);
    if !(chunks.len() > 1 && total.get() <= token_limit.get()) {
        return chunks;
    }
    let mut texts: Vec<String> = Vec::new();
    let mut files: Vec<String> = Vec::new();
    let mut i: usize = 0;
    assert(cv.take(0) =~= Seq::<ChunkV>::empty());
    while i < chunks.len()
        invariant
            cv == chunk_views(chunks@),
            i <= chunks@.len(),
            string_views(texts@) == contents_of(cv.take(i as int)),
            string_views(files@) == first_occurrences(all_paths(cv.take(i as int))),
        decreases chunks.len() - i,
    {
        let c = &chunks[i];
        assert(cv.take(i + 1).drop_last() =~= cv.take(i as int));
        assert(cv.take(i + 1).last() == c@);
        let ghost before_t = texts@;
        texts.push(string_from_chars(&str_chars(c.content.as_str())));
        assert(string_views(texts@) =~= string_views(before_t).push(c.content@));
        assert(contents_of(cv.take(i + 1)) =~= contents_of(cv.take(i as int)).push(c.content@));
        let ghost prefix = all_paths(cv.take(i as int));
        let mut j: usize = 0;
        while j < c.file_paths.len()
            invariant
                j <= c.file_paths@.len(),
                string_views(files@) == first_occurrences(prefix + string_views(c.file_paths@).take(j as int)),
            decreases c.file_paths.len() - j,
        {
            let ghost ps = prefix + string_views(c.file_paths@).take(j as int);
            let ghost next = prefix + string_views(c.file_paths@).take(j + 1);
            assert(next.drop_last() =~= ps);
            assert(next.last() == c.file_paths@[j as int]@);
            let f = &c.file_paths[j];
            if !contains_string(&files, f) {
                let ghost bf = files@;
                files.push(string_from_chars(&str_chars(f.as_str())));
                assert(string_views(files@) =~= string_views(bf).push(f@));
            }
            j = j + 1;
        }
        assert(string_views(c.file_paths@).take(j as int) =~= string_views(c.file_paths@));
        assert(all_paths(cv.take(i + 1)) =~= prefix + string_views(c.file_paths@));
        i = i + 1;
    }
    assert(cv.take(i as int) =~= cv);
    let content = string_from_chars(&join_strings(&texts, "\n\n"));
    let tc = tokenizer.count_tokens(content.as_str());
    let mut out: Vec<DiffChunk> = Vec::new();
    out.push(DiffChunk { content, file_paths: files, token_count: tc });
    assert(chunk_views(out@) =~= merged_chunks(*tokenizer, cv, token_limit.count()));
    out
}

/// The marker with which the content of a binary file's chunk starts.
pub open spec fn binary_marker() -> Seq<char> {
    "[Binary file:"@
}

/// Every chunk is a binary-file notice (vacuously, when there are none).
pub fn is_binary_only(chunks: &Vec<DiffChunk>) -> (b: bool)
    ensures
        b == forall|i: int| 0 <= i < chunks@.len() ==> starts_with(#[trigger] chunks@[i].content@, binary_marker()),
{
    let marker = lit("[Binary file:");
    let mut i: usize = 0;
    while i < chunks.len()
        invariant
            marker@ == binary_marker(),
            i <= chunks@.len(),
            forall|k: int| 0 <= k < i ==> starts_with(#[trigger] chunks@[k].content@, binary_marker()),
        decreases chunks.len() - i,
    {
        if !seq_starts_with(&str_chars(chunks[i].content.as_str()), &marker) {
            return false;
        }
        i = i + 1;
    }
    true
}

/// The message when every staged file is ignored.
pub open spec fn all_ignored_message() -> Seq<char> {
    "All staged files are in ignore_files list. Update ignore_files in your config or stage other files."@
}

/// The message when the diff yields nothing to send.
pub open spec fn nothing_to_process_message() -> Seq<char> {
    "No processable diff content found"@
}

/// The error for a diff that produced no chunks: every file of the diff is
/// ignored (and there is at least one), or there was nothing to process.
pub fn empty_chunks_error(diff: &str, ignore_files: &Vec<String>) -> (e: GenerationError)
    ensures
        ({
            let paths = header_paths(lines(diff@));
            e.message@ == if paths.len() > 0 && (forall|i: int|
                0 <= i < paths.len() ==> limited_path(#[trigger] paths[i], string_views(ignore_files@))) {
                all_ignored_message()
            } else {
                nothing_to_process_message()
            }
        }),
{
    let paths = extract_file_paths(diff);
    let ghost pv = header_paths(lines(diff@));
    assert(string_views(paths@) == pv);
    let mut all = paths.len() > 0;
    let mut i: usize = 0;
    while i < paths.len() && all
        invariant
            string_views(paths@) == pv,
            i <= paths@.len(),
            all ==> paths@.len() > 0 && forall|k: int| 0 <= k < i ==> limited_path(#[trigger] pv[k], string_views(ignore_files@)),
            !all ==> !(pv.len() > 0 && (forall|k: int| 0 <= k < pv.len() ==> limited_path(#[trigger] pv[k], string_views(ignore_files@)))),
        decreases paths.len() - i,
    {
        assert(pv[i as int] == paths@[i as int]@);
        if !should_limit_file(paths[i].as_str(), ignore_files.as_slice()) {
            all = false;
        }
        i = i + 1;
    }
    if all {
        GenerationError { message: string_from_chars(&lit("All staged files are in ignore_files list. Update ignore_files in your config or stage other files.")) }
    } else {
        GenerationError { message: string_from_chars(&lit("No processable diff content found")) }
    }
}

/// The warning when context of some `kind` had to give way to the token
/// budget: shortened where some of it was kept, left out otherwise; none
/// where there was no context or it fit.
pub open spec fn budget_warning_text(kind: Seq<char>, had: bool, truncated: bool, kept: bool) -> Option<Seq<char>> {
    if truncated && had {
        if kept {
            Some(kind + " truncated to fit token budget."@)
        } else {
            Some(kind + " omitted to fit token budget."@)
        }
    } else {
        None
    }
}

/// The budget warning for context of `kind` (see `budget_warning_text`).
pub fn budget_warning(kind: &str, had: bool, truncated: bool, kept: bool) -> (r: Option<String>)
    ensures
        match budget_warning_text(kind@, had, truncated, kept) {
            Some(w) => r matches Some(x) && x@ == w,
            None => r is None,
        },
{
    if truncated && had {
        let mut w = str_chars(kind);
        if kept {
            extend_chars(&mut w, &lit(" truncated to fit token budget."));
        } else {
            extend_chars(&mut w, &lit(" omitted to fit token budget."));
        }
        Some(string_from_chars(&w))
    } else {
        None
    }
}

/// The steps of generating a message, in the order they are taken once the
/// API key is found: connect to the provider, process the diff, report the
/// chunks, report their token count, start analyzing, start generating, and
/// call the model.
#[derive(Debug, Clone, Copy, PartialEq, Eq, Structural)]
pub enum PipelineStep {
    Connect,
    ProcessDiff,
    ReportChunks,
    ReportTokens,
    Analyze,
    Generate,
    CallModel,
}

/// The step that follows `s`; the model call is the last.
pub open spec fn step_after(s: PipelineStep) -> PipelineStep {
    match s {
        PipelineStep::Connect => PipelineStep::ProcessDiff,
        PipelineStep::ProcessDiff => PipelineStep::ReportChunks,
        PipelineStep::ReportChunks => PipelineStep::ReportTokens,
        PipelineStep::ReportTokens => PipelineStep::Analyze,
        PipelineStep::Analyze => PipelineStep::Generate,
        PipelineStep::Generate => PipelineStep::CallModel,
        PipelineStep::CallModel => PipelineStep::CallModel,
    }
}

/// The message when the progress receiver went away.
pub open spec fn dropped_message() -> Seq<char> {
    "Progress receiver dropped, aborting generation"@
}

/// Where generation starts: with the configured API key (see
/// `require_api_key`), at the first step.
pub fn start_pipeline(api_key: &Option<String>) -> (r: Result<(String, PipelineStep), GenerationError>)
    ensures
        match api_key {
            Some(k) => if k@.len() > 0 {
                r matches Ok((x, s)) && x@ == k@ && s == PipelineStep::Connect
            } else {
                r matches Err(e) && e.message@ == missing_key_message()
            },
            None => r matches Err(e) && e.message@ == missing_key_message(),
        },
{
    match require_api_key(api_key) {
        Ok(k) => Ok((k, PipelineStep::Connect)),
        Err(e) => Err(e),
    }
}

/// The step after `step` once its progress report was handed over (`sent`);
/// a report that could not be handed over aborts generation.
pub fn next_pipeline_step(step: PipelineStep, sent: bool) -> (r: Result<PipelineStep, GenerationError>)
    ensures
        sent ==> r == Ok::<PipelineStep, GenerationError>(step_after(step)),
        !sent ==> (r matches Err(e) && e.message@ == dropped_message()),
{
    if !sent {
        return Err(
            GenerationError {
                message: string_from_chars(&lit("Progress receiver dropped, aborting generation")),
            },
        );
    }
    match step {
        PipelineStep::Connect => Ok(PipelineStep::ProcessDiff),
        PipelineStep::ProcessDiff => Ok(PipelineStep::ReportChunks),
        PipelineStep::ReportChunks => Ok(PipelineStep::ReportTokens),
        PipelineStep::ReportTokens => Ok(PipelineStep::Analyze),
        PipelineStep::Analyze => Ok(PipelineStep::Generate),
        PipelineStep::Generate => Ok(PipelineStep::CallModel),
        PipelineStep::CallModel => Ok(PipelineStep::CallModel),
    }
}

/// The progress stage shown at a step, for `chunk_count` chunks; steps that
/// report chunks or tokens, and the model call, show none.
pub open spec fn stage_text(step: PipelineStep, chunk_count: nat) -> Option<Seq<char>> {
    match step {
        PipelineStep::Connect => Some("connecting to provider"@),
        PipelineStep::ProcessDiff => Some("processing diff"@),
        PipelineStep::Analyze => Some(
            "analyzing "@ + decimal(chunk_count) + " chunk"@ + if chunk_count == 1 {
                ""@
            } else {
                "s"@
            },
        ),
        PipelineStep::Generate => Some("generating message"@),
        _ => None,
    }
}

/// The progress stage shown at `step` (see `stage_text`).
pub fn progress_stage(step: PipelineStep, chunk_count: usize) -> (r: Option<String>)
    ensures
        match r {
            Some(t) => stage_text(step, chunk_count as nat) == Some(t@),
            None => stage_text(step, chunk_count as nat) is None,
        },
{
    match step {
        PipelineStep::Connect => Some(string_from_chars(&lit("connecting to provider"))),
        PipelineStep::ProcessDiff => Some(string_from_chars(&lit("processing diff"))),
        PipelineStep::Analyze => {
            let mut t = lit("analyzing ");
            extend_chars(&mut t, &decimal_chars(chunk_count));
            extend_chars(&mut t, &lit(" chunk"));
            if chunk_count != 1 {
                extend_chars(&mut t, &lit("s"));
            } else {
                assert(t@ + ""@ =~= t@) by {
                    reveal_strlit("");
                }
            }
            Some(string_from_chars(&t))
        },
        PipelineStep::Generate => Some(string_from_chars(&lit("generating message"))),
        _ => None,
    }
}

/// The steps taken from `s` on, `n` of them.
pub open spec fn steps_from(s: PipelineStep, n: nat) -> Seq<PipelineStep>
    decreases n,
{
    if n == 0 {
        Seq::empty()
    } else {
        seq![s] + steps_from(step_after(s), (n - 1) as nat)
    }
}

/// Generation takes its steps in one fixed order, ending with the model
/// call.
pub proof fn law_pipeline_order()
    ensures
        steps_from(PipelineStep::Connect, 7) == seq![
            PipelineStep::Connect,
            PipelineStep::ProcessDiff,
            PipelineStep::ReportChunks,
            PipelineStep::ReportTokens,
            PipelineStep::Analyze,
            PipelineStep::Generate,
            PipelineStep::CallModel,
        ],
{
    reveal_with_fuel(steps_from, 8);
    assert(steps_from(PipelineStep::Connect, 7) =~= seq![
        PipelineStep::Connect,
        PipelineStep::ProcessDiff,
        PipelineStep::ReportChunks,
        PipelineStep::ReportTokens,
        PipelineStep::Analyze,
        PipelineStep::Generate,
        PipelineStep::CallModel,
    ]);
}

/// How an interactive generation starts.
#[derive(Debug, Clone, PartialEq, Eq)]
pub enum StartStep {
    /// Show this error and go to the error state.
    ShowError(String),
    /// Generate in the background for the repository at this path.
    Generate(String),
}

/// The first step of an interactive generation: without a repository work
/// directory there is nothing to generate from.
pub fn generation_start(repo_path: Option<String>) -> (s: StartStep)
    ensures
        match repo_path {
            None => s matches StartStep::ShowError(m) && m@ == "No git repository found"@,
            Some(p) => s == StartStep::Generate(p),
        },
{
    match repo_path {
        None => StartStep::ShowError(string_from_chars(&lit("No git repository found"))),
        Some(p) => StartStep::Generate(p),
    }
}

/// A failure to read the repository.
#[derive(Debug, Clone, PartialEq, Eq)]
pub enum GitErrorKind {
    NotFound,
    Locked,
    AuthFailed,
    Other(String),
    Git(String),
    GpgConfigInvalid(String),
    GpgSigningFailed(String),
}

/// The message shown for a failure to read the repository; `path_debug` is
/// the repository path as `{:?}` shows it.
pub open spec fn git_error_text(e: GitErrorKind, path_debug: Seq<char>) -> Seq<char> {
    match e {
        GitErrorKind::NotFound => "Repository no longer accessible at "@ + path_debug
            + ". It may have been moved or deleted."@,
        GitErrorKind::Locked => "Repository is locked (git operation in progress). Wait and try again."@,
        GitErrorKind::AuthFailed => "Authentication failed - check your Git credentials."@,
        GitErrorKind::Other(m) => m@,
        GitErrorKind::Git(m) => m@,
        GitErrorKind::GpgConfigInvalid(m) => m@,
        GitErrorKind::GpgSigningFailed(m) => m@,
    }
}

/// The message for a failure to read the repository (see `git_error_text`).
pub fn git_error_message(e: &GitErrorKind, path_debug: &str) -> (m: String)
    ensures
        m@ == git_error_text(*e, path_debug@),
{
    match e {
        GitErrorKind::NotFound => {
            let mut t = lit("Repository no longer accessible at ");
            extend_chars(&mut t, &str_chars(path_debug));
            extend_chars(&mut t, &lit(". It may have been moved or deleted."));
            string_from_chars(&t)
        },
        GitErrorKind::Locked => string_from_chars(
            &lit("Repository is locked (git operation in progress). Wait and try again."),
        ),
        GitErrorKind::AuthFailed => string_from_chars(
            &lit("Authentication failed - check your Git credentials."),
        ),
        GitErrorKind::Other(m) => string_from_chars(&str_chars(m.as_str())),
        GitErrorKind::Git(m) => string_from_chars(&str_chars(m.as_str())),
        GitErrorKind::GpgConfigInvalid(m) => string_from_chars(&str_chars(m.as_str())),
        GitErrorKind::GpgSigningFailed(m) => string_from_chars(&str_chars(m.as_str())),
    }
}

} // verus!
