//! The decisions of a grounded analysis: retrying and falling back between
//! models for the markdown stage, retrying the structure stage, and putting
//! the stored document together.

use vstd::prelude::*;
use crate::documents::{AnalysisDocument, QualityMode};
use crate::follow_up_answer::fallback_ready;
use crate::json::JsonValue;
use crate::model_a::ModelAOutput;
use crate::models::StructuredAnalysisDocument;
use crate::text::{
    ascii_lower, ascii_lower_exec, chars_of, contains, contains_lit, is_blank, owned, string_of,
    trim, trim_str,
};

verus! {

/// How many rounds the markdown stage runs before it gives up.
pub const HARD_FAILURE_RETRY_CYCLES: usize = 2;

/// The pause before another round, in milliseconds.
pub const HARD_FAILURE_RETRY_DELAY_MS: u64 = 1200;

/// How a streamed model call ended.
#[derive(Debug, Clone, Copy, PartialEq, Eq, Structural)]
pub enum StreamModelOutcome {
    /// The whole answer arrived.
    Success,
    /// The client went away.
    Canceled,
    /// A failure of the service before any text was sent on.
    Retriable,
    /// Any other failure.
    Fatal,
}

/// How a streamed call ended, from what happened: a call that could not
/// start fails retriably on a hard failure; a started stream that broke
/// because the client left is canceled, one that broke on a hard failure
/// before sending any text is retriable, any other break is fatal.
pub fn classify_stream(
    started: bool,
    finished: bool,
    receiver_dropped: bool,
    emitted_delta: bool,
    hard_failure: bool,
) -> (r: StreamModelOutcome)
    ensures
        !started ==> r == (if hard_failure {
            StreamModelOutcome::Retriable
        } else {
            StreamModelOutcome::Fatal
        }),
        started && finished ==> r == StreamModelOutcome::Success,
        started && !finished ==> r == (if receiver_dropped {
            StreamModelOutcome::Canceled
        } else if !emitted_delta && hard_failure {
            StreamModelOutcome::Retriable
        } else {
            StreamModelOutcome::Fatal
        }),
{
    if !started {
        if hard_failure {
            StreamModelOutcome::Retriable
        } else {
            StreamModelOutcome::Fatal
        }
    } else if finished {
        StreamModelOutcome::Success
    } else if receiver_dropped {
        StreamModelOutcome::Canceled
    } else if !emitted_delta && hard_failure {
        StreamModelOutcome::Retriable
    } else {
        StreamModelOutcome::Fatal
    }
}

/// Which model a call goes to.
#[derive(Debug, Clone, Copy, PartialEq, Eq, Structural)]
pub enum Stage2Model {
    Primary,
    Fallback,
}

/// What the markdown stage does next.
#[derive(Debug, Clone, Copy, PartialEq, Eq, Structural)]
pub enum Stage2Step {
    /// Keep the answer of this model.
    Done(Stage2Model),
    /// Call this model now, in the same round.
    Ask(Stage2Model),
    /// Pause, then call the primary model in the next round.
    RetryPrimary,
    /// Stop: the client left.
    Canceled,
    /// Stop with the failure.
    Fail,
}

/// Whether a fallback model is configured and differs from the primary one.
pub open spec fn has_fallback(primary_model: Seq<char>, fallback_model: Seq<char>) -> bool {
    fallback_model.len() > 0 && fallback_model != primary_model
}

/// The step of the streamed markdown stage (see `stream_stage2_next`).
pub open spec fn stream_stage2_step(
    cycle: int,
    model: Stage2Model,
    outcome: StreamModelOutcome,
    primary_model: Seq<char>,
    fallback_model: Seq<char>,
) -> Stage2Step {
    match outcome {
        StreamModelOutcome::Success => Stage2Step::Done(model),
        StreamModelOutcome::Canceled => Stage2Step::Canceled,
        StreamModelOutcome::Fatal => Stage2Step::Fail,
        StreamModelOutcome::Retriable => match model {
            Stage2Model::Primary => if has_fallback(primary_model, fallback_model) {
                Stage2Step::Ask(Stage2Model::Fallback)
            } else if cycle < HARD_FAILURE_RETRY_CYCLES {
                Stage2Step::RetryPrimary
            } else {
                Stage2Step::Fail
            },
            Stage2Model::Fallback => if cycle < HARD_FAILURE_RETRY_CYCLES {
                Stage2Step::RetryPrimary
            } else {
                Stage2Step::Fail
            },
        },
    }
}

/// The step of the markdown stage without streaming (see `stage2_next`).
pub open spec fn stage2_step(
    cycle: int,
    model: Stage2Model,
    ok: bool,
    hard_failure: bool,
    primary_model: Seq<char>,
    fallback_model: Seq<char>,
) -> Stage2Step {
    if ok {
        Stage2Step::Done(model)
    } else if model == Stage2Model::Fallback {
        Stage2Step::Fail
    } else if cycle < HARD_FAILURE_RETRY_CYCLES && hard_failure {
        Stage2Step::RetryPrimary
    } else if hard_failure && has_fallback(primary_model, fallback_model) {
        Stage2Step::Ask(Stage2Model::Fallback)
    } else {
        Stage2Step::Fail
    }
}

/// The fallback model the markdown stage may use.
pub open spec fn stage2_fallback(allow_fallback: bool, persisted: bool, fallback_model: Seq<char>) -> Seq<char> {
    if allow_fallback && !persisted {
        fallback_model
    } else {
        Seq::empty()
    }
}

/// Without a fallback allowed (the prewarm runs) or when the analysis
/// model comes from the saved settings, the markdown stage never asks a
/// fallback model, streamed or not: only the primary model's answer is
/// kept.
pub proof fn law_no_fallback_when_not_allowed(
    cycle: int,
    model: Stage2Model,
    ok: bool,
    hard_failure: bool,
    outcome: StreamModelOutcome,
    allow_fallback: bool,
    persisted: bool,
    primary_model: Seq<char>,
    fallback_model: Seq<char>,
)
    requires
        !allow_fallback || persisted,
    ensures
        stage2_step(cycle, model, ok, hard_failure, primary_model, stage2_fallback(allow_fallback, persisted, fallback_model))
            != Stage2Step::Ask(Stage2Model::Fallback),
        stream_stage2_step(cycle, model, outcome, primary_model, stage2_fallback(allow_fallback, persisted, fallback_model))
            != Stage2Step::Ask(Stage2Model::Fallback),
{
}

/// The streamed markdown stage after a call in round `cycle` (counted from
/// one): a retriable failure of the primary model goes to a configured,
/// different fallback model at once, else to another round while rounds
/// are left; a retriable failure of the fallback model starts another round
/// while rounds are left; anything else ends the stage.
pub fn stream_stage2_next(
    cycle: usize,
    model: Stage2Model,
    outcome: StreamModelOutcome,
    primary_model: &str,
    fallback_model: &str,
) -> (r: Stage2Step)
    ensures
        r == stream_stage2_step(cycle as int, model, outcome, primary_model@, fallback_model@),
        outcome == StreamModelOutcome::Success ==> r == Stage2Step::Done(model),
        outcome == StreamModelOutcome::Canceled ==> r == Stage2Step::Canceled,
        outcome == StreamModelOutcome::Fatal ==> r == Stage2Step::Fail,
        outcome == StreamModelOutcome::Retriable && model == Stage2Model::Primary ==> r == (
        if fallback_model@.len() > 0 && fallback_model@ != primary_model@ {
            Stage2Step::Ask(Stage2Model::Fallback)
        } else if cycle < HARD_FAILURE_RETRY_CYCLES {
            Stage2Step::RetryPrimary
        } else {
            Stage2Step::Fail
        }),
        outcome == StreamModelOutcome::Retriable && model == Stage2Model::Fallback ==> r == (if cycle
            < HARD_FAILURE_RETRY_CYCLES {
            Stage2Step::RetryPrimary
        } else {
            Stage2Step::Fail
        }),
{
    match outcome {
        StreamModelOutcome::Success => Stage2Step::Done(model),
        StreamModelOutcome::Canceled => Stage2Step::Canceled,
        StreamModelOutcome::Fatal => Stage2Step::Fail,
        StreamModelOutcome::Retriable => match model {
            Stage2Model::Primary => if fallback_ready(primary_model, fallback_model) {
                Stage2Step::Ask(Stage2Model::Fallback)
            } else if cycle < HARD_FAILURE_RETRY_CYCLES {
                Stage2Step::RetryPrimary
            } else {
                Stage2Step::Fail
            },
            Stage2Model::Fallback => if cycle < HARD_FAILURE_RETRY_CYCLES {
                Stage2Step::RetryPrimary
            } else {
                Stage2Step::Fail
            },
        },
    }
}

/// The markdown stage without streaming, after a call in round `cycle`: a
/// hard failure of the primary model starts another round while rounds are
/// left, then goes to a configured, different fallback model; the fallback
/// model's answer or failure ends the stage, as does any other failure.
pub fn stage2_next(cycle: usize, model: Stage2Model, ok: bool, hard_failure: bool, primary_model: &str, fallback_model: &str) -> (r:
    Stage2Step)
    ensures
        r == stage2_step(cycle as int, model, ok, hard_failure, primary_model@, fallback_model@),
        ok ==> r == Stage2Step::Done(model),
        !ok && model == Stage2Model::Fallback ==> r == Stage2Step::Fail,
        !ok && model == Stage2Model::Primary ==> r == (if cycle < HARD_FAILURE_RETRY_CYCLES
            && hard_failure {
            Stage2Step::RetryPrimary
        } else if hard_failure && fallback_model@.len() > 0 && fallback_model@ != primary_model@ {
            Stage2Step::Ask(Stage2Model::Fallback)
        } else {
            Stage2Step::Fail
        }),
{
    if ok {
        return Stage2Step::Done(model);
    }
    match model {
        Stage2Model::Fallback => Stage2Step::Fail,
        Stage2Model::Primary => if cycle < HARD_FAILURE_RETRY_CYCLES && hard_failure {
            Stage2Step::RetryPrimary
        } else if hard_failure && fallback_ready(primary_model, fallback_model) {
            Stage2Step::Ask(Stage2Model::Fallback)
        } else {
            Stage2Step::Fail
        },
    }
}

/// The fallback model of the markdown stage: none when falling back is not
/// allowed or the analysis model was chosen in the saved settings.
pub fn stage2_fallback_model<'a>(allow_fallback: bool, persisted: bool, fallback_model: &'a str) -> (r:
    &'a str)
    ensures
        r@ == stage2_fallback(allow_fallback, persisted, fallback_model@),
        allow_fallback && !persisted ==> r@ == fallback_model@,
        !(allow_fallback && !persisted) ==> r@.len() == 0,
{
    if allow_fallback && !persisted {
        fallback_model
    } else {
        proof {
            reveal_strlit("");
        }
        ""
    }
}

/// The structure model: the configured one, or "minimax-m2.5" when it is
/// blank.
pub fn structure_model_name(configured: &str) -> (r: String)
    ensures
        trim(configured@).len() == 0 ==> r@ == "minimax-m2.5"@,
        trim(configured@).len() > 0 ==> r@ == configured@,
{
    if is_blank(configured) {
        owned("minimax-m2.5")
    } else {
        owned(configured)
    }
}

// ---------------------------------------------------------------------------
// The structure stage
// ---------------------------------------------------------------------------

/// How often and how patiently the structure stage retries.
#[derive(Debug, Clone, Copy, PartialEq, Eq, Structural)]
pub struct StructureRetryPolicy {
    pub max_retries: usize,
    pub initial_delay_secs: u64,
    pub max_delay_secs: u64,
}

impl StructureRetryPolicy {
    /// Two retries, waiting 45 seconds and doubling up to 180.
    pub fn runtime_default() -> (r: Self)
        ensures
            r == (StructureRetryPolicy { max_retries: 2, initial_delay_secs: 45, max_delay_secs: 180 }),
    {
        StructureRetryPolicy { max_retries: 2, initial_delay_secs: 45, max_delay_secs: 180 }
    }

    /// No retry.
    pub fn no_retry() -> (r: Self)
        ensures
            r == (StructureRetryPolicy { max_retries: 0, initial_delay_secs: 0, max_delay_secs: 0 }),
    {
        StructureRetryPolicy { max_retries: 0, initial_delay_secs: 0, max_delay_secs: 0 }
    }
}

/// The next retry after a failed structure call: none when the failure is
/// not transient or the retries are used up; else the retry count, the
/// pause before the retry, and the next pause, doubled up to the maximum.
pub fn structure_retry_step(
    policy: StructureRetryPolicy,
    transient: bool,
    retries: usize,
    wait_secs: u64,
) -> (r: Option<(usize, u64, u64)>)
    ensures
        (!transient || retries >= policy.max_retries) ==> r is None,
        transient && retries < policy.max_retries ==> r == Some(
            (
                (retries + 1) as usize,
                wait_secs,
                (if (if wait_secs * 2 > u64::MAX { u64::MAX as int } else { wait_secs * 2 })
                    <= policy.max_delay_secs {
                    (if wait_secs * 2 > u64::MAX { u64::MAX as int } else { wait_secs * 2 })
                } else {
                    policy.max_delay_secs as int
                }) as u64,
            ),
        ),
{
    if !transient || retries >= policy.max_retries {
        return None;
    }
    let doubled: u64 = if wait_secs > u64::MAX / 2 {
        u64::MAX
    } else {
        wait_secs * 2
    };
    let next = if doubled <= policy.max_delay_secs {
        doubled
    } else {
        policy.max_delay_secs
    };
    Some((retries + 1, wait_secs, next))
}

/// Texts in an error message that mark a failure worth retrying.
pub open spec fn transient_marks() -> Seq<Seq<char>> {
    seq![
        "rate limit"@,
        "rate_limit"@,
        "too many requests"@,
        "temporarily unavailable"@,
        "overloaded"@,
        "empty response"@,
        "did not contain message content"@,
        "timeout"@,
        "timed out"@,
        "504"@,
        "503"@,
        "502"@,
        "429"@,
    ]
}

/// A structure failure is transient when it is a hard failure or its
/// message, in ASCII lower case, mentions overload, rate limits, timeouts,
/// an empty answer or a gateway status.
pub open spec fn transient_error(message: Seq<char>, hard_failure: bool) -> bool {
    hard_failure || exists|i: int|
        0 <= i < transient_marks().len() && contains(ascii_lower(message), #[trigger] transient_marks()[i])
}

pub fn is_structure_transient_error(message: &str, hard_failure: bool) -> (r: bool)
    ensures
        r == transient_error(message@, hard_failure),
{
    if hard_failure {
        return true;
    }
    let m = chars_of(message);
    let l = ascii_lower_exec(&m);
    let marks: [&str; 13] = [
        "rate limit",
        "rate_limit",
        "too many requests",
        "temporarily unavailable",
        "overloaded",
        "empty response",
        "did not contain message content",
        "timeout",
        "timed out",
        "504",
        "503",
        "502",
        "429",
    ];
    assert(marks@.map_values(|s: &str| s@) =~= transient_marks());
    let mut i: usize = 0;
    while i < 13
        invariant
            0 <= i <= 13,
            l@ == ascii_lower(message@),
            marks@.map_values(|s: &str| s@) == transient_marks(),
            forall|j: int| 0 <= j < i ==> !contains(ascii_lower(message@), #[trigger] transient_marks()[j]),
        decreases 13 - i,
    {
        assert(transient_marks()[i as int] == marks@[i as int]@);
        if contains_lit(&l, marks[i]) {
            return true;
        }
        i = i + 1;
    }
    false
}

/// The message when model A found no lexical branch.
pub fn require_lexical_branches(output: ModelAOutput) -> (r: Result<ModelAOutput, String>)
    ensures
        output.entries@.len() == 0 ==> (r is Err && r->Err_0@ == "model A returned no lexical branches"@),
        output.entries@.len() > 0 ==> r == Ok::<ModelAOutput, String>(output),
{
    if output.entries.len() == 0 {
        Err(owned("model A returned no lexical branches"))
    } else {
        Ok(output)
    }
}

/// The stored document of a grounded analysis: the markdown trimmed, the
/// structured document, the dictionary excerpt, the model and tier, with
/// the target as prototype.
pub fn build_grounded_document(
    target_query: &str,
    markdown: &str,
    structured: StructuredAnalysisDocument,
    dictionary_excerpt: Option<JsonValue>,
    quality_mode: QualityMode,
    model: &str,
) -> (r: AnalysisDocument)
    ensures
        r.markdown@ == trim(markdown@),
        r.structured == Some(structured),
        r.tags@.len() == 0,
        r.aliases@.len() == 0,
        r.prototype is Some && r.prototype.unwrap()@ == target_query@,
        r.attached_phrase_modules@.len() == 0,
        r.dictionary_excerpt == dictionary_excerpt,
        r.model is Some && r.model.unwrap()@ == model@,
        r.quality_mode == Some(quality_mode),
{
    AnalysisDocument {
        markdown: trim_str(markdown),
        structured: Some(structured),
        tags: Vec::new(),
        aliases: Vec::new(),
        prototype: Some(owned(target_query)),
        attached_phrase_modules: Vec::new(),
        dictionary_excerpt,
        model: Some(owned(model)),
        quality_mode: Some(quality_mode),
    }
}

/// The facts' first pronunciation, empty without one.
pub open spec fn facts_ipa(dictionary_facts: Option<&JsonValue>) -> Seq<char> {
    match dictionary_facts {
        Some(f) => match crate::grounded_assembly::facts_first_ipa(*f) {
            Some(x) => x,
            None => Seq::empty(),
        },
        None => Seq::empty(),
    }
}

/// The structured document after the structure model answered: its
/// parsed answer normalized (refused when nothing is left), merged with
/// the parse of the markdown, checked against the markdown, and put
/// together with the stage-one branches and the dictionary facts.
pub fn finish_structure(
    target_query: &str,
    markdown: &str,
    extracted: StructuredAnalysisDocument,
    dictionary_facts: Option<&JsonValue>,
    stage1_output: &ModelAOutput,
) -> (r: Result<StructuredAnalysisDocument, String>)
    ensures
        ({
            let n = crate::structure_transform::normalized_doc(extracted@, target_query@);
            let merged = crate::structure_transform::merge_doc(
                n,
                crate::structure_seed::structure_seed(target_query@, markdown@),
            );
            &&& crate::structure_transform::doc_is_blank(n) ==> (r is Err && r->Err_0@
                == "structure extraction returned empty document"@)
            &&& !crate::structure_transform::doc_is_blank(n) && crate::structure_quality::capture_error(
                markdown@,
                merged,
            ) is Some ==> (r is Err && r->Err_0@ == "structure quality gate rejected payload: "@
                + crate::structure_quality::capture_error(markdown@, merged).unwrap())
            &&& !crate::structure_transform::doc_is_blank(n) && crate::structure_quality::capture_error(
                markdown@,
                merged,
            ) is None ==> (r is Ok && r->Ok_0@ == crate::grounded_assembly::grounded_doc(
                target_query@,
                facts_ipa(dictionary_facts),
                crate::model_a::entry_views(stage1_output.entries@),
                merged,
            ))
        }),
{
    let seed = crate::structure_seed::build_structure_seed(target_query, markdown);
    let normalized = match crate::structure_transform::normalize_structured_analysis(
        Some(extracted),
        target_query,
    ) {
        Some(d) => d,
        None => {
            return Err(owned("structure extraction returned empty document"));
        },
    };
    let merged = crate::structure_transform::merge_structured_with_seed(normalized, &seed);
    match crate::structure_quality::validate_structured_capture(markdown, &merged) {
        Err(reason) => {
            let mut m = chars_of("structure quality gate rejected payload: ");
            crate::text::extend_str(&mut m, reason.as_str());
            return Err(string_of(&m));
        },
        Ok(_) => {},
    }
    Ok(
        crate::grounded_assembly::assemble_grounded_structured_document(
            target_query,
            dictionary_facts,
            stage1_output,
            merged,
        ),
    )
}

} // verus!
