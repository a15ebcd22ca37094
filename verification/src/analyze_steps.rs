//! The order of an analysis request, plain or streamed, as a state
//! machine: which lookup runs next, when a stored entry answers, when the
//! request ends without a dictionary candidate, and when a new analysis is
//! generated and stored. The caller performs each action and hands back what
//! came of it as the next event.

use vstd::prelude::*;
use crate::analyze_flow::{
    existing_entry_lookup, is_stream_canceled, needs_form_lookup, prototype_of, quality_label,
    request_query, resolve_prototype, tier_label, AnalysisMode, AnalyzeError, DictionaryHit,
    EntryChoice, ExistingLookup,
};
use crate::documents::QualityMode;
use crate::text::{chars_of, contains, owned, same, trim};

verus! {

/// Where an analysis request stands.
#[derive(Debug, Clone, Copy, PartialEq, Eq, Structural)]
pub enum AnalyzeStage {
    Start,
    AwaitStoredByQuery,
    AwaitExact,
    AwaitForm,
    AwaitExisting,
    AwaitStoredByPrototype,
    AwaitStoredAlias,
    AwaitStoredComplete,
    AwaitModel,
    AwaitGenerationMeta,
    AwaitAnalysis,
    AwaitPersist,
    AwaitFreshAlias,
    Finished,
}

/// A stored knowledge entry found by a lookup: its id and the model its
/// analysis names.
#[derive(Debug)]
pub struct StoredHit {
    pub id: i64,
    pub model: Option<String>,
}

/// What an analysis request knows so far.
#[derive(Debug)]
pub struct AnalyzeState {
    pub stage: AnalyzeStage,
    /// Whether the answer goes out as a stream of frames.
    pub streamed: bool,
    pub mode: AnalysisMode,
    pub quality: QualityMode,
    pub force_refresh: bool,
    /// The stored entry the request asks to overwrite.
    pub entry_id: Option<i64>,
    /// The query trimmed.
    pub query: String,
    /// The model named when a stored analysis names none.
    pub default_model: String,
    /// The entry with the query as headword.
    pub exact: Option<DictionaryHit>,
    /// The text analysed.
    pub prototype: String,
    /// Which dictionary entry grounds the analysis.
    pub entry: EntryChoice,
    /// The stored entry a new analysis overwrites.
    pub existing: Option<i64>,
    /// The entry answered with.
    pub stored: i64,
    /// The model named by the stored entry answered with.
    pub stored_model: Option<String>,
}

/// What came of the last action.
#[derive(Debug)]
pub enum AnalyzeEvent {
    /// The request begins.
    Start,
    /// A knowledge lookup answered.
    StoredLookup(Option<StoredHit>),
    /// A dictionary lookup answered.
    DictionaryLookup(Option<DictionaryHit>),
    /// The model for the analysis task was resolved.
    ModelResolved(String),
    /// An action without a result was carried out.
    Done,
    /// The analysis was generated or built.
    Generated,
    /// The generation failed with this message.
    GenerationError(String),
    /// The client of a stream went away.
    ClientGone,
    /// The analysis was stored under this id.
    Persisted(i64),
}

/// What the caller does next.
#[derive(Debug)]
pub enum AnalyzeAction {
    /// Look up the knowledge entry stored under the query.
    FindStoredByQuery,
    /// Look up the dictionary entry with the query as headword.
    FindHeadword,
    /// Look up the dictionary entry that lists the query as a form.
    FindForm,
    /// Look up the stored entry with this id, to be overwritten.
    FindExistingById(i64),
    /// Look up the entry stored under the prototype, to be overwritten.
    FindExistingByPrototype,
    /// Look up the knowledge entry stored under the prototype.
    FindStoredByPrototype,
    /// Add the query as an alias of this entry.
    AddAlias(i64),
    /// Resolve the model of the analysis task.
    ResolveModel,
    /// Send the meta frame of a stream.
    SendMeta { model: String, source: String },
    /// Answer with the stored entry; `remember` adds it to the recent
    /// searches.
    AnswerStored { entry_id: i64, remember: bool },
    /// Answer that no reliable dictionary candidate was found.
    AnswerNoCandidate,
    /// Build a compact analysis of the prototype from its dictionary entry.
    BuildCompact,
    /// Generate a grounded analysis of the prototype.
    Generate,
    /// Store the analysis, over the existing entry when there is one.
    Persist { existing: Option<i64> },
    /// Answer with the analysis just stored.
    AnswerFresh { entry_id: i64, remember: bool },
    /// End without an answer: the client went away.
    Stop,
    /// The request fails.
    Fail,
    /// The event does not fit the stage.
    Unexpected,
}

// ---------------------------------------------------------------------------
// The model of the steps
// ---------------------------------------------------------------------------

/// The state by its plain values.
pub struct AnalyzeStateV {
    pub stage: AnalyzeStage,
    pub streamed: bool,
    pub mode: AnalysisMode,
    pub quality: QualityMode,
    pub force_refresh: bool,
    pub entry_id: Option<i64>,
    pub query: Seq<char>,
    pub default_model: Seq<char>,
    pub exact: Option<(Seq<char>, bool)>,
    pub prototype: Seq<char>,
    pub entry: EntryChoice,
    pub existing: Option<i64>,
    pub stored: i64,
    pub stored_model: Option<Seq<char>>,
}

pub enum AnalyzeEventV {
    Start,
    StoredLookup(Option<(i64, Option<Seq<char>>)>),
    DictionaryLookup(Option<(Seq<char>, bool)>),
    ModelResolved(Seq<char>),
    Done,
    Generated,
    GenerationError(Seq<char>),
    ClientGone,
    Persisted(i64),
}

pub enum AnalyzeActionV {
    FindStoredByQuery,
    FindHeadword,
    FindForm,
    FindExistingById(i64),
    FindExistingByPrototype,
    FindStoredByPrototype,
    AddAlias(i64),
    ResolveModel,
    SendMeta { model: Seq<char>, source: Seq<char> },
    AnswerStored { entry_id: i64, remember: bool },
    AnswerNoCandidate,
    BuildCompact,
    Generate,
    Persist { existing: Option<i64> },
    AnswerFresh { entry_id: i64, remember: bool },
    Stop,
    Fail,
    Unexpected,
}

pub open spec fn opt_text(o: Option<String>) -> Option<Seq<char>> {
    match o {
        Some(s) => Some(s@),
        None => None,
    }
}

pub open spec fn opt_hit(o: Option<DictionaryHit>) -> Option<(Seq<char>, bool)> {
    match o {
        Some(h) => Some((h.headword@, h.is_form_reference)),
        None => None,
    }
}

pub open spec fn analyze_state_view(s: AnalyzeState) -> AnalyzeStateV {
    AnalyzeStateV {
        stage: s.stage,
        streamed: s.streamed,
        mode: s.mode,
        quality: s.quality,
        force_refresh: s.force_refresh,
        entry_id: s.entry_id,
        query: s.query@,
        default_model: s.default_model@,
        exact: opt_hit(s.exact),
        prototype: s.prototype@,
        entry: s.entry,
        existing: s.existing,
        stored: s.stored,
        stored_model: opt_text(s.stored_model),
    }
}

pub open spec fn analyze_event_view(e: AnalyzeEvent) -> AnalyzeEventV {
    match e {
        AnalyzeEvent::Start => AnalyzeEventV::Start,
        AnalyzeEvent::StoredLookup(h) => AnalyzeEventV::StoredLookup(
            match h {
                Some(x) => Some((x.id, opt_text(x.model))),
                None => None,
            },
        ),
        AnalyzeEvent::DictionaryLookup(h) => AnalyzeEventV::DictionaryLookup(opt_hit(h)),
        AnalyzeEvent::ModelResolved(m) => AnalyzeEventV::ModelResolved(m@),
        AnalyzeEvent::Done => AnalyzeEventV::Done,
        AnalyzeEvent::Generated => AnalyzeEventV::Generated,
        AnalyzeEvent::GenerationError(m) => AnalyzeEventV::GenerationError(m@),
        AnalyzeEvent::ClientGone => AnalyzeEventV::ClientGone,
        AnalyzeEvent::Persisted(id) => AnalyzeEventV::Persisted(id),
    }
}

pub open spec fn analyze_action_view(a: AnalyzeAction) -> AnalyzeActionV {
    match a {
        AnalyzeAction::FindStoredByQuery => AnalyzeActionV::FindStoredByQuery,
        AnalyzeAction::FindHeadword => AnalyzeActionV::FindHeadword,
        AnalyzeAction::FindForm => AnalyzeActionV::FindForm,
        AnalyzeAction::FindExistingById(id) => AnalyzeActionV::FindExistingById(id),
        AnalyzeAction::FindExistingByPrototype => AnalyzeActionV::FindExistingByPrototype,
        AnalyzeAction::FindStoredByPrototype => AnalyzeActionV::FindStoredByPrototype,
        AnalyzeAction::AddAlias(id) => AnalyzeActionV::AddAlias(id),
        AnalyzeAction::ResolveModel => AnalyzeActionV::ResolveModel,
        AnalyzeAction::SendMeta { model, source } => AnalyzeActionV::SendMeta {
            model: model@,
            source: source@,
        },
        AnalyzeAction::AnswerStored { entry_id, remember } => AnalyzeActionV::AnswerStored {
            entry_id,
            remember,
        },
        AnalyzeAction::AnswerNoCandidate => AnalyzeActionV::AnswerNoCandidate,
        AnalyzeAction::BuildCompact => AnalyzeActionV::BuildCompact,
        AnalyzeAction::Generate => AnalyzeActionV::Generate,
        AnalyzeAction::Persist { existing } => AnalyzeActionV::Persist { existing },
        AnalyzeAction::AnswerFresh { entry_id, remember } => AnalyzeActionV::AnswerFresh {
            entry_id,
            remember,
        },
        AnalyzeAction::Stop => AnalyzeActionV::Stop,
        AnalyzeAction::Fail => AnalyzeActionV::Fail,
        AnalyzeAction::Unexpected => AnalyzeActionV::Unexpected,
    }
}

pub open spec fn at_stage(s: AnalyzeStateV, stage: AnalyzeStage) -> AnalyzeStateV {
    AnalyzeStateV { stage, ..s }
}

/// The answer from the stored entry: a stream sends the meta frame, naming
/// the stored model or else the default one, and then the entry; a plain
/// request answers with the entry and remembers it.
pub open spec fn stored_answer(s: AnalyzeStateV) -> (AnalyzeStateV, AnalyzeActionV) {
    if s.streamed {
        (
            at_stage(s, AnalyzeStage::AwaitStoredComplete),
            AnalyzeActionV::SendMeta {
                model: match s.stored_model {
                    Some(m) => m,
                    None => s.default_model,
                },
                source: "知识库"@,
            },
        )
    } else {
        (
            at_stage(s, AnalyzeStage::Finished),
            AnalyzeActionV::AnswerStored { entry_id: s.stored, remember: true },
        )
    }
}

/// Once no stored entry answers: without a dictionary entry the request
/// ends with the no-candidate answer; a stream resolves the model for its
/// meta frame; a plain request builds a compact analysis or generates a
/// full one.
pub open spec fn after_stored_check(s: AnalyzeStateV) -> (AnalyzeStateV, AnalyzeActionV) {
    if s.entry == EntryChoice::Missing {
        (at_stage(s, AnalyzeStage::Finished), AnalyzeActionV::AnswerNoCandidate)
    } else if s.streamed {
        (at_stage(s, AnalyzeStage::AwaitModel), AnalyzeActionV::ResolveModel)
    } else if s.mode == AnalysisMode::Compact {
        (at_stage(s, AnalyzeStage::AwaitAnalysis), AnalyzeActionV::BuildCompact)
    } else {
        (at_stage(s, AnalyzeStage::AwaitAnalysis), AnalyzeActionV::Generate)
    }
}

/// Once the entry to overwrite is known: unless the request forces a
/// refresh, the entry stored under the prototype is looked up.
pub open spec fn after_existing(s: AnalyzeStateV) -> (AnalyzeStateV, AnalyzeActionV) {
    if !s.force_refresh {
        (at_stage(s, AnalyzeStage::AwaitStoredByPrototype), AnalyzeActionV::FindStoredByPrototype)
    } else {
        after_stored_check(s)
    }
}

/// Once the dictionary was asked: the prototype is chosen, then the entry
/// to overwrite is looked up by the requested id, or under the prototype
/// on a forced refresh.
pub open spec fn after_resolution(s: AnalyzeStateV, form: Option<(Seq<char>, bool)>) -> (
    AnalyzeStateV,
    AnalyzeActionV,
) {
    let (p, e) = prototype_of(s.query, s.exact, form);
    let t = AnalyzeStateV { prototype: p, entry: e, ..s };
    match s.entry_id {
        Some(id) => (at_stage(t, AnalyzeStage::AwaitExisting), AnalyzeActionV::FindExistingById(id)),
        None => if s.force_refresh {
            (at_stage(t, AnalyzeStage::AwaitExisting), AnalyzeActionV::FindExistingByPrototype)
        } else {
            after_existing(AnalyzeStateV { existing: None, ..t })
        },
    }
}

/// The answer with the analysis just stored.
pub open spec fn fresh_answer(s: AnalyzeStateV) -> (AnalyzeStateV, AnalyzeActionV) {
    (
        at_stage(s, AnalyzeStage::Finished),
        AnalyzeActionV::AnswerFresh { entry_id: s.stored, remember: !s.streamed },
    )
}

/// One step of an analysis request.
pub open spec fn analyze_step(s: AnalyzeStateV, e: AnalyzeEventV) -> (AnalyzeStateV, AnalyzeActionV) {
    let unexpected = (s, AnalyzeActionV::Unexpected);
    match s.stage {
        AnalyzeStage::Start => match e {
            AnalyzeEventV::Start => if !s.force_refresh {
                (at_stage(s, AnalyzeStage::AwaitStoredByQuery), AnalyzeActionV::FindStoredByQuery)
            } else {
                (at_stage(s, AnalyzeStage::AwaitExact), AnalyzeActionV::FindHeadword)
            },
            _ => unexpected,
        },
        AnalyzeStage::AwaitStoredByQuery => match e {
            AnalyzeEventV::StoredLookup(Some(h)) => stored_answer(
                AnalyzeStateV { stored: h.0, stored_model: h.1, ..s },
            ),
            AnalyzeEventV::StoredLookup(None) => (
                at_stage(s, AnalyzeStage::AwaitExact),
                AnalyzeActionV::FindHeadword,
            ),
            _ => unexpected,
        },
        AnalyzeStage::AwaitExact => match e {
            AnalyzeEventV::DictionaryLookup(x) => {
                let t = AnalyzeStateV { exact: x, ..s };
                if x is None || x.unwrap().1 {
                    (at_stage(t, AnalyzeStage::AwaitForm), AnalyzeActionV::FindForm)
                } else {
                    after_resolution(t, None)
                }
            },
            _ => unexpected,
        },
        AnalyzeStage::AwaitForm => match e {
            AnalyzeEventV::DictionaryLookup(f) => after_resolution(s, f),
            _ => unexpected,
        },
        AnalyzeStage::AwaitExisting => match e {
            AnalyzeEventV::StoredLookup(h) => after_existing(
                AnalyzeStateV {
                    existing: match h {
                        Some(x) => Some(x.0),
                        None => None,
                    },
                    ..s
                },
            ),
            _ => unexpected,
        },
        AnalyzeStage::AwaitStoredByPrototype => match e {
            AnalyzeEventV::StoredLookup(Some(h)) => {
                let t = AnalyzeStateV { stored: h.0, stored_model: h.1, ..s };
                if s.prototype != s.query {
                    (at_stage(t, AnalyzeStage::AwaitStoredAlias), AnalyzeActionV::AddAlias(h.0))
                } else {
                    stored_answer(t)
                }
            },
            AnalyzeEventV::StoredLookup(None) => after_stored_check(s),
            _ => unexpected,
        },
        AnalyzeStage::AwaitStoredAlias => match e {
            AnalyzeEventV::Done => stored_answer(s),
            _ => unexpected,
        },
        AnalyzeStage::AwaitStoredComplete => match e {
            AnalyzeEventV::Done => (
                at_stage(s, AnalyzeStage::Finished),
                AnalyzeActionV::AnswerStored { entry_id: s.stored, remember: false },
            ),
            _ => unexpected,
        },
        AnalyzeStage::AwaitModel => match e {
            AnalyzeEventV::ModelResolved(m) => if s.streamed {
                (
                    at_stage(s, AnalyzeStage::AwaitGenerationMeta),
                    AnalyzeActionV::SendMeta { model: m, source: tier_label(s.quality) },
                )
            } else {
                unexpected
            },
            _ => unexpected,
        },
        AnalyzeStage::AwaitGenerationMeta => match e {
            AnalyzeEventV::Done => (at_stage(s, AnalyzeStage::AwaitAnalysis), AnalyzeActionV::Generate),
            _ => unexpected,
        },
        AnalyzeStage::AwaitAnalysis => match e {
            AnalyzeEventV::Generated => (
                at_stage(s, AnalyzeStage::AwaitPersist),
                AnalyzeActionV::Persist { existing: s.existing },
            ),
            AnalyzeEventV::GenerationError(m) => (
                at_stage(s, AnalyzeStage::Finished),
                if s.streamed && contains(m, "stream analyze canceled by client"@) {
                    AnalyzeActionV::Stop
                } else {
                    AnalyzeActionV::Fail
                },
            ),
            AnalyzeEventV::ClientGone => if s.streamed {
                (at_stage(s, AnalyzeStage::Finished), AnalyzeActionV::Stop)
            } else {
                unexpected
            },
            _ => unexpected,
        },
        AnalyzeStage::AwaitPersist => match e {
            AnalyzeEventV::Persisted(id) => {
                let t = AnalyzeStateV { stored: id, ..s };
                if s.prototype != s.query {
                    (at_stage(t, AnalyzeStage::AwaitFreshAlias), AnalyzeActionV::AddAlias(id))
                } else {
                    fresh_answer(t)
                }
            },
            _ => unexpected,
        },
        AnalyzeStage::AwaitFreshAlias => match e {
            AnalyzeEventV::Done => fresh_answer(s),
            _ => unexpected,
        },
        AnalyzeStage::Finished => unexpected,
    }
}

// ---------------------------------------------------------------------------
// The steps
// ---------------------------------------------------------------------------

/// The state before the first step.
pub open spec fn initial_analysis(
    query: Seq<char>,
    mode: AnalysisMode,
    quality: QualityMode,
    force_refresh: bool,
    entry_id: Option<i64>,
    default_model: Seq<char>,
    streamed: bool,
) -> AnalyzeStateV {
    AnalyzeStateV {
        stage: AnalyzeStage::Start,
        streamed,
        mode,
        quality,
        force_refresh,
        entry_id,
        query,
        default_model,
        exact: None,
        prototype: query,
        entry: EntryChoice::Missing,
        existing: None,
        stored: 0,
        stored_model: None,
    }
}

/// An analysis request for the raw query, refused when the query is blank.
/// A streamed request always generates a full analysis, whatever the mode.
pub fn start_analysis(
    raw_query: &str,
    mode: AnalysisMode,
    quality: QualityMode,
    force_refresh: bool,
    entry_id: Option<i64>,
    default_model: &str,
    streamed: bool,
) -> (r: Result<AnalyzeState, AnalyzeError>)
    ensures
        r is Err <==> trim(raw_query@).len() == 0,
        r matches Ok(s) ==> analyze_state_view(s) == initial_analysis(
            trim(raw_query@),
            mode,
            quality,
            force_refresh,
            entry_id,
            default_model@,
            streamed,
        ),
{
    let query = match request_query(raw_query) {
        Ok(q) => q,
        Err(e) => {
            return Err(e);
        },
    };
    let prototype = owned(query.as_str());
    Ok(
        AnalyzeState {
            stage: AnalyzeStage::Start,
            streamed,
            mode,
            quality,
            force_refresh,
            entry_id,
            query,
            default_model: owned(default_model),
            exact: None,
            prototype,
            entry: EntryChoice::Missing,
            existing: None,
            stored: 0,
            stored_model: None,
        },
    )
}

fn stored_answer_exec(s: &mut AnalyzeState) -> (r: AnalyzeAction)
    ensures
        (analyze_state_view(*final(s)), analyze_action_view(r)) == stored_answer(
            analyze_state_view(*old(s)),
        ),
{
    if s.streamed {
        s.stage = AnalyzeStage::AwaitStoredComplete;
        let model = match &s.stored_model {
            Some(m) => owned(m.as_str()),
            None => owned(s.default_model.as_str()),
        };
        AnalyzeAction::SendMeta { model, source: owned("知识库") }
    } else {
        s.stage = AnalyzeStage::Finished;
        AnalyzeAction::AnswerStored { entry_id: s.stored, remember: true }
    }
}

fn after_stored_check_exec(s: &mut AnalyzeState) -> (r: AnalyzeAction)
    ensures
        (analyze_state_view(*final(s)), analyze_action_view(r)) == after_stored_check(
            analyze_state_view(*old(s)),
        ),
{
    if s.entry == EntryChoice::Missing {
        s.stage = AnalyzeStage::Finished;
        AnalyzeAction::AnswerNoCandidate
    } else if s.streamed {
        s.stage = AnalyzeStage::AwaitModel;
        AnalyzeAction::ResolveModel
    } else {
        s.stage = AnalyzeStage::AwaitAnalysis;
        match s.mode {
            AnalysisMode::Compact => AnalyzeAction::BuildCompact,
            AnalysisMode::Full => AnalyzeAction::Generate,
        }
    }
}

fn after_existing_exec(s: &mut AnalyzeState) -> (r: AnalyzeAction)
    ensures
        (analyze_state_view(*final(s)), analyze_action_view(r)) == after_existing(
            analyze_state_view(*old(s)),
        ),
{
    if !s.force_refresh {
        s.stage = AnalyzeStage::AwaitStoredByPrototype;
        AnalyzeAction::FindStoredByPrototype
    } else {
        after_stored_check_exec(s)
    }
}

fn after_resolution_exec(s: &mut AnalyzeState, form: Option<DictionaryHit>) -> (r: AnalyzeAction)
    ensures
        (analyze_state_view(*final(s)), analyze_action_view(r)) == after_resolution(
            analyze_state_view(*old(s)),
            opt_hit(form),
        ),
{
    let resolution = resolve_prototype(s.query.as_str(), s.exact.as_ref(), form.as_ref());
    s.prototype = resolution.prototype;
    s.entry = resolution.entry;
    match existing_entry_lookup(s.entry_id, s.force_refresh) {
        ExistingLookup::ById(id) => {
            s.stage = AnalyzeStage::AwaitExisting;
            AnalyzeAction::FindExistingById(id)
        },
        ExistingLookup::ByPrototype => {
            s.stage = AnalyzeStage::AwaitExisting;
            AnalyzeAction::FindExistingByPrototype
        },
        ExistingLookup::Skip => {
            s.existing = None;
            after_existing_exec(s)
        },
    }
}

fn fresh_answer_exec(s: &mut AnalyzeState) -> (r: AnalyzeAction)
    ensures
        (analyze_state_view(*final(s)), analyze_action_view(r)) == fresh_answer(
            analyze_state_view(*old(s)),
        ),
{
    s.stage = AnalyzeStage::Finished;
    AnalyzeAction::AnswerFresh { entry_id: s.stored, remember: !s.streamed }
}

/// The next action of an analysis request, given what came of the last
/// one; see `analyze_step`.
pub fn analyze_next(state: &mut AnalyzeState, event: AnalyzeEvent) -> (r: AnalyzeAction)
    ensures
        (analyze_state_view(*final(state)), analyze_action_view(r)) == analyze_step(
            analyze_state_view(*old(state)),
            analyze_event_view(event),
        ),
{
    match state.stage {
        AnalyzeStage::Start => match event {
            AnalyzeEvent::Start => if !state.force_refresh {
                state.stage = AnalyzeStage::AwaitStoredByQuery;
                AnalyzeAction::FindStoredByQuery
            } else {
                state.stage = AnalyzeStage::AwaitExact;
                AnalyzeAction::FindHeadword
            },
            _ => AnalyzeAction::Unexpected,
        },
        AnalyzeStage::AwaitStoredByQuery => match event {
            AnalyzeEvent::StoredLookup(Some(h)) => {
                state.stored = h.id;
                state.stored_model = h.model;
                stored_answer_exec(state)
            },
            AnalyzeEvent::StoredLookup(None) => {
                state.stage = AnalyzeStage::AwaitExact;
                AnalyzeAction::FindHeadword
            },
            _ => AnalyzeAction::Unexpected,
        },
        AnalyzeStage::AwaitExact => match event {
            AnalyzeEvent::DictionaryLookup(x) => {
                let ask_form = needs_form_lookup(x.as_ref());
                state.exact = x;
                if ask_form {
                    state.stage = AnalyzeStage::AwaitForm;
                    AnalyzeAction::FindForm
                } else {
                    after_resolution_exec(state, None)
                }
            },
            _ => AnalyzeAction::Unexpected,
        },
        AnalyzeStage::AwaitForm => match event {
            AnalyzeEvent::DictionaryLookup(f) => after_resolution_exec(state, f),
            _ => AnalyzeAction::Unexpected,
        },
        AnalyzeStage::AwaitExisting => match event {
            AnalyzeEvent::StoredLookup(h) => {
                state.existing = match h {
                    Some(x) => Some(x.id),
                    None => None,
                };
                after_existing_exec(state)
            },
            _ => AnalyzeAction::Unexpected,
        },
        AnalyzeStage::AwaitStoredByPrototype => match event {
            AnalyzeEvent::StoredLookup(Some(h)) => {
                let id = h.id;
                state.stored = id;
                state.stored_model = h.model;
                let p = chars_of(state.prototype.as_str());
                let q = chars_of(state.query.as_str());
                if !same(&p, &q) {
                    state.stage = AnalyzeStage::AwaitStoredAlias;
                    AnalyzeAction::AddAlias(id)
                } else {
                    stored_answer_exec(state)
                }
            },
            AnalyzeEvent::StoredLookup(None) => after_stored_check_exec(state),
            _ => AnalyzeAction::Unexpected,
        },
        AnalyzeStage::AwaitStoredAlias => match event {
            AnalyzeEvent::Done => stored_answer_exec(state),
            _ => AnalyzeAction::Unexpected,
        },
        AnalyzeStage::AwaitStoredComplete => match event {
            AnalyzeEvent::Done => {
                state.stage = AnalyzeStage::Finished;
                AnalyzeAction::AnswerStored { entry_id: state.stored, remember: false }
            },
            _ => AnalyzeAction::Unexpected,
        },
        AnalyzeStage::AwaitModel => match event {
            AnalyzeEvent::ModelResolved(m) => if state.streamed {
                state.stage = AnalyzeStage::AwaitGenerationMeta;
                AnalyzeAction::SendMeta { model: m, source: owned(quality_label(state.quality)) }
            } else {
                AnalyzeAction::Unexpected
            },
            _ => AnalyzeAction::Unexpected,
        },
        AnalyzeStage::AwaitGenerationMeta => match event {
            AnalyzeEvent::Done => {
                state.stage = AnalyzeStage::AwaitAnalysis;
                AnalyzeAction::Generate
            },
            _ => AnalyzeAction::Unexpected,
        },
        AnalyzeStage::AwaitAnalysis => match event {
            AnalyzeEvent::Generated => {
                state.stage = AnalyzeStage::AwaitPersist;
                AnalyzeAction::Persist { existing: state.existing }
            },
            AnalyzeEvent::GenerationError(m) => {
                state.stage = AnalyzeStage::Finished;
                if state.streamed && is_stream_canceled(m.as_str()) {
                    AnalyzeAction::Stop
                } else {
                    AnalyzeAction::Fail
                }
            },
            AnalyzeEvent::ClientGone => if state.streamed {
                state.stage = AnalyzeStage::Finished;
                AnalyzeAction::Stop
            } else {
                AnalyzeAction::Unexpected
            },
            _ => AnalyzeAction::Unexpected,
        },
        AnalyzeStage::AwaitPersist => match event {
            AnalyzeEvent::Persisted(id) => {
                state.stored = id;
                let p = chars_of(state.prototype.as_str());
                let q = chars_of(state.query.as_str());
                if !same(&p, &q) {
                    state.stage = AnalyzeStage::AwaitFreshAlias;
                    AnalyzeAction::AddAlias(id)
                } else {
                    fresh_answer_exec(state)
                }
            },
            _ => AnalyzeAction::Unexpected,
        },
        AnalyzeStage::AwaitFreshAlias => match event {
            AnalyzeEvent::Done => fresh_answer_exec(state),
            _ => AnalyzeAction::Unexpected,
        },
        AnalyzeStage::Finished => AnalyzeAction::Unexpected,
    }
}


// ---------------------------------------------------------------------------
// Laws
// ---------------------------------------------------------------------------

/// A stored entry found under the query answers the request alone: a
/// stream sends exactly one meta frame, naming the stored model or else the
/// default one with the knowledge base as source, and then the entry; a
/// plain request answers with the entry at once. Nothing is generated or
/// stored, and every later event is refused.
pub proof fn law_stored_hit_answers_alone(
    s: AnalyzeStateV,
    hit: (i64, Option<Seq<char>>),
    e: AnalyzeEventV,
    later: AnalyzeEventV,
)
    requires
        s.stage == AnalyzeStage::AwaitStoredByQuery,
    ensures
        ({
            let (s1, a1) = analyze_step(s, AnalyzeEventV::StoredLookup(Some(hit)));
            &&& s.streamed ==> {
                &&& a1 == AnalyzeActionV::SendMeta {
                    model: match hit.1 {
                        Some(m) => m,
                        None => s.default_model,
                    },
                    source: "知识库"@,
                }
                &&& analyze_step(s1, AnalyzeEventV::Done).1 == AnalyzeActionV::AnswerStored {
                    entry_id: hit.0,
                    remember: false,
                }
                &&& !(e is Done) ==> analyze_step(s1, e) == (s1, AnalyzeActionV::Unexpected)
                &&& analyze_step(analyze_step(s1, AnalyzeEventV::Done).0, later).1
                    == AnalyzeActionV::Unexpected
            }
            &&& !s.streamed ==> {
                &&& a1 == AnalyzeActionV::AnswerStored { entry_id: hit.0, remember: true }
                &&& analyze_step(s1, later).1 == AnalyzeActionV::Unexpected
            }
        }),
{
}

/// A stored entry found under the prototype answers in the same way, after
/// the query is added to it as an alias when the two differ.
pub proof fn law_prototype_hit_answers_alone(s: AnalyzeStateV, hit: (i64, Option<Seq<char>>))
    requires
        s.stage == AnalyzeStage::AwaitStoredByPrototype,
    ensures
        ({
            let (s1, a1) = analyze_step(s, AnalyzeEventV::StoredLookup(Some(hit)));
            let answered = AnalyzeStateV { stored: hit.0, stored_model: hit.1, ..s };
            &&& s.prototype != s.query ==> a1 == AnalyzeActionV::AddAlias(hit.0) && analyze_step(
                s1,
                AnalyzeEventV::Done,
            ) == stored_answer(answered)
            &&& s.prototype == s.query ==> (s1, a1) == stored_answer(answered)
        }),
{
}

/// Without a dictionary entry and without a stored entry, the request is
/// answered with the no-candidate answer: no model is asked and nothing is
/// stored.
pub proof fn law_no_candidate_without_model(s: AnalyzeStateV, e: AnalyzeEventV)
    requires
        s.entry == EntryChoice::Missing,
        (s.stage == AnalyzeStage::AwaitStoredByPrototype && e == AnalyzeEventV::StoredLookup(None))
            || (s.stage == AnalyzeStage::AwaitExisting && s.force_refresh && e is StoredLookup),
    ensures
        analyze_step(s, e).1 == AnalyzeActionV::AnswerNoCandidate,
        analyze_step(s, e).0.stage == AnalyzeStage::Finished,
{
}

/// No step changes what was asked: the query, the mode and tier, whether
/// the answer streams, the refresh and the entry to overwrite stay as the
/// request gave them.
pub proof fn law_request_unchanged(s: AnalyzeStateV, e: AnalyzeEventV)
    ensures
        ({
            let t = analyze_step(s, e).0;
            &&& t.query == s.query
            &&& t.mode == s.mode
            &&& t.quality == s.quality
            &&& t.streamed == s.streamed
            &&& t.force_refresh == s.force_refresh
            &&& t.entry_id == s.entry_id
            &&& t.default_model == s.default_model
        }),
{
}

/// A plain request never sends frames and never stops quietly: it has no
/// meta frame to send, no model to resolve for one, and no client that can
/// go away mid-stream.
pub proof fn law_plain_request_sends_no_frames(s: AnalyzeStateV, e: AnalyzeEventV)
    requires
        !s.streamed,
    ensures
        !(analyze_step(s, e).1 is SendMeta),
        analyze_step(s, e).1 != AnalyzeActionV::ResolveModel,
        analyze_step(s, e).1 != AnalyzeActionV::Stop,
{
}

} // verus!
