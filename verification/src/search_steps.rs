//! The order of an intelligent search as a state machine: a hint is tried
//! first, then the stored knowledge and the dictionary, then local fuzzy
//! matching, then embeddings, and a model last. The caller performs each
//! action and hands back what came of it as the next event.

use vstd::prelude::*;
use crate::analyze_flow::DictionaryHit;
use crate::query_flow::{
    best_candidate, bypass_of, infer_headword_locally, inference_source, is_semantic_override,
    route_intelligent_search, route_of, InferStep, KnowledgeHit, SearchRoute,
};
use crate::query_match::{german_candidate, looks_like_german_candidate, match_form};
use crate::text::{chars_of, is_blank, owned, str_views, trim, trim_str};

verus! {

/// Why an intelligent search is refused before any lookup.
#[derive(Debug, Clone, Copy, PartialEq, Eq, Structural)]
pub enum SearchError {
    EmptyTerm,
}

impl SearchError {
    pub fn message(self) -> (r: &'static str)
        ensures
            r@ == "term cannot be empty"@,
    {
        "term cannot be empty"
    }
}

/// Where an intelligent search stands.
#[derive(Debug, Clone, Copy, PartialEq, Eq, Structural)]
pub enum SearchStage {
    Start,
    AwaitHintEmbedding,
    AwaitHintModel,
    AwaitKnowledge,
    AwaitDirect,
    AwaitForm,
    AwaitFuzzy,
    AwaitEmbedding,
    AwaitModel,
    Finished,
}

/// What an intelligent search knows so far.
#[derive(Debug)]
pub struct SearchState {
    pub stage: SearchStage,
    /// The term trimmed.
    pub term: String,
    /// The hint trimmed; empty when there is none.
    pub hint: String,
    /// The knowledge entry stored under the term.
    pub knowledge: Option<KnowledgeHit>,
    /// The dictionary entry with the term as headword.
    pub direct: Option<DictionaryHit>,
}

/// What came of the last action.
#[derive(Debug)]
pub enum SearchEvent {
    /// The search begins.
    Start,
    /// The knowledge lookup answered.
    Knowledge(Option<KnowledgeHit>),
    /// A dictionary lookup answered.
    Dictionary(Option<DictionaryHit>),
    /// The dictionary headwords close to the term.
    FuzzyCandidates(Vec<String>),
    /// The headword the embeddings point at, if any; none also when the
    /// lookup failed.
    Embedding(Option<String>),
    /// The headword a model answered; none when the call failed.
    ModelReply(Option<String>),
}

/// What the caller does next.
#[derive(Debug)]
pub enum SearchAction {
    /// Look up the knowledge entry stored under the term.
    FindKnowledge,
    /// Look up the dictionary entry with the term as headword.
    FindHeadword,
    /// Look up the dictionary entry that lists the term as a form.
    FindForm,
    /// List dictionary headwords close to the term.
    ListFuzzyHeadwords,
    /// Ask the embeddings for the headword of the term and hint.
    AskEmbedding,
    /// Ask a model for the headword of the term and hint.
    AskModel,
    /// Answer with a compact analysis of the headword, labelled by the source.
    Compact { headword: String, source: String },
    /// Answer with the stored knowledge entry.
    AnswerKnowledge,
    /// Answer that the search could not finish.
    AnswerPending,
    /// The search fails.
    Fail,
    /// The event does not fit the stage.
    Unexpected,
}

pub enum SearchActionV {
    FindKnowledge,
    FindHeadword,
    FindForm,
    ListFuzzyHeadwords,
    AskEmbedding,
    AskModel,
    Compact { headword: Seq<char>, source: Seq<char> },
    AnswerKnowledge,
    AnswerPending,
    Fail,
    Unexpected,
}

pub open spec fn search_action_view(a: SearchAction) -> SearchActionV {
    match a {
        SearchAction::FindKnowledge => SearchActionV::FindKnowledge,
        SearchAction::FindHeadword => SearchActionV::FindHeadword,
        SearchAction::FindForm => SearchActionV::FindForm,
        SearchAction::ListFuzzyHeadwords => SearchActionV::ListFuzzyHeadwords,
        SearchAction::AskEmbedding => SearchActionV::AskEmbedding,
        SearchAction::AskModel => SearchActionV::AskModel,
        SearchAction::Compact { headword, source } => SearchActionV::Compact {
            headword: headword@,
            source: source@,
        },
        SearchAction::AnswerKnowledge => SearchActionV::AnswerKnowledge,
        SearchAction::AnswerPending => SearchActionV::AnswerPending,
        SearchAction::Fail => SearchActionV::Fail,
        SearchAction::Unexpected => SearchActionV::Unexpected,
    }
}

pub open spec fn opt_ref<T>(o: &Option<T>) -> Option<&T> {
    match o {
        Some(x) => Some(x),
        None => None,
    }
}

pub open spec fn with_stage(s: SearchState, stage: SearchStage) -> SearchState {
    SearchState { stage, ..s }
}

/// A headword found for a hint replaces the term when it looks German and
/// folds to another text.
pub open spec fn hint_override(term: Seq<char>, headword: Seq<char>) -> bool {
    german_candidate(headword) && match_form(headword) != match_form(term)
}

/// One step of an intelligent search.
pub open spec fn search_step(s: SearchState, e: SearchEvent) -> (SearchState, SearchActionV) {
    let unexpected = (s, SearchActionV::Unexpected);
    let done = with_stage(s, SearchStage::Finished);
    match s.stage {
        SearchStage::Start => match e {
            SearchEvent::Start => if s.hint@.len() > 0 {
                (with_stage(s, SearchStage::AwaitHintEmbedding), SearchActionV::AskEmbedding)
            } else {
                (with_stage(s, SearchStage::AwaitKnowledge), SearchActionV::FindKnowledge)
            },
            _ => unexpected,
        },
        SearchStage::AwaitHintEmbedding => match e {
            SearchEvent::Embedding(h) => if h is Some && hint_override(s.term@, h.unwrap()@) {
                (done, SearchActionV::Compact { headword: h.unwrap()@, source: "语义向量推断"@ })
            } else {
                (with_stage(s, SearchStage::AwaitHintModel), SearchActionV::AskModel)
            },
            _ => unexpected,
        },
        SearchStage::AwaitHintModel => match e {
            SearchEvent::ModelReply(Some(t)) => if hint_override(s.term@, t@) {
                (done, SearchActionV::Compact { headword: t@, source: "AI推断"@ })
            } else {
                (with_stage(s, SearchStage::AwaitKnowledge), SearchActionV::FindKnowledge)
            },
            SearchEvent::ModelReply(None) => (done, SearchActionV::Fail),
            _ => unexpected,
        },
        SearchStage::AwaitKnowledge => match e {
            SearchEvent::Knowledge(k) => (
                SearchState { stage: SearchStage::AwaitDirect, knowledge: k, ..s },
                SearchActionV::FindHeadword,
            ),
            _ => unexpected,
        },
        SearchStage::AwaitDirect => match e {
            SearchEvent::Dictionary(d) => (
                SearchState { stage: SearchStage::AwaitForm, direct: d, ..s },
                SearchActionV::FindForm,
            ),
            _ => unexpected,
        },
        SearchStage::AwaitForm => match e {
            SearchEvent::Dictionary(f) => {
                let r = route_of(s.term@, opt_ref(&s.knowledge), opt_ref(&s.direct), opt_ref(&f));
                if r.0 == 0 {
                    (done, SearchActionV::AnswerKnowledge)
                } else if r.0 == 1 {
                    (done, SearchActionV::Compact { headword: r.1, source: r.2 })
                } else {
                    (with_stage(s, SearchStage::AwaitFuzzy), SearchActionV::ListFuzzyHeadwords)
                }
            },
            _ => unexpected,
        },
        SearchStage::AwaitFuzzy => match e {
            SearchEvent::FuzzyCandidates(cs) => match best_candidate(
                match_form(s.term@),
                str_views(cs@),
            ) {
                Some(k) => (
                    done,
                    SearchActionV::Compact { headword: cs@[k]@, source: "本地模糊推断"@ },
                ),
                None => (with_stage(s, SearchStage::AwaitEmbedding), SearchActionV::AskEmbedding),
            },
            _ => unexpected,
        },
        SearchStage::AwaitEmbedding => match e {
            SearchEvent::Embedding(Some(h)) => (
                done,
                SearchActionV::Compact { headword: h@, source: "语义向量推断"@ },
            ),
            SearchEvent::Embedding(None) => (
                with_stage(s, SearchStage::AwaitModel),
                SearchActionV::AskModel,
            ),
            _ => unexpected,
        },
        SearchStage::AwaitModel => match e {
            SearchEvent::ModelReply(Some(t)) => if german_candidate(t@) {
                (done, SearchActionV::Compact { headword: t@, source: "AI推断"@ })
            } else {
                (done, SearchActionV::AnswerPending)
            },
            SearchEvent::ModelReply(None) => (done, SearchActionV::AnswerPending),
            _ => unexpected,
        },
        SearchStage::Finished => unexpected,
    }
}

/// An intelligent search for the raw term and hint, both trimmed; refused
/// when the term is blank.
pub fn start_search(raw_term: &str, raw_hint: &str) -> (r: Result<SearchState, SearchError>)
    ensures
        r is Err <==> trim(raw_term@).len() == 0,
        r matches Ok(s) ==> s.stage == SearchStage::Start && s.term@ == trim(raw_term@) && s.hint@
            == trim(raw_hint@) && s.knowledge is None && s.direct is None,
{
    if is_blank(raw_term) {
        return Err(SearchError::EmptyTerm);
    }
    Ok(
        SearchState {
            stage: SearchStage::Start,
            term: trim_str(raw_term),
            hint: trim_str(raw_hint),
            knowledge: None,
            direct: None,
        },
    )
}

/// The source label of an inference step.
pub open spec fn step_source(step: InferStep) -> Seq<char> {
    match step {
        InferStep::LocalFuzzy => "本地模糊推断"@,
        InferStep::Embedding => "语义向量推断"@,
        InferStep::Ai => "AI推断"@,
    }
}

fn compact(headword: &str, step: InferStep) -> (r: SearchAction)
    ensures
        search_action_view(r) == (SearchActionV::Compact {
            headword: headword@,
            source: step_source(step),
        }),
{
    SearchAction::Compact { headword: owned(headword), source: owned(inference_source(step)) }
}

/// The next action of an intelligent search, given what came of the last
/// one; see `search_step`.
pub fn search_next(state: &mut SearchState, event: SearchEvent) -> (r: SearchAction)
    ensures
        (*final(state), search_action_view(r)) == search_step(*old(state), event),
{
    match state.stage {
        SearchStage::Start => match event {
            SearchEvent::Start => if chars_of(state.hint.as_str()).len() > 0 {
                state.stage = SearchStage::AwaitHintEmbedding;
                SearchAction::AskEmbedding
            } else {
                state.stage = SearchStage::AwaitKnowledge;
                SearchAction::FindKnowledge
            },
            _ => SearchAction::Unexpected,
        },
        SearchStage::AwaitHintEmbedding => match event {
            SearchEvent::Embedding(h) => {
                match h {
                    Some(x) => {
                        if looks_like_german_candidate(x.as_str()) && is_semantic_override(
                            state.term.as_str(),
                            x.as_str(),
                        ) {
                            state.stage = SearchStage::Finished;
                            return compact(x.as_str(), InferStep::Embedding);
                        }
                    },
                    None => {},
                }
                state.stage = SearchStage::AwaitHintModel;
                SearchAction::AskModel
            },
            _ => SearchAction::Unexpected,
        },
        SearchStage::AwaitHintModel => match event {
            SearchEvent::ModelReply(Some(t)) => {
                if looks_like_german_candidate(t.as_str()) && is_semantic_override(
                    state.term.as_str(),
                    t.as_str(),
                ) {
                    state.stage = SearchStage::Finished;
                    compact(t.as_str(), InferStep::Ai)
                } else {
                    state.stage = SearchStage::AwaitKnowledge;
                    SearchAction::FindKnowledge
                }
            },
            SearchEvent::ModelReply(None) => {
                state.stage = SearchStage::Finished;
                SearchAction::Fail
            },
            _ => SearchAction::Unexpected,
        },
        SearchStage::AwaitKnowledge => match event {
            SearchEvent::Knowledge(k) => {
                state.stage = SearchStage::AwaitDirect;
                state.knowledge = k;
                SearchAction::FindHeadword
            },
            _ => SearchAction::Unexpected,
        },
        SearchStage::AwaitDirect => match event {
            SearchEvent::Dictionary(d) => {
                state.stage = SearchStage::AwaitForm;
                state.direct = d;
                SearchAction::FindForm
            },
            _ => SearchAction::Unexpected,
        },
        SearchStage::AwaitForm => match event {
            SearchEvent::Dictionary(f) => {
                let k = state.knowledge.as_ref();
                let d = state.direct.as_ref();
                let fr = f.as_ref();
                assert(k == opt_ref(&state.knowledge));
                assert(d == opt_ref(&state.direct));
                assert(fr == opt_ref(&f));
                let route = route_intelligent_search(state.term.as_str(), k, d, fr);
                match route {
                    SearchRoute::Knowledge => {
                        state.stage = SearchStage::Finished;
                        SearchAction::AnswerKnowledge
                    },
                    SearchRoute::Compact { headword, source } => {
                        state.stage = SearchStage::Finished;
                        SearchAction::Compact { headword, source }
                    },
                    SearchRoute::Infer => {
                        state.stage = SearchStage::AwaitFuzzy;
                        SearchAction::ListFuzzyHeadwords
                    },
                }
            },
            _ => SearchAction::Unexpected,
        },
        SearchStage::AwaitFuzzy => match event {
            SearchEvent::FuzzyCandidates(cs) => match infer_headword_locally(
                state.term.as_str(),
                &cs,
            ) {
                Some(h) => {
                    state.stage = SearchStage::Finished;
                    compact(h.as_str(), InferStep::LocalFuzzy)
                },
                None => {
                    state.stage = SearchStage::AwaitEmbedding;
                    SearchAction::AskEmbedding
                },
            },
            _ => SearchAction::Unexpected,
        },
        SearchStage::AwaitEmbedding => match event {
            SearchEvent::Embedding(Some(h)) => {
                state.stage = SearchStage::Finished;
                compact(h.as_str(), InferStep::Embedding)
            },
            SearchEvent::Embedding(None) => {
                state.stage = SearchStage::AwaitModel;
                SearchAction::AskModel
            },
            _ => SearchAction::Unexpected,
        },
        SearchStage::AwaitModel => match event {
            SearchEvent::ModelReply(Some(t)) => {
                state.stage = SearchStage::Finished;
                if looks_like_german_candidate(t.as_str()) {
                    compact(t.as_str(), InferStep::Ai)
                } else {
                    SearchAction::AnswerPending
                }
            },
            SearchEvent::ModelReply(None) => {
                state.stage = SearchStage::Finished;
                SearchAction::AnswerPending
            },
            _ => SearchAction::Unexpected,
        },
        SearchStage::Finished => SearchAction::Unexpected,
    }
}

/// A model is asked for the headword last: past the hint, the model step
/// is entered only when the embeddings found nothing; the embeddings only
/// when local fuzzy matching found no headword; fuzzy matching only when
/// neither the knowledge base nor the dictionary answered, the stored entry
/// being missing or passed over and neither dictionary lookup finding an
/// entry. Before the lookups a model is asked only about a hint.
pub proof fn law_model_asked_last(s: SearchState, e: SearchEvent)
    ensures
        search_step(s, e).0.stage == SearchStage::AwaitModel && s.stage != SearchStage::AwaitModel ==> s.stage == SearchStage::AwaitEmbedding
            && e == SearchEvent::Embedding(None),
        search_step(s, e).0.stage == SearchStage::AwaitEmbedding && s.stage != SearchStage::AwaitEmbedding
            ==> s.stage == SearchStage::AwaitFuzzy
            && (e matches SearchEvent::FuzzyCandidates(cs) && best_candidate(
            match_form(s.term@),
            str_views(cs@),
        ) is None),
        search_step(s, e).0.stage == SearchStage::AwaitFuzzy && s.stage != SearchStage::AwaitFuzzy ==> s.stage == SearchStage::AwaitForm
            && e == SearchEvent::Dictionary(None) && s.direct is None && (s.knowledge is None
            || bypass_of(s.term@, s.knowledge.unwrap().query_text@, s.knowledge.unwrap().analysis)),
        search_step(s, e).1 == SearchActionV::AskModel ==> search_step(s, e).0.stage
            == SearchStage::AwaitModel || (search_step(s, e).0.stage == SearchStage::AwaitHintModel
            && s.stage == SearchStage::AwaitHintEmbedding),
        s.stage == SearchStage::Start && search_step(s, e).0.stage == SearchStage::AwaitHintEmbedding
            ==> s.hint@.len() > 0,
        search_step(s, e).0.term == s.term && search_step(s, e).0.hint == s.hint,
{
}

} // verus!
