//! The stored analysis document of a knowledge entry and the phrase modules
//! attached to it.

use vstd::prelude::*;
use crate::json::JsonValue;
use crate::model_a::ModelAOutput;
use crate::models::{PhraseUsageModule, PhraseUsagePreview, StructuredAnalysisDocument};

verus! {

/// The model tier a request asks for.
#[derive(Debug, Clone, Copy, PartialEq, Eq, Structural)]
pub enum QualityMode {
    Default,
    Pro,
}

/// How sure the phrase lookup was that a phrase belongs to its host.
#[derive(Debug, Clone, Copy, PartialEq, Eq, Structural)]
pub enum PhraseLookupConfidence {
    High,
    Low,
}

/// A point in time as chrono holds one: whole seconds since the Unix epoch
/// and the nanoseconds past them (a billion or more only during a leap
/// second).
#[derive(Debug, Clone, Copy, PartialEq, Eq, Structural)]
pub struct Timestamp {
    pub secs: i64,
    pub nanos: u32,
}

/// `a` comes before `b`: by seconds, then by nanoseconds.
pub open spec fn earlier(a: Timestamp, b: Timestamp) -> bool {
    a.secs < b.secs || (a.secs == b.secs && a.nanos < b.nanos)
}

pub fn is_earlier(a: Timestamp, b: Timestamp) -> (r: bool)
    ensures
        r == earlier(a, b),
{
    a.secs < b.secs || (a.secs == b.secs && a.nanos < b.nanos)
}

/// A phrase usage module attached to a host word, with the time it was
/// attached.
#[derive(Debug)]
pub struct AttachedPhraseModule {
    pub phrase: String,
    pub host_headword: String,
    pub source_phrase_entry_id: i64,
    pub usage_module: Option<PhraseUsageModule>,
    pub analysis_markdown: String,
    pub confidence: PhraseLookupConfidence,
    pub attached_at: Timestamp,
}

/// The analysis document stored with a knowledge entry.
#[derive(Debug)]
pub struct AnalysisDocument {
    pub markdown: String,
    pub structured: Option<StructuredAnalysisDocument>,
    pub tags: Vec<String>,
    pub aliases: Vec<String>,
    pub prototype: Option<String>,
    pub attached_phrase_modules: Vec<AttachedPhraseModule>,
    pub dictionary_excerpt: Option<JsonValue>,
    pub model: Option<String>,
    pub quality_mode: Option<QualityMode>,
}

/// A follow-up question with its answer and the time it was asked.
#[derive(Debug)]
pub struct FollowUpItem {
    pub id: i64,
    pub question: String,
    pub answer: String,
    pub created_at: Timestamp,
}

/// The answer to an analysis request. The phrase lookup is kept as the
/// JSON it is stored as.
#[derive(Debug)]
pub struct AnalyzeResponse {
    pub entry_id: i64,
    pub query_text: String,
    pub analysis_markdown: String,
    pub structured_analysis: Option<StructuredAnalysisDocument>,
    pub phrase_lookup: Option<JsonValue>,
    pub phrase_usage_preview: Option<PhraseUsagePreview>,
    pub attached_phrase_modules: Vec<AttachedPhraseModule>,
    pub source: String,
    pub model: Option<String>,
    pub quality_mode: Option<QualityMode>,
    pub follow_ups: Vec<FollowUpItem>,
}

/// A generated analysis and the model that wrote its markdown.
#[derive(Debug)]
pub struct GroundedAnalysis {
    pub analysis: AnalysisDocument,
    pub model: String,
}

/// Markdown written by a model, and the model.
#[derive(Debug)]
pub struct StreamedMarkdown {
    pub markdown: String,
    pub model: String,
}

/// What the first two stages of an analysis produced, kept so that the
/// structure stage can finish it later.
#[derive(Debug)]
pub struct GroundedAbCache {
    pub query_text: String,
    pub dictionary_facts: Option<String>,
    pub model_a_output: ModelAOutput,
    pub stage2_markdown: String,
    pub stage2_model: String,
}

} // verus!
