//! The decisions of a follow-up question: which models are asked, in what
//! order, what prompt they get, and what is answered when they fail.

use vstd::prelude::*;
use crate::analyze_flow::{analysis_markdown, stored_markdown};
use crate::documents::QualityMode;
use crate::follow_up_answer::{
    build_follow_up_fallback, fallback_answer, fallback_ready, norm_answer, normalize_answer,
    truncate_text, truncated,
};
use crate::json::JsonValue;
use crate::text::{
    chars_of, extend, extend_str, is_blank, join, join_exec, owned, replace, replace_exec,
    str_views, string_of, trim, trim_str, views,
};

verus! {

/// Why a follow-up question is refused.
#[derive(Debug, Clone, Copy, PartialEq, Eq, Structural)]
pub enum FollowUpError {
    EmptyQuestion,
}

impl FollowUpError {
    pub fn message(self) -> (r: &'static str)
        ensures
            r@ == "question cannot be empty"@,
    {
        "question cannot be empty"
    }
}

/// The question trimmed; refused when blank.
pub fn follow_up_question(raw: &str) -> (r: Result<String, FollowUpError>)
    ensures
        trim(raw@).len() == 0 ==> r == Err::<String, FollowUpError>(FollowUpError::EmptyQuestion),
        trim(raw@).len() > 0 ==> (r is Ok && r.unwrap()@ == trim(raw@)),
{
    if is_blank(raw) {
        Err(FollowUpError::EmptyQuestion)
    } else {
        Ok(trim_str(raw))
    }
}

/// The models configured for follow-up questions.
#[derive(Debug)]
pub struct FollowUpModels {
    pub follow_up: String,
    pub follow_up_pro: String,
    pub fallback_fast: String,
    pub fallback_pro: String,
}

/// The primary model of a tier.
pub fn primary_model_for(models: &FollowUpModels, quality: QualityMode) -> (r: &str)
    ensures
        quality == QualityMode::Default ==> r@ == models.follow_up@,
        quality == QualityMode::Pro ==> r@ == models.follow_up_pro@,
{
    match quality {
        QualityMode::Default => models.follow_up.as_str(),
        QualityMode::Pro => models.follow_up_pro.as_str(),
    }
}

/// The fallback model of a tier.
pub fn fallback_model_for(models: &FollowUpModels, quality: QualityMode) -> (r: &str)
    ensures
        quality == QualityMode::Default ==> r@ == models.fallback_fast@,
        quality == QualityMode::Pro ==> r@ == models.fallback_pro@,
{
    match quality {
        QualityMode::Default => models.fallback_fast.as_str(),
        QualityMode::Pro => models.fallback_pro.as_str(),
    }
}

/// Which model gave the reply.
#[derive(Debug, Clone, Copy, PartialEq, Eq, Structural)]
pub enum Attempt {
    Primary,
    Fallback,
}

/// What a model call gave back.
#[derive(Debug)]
pub enum ModelReply {
    /// The answer text.
    Answer(String),
    /// A failure after which another model may help (the service is down,
    /// the model is missing, the call timed out).
    HardFailure,
    /// Any other failure.
    SoftFailure,
}

/// What happens next.
#[derive(Debug)]
pub enum FollowUpAction {
    /// Ask the fallback model.
    AskFallback,
    /// Store and return this answer; `model` is the model that gave it,
    /// none for the answer built from the entry.
    Finish { answer: String, model: Option<String> },
    /// The fallback model failed too: the request fails.
    Fail,
}

/// The next step after a model replied: a model's answer is normalized and
/// kept; a hard failure of the primary model moves to a configured fallback
/// model that differs from it; any other failure of the primary model is
/// answered from the stored entry alone; a failure of the fallback model
/// fails the request.
pub fn follow_up_next(
    attempt: Attempt,
    reply: ModelReply,
    primary_model: &str,
    fallback_model: &str,
    query_text: &str,
    question: &str,
    analysis: &JsonValue,
) -> (r: FollowUpAction)
    ensures
        reply matches ModelReply::Answer(a) ==> (r matches FollowUpAction::Finish { answer, model }
            && answer@ == norm_answer(a@) && model is Some && model.unwrap()@ == (if attempt
            == Attempt::Primary {
            primary_model@
        } else {
            fallback_model@
        })),
        attempt == Attempt::Primary && reply is HardFailure && fallback_model@.len() > 0
            && fallback_model@ != primary_model@ ==> r is AskFallback,
        attempt == Attempt::Primary && !(reply is Answer) && !(reply is HardFailure
            && fallback_model@.len() > 0 && fallback_model@ != primary_model@) ==> (r matches FollowUpAction::Finish { answer, model }
            && answer@ == fallback_answer(query_text@, question@, *analysis) && model is None),
        attempt == Attempt::Fallback && !(reply is Answer) ==> r is Fail,
{
    match reply {
        ModelReply::Answer(a) => {
            let model = match attempt {
                Attempt::Primary => owned(primary_model),
                Attempt::Fallback => owned(fallback_model),
            };
            FollowUpAction::Finish { answer: normalize_answer(a.as_str()), model: Some(model) }
        },
        ModelReply::HardFailure => match attempt {
            Attempt::Primary => if fallback_ready(primary_model, fallback_model) {
                FollowUpAction::AskFallback
            } else {
                FollowUpAction::Finish {
                    answer: build_follow_up_fallback(query_text, question, analysis),
                    model: None,
                }
            },
            Attempt::Fallback => FollowUpAction::Fail,
        },
        ModelReply::SoftFailure => match attempt {
            Attempt::Primary => FollowUpAction::Finish {
                answer: build_follow_up_fallback(query_text, question, analysis),
                model: None,
            },
            Attempt::Fallback => FollowUpAction::Fail,
        },
    }
}

// ---------------------------------------------------------------------------
// The prompt
// ---------------------------------------------------------------------------

/// An earlier question and its answer.
#[derive(Debug)]
pub struct FollowUpTurn {
    pub question: String,
    pub answer: String,
}

/// At most the last `n` elements.
pub open spec fn last_n<A>(s: Seq<A>, n: nat) -> Seq<A> {
    if s.len() <= n {
        s
    } else {
        s.skip(s.len() - n)
    }
}

pub open spec fn turn_text(t: FollowUpTurn) -> Seq<char> {
    "Q: "@ + truncated(t.question@, 80) + "\nA: "@ + truncated(t.answer@, 140)
}

/// The last three turns, oldest first, joined by blank lines.
pub open spec fn history_text(history: Seq<FollowUpTurn>) -> Seq<char> {
    join(last_n(history, 3).map_values(|t: FollowUpTurn| turn_text(t)), "\n\n"@)
}

/// The context given to the model: the analysis markdown cut to 1200
/// characters and the recent turns.
pub open spec fn prompt_context(analysis: JsonValue, history: Seq<FollowUpTurn>) -> Seq<char> {
    let h = history_text(history);
    "原始分析:\n"@ + truncated(stored_markdown(analysis), 1200) + "\n\n历史问答:\n"@ + (if h.len()
        == 0 {
        "暂无历史问答"@
    } else {
        h
    })
}

/// The prompt: the template with its placeholders filled in, in the order
/// vocabulary list, context, question, then the answering constraints after
/// a blank line.
pub open spec fn follow_up_prompt(
    template: Seq<char>,
    constraints: Seq<char>,
    vocabulary: Seq<Seq<char>>,
    question: Seq<char>,
    analysis: JsonValue,
    history: Seq<FollowUpTurn>,
) -> Seq<char> {
    let a = replace(template, "{vocabulary_list}"@, join(vocabulary, ", "@));
    let b = replace(a, "{context}"@, prompt_context(analysis, history));
    let c = replace(b, "{question}"@, question);
    c + "\n\n"@ + constraints
}

pub fn build_follow_up_prompt(
    prompt_template: &str,
    constraints: &str,
    vocabulary_list: &Vec<String>,
    question: &str,
    analysis: &JsonValue,
    history: &Vec<FollowUpTurn>,
) -> (r: String)
    ensures
        r@ == follow_up_prompt(
            prompt_template@,
            constraints@,
            str_views(vocabulary_list@),
            question@,
            *analysis,
            history@,
        ),
{
    let md = analysis_markdown(analysis);
    let n = history.len();
    let start = if n <= 3 { 0 } else { n - 3 };
    let ghost recent = last_n(history@, 3);
    assert(recent =~= history@.skip(start as int));
    let mut turns: Vec<Vec<char>> = Vec::new();
    let mut i: usize = start;
    while i < n
        invariant
            start <= i <= n,
            n == history@.len(),
            recent == history@.skip(start as int),
            views(turns@) == recent.take(i - start).map_values(|t: FollowUpTurn| turn_text(t)),
        decreases n - i,
    {
        let mut t = chars_of("Q: ");
        let q = truncate_text(history[i].question.as_str(), 80);
        extend_str(&mut t, q.as_str());
        extend_str(&mut t, "\nA: ");
        let a = truncate_text(history[i].answer.as_str(), 140);
        extend_str(&mut t, a.as_str());
        assert(recent[i - start] == history@[i as int]);
        let ghost before = views(turns@);
        let ghost tv = t@;
        turns.push(t);
        assert(views(turns@) =~= before.push(tv));
        assert(recent.take(i - start + 1).map_values(|t: FollowUpTurn| turn_text(t)) =~= recent.take(
            i - start,
        ).map_values(|t: FollowUpTurn| turn_text(t)).push(turn_text(recent[i - start])));
        i = i + 1;
    }
    assert(recent.take(n - start) =~= recent);
    let blank = chars_of("\n\n");
    let h = join_exec(&turns, &blank);
    let mut ctx = chars_of("原始分析:\n");
    let tm = truncate_text(md.as_str(), 1200);
    extend_str(&mut ctx, tm.as_str());
    extend_str(&mut ctx, "\n\n历史问答:\n");
    if h.len() == 0 {
        extend_str(&mut ctx, "暂无历史问答");
    } else {
        extend(&mut ctx, &h);
    }
    let vocab = crate::text::chars_of_all(vocabulary_list);
    let comma = chars_of(", ");
    let vj = join_exec(&vocab, &comma);
    let tpl = chars_of(prompt_template);
    let p1 = chars_of("{vocabulary_list}");
    let p2 = chars_of("{context}");
    let p3 = chars_of("{question}");
    proof {
        reveal_strlit("{vocabulary_list}");
        reveal_strlit("{context}");
        reveal_strlit("{question}");
    }
    let a = replace_exec(&tpl, &p1, &vj);
    let b = replace_exec(&a, &p2, &ctx);
    let qv = chars_of(question);
    let mut c = replace_exec(&b, &p3, &qv);
    extend_str(&mut c, "\n\n");
    extend_str(&mut c, constraints);
    string_of(&c)
}

} // verus!
