//! Phrase usage modules attached to a host word: building them, checking
//! them, and keeping the host's list of them ordered and free of repeats.

use vstd::prelude::*;
use crate::documents::{earlier, is_earlier, AttachedPhraseModule, PhraseLookupConfidence, Timestamp};
use crate::models::{PhraseUsageModule, PhraseUsagePreview};
use crate::query_suggestions::{text_less, text_lt};
use crate::text::{
    chars_of, contains, contains_exec, extend, extend_str, is_blank, owned, same, string_of, to_lowercase,
    trim, trim_exec, trim_str, unicode_lower,
};

verus! {

// ---------------------------------------------------------------------------
// Texts of a phrase module
// ---------------------------------------------------------------------------

/// The markdown shown for a phrase preview with the given meanings and
/// usage module.
pub open spec fn preview_markdown_of(
    phrase: Seq<char>,
    meaning_zh: Seq<char>,
    meaning_en: Seq<char>,
    m: PhraseUsageModule,
) -> Seq<char> {
    let en = if trim(meaning_en).len() == 0 {
        Seq::empty()
    } else {
        " * *"@ + trim(meaning_en) + "*"@
    };
    "### "@ + phrase + "\n\n#### 核心释义 (Bedeutung)\n* **Phrase** **"@ + trim(meaning_zh) + "**"@
        + en + "\n\n#### 应用与例句 (Anwendung & Beispiele)\n\n"@ + trim(m.title@) + ": "@
        + trim(m.explanation@) + "\n"@ + trim(m.example_de@) + "\n（"@ + trim(m.example_zh@)
        + "）"@
}

/// The markdown shown for a phrase preview.
pub open spec fn phrase_preview_markdown(phrase: Seq<char>, p: PhraseUsagePreview) -> Seq<char> {
    preview_markdown_of(phrase, p.meaning_zh@, p.meaning_en@, p.usage_module)
}

fn extend_trimmed(out: &mut Vec<char>, s: &str)
    ensures
        final(out)@ == old(out)@ + trim(s@),
{
    let v = chars_of(s);
    let t = trim_exec(&v);
    extend(out, &t);
}

pub fn render_phrase_preview_markdown(phrase: &str, preview: &PhraseUsagePreview) -> (r: String)
    ensures
        r@ == phrase_preview_markdown(phrase@, *preview),
{
    let mut out = chars_of("### ");
    extend_str(&mut out, phrase);
    extend_str(&mut out, "\n\n#### 核心释义 (Bedeutung)\n* **Phrase** **");
    extend_trimmed(&mut out, preview.meaning_zh.as_str());
    extend_str(&mut out, "**");
    let ghost before_en = out@;
    if !is_blank(preview.meaning_en.as_str()) {
        extend_str(&mut out, " * *");
        extend_trimmed(&mut out, preview.meaning_en.as_str());
        extend_str(&mut out, "*");
    }
    proof {
        if trim(preview.meaning_en@).len() == 0 {
            assert(out@ =~= before_en + Seq::<char>::empty());
        }
    }
    extend_str(&mut out, "\n\n#### 应用与例句 (Anwendung & Beispiele)\n\n");
    extend_trimmed(&mut out, preview.usage_module.title.as_str());
    extend_str(&mut out, ": ");
    extend_trimmed(&mut out, preview.usage_module.explanation.as_str());
    extend_str(&mut out, "\n");
    extend_trimmed(&mut out, preview.usage_module.example_de.as_str());
    extend_str(&mut out, "\n（");
    extend_trimmed(&mut out, preview.usage_module.example_zh.as_str());
    extend_str(&mut out, "）");
    string_of(&out)
}

/// The value trimmed, or the fallback trimmed when the value is blank.
pub open spec fn first_non_empty_of(value: Seq<char>, fallback: Seq<char>) -> Seq<char> {
    if trim(value).len() == 0 {
        trim(fallback)
    } else {
        trim(value)
    }
}

pub fn first_non_empty(value: &str, fallback: &str) -> (r: String)
    ensures
        r@ == first_non_empty_of(value@, fallback@),
{
    if is_blank(value) {
        trim_str(fallback)
    } else {
        trim_str(value)
    }
}

/// Why a generated phrase module is refused.
#[derive(Debug, Clone, Copy, PartialEq, Eq, Structural)]
pub enum PhraseModuleError {
    MissingUsageModule,
    MissingExplanation,
    MissingGermanExample,
    MissingChineseTranslation,
}

impl PhraseModuleError {
    pub fn message(self) -> (r: &'static str)
        ensures
            r@ == (match self {
                PhraseModuleError::MissingUsageModule => "phrase module missing usage_module"@,
                PhraseModuleError::MissingExplanation => "phrase module missing explanation"@,
                PhraseModuleError::MissingGermanExample => "phrase module missing German example"@,
                PhraseModuleError::MissingChineseTranslation =>
                    "phrase module missing Chinese translation"@,
            }),
    {
        match self {
            PhraseModuleError::MissingUsageModule => "phrase module missing usage_module",
            PhraseModuleError::MissingExplanation => "phrase module missing explanation",
            PhraseModuleError::MissingGermanExample => "phrase module missing German example",
            PhraseModuleError::MissingChineseTranslation =>
                "phrase module missing Chinese translation",
        }
    }
}

/// A generated usage module with its texts trimmed and its title defaulting
/// to the phrase; refused without a module, an explanation, a German
/// example or a Chinese translation, checked in this order.
pub fn normalize_usage_module(usage_module: Option<PhraseUsageModule>, fallback_title: &str) -> (r:
    Result<PhraseUsageModule, PhraseModuleError>)
    ensures
        usage_module is None ==> r == Err::<PhraseUsageModule, PhraseModuleError>(
            PhraseModuleError::MissingUsageModule,
        ),
        usage_module matches Some(m) ==> {
            if trim(m.explanation@).len() == 0 {
                r == Err::<PhraseUsageModule, PhraseModuleError>(PhraseModuleError::MissingExplanation)
            } else if trim(m.example_de@).len() == 0 {
                r == Err::<PhraseUsageModule, PhraseModuleError>(
                    PhraseModuleError::MissingGermanExample,
                )
            } else if trim(m.example_zh@).len() == 0 {
                r == Err::<PhraseUsageModule, PhraseModuleError>(
                    PhraseModuleError::MissingChineseTranslation,
                )
            } else {
                r matches Ok(n) && n.title@ == first_non_empty_of(m.title@, fallback_title@)
                    && n.explanation@ == trim(m.explanation@) && n.example_de@ == trim(
                    m.example_de@,
                ) && n.example_zh@ == trim(m.example_zh@)
            }
        },
{
    let m = match usage_module {
        Some(m) => m,
        None => {
            return Err(PhraseModuleError::MissingUsageModule);
        },
    };
    let n = PhraseUsageModule {
        title: first_non_empty(m.title.as_str(), fallback_title),
        explanation: trim_str(m.explanation.as_str()),
        example_de: trim_str(m.example_de.as_str()),
        example_zh: trim_str(m.example_zh.as_str()),
    };
    if is_blank(n.explanation.as_str()) {
        proof {
            lemma_trim_blank(m.explanation@);
        }
        return Err(PhraseModuleError::MissingExplanation);
    }
    if is_blank(n.example_de.as_str()) {
        proof {
            lemma_trim_blank(m.example_de@);
        }
        return Err(PhraseModuleError::MissingGermanExample);
    }
    if is_blank(n.example_zh.as_str()) {
        proof {
            lemma_trim_blank(m.example_zh@);
        }
        return Err(PhraseModuleError::MissingChineseTranslation);
    }
    proof {
        lemma_trim_blank(m.explanation@);
        lemma_trim_blank(m.example_de@);
        lemma_trim_blank(m.example_zh@);
    }
    Ok(n)
}

/// A trimmed text is blank exactly when it is empty.
proof fn lemma_trim_blank(s: Seq<char>)
    ensures
        (trim(trim(s)).len() == 0) == (trim(s).len() == 0),
{
    crate::text::lemma_trim_idempotent(s);
}

/// The message for a phrase the model found unrelated to its host.
pub open spec fn unrelated_message(reason: Seq<char>) -> Seq<char> {
    if trim(reason).len() == 0 {
        "phrase is not related to host"@
    } else {
        "phrase is not related to host"@ + ": "@ + trim(reason)
    }
}

pub fn unrelated_phrase_message(reason: &str) -> (r: String)
    ensures
        r@ == unrelated_message(reason@),
{
    let mut out = chars_of("phrase is not related to host");
    if !is_blank(reason) {
        extend_str(&mut out, ": ");
        extend_trimmed(&mut out, reason);
    }
    string_of(&out)
}

// ---------------------------------------------------------------------------
// The host's list of attachments
// ---------------------------------------------------------------------------

/// `a` is listed after `b`: it was attached earlier, or at the same time
/// with a phrase that sorts after `b`'s.
pub open spec fn attached_after(a: AttachedPhraseModule, b: AttachedPhraseModule) -> bool {
    earlier(a.attached_at, b.attached_at) || (a.attached_at == b.attached_at && text_lt(
        b.phrase@,
        a.phrase@,
    ))
}

/// `x` placed after every element not listed after it.
pub open spec fn insert_attachment(s: Seq<AttachedPhraseModule>, x: AttachedPhraseModule) -> Seq<
    AttachedPhraseModule,
>
    decreases s.len(),
{
    if s.len() == 0 {
        seq![x]
    } else if attached_after(s.last(), x) {
        insert_attachment(s.drop_last(), x).push(s.last())
    } else {
        s.push(x)
    }
}

/// The attachments newest first, equal phrases' times ordered by phrase;
/// equal ones keep their order.
pub open spec fn attachment_order(s: Seq<AttachedPhraseModule>) -> Seq<AttachedPhraseModule>
    decreases s.len(),
{
    if s.len() == 0 {
        s
    } else {
        insert_attachment(attachment_order(s.drop_last()), s.last())
    }
}

fn is_attached_after(a: &AttachedPhraseModule, b: &AttachedPhraseModule) -> (r: bool)
    ensures
        r == attached_after(*a, *b),
{
    if a.attached_at != b.attached_at {
        is_earlier(a.attached_at, b.attached_at)
    } else {
        let ap = chars_of(a.phrase.as_str());
        let bp = chars_of(b.phrase.as_str());
        text_less(&bp, &ap)
    }
}

proof fn lemma_insert_attachment_at(s: Seq<AttachedPhraseModule>, x: AttachedPhraseModule, p: int)
    requires
        0 <= p <= s.len(),
        forall|k: int| p <= k < s.len() ==> attached_after(#[trigger] s[k], x),
        p == 0 || !attached_after(s[p - 1], x),
    ensures
        insert_attachment(s, x) == s.take(p).push(x) + s.skip(p),
    decreases s.len(),
{
    if s.len() == 0 {
        assert(s.take(p).push(x) + s.skip(p) =~= seq![x]);
    } else if p == s.len() {
        assert(s.take(p).push(x) + s.skip(p) =~= s.push(x));
    } else {
        let t = s.drop_last();
        assert(attached_after(s[s.len() - 1], x));
        assert forall|k: int| p <= k < t.len() implies attached_after(#[trigger] t[k], x) by {
            assert(t[k] == s[k]);
        }
        if p > 0 {
            assert(t[p - 1] == s[p - 1]);
        }
        lemma_insert_attachment_at(t, x, p);
        assert(s.take(p).push(x) + s.skip(p) =~= (t.take(p).push(x) + t.skip(p)).push(s.last()));
    }
}

/// Sorts the attachments newest first (see `attachment_order`).
pub fn sort_attachments(items: Vec<AttachedPhraseModule>) -> (r: Vec<AttachedPhraseModule>)
    ensures
        r@ == attachment_order(items@),
{
    let ghost input = items@;
    let mut rest = items;
    let total = rest.len();
    let mut sorted: Vec<AttachedPhraseModule> = Vec::new();
    let mut k: usize = 0;
    assert(input.skip(0) =~= input);
    while rest.len() > 0
        invariant
            k + rest@.len() == input.len(),
            total == input.len(),
            rest@ == input.skip(k as int),
            sorted@ == attachment_order(input.take(k as int)),
        decreases rest@.len(),
    {
        let x = rest.remove(0);
        assert(input.take(k + 1).drop_last() =~= input.take(k as int));
        assert(input.take(k + 1).last() == x);
        assert(rest@ =~= input.skip(k + 1));
        let mut p: usize = sorted.len();
        while p > 0 && is_attached_after(&sorted[p - 1], &x)
            invariant
                0 <= p <= sorted@.len(),
                forall|j: int| p <= j < sorted@.len() ==> attached_after(#[trigger] sorted@[j], x),
            decreases p,
        {
            p = p - 1;
        }
        proof {
            lemma_insert_attachment_at(sorted@, x, p as int);
        }
        let ghost before = sorted@;
        sorted.insert(p, x);
        assert(sorted@ =~= before.take(p as int).push(x) + before.skip(p as int));
        k = k + 1;
    }
    assert(input.take(k as int) =~= input);
    sorted
}

/// The folded form phrases are compared by: trimmed and lower-cased.
pub open spec fn phrase_key(p: Seq<char>) -> Seq<char> {
    unicode_lower(trim(p))
}

fn phrase_key_exec(p: &str) -> (r: Vec<char>)
    ensures
        r@ == phrase_key(p@),
{
    let t = trim_str(p);
    let l = to_lowercase(t.as_str());
    chars_of(l.as_str())
}

/// The attachments without the one under the same phrase, with the new
/// one, newest first.
pub open spec fn with_module(existing: Seq<AttachedPhraseModule>, a: AttachedPhraseModule) -> Seq<
    AttachedPhraseModule,
> {
    attachment_order(
        crate::text::keep(
            existing,
            |x: AttachedPhraseModule| phrase_key(x.phrase@) != phrase_key(a.phrase@),
        ).push(a),
    )
}

/// Adds a generated phrase module to the host's attachments, replacing one
/// for the same phrase.
pub fn attach_module(existing: Vec<AttachedPhraseModule>, attachment: AttachedPhraseModule) -> (r: Vec<
    AttachedPhraseModule,
>)
    ensures
        r@ == with_module(existing@, attachment),
{
    let ghost all = existing@;
    let key = phrase_key_exec(attachment.phrase.as_str());
    let mut rest = existing;
    let mut kept: Vec<AttachedPhraseModule> = Vec::new();
    let mut d: usize = 0;
    let total = rest.len();
    assert(all.skip(0) =~= all);
    while rest.len() > 0
        invariant
            d + rest@.len() == all.len(),
            total == all.len(),
            rest@ == all.skip(d as int),
            key@ == phrase_key(attachment.phrase@),
            kept@ == crate::text::keep(
                all.take(d as int),
                |x: AttachedPhraseModule| phrase_key(x.phrase@) != phrase_key(attachment.phrase@),
            ),
        decreases rest@.len(),
    {
        let x = rest.remove(0);
        assert(all.take(d + 1).drop_last() =~= all.take(d as int));
        assert(all.take(d + 1).last() == x);
        assert(rest@ =~= all.skip(d + 1));
        let xk = phrase_key_exec(x.phrase.as_str());
        if !same(&xk, &key) {
            kept.push(x);
        }
        d = d + 1;
    }
    assert(all.take(d as int) =~= all);
    kept.push(attachment);
    sort_attachments(kept)
}

/// Whether the host's markdown already mentions the phrase, compared in
/// lower case.
pub fn phrase_covered(host_markdown: &str, phrase: &str) -> (r: bool)
    ensures
        r == contains(unicode_lower(host_markdown@), unicode_lower(phrase@)),
{
    let m = to_lowercase(host_markdown);
    let p = to_lowercase(phrase);
    let mv = chars_of(m.as_str());
    let pv = chars_of(p.as_str());
    contains_exec(&mv, &pv)
}

/// An attachment replaced by a new one: the same source entry, or the same
/// host and phrase.
pub open spec fn replaced_by(x: AttachedPhraseModule, a: AttachedPhraseModule) -> bool {
    x.source_phrase_entry_id == a.source_phrase_entry_id || (x.host_headword@ == a.host_headword@
        && x.phrase@ == a.phrase@)
}

/// The attachments without those the new one replaces, with the new one
/// unless the host already covers its phrase, newest first.
pub open spec fn with_phrase(existing: Seq<AttachedPhraseModule>, a: AttachedPhraseModule, covered: bool) -> Seq<
    AttachedPhraseModule,
> {
    let kept = crate::text::keep(existing, |x: AttachedPhraseModule| !replaced_by(x, a));
    attachment_order(
        if covered {
            kept
        } else {
            kept.push(a)
        },
    )
}

/// Attaches a phrase to the host's attachments (see `with_phrase`).
pub fn attach_phrase(
    existing: Vec<AttachedPhraseModule>,
    attachment: AttachedPhraseModule,
    covered: bool,
) -> (r: Vec<AttachedPhraseModule>)
    ensures
        r@ == with_phrase(existing@, attachment, covered),
{
    let ghost all = existing@;
    let host = chars_of(attachment.host_headword.as_str());
    let phrase = chars_of(attachment.phrase.as_str());
    let mut rest = existing;
    let mut kept: Vec<AttachedPhraseModule> = Vec::new();
    let mut d: usize = 0;
    let total = rest.len();
    assert(all.skip(0) =~= all);
    while rest.len() > 0
        invariant
            d + rest@.len() == all.len(),
            total == all.len(),
            rest@ == all.skip(d as int),
            host@ == attachment.host_headword@,
            phrase@ == attachment.phrase@,
            kept@ == crate::text::keep(
                all.take(d as int),
                |x: AttachedPhraseModule| !replaced_by(x, attachment),
            ),
        decreases rest@.len(),
    {
        let x = rest.remove(0);
        assert(all.take(d + 1).drop_last() =~= all.take(d as int));
        assert(all.take(d + 1).last() == x);
        assert(rest@ =~= all.skip(d + 1));
        let xh = chars_of(x.host_headword.as_str());
        let xp = chars_of(x.phrase.as_str());
        let replaced = x.source_phrase_entry_id == attachment.source_phrase_entry_id || (same(
            &xh,
            &host,
        ) && same(&xp, &phrase));
        if !replaced {
            kept.push(x);
        }
        d = d + 1;
    }
    assert(all.take(d as int) =~= all);
    if !covered {
        kept.push(attachment);
    }
    sort_attachments(kept)
}

/// Why a detach request is refused.
#[derive(Debug, Clone, Copy, PartialEq, Eq, Structural)]
pub enum DetachError {
    NotAttached,
}

impl DetachError {
    pub fn message(self) -> (r: &'static str)
        ensures
            r@ == "attached phrase not found on host entry"@,
    {
        "attached phrase not found on host entry"
    }
}

/// The attachments without those from the given source entry; refused when
/// there is none.
pub fn detach_attachment(existing: Vec<AttachedPhraseModule>, source_phrase_entry_id: i64) -> (r:
    Result<Vec<AttachedPhraseModule>, DetachError>)
    ensures
        ({
            let kept = crate::text::keep(
                existing@,
                |x: AttachedPhraseModule| x.source_phrase_entry_id != source_phrase_entry_id,
            );
            &&& kept.len() == existing@.len() ==> r == Err::<Vec<AttachedPhraseModule>, DetachError>(
                DetachError::NotAttached,
            )
            &&& kept.len() != existing@.len() ==> (r is Ok && r.unwrap()@ == kept)
        }),
{
    let ghost all = existing@;
    let original_len = existing.len();
    let mut rest = existing;
    let mut kept: Vec<AttachedPhraseModule> = Vec::new();
    let mut d: usize = 0;
    assert(all.skip(0) =~= all);
    while rest.len() > 0
        invariant
            d + rest@.len() == all.len(),
            original_len == all.len(),
            rest@ == all.skip(d as int),
            kept@ == crate::text::keep(
                all.take(d as int),
                |x: AttachedPhraseModule| x.source_phrase_entry_id != source_phrase_entry_id,
            ),
        decreases rest@.len(),
    {
        let x = rest.remove(0);
        assert(all.take(d + 1).drop_last() =~= all.take(d as int));
        assert(all.take(d + 1).last() == x);
        assert(rest@ =~= all.skip(d + 1));
        if x.source_phrase_entry_id != source_phrase_entry_id {
            kept.push(x);
        }
        d = d + 1;
    }
    assert(all.take(d as int) =~= all);
    if kept.len() == original_len {
        Err(DetachError::NotAttached)
    } else {
        Ok(kept)
    }
}

// ---------------------------------------------------------------------------
// Attach requests
// ---------------------------------------------------------------------------

/// Why an attach request is refused before anything is stored.
#[derive(Debug, Clone, Copy, PartialEq, Eq, Structural)]
pub enum AttachError {
    EmptyHost,
    NotPhraseEntry,
    MissingPhrase,
    MissingUsagePreview,
}

impl AttachError {
    pub fn message(self) -> (r: &'static str)
        ensures
            r@ == (match self {
                AttachError::EmptyHost => "host_headword cannot be empty"@,
                AttachError::NotPhraseEntry => "selected entry is not a phrase analysis"@,
                AttachError::MissingPhrase => "phrase preview payload missing phrase"@,
                AttachError::MissingUsagePreview => "phrase preview payload missing usage preview"@,
            }),
    {
        match self {
            AttachError::EmptyHost => "host_headword cannot be empty",
            AttachError::NotPhraseEntry => "selected entry is not a phrase analysis",
            AttachError::MissingPhrase => "phrase preview payload missing phrase",
            AttachError::MissingUsagePreview => "phrase preview payload missing usage preview",
        }
    }
}

/// The host headword trimmed; refused when blank.
pub fn attach_host_headword(raw: &str) -> (r: Result<String, AttachError>)
    ensures
        trim(raw@).len() == 0 ==> r == Err::<String, AttachError>(AttachError::EmptyHost),
        trim(raw@).len() > 0 ==> (r is Ok && r.unwrap()@ == trim(raw@)),
{
    if is_blank(raw) {
        Err(AttachError::EmptyHost)
    } else {
        Ok(trim_str(raw))
    }
}

/// The id of a stored phrase entry to attach; ids that are not positive
/// name none.
pub fn persisted_phrase_id(id: Option<i64>) -> (r: Option<i64>)
    ensures
        r == (match id {
            Some(x) => if x > 0 {
                Some(x)
            } else {
                None
            },
            None => None,
        }),
{
    match id {
        Some(x) => if x > 0 {
            Some(x)
        } else {
            None
        },
        None => None,
    }
}

/// A stored entry can be attached when it is a phrase entry or holds a
/// phrase lookup.
pub fn is_phrase_entry(entry_type: &str, has_phrase_lookup: bool) -> (r: bool)
    ensures
        r == (entry_type@ == "PHRASE"@ || has_phrase_lookup),
{
    let t = chars_of(entry_type);
    let p = chars_of("PHRASE");
    same(&t, &p) || has_phrase_lookup
}

/// The phrase of a preview payload trimmed; refused when missing or blank.
pub fn preview_phrase_text(phrase: Option<&str>) -> (r: Result<String, AttachError>)
    ensures
        (phrase is None || trim(phrase.unwrap()@).len() == 0) ==> r == Err::<String, AttachError>(
            AttachError::MissingPhrase,
        ),
        phrase is Some && trim(phrase.unwrap()@).len() > 0 ==> (r is Ok && r.unwrap()@ == trim(
            phrase.unwrap()@,
        )),
{
    match phrase {
        Some(p) => if is_blank(p) {
            Err(AttachError::MissingPhrase)
        } else {
            Ok(trim_str(p))
        },
        None => Err(AttachError::MissingPhrase),
    }
}

/// The markdown of an attached preview: the payload's when it is not blank,
/// else the rendered preview.
pub fn preview_attachment_markdown(
    phrase: &str,
    preview: &PhraseUsagePreview,
    markdown: Option<&str>,
) -> (r: String)
    ensures
        markdown is Some && trim(markdown.unwrap()@).len() > 0 ==> r@ == markdown.unwrap()@,
        (markdown is None || trim(markdown.unwrap()@).len() == 0) ==> r@ == phrase_preview_markdown(
            phrase@,
            *preview,
        ),
{
    match markdown {
        Some(m) => if !is_blank(m) {
            return owned(m);
        },
        None => {},
    }
    render_phrase_preview_markdown(phrase, preview)
}

/// Whether a failed call of the primary model moves to the fallback model:
/// only after a hard failure, and only to a configured fallback model that
/// differs from the primary one.
pub fn switch_to_fallback(hard_failure: bool, primary_model: &str, fallback_model: &str) -> (r: bool)
    ensures
        r == (hard_failure && fallback_model@.len() > 0 && fallback_model@ != primary_model@),
{
    let f = chars_of(fallback_model);
    let p = chars_of(primary_model);
    hard_failure && f.len() > 0 && !crate::text::same(&f, &p)
}

/// The attachment made from a generated usage module.
pub fn build_attachment(
    host_headword: &str,
    phrase: &str,
    usage_module: PhraseUsageModule,
    source_phrase_entry_id: i64,
    attached_at: Timestamp,
) -> (r: AttachedPhraseModule)
    ensures
        r.phrase@ == trim(phrase@),
        r.host_headword@ == host_headword@,
        r.source_phrase_entry_id == source_phrase_entry_id,
        r.usage_module == Some(usage_module),
        r.analysis_markdown@ == preview_markdown_of(
            phrase@,
            usage_module.title@,
            Seq::empty(),
            usage_module,
        ),
        r.confidence == PhraseLookupConfidence::High,
        r.attached_at == attached_at,
{
    let preview = PhraseUsagePreview {
        meaning_zh: owned(usage_module.title.as_str()),
        meaning_en: String::new(),
        usage_module: PhraseUsageModule {
            title: owned(usage_module.title.as_str()),
            explanation: owned(usage_module.explanation.as_str()),
            example_de: owned(usage_module.example_de.as_str()),
            example_zh: owned(usage_module.example_zh.as_str()),
        },
    };
    let markdown = render_phrase_preview_markdown(phrase, &preview);
    AttachedPhraseModule {
        phrase: trim_str(phrase),
        host_headword: owned(host_headword),
        source_phrase_entry_id,
        usage_module: Some(usage_module),
        analysis_markdown: markdown,
        confidence: PhraseLookupConfidence::High,
        attached_at,
    }
}

// ---------------------------------------------------------------------------
// What the order of attachments keeps
// ---------------------------------------------------------------------------

proof fn lemma_text_lt_asym(a: Seq<char>, b: Seq<char>)
    ensures
        !(text_lt(a, b) && text_lt(b, a)),
{
    if text_lt(a, b) && text_lt(b, a) {
        crate::facts::lemma_text_lt_transitive(a, b, a);
        crate::facts::lemma_text_lt_irreflexive(a);
    }
}

proof fn lemma_not_after_transitive(a: AttachedPhraseModule, b: AttachedPhraseModule, c: AttachedPhraseModule)
    requires
        !attached_after(a, b),
        !attached_after(b, c),
    ensures
        !attached_after(a, c),
{
    if a.attached_at == b.attached_at && b.attached_at == c.attached_at {
        crate::facts::lemma_text_lt_total(a.phrase@, b.phrase@);
        crate::facts::lemma_text_lt_total(b.phrase@, c.phrase@);
        if text_lt(c.phrase@, a.phrase@) {
            if text_lt(a.phrase@, b.phrase@) {
                crate::facts::lemma_text_lt_transitive(c.phrase@, a.phrase@, b.phrase@);
            }
        }
    }
}

proof fn lemma_after_asym(a: AttachedPhraseModule, b: AttachedPhraseModule)
    ensures
        attached_after(a, b) ==> !attached_after(b, a),
{
    lemma_text_lt_asym(a.phrase@, b.phrase@);
}

/// Newest first: no attachment is listed after a later one it should
/// precede.
pub open spec fn newest_first(s: Seq<AttachedPhraseModule>) -> bool {
    forall|i: int, j: int| 0 <= i < j < s.len() ==> !attached_after(s[i], s[j])
}

proof fn lemma_insert_contents(s: Seq<AttachedPhraseModule>, x: AttachedPhraseModule)
    ensures
        insert_attachment(s, x).len() == s.len() + 1,
        forall|y: AttachedPhraseModule| #[trigger] insert_attachment(s, x).contains(y) <==> (s.contains(y) || y == x),
    decreases s.len(),
{
    let r = insert_attachment(s, x);
    if s.len() == 0 {
        assert(r == seq![x]);
        assert forall|y: AttachedPhraseModule| r.contains(y) <==> (s.contains(y) || y == x) by {
            if y == x {
                assert(r[0] == x);
            }
        }
    } else {
        let t = s.drop_last();
        if attached_after(s.last(), x) {
            lemma_insert_contents(t, x);
            let q = insert_attachment(t, x);
            assert(r == q.push(s.last()));
            assert forall|y: AttachedPhraseModule| r.contains(y) <==> (s.contains(y) || y == x) by {
                if r.contains(y) {
                    let k = choose|k: int| 0 <= k < r.len() && r[k] == y;
                    if k < q.len() {
                        assert(r[k] == q[k]);
                        assert(q[k] == y);
                        assert(q.contains(y));
                        assert(t.contains(y) || y == x);
                        if t.contains(y) {
                            let m = choose|m: int| 0 <= m < t.len() && t[m] == y;
                            assert(s[m] == t[m]);
                            assert(s.contains(y));
                        }
                    } else {
                        assert(r[k] == s.last());
                        assert(s[s.len() - 1] == y);
                        assert(s.contains(y));
                    }
                }
                if s.contains(y) {
                    let m = choose|m: int| 0 <= m < s.len() && s[m] == y;
                    if m < t.len() {
                        assert(t[m] == y);
                        assert(t.contains(y));
                        assert(q.contains(y));
                        let k = choose|k: int| 0 <= k < q.len() && q[k] == y;
                        assert(r[k] == q[k]);
                        assert(r.contains(y));
                    } else {
                        assert(r[r.len() - 1] == s.last());
                        assert(r.contains(y));
                    }
                }
                if y == x {
                    assert(q.contains(x));
                    let k = choose|k: int| 0 <= k < q.len() && q[k] == x;
                    assert(r[k] == q[k]);
                    assert(r.contains(y));
                }
            }
        } else {
            assert(r == s.push(x));
            assert forall|y: AttachedPhraseModule| r.contains(y) <==> (s.contains(y) || y == x) by {
                if r.contains(y) {
                    let k = choose|k: int| 0 <= k < r.len() && r[k] == y;
                    if k < s.len() {
                        assert(s[k] == y);
                    }
                }
                if s.contains(y) {
                    let m = choose|m: int| 0 <= m < s.len() && s[m] == y;
                    assert(r[m] == y);
                }
                if y == x {
                    assert(r[s.len() as int] == x);
                }
            }
        }
    }
}

proof fn lemma_insert_sorted(s: Seq<AttachedPhraseModule>, x: AttachedPhraseModule)
    requires
        newest_first(s),
    ensures
        newest_first(insert_attachment(s, x)),
    decreases s.len(),
{
    let r = insert_attachment(s, x);
    if s.len() == 0 {
    } else {
        let t = s.drop_last();
        let l = s.last();
        assert forall|i: int, j: int| 0 <= i < j < t.len() implies !attached_after(t[i], t[j]) by {
            assert(t[i] == s[i] && t[j] == s[j]);
        }
        if attached_after(l, x) {
            lemma_insert_sorted(t, x);
            lemma_insert_contents(t, x);
            let q = insert_attachment(t, x);
            lemma_after_asym(l, x);
            assert forall|i: int, j: int| 0 <= i < j < r.len() implies !attached_after(r[i], r[j]) by {
                if j < q.len() {
                    assert(r[i] == q[i] && r[j] == q[j]);
                } else {
                    assert(r[j] == l);
                    assert(r[i] == q[i]);
                    assert(q.contains(q[i]));
                    assert(t.contains(q[i]) || q[i] == x);
                    if q[i] != x {
                        let m = choose|m: int| 0 <= m < t.len() && t[m] == q[i];
                        assert(s[m] == q[i]);
                        assert(l == s[s.len() - 1]);
                    }
                }
            }
        } else {
            assert(r == s.push(x));
            assert forall|i: int, j: int| 0 <= i < j < r.len() implies !attached_after(r[i], r[j]) by {
                if j < s.len() {
                    assert(r[i] == s[i] && r[j] == s[j]);
                } else {
                    assert(r[j] == x);
                    assert(r[i] == s[i]);
                    if i < s.len() - 1 {
                        lemma_not_after_transitive(s[i], l, x);
                    }
                }
            }
        }
    }
}

/// The attachments of a host are always listed newest first, ties by
/// phrase.
pub proof fn law_attachments_newest_first(s: Seq<AttachedPhraseModule>)
    ensures
        newest_first(attachment_order(s)),
        attachment_order(s).len() == s.len(),
    decreases s.len(),
{
    if s.len() > 0 {
        law_attachments_newest_first(s.drop_last());
        lemma_insert_sorted(attachment_order(s.drop_last()), s.last());
        lemma_insert_contents(attachment_order(s.drop_last()), s.last());
    }
}

/// What the order of attachments lists is what it was given.
pub proof fn lemma_order_contents(s: Seq<AttachedPhraseModule>)
    ensures
        forall|y: AttachedPhraseModule| #[trigger] attachment_order(s).contains(y) <==> s.contains(y),
    decreases s.len(),
{
    if s.len() > 0 {
        let t = s.drop_last();
        lemma_order_contents(t);
        lemma_insert_contents(attachment_order(t), s.last());
        assert forall|y: AttachedPhraseModule| attachment_order(s).contains(y) <==> s.contains(y) by {
            if t.contains(y) {
                let m = choose|m: int| 0 <= m < t.len() && t[m] == y;
                assert(s[m] == y);
            }
            if s.contains(y) {
                let m = choose|m: int| 0 <= m < s.len() && s[m] == y;
                if m < t.len() {
                    assert(t[m] == y);
                } else {
                    assert(y == s.last());
                }
            }
        }
    }
}

/// Adding a phrase module keeps the new module and drops every other one
/// under the same phrase.
pub proof fn law_module_replaces_phrase(existing: Seq<AttachedPhraseModule>, a: AttachedPhraseModule)
    ensures
        with_module(existing, a).contains(a),
        forall|y: AttachedPhraseModule|
            #[trigger] with_module(existing, a).contains(y) && y != a ==> phrase_key(y.phrase@)
                != phrase_key(a.phrase@) && existing.contains(y),
{
    let kept = crate::text::keep(
        existing,
        |x: AttachedPhraseModule| phrase_key(x.phrase@) != phrase_key(a.phrase@),
    );
    let all = kept.push(a);
    lemma_order_contents(all);
    crate::text::lemma_keep_contains(
        existing,
        |x: AttachedPhraseModule| phrase_key(x.phrase@) != phrase_key(a.phrase@),
    );
    assert(all[kept.len() as int] == a);
    assert(with_module(existing, a) == attachment_order(all));
    assert(all.contains(a));
    assert forall|y: AttachedPhraseModule| #[trigger] with_module(existing, a).contains(y) && y != a implies phrase_key(
        y.phrase@,
    ) != phrase_key(a.phrase@) && existing.contains(y) by {
        assert(attachment_order(all).contains(y));
        assert(all.contains(y));
        let k = choose|k: int| 0 <= k < all.len() && all[k] == y;
        assert(k < kept.len());
        assert(kept[k] == y);
    }
}

/// Attaching a phrase drops every attachment it replaces (the same source
/// entry, or the same host and phrase); the new one is listed unless the
/// host already covers its phrase; everything else listed was there before.
pub proof fn law_phrase_replaces_earlier(existing: Seq<AttachedPhraseModule>, a: AttachedPhraseModule, covered: bool)
    ensures
        !covered ==> with_phrase(existing, a, covered).contains(a),
        covered ==> !with_phrase(existing, a, covered).contains(a),
        forall|y: AttachedPhraseModule|
            #[trigger] with_phrase(existing, a, covered).contains(y) && y != a ==> !replaced_by(y, a)
                && existing.contains(y),
{
    let kept = crate::text::keep(existing, |x: AttachedPhraseModule| !replaced_by(x, a));
    let all = if covered {
        kept
    } else {
        kept.push(a)
    };
    lemma_order_contents(all);
    crate::text::lemma_keep_contains(existing, |x: AttachedPhraseModule| !replaced_by(x, a));
    assert(with_phrase(existing, a, covered) == attachment_order(all));
    if !covered {
        assert(all[kept.len() as int] == a);
        assert(all.contains(a));
    } else {
        if all.contains(a) {
            let k = choose|k: int| 0 <= k < all.len() && all[k] == a;
            assert(kept[k] == a);
            assert(replaced_by(a, a));
        }
    }
    assert forall|y: AttachedPhraseModule| #[trigger] with_phrase(existing, a, covered).contains(y) && y != a implies !replaced_by(
        y,
        a,
    ) && existing.contains(y) by {
        assert(attachment_order(all).contains(y));
        assert(all.contains(y));
        let k = choose|k: int| 0 <= k < all.len() && all[k] == y;
        assert(k < kept.len());
        assert(kept[k] == y);
    }
}

} // verus!
