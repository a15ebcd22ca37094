//! The first-stage model's account of a word: its entries by part of speech,
//! with meanings and grammar, brought to a canonical vocabulary.

use vstd::prelude::*;
use crate::text::{
    ascii_lower, ascii_lower_exec, chars_of, contains, contains_exec, owned, remove_char,
    remove_char_exec, same, str_views, trim, trim_exec, trim_str,
};
use crate::models::{
    strs, BranchGrammarV, BranchMeaningV, GrammarBranchV, StructuredBranchGrammar,
    StructuredBranchMeaning,
};

verus! {

/// The grammar facts the first-stage model gives for one entry.
#[derive(Debug, Clone)]
pub struct ModelAGrammar {
    pub genders: Vec<String>,
    pub noun_class: String,
    pub plural_forms: Vec<String>,
    pub genitive_forms: Vec<String>,
    pub separable: String,
    pub transitivity: String,
    pub reflexive: String,
    pub auxiliaries: Vec<String>,
    pub present_3sg: String,
    pub preterite_3sg: String,
    pub partizip_ii: String,
    pub comparative: String,
    pub superlative: String,
    pub governs_cases: Vec<String>,
    pub word_order: String,
}

/// One entry (one part of speech) of the first-stage output.
#[derive(Debug, Clone)]
pub struct ModelAEntry {
    pub selector: String,
    pub pos: String,
    pub meanings: Vec<StructuredBranchMeaning>,
    pub grammar: ModelAGrammar,
}

/// The first-stage output for a word.
#[derive(Debug, Clone)]
pub struct ModelAOutput {
    pub word: String,
    pub entries: Vec<ModelAEntry>,
}

#[verifier::ext_equal]
pub struct ModelAOutputV {
    pub word: Seq<char>,
    pub entries: Seq<GrammarBranchV>,
}

impl View for ModelAGrammar {
    type V = BranchGrammarV;

    open spec fn view(&self) -> BranchGrammarV {
        BranchGrammarV {
            genders: strs(self.genders@),
            noun_class: self.noun_class@,
            plural_forms: strs(self.plural_forms@),
            genitive_forms: strs(self.genitive_forms@),
            separable: self.separable@,
            transitivity: self.transitivity@,
            reflexive: self.reflexive@,
            auxiliaries: strs(self.auxiliaries@),
            present_3sg: self.present_3sg@,
            preterite_3sg: self.preterite_3sg@,
            partizip_ii: self.partizip_ii@,
            comparative: self.comparative@,
            superlative: self.superlative@,
            governs_cases: strs(self.governs_cases@),
            word_order: self.word_order@,
        }
    }
}

pub open spec fn branch_meaning_views(v: Seq<StructuredBranchMeaning>) -> Seq<BranchMeaningV> {
    v.map_values(|m: StructuredBranchMeaning| m@)
}

impl View for ModelAEntry {
    type V = GrammarBranchV;

    open spec fn view(&self) -> GrammarBranchV {
        GrammarBranchV {
            selector: self.selector@,
            pos: self.pos@,
            meanings: branch_meaning_views(self.meanings@),
            grammar: self.grammar@,
        }
    }
}

pub open spec fn entry_views(v: Seq<ModelAEntry>) -> Seq<GrammarBranchV> {
    v.map_values(|e: ModelAEntry| e@)
}

impl View for ModelAOutput {
    type V = ModelAOutputV;

    open spec fn view(&self) -> ModelAOutputV {
        ModelAOutputV { word: self.word@, entries: entry_views(self.entries@) }
    }
}

impl ModelAGrammar {
    /// The same facts as the grammar of a structured branch.
    pub fn to_branch_grammar(&self) -> (r: StructuredBranchGrammar)
        ensures
            r@ == self@,
    {
        StructuredBranchGrammar {
            genders: copy_strings(&self.genders),
            noun_class: self.noun_class.clone(),
            plural_forms: copy_strings(&self.plural_forms),
            genitive_forms: copy_strings(&self.genitive_forms),
            separable: self.separable.clone(),
            transitivity: self.transitivity.clone(),
            reflexive: self.reflexive.clone(),
            auxiliaries: copy_strings(&self.auxiliaries),
            present_3sg: self.present_3sg.clone(),
            preterite_3sg: self.preterite_3sg.clone(),
            partizip_ii: self.partizip_ii.clone(),
            comparative: self.comparative.clone(),
            superlative: self.superlative.clone(),
            governs_cases: copy_strings(&self.governs_cases),
            word_order: self.word_order.clone(),
        }
    }
}

impl Default for ModelAGrammar {
    fn default() -> (r: Self)
        ensures
            r@ == empty_grammar(),
    {
        let r = ModelAGrammar {
            genders: Vec::new(),
            noun_class: String::new(),
            plural_forms: Vec::new(),
            genitive_forms: Vec::new(),
            separable: String::new(),
            transitivity: String::new(),
            reflexive: String::new(),
            auxiliaries: Vec::new(),
            present_3sg: String::new(),
            preterite_3sg: String::new(),
            partizip_ii: String::new(),
            comparative: String::new(),
            superlative: String::new(),
            governs_cases: Vec::new(),
            word_order: String::new(),
        };
        assert(r@ =~= empty_grammar());
        r
    }
}

impl Default for ModelAEntry {
    fn default() -> (r: Self)
        ensures
            r.selector@.len() == 0,
            r.pos@.len() == 0,
            r.meanings@.len() == 0,
            r.grammar@ == empty_grammar(),
    {
        ModelAEntry {
            selector: String::new(),
            pos: String::new(),
            meanings: Vec::new(),
            grammar: ModelAGrammar::default(),
        }
    }
}

impl Default for ModelAOutput {
    fn default() -> (r: Self)
        ensures
            r.word@.len() == 0,
            r.entries@.len() == 0,
    {
        ModelAOutput { word: String::new(), entries: Vec::new() }
    }
}

pub open spec fn empty_grammar() -> BranchGrammarV {
    BranchGrammarV {
        genders: Seq::empty(),
        noun_class: Seq::empty(),
        plural_forms: Seq::empty(),
        genitive_forms: Seq::empty(),
        separable: Seq::empty(),
        transitivity: Seq::empty(),
        reflexive: Seq::empty(),
        auxiliaries: Seq::empty(),
        present_3sg: Seq::empty(),
        preterite_3sg: Seq::empty(),
        partizip_ii: Seq::empty(),
        comparative: Seq::empty(),
        superlative: Seq::empty(),
        governs_cases: Seq::empty(),
        word_order: Seq::empty(),
    }
}

/// A copy of a list of strings.
pub fn copy_strings(v: &Vec<String>) -> (r: Vec<String>)
    ensures
        strs(r@) == strs(v@),
{
    let mut r: Vec<String> = Vec::new();
    let mut i: usize = 0;
    while i < v.len()
        invariant
            0 <= i <= v@.len(),
            strs(r@) =~= strs(v@).take(i as int),
        decreases v@.len() - i,
    {
        r.push(v[i].clone());
        assert(strs(v@).take(i + 1) =~= strs(v@).take(i as int).push(v@[i as int]@));
        i = i + 1;
    }
    assert(strs(v@).take(v@.len() as int) =~= strs(v@));
    r
}

// ---------------------------------------------------------------------------
// The canonical vocabulary
// ---------------------------------------------------------------------------

/// The value trimmed and with ASCII letters lowercased.
pub open spec fn lowered(v: Seq<char>) -> Seq<char> {
    ascii_lower(trim(v))
}

pub open spec fn norm_pos(v: Seq<char>) -> Seq<char> {
    let l = lowered(v);
    if l == "noun"@ || l == "substantiv"@ || l == "nomen"@ {
        "noun"@
    } else if l == "verb"@ {
        "verb"@
    } else if l == "adjektiv"@ || l == "adjective"@ || l == "adj"@ {
        "adjective"@
    } else if l == "adverb"@ || l == "adv"@ {
        "adverb"@
    } else if l == "präposition"@ || l == "preposition"@ || l == "prep"@ {
        "preposition"@
    } else if l == "konjunktion"@ || l == "subjunktion"@ || l == "conjunction"@ || l == "conj"@ {
        "conjunction"@
    } else if l == "partikel"@ || l == "particle"@ {
        "particle"@
    } else if l == "interjektion"@ || l == "interjection"@ {
        "interjection"@
    } else {
        trim(v)
    }
}

pub open spec fn norm_gender(v: Seq<char>) -> Seq<char> {
    let l = lowered(v);
    if l == "m"@ || l == "maskulin"@ || l == "masculine"@ {
        "masculine"@
    } else if l == "f"@ || l == "feminin"@ || l == "feminine"@ {
        "feminine"@
    } else if l == "n"@ || l == "neutrum"@ || l == "neuter"@ {
        "neuter"@
    } else {
        Seq::empty()
    }
}

/// Every spelling of a gender maps to its name: "m", "maskulin" and
/// "masculine" to "masculine", "f", "feminin" and "feminine" to
/// "feminine", "n", "neutrum" and "neuter" to "neuter", whatever the
/// surrounding whitespace and the case of ASCII letters; the three names
/// differ, and anything else maps to the empty text.
pub proof fn law_gender_spellings(v: Seq<char>)
    ensures
        ({
            let l = ascii_lower(trim(v));
            &&& (l == "m"@ || l == "maskulin"@ || l == "masculine"@) ==> norm_gender(v) == "masculine"@
            &&& (l == "f"@ || l == "feminin"@ || l == "feminine"@) ==> norm_gender(v) == "feminine"@
            &&& (l == "n"@ || l == "neutrum"@ || l == "neuter"@) ==> norm_gender(v) == "neuter"@
            &&& !(l == "m"@ || l == "maskulin"@ || l == "masculine"@ || l == "f"@ || l == "feminin"@
                || l == "feminine"@ || l == "n"@ || l == "neutrum"@ || l == "neuter"@) ==> norm_gender(v).len() == 0
        }),
        "masculine"@ != "feminine"@,
        "feminine"@ != "neuter"@,
        "masculine"@ != "neuter"@,
{
    reveal_strlit("m");
    reveal_strlit("maskulin");
    reveal_strlit("masculine");
    reveal_strlit("f");
    reveal_strlit("feminin");
    reveal_strlit("feminine");
    reveal_strlit("n");
    reveal_strlit("neutrum");
    reveal_strlit("neuter");
    assert("m"@[0] != "f"@[0]);
    assert("m"@[0] != "n"@[0]);
    assert("f"@[0] != "n"@[0]);
    assert("maskulin"@[0] != "feminine"@[0]);
    assert("masculine"@[0] != "feminine"@[0]);
    assert("masculine"@.len() != "neuter"@.len());
    assert("feminine"@.len() != "neuter"@.len());
    assert("maskulin"@.len() != "feminin"@.len());
    assert("feminin"@.len() != "neutrum"@.len() || "feminin"@[0] != "neutrum"@[0]);
    assert("feminine"@.len() != "neutrum"@.len());
    assert("maskulin"@.len() != "neutrum"@.len());
    assert("masculine"@.len() != "neutrum"@.len());
    assert("feminin"@.len() != "neuter"@.len());
    assert("maskulin"@.len() != "neuter"@.len());
}

pub open spec fn norm_noun_class(v: Seq<char>) -> Seq<char> {
    let l = lowered(v);
    if l == "strong"@ || l == "stark"@ {
        "strong"@
    } else if l == "weak"@ || l == "schwach"@ {
        "weak"@
    } else if l == "mixed"@ || l == "gemischt"@ {
        "mixed"@
    } else {
        Seq::empty()
    }
}

/// Every spelling of a noun class maps to its name: "strong" and "stark" to
/// "strong", "weak" and "schwach" to "weak", "mixed" and "gemischt" to
/// "mixed", whatever the surrounding whitespace and the case of ASCII
/// letters; anything else maps to the empty text.
pub proof fn law_noun_class_spellings(v: Seq<char>)
    ensures
        ({
            let l = ascii_lower(trim(v));
            &&& (l == "strong"@ || l == "stark"@) ==> norm_noun_class(v) == "strong"@
            &&& (l == "weak"@ || l == "schwach"@) ==> norm_noun_class(v) == "weak"@
            &&& (l == "mixed"@ || l == "gemischt"@) ==> norm_noun_class(v) == "mixed"@
            &&& !(l == "strong"@ || l == "stark"@ || l == "weak"@ || l == "schwach"@ || l == "mixed"@
                || l == "gemischt"@) ==> norm_noun_class(v).len() == 0
        }),
{
    reveal_strlit("strong");
    reveal_strlit("stark");
    reveal_strlit("weak");
    reveal_strlit("schwach");
    reveal_strlit("mixed");
    reveal_strlit("gemischt");
    assert("strong"@.len() != "weak"@.len());
    assert("strong"@[1] != "schwach"@[1]);
    assert("stark"@.len() != "weak"@.len());
    assert("stark"@[1] != "schwach"@[1]);
    assert("strong"@[0] != "mixed"@[0]);
    assert("strong"@[0] != "gemischt"@[0]);
    assert("stark"@[0] != "mixed"@[0]);
    assert("stark"@[0] != "gemischt"@[0]);
    assert("weak"@[0] != "mixed"@[0]);
    assert("weak"@[0] != "gemischt"@[0]);
    assert("schwach"@[0] != "mixed"@[0]);
    assert("schwach"@[0] != "gemischt"@[0]);
}

pub open spec fn norm_separable(v: Seq<char>) -> Seq<char> {
    let l = lowered(v);
    if l == "yes"@ || l == "ja"@ || l == "true"@ || l == "trennbar"@ || l == "separable"@ {
        "separable"@
    } else if l == "no"@ || l == "nein"@ || l == "false"@ || l == "untrennbar"@ || l
        == "inseparable"@ {
        "inseparable"@
    } else {
        Seq::empty()
    }
}

pub open spec fn norm_transitivity(v: Seq<char>) -> Seq<char> {
    let l = remove_char(lowered(v), ' ');
    if l == "transitiv"@ || l == "transitive"@ {
        "transitive"@
    } else if l == "intransitiv"@ || l == "intransitive"@ {
        "intransitive"@
    } else if l == "transitiv/intransitiv"@ || l == "transitive/intransitive"@ || l
        == "transitiv,intransitiv"@ || l == "transitive,intransitive"@ || l == "both"@ {
        "both"@
    } else {
        Seq::empty()
    }
}

pub open spec fn norm_reflexive(v: Seq<char>) -> Seq<char> {
    let l = lowered(v);
    if l == "none"@ || l == "no"@ || l == "nein"@ || l == "false"@ {
        "none"@
    } else if l == "optional"@ {
        "optional"@
    } else if l == "required"@ || l == "yes"@ || l == "ja"@ || l == "true"@ {
        "required"@
    } else {
        Seq::empty()
    }
}

pub open spec fn norm_auxiliary(v: Seq<char>) -> Seq<char> {
    let l = lowered(v);
    if l == "haben"@ {
        "haben"@
    } else if l == "sein"@ {
        "sein"@
    } else {
        Seq::empty()
    }
}

pub open spec fn norm_case(v: Seq<char>) -> Seq<char> {
    let l = lowered(v);
    if contains(l, "akk"@) || contains(l, "acc"@) {
        "accusative"@
    } else if contains(l, "dat"@) {
        "dative"@
    } else if contains(l, "gen"@) {
        "genitive"@
    } else if contains(l, "nom"@) {
        "nominative"@
    } else {
        Seq::empty()
    }
}

pub open spec fn norm_word_order(v: Seq<char>) -> Seq<char> {
    let l = lowered(v);
    if contains(l, "nebensatz"@) || contains(l, "subordinate"@) {
        "subordinate_clause"@
    } else if contains(l, "hauptsatz"@) || contains(l, "main"@) {
        "main_clause"@
    } else {
        Seq::empty()
    }
}

fn lowered_exec(v: &str) -> (r: Vec<char>)
    ensures
        r@ == lowered(v@),
{
    let c = chars_of(v);
    let t = trim_exec(&c);
    ascii_lower_exec(&t)
}

/// Whether the characters spell the literal.
fn is_lit(v: &Vec<char>, lit: &str) -> (r: bool)
    ensures
        r == (v@ == lit@),
{
    let l = chars_of(lit);
    same(v, &l)
}

fn has_lit(v: &Vec<char>, lit: &str) -> (r: bool)
    ensures
        r == contains(v@, lit@),
{
    let l = chars_of(lit);
    contains_exec(v, &l)
}

pub fn normalize_pos(value: &str) -> (r: String)
    ensures
        r@ == norm_pos(value@),
{
    let l = lowered_exec(value);
    if is_lit(&l, "noun") || is_lit(&l, "substantiv") || is_lit(&l, "nomen") {
        owned("noun")
    } else if is_lit(&l, "verb") {
        owned("verb")
    } else if is_lit(&l, "adjektiv") || is_lit(&l, "adjective") || is_lit(&l, "adj") {
        owned("adjective")
    } else if is_lit(&l, "adverb") || is_lit(&l, "adv") {
        owned("adverb")
    } else if is_lit(&l, "präposition") || is_lit(&l, "preposition") || is_lit(&l, "prep") {
        owned("preposition")
    } else if is_lit(&l, "konjunktion") || is_lit(&l, "subjunktion") || is_lit(&l, "conjunction")
        || is_lit(&l, "conj") {
        owned("conjunction")
    } else if is_lit(&l, "partikel") || is_lit(&l, "particle") {
        owned("particle")
    } else if is_lit(&l, "interjektion") || is_lit(&l, "interjection") {
        owned("interjection")
    } else {
        trim_str(value)
    }
}

pub fn normalize_gender(value: &str) -> (r: String)
    ensures
        r@ == norm_gender(value@),
{
    let l = lowered_exec(value);
    if is_lit(&l, "m") || is_lit(&l, "maskulin") || is_lit(&l, "masculine") {
        owned("masculine")
    } else if is_lit(&l, "f") || is_lit(&l, "feminin") || is_lit(&l, "feminine") {
        owned("feminine")
    } else if is_lit(&l, "n") || is_lit(&l, "neutrum") || is_lit(&l, "neuter") {
        owned("neuter")
    } else {
        String::new()
    }
}

pub fn normalize_noun_class(value: &str) -> (r: String)
    ensures
        r@ == norm_noun_class(value@),
{
    let l = lowered_exec(value);
    if is_lit(&l, "strong") || is_lit(&l, "stark") {
        owned("strong")
    } else if is_lit(&l, "weak") || is_lit(&l, "schwach") {
        owned("weak")
    } else if is_lit(&l, "mixed") || is_lit(&l, "gemischt") {
        owned("mixed")
    } else {
        String::new()
    }
}

pub fn normalize_separable(value: &str) -> (r: String)
    ensures
        r@ == norm_separable(value@),
{
    let l = lowered_exec(value);
    if is_lit(&l, "yes") || is_lit(&l, "ja") || is_lit(&l, "true") || is_lit(&l, "trennbar")
        || is_lit(&l, "separable") {
        owned("separable")
    } else if is_lit(&l, "no") || is_lit(&l, "nein") || is_lit(&l, "false") || is_lit(
        &l,
        "untrennbar",
    ) || is_lit(&l, "inseparable") {
        owned("inseparable")
    } else {
        String::new()
    }
}

pub fn normalize_transitivity(value: &str) -> (r: String)
    ensures
        r@ == norm_transitivity(value@),
{
    let l0 = lowered_exec(value);
    let l = remove_char_exec(&l0, ' ');
    if is_lit(&l, "transitiv") || is_lit(&l, "transitive") {
        owned("transitive")
    } else if is_lit(&l, "intransitiv") || is_lit(&l, "intransitive") {
        owned("intransitive")
    } else if is_lit(&l, "transitiv/intransitiv") || is_lit(&l, "transitive/intransitive")
        || is_lit(&l, "transitiv,intransitiv") || is_lit(&l, "transitive,intransitive") || is_lit(
        &l,
        "both",
    ) {
        owned("both")
    } else {
        String::new()
    }
}

pub fn normalize_reflexive(value: &str) -> (r: String)
    ensures
        r@ == norm_reflexive(value@),
{
    let l = lowered_exec(value);
    if is_lit(&l, "none") || is_lit(&l, "no") || is_lit(&l, "nein") || is_lit(&l, "false") {
        owned("none")
    } else if is_lit(&l, "optional") {
        owned("optional")
    } else if is_lit(&l, "required") || is_lit(&l, "yes") || is_lit(&l, "ja") || is_lit(
        &l,
        "true",
    ) {
        owned("required")
    } else {
        String::new()
    }
}

pub fn normalize_auxiliary(value: &str) -> (r: String)
    ensures
        r@ == norm_auxiliary(value@),
{
    let l = lowered_exec(value);
    if is_lit(&l, "haben") {
        owned("haben")
    } else if is_lit(&l, "sein") {
        owned("sein")
    } else {
        String::new()
    }
}

pub fn normalize_case(value: &str) -> (r: String)
    ensures
        r@ == norm_case(value@),
{
    let l = lowered_exec(value);
    if has_lit(&l, "akk") || has_lit(&l, "acc") {
        owned("accusative")
    } else if has_lit(&l, "dat") {
        owned("dative")
    } else if has_lit(&l, "gen") {
        owned("genitive")
    } else if has_lit(&l, "nom") {
        owned("nominative")
    } else {
        String::new()
    }
}

pub fn normalize_word_order(value: &str) -> (r: String)
    ensures
        r@ == norm_word_order(value@),
{
    let l = lowered_exec(value);
    if has_lit(&l, "nebensatz") || has_lit(&l, "subordinate") {
        owned("subordinate_clause")
    } else if has_lit(&l, "hauptsatz") || has_lit(&l, "main") {
        owned("main_clause")
    } else {
        String::new()
    }
}

// ---------------------------------------------------------------------------
// Lists
// ---------------------------------------------------------------------------

/// The non-empty values, each once, in the order they first occur.
pub open spec fn dedupe_exact(vs: Seq<Seq<char>>) -> Seq<Seq<char>>
    decreases vs.len(),
{
    if vs.len() == 0 {
        Seq::empty()
    } else {
        let acc = dedupe_exact(vs.drop_last());
        let v = vs.last();
        if v.len() > 0 && !acc.contains(v) {
            acc.push(v)
        } else {
            acc
        }
    }
}

/// Which canonical vocabulary a list of grammar values is mapped to.
#[derive(Clone, Copy, Debug, PartialEq, Eq, Structural)]
pub enum ListKind {
    Gender,
    Auxiliary,
    Case,
}

pub open spec fn map_kind(kind: ListKind, v: Seq<char>) -> Seq<char> {
    match kind {
        ListKind::Gender => norm_gender(v),
        ListKind::Auxiliary => norm_auxiliary(v),
        ListKind::Case => norm_case(v),
    }
}

fn map_value(kind: ListKind, v: &str) -> (r: String)
    ensures
        r@ == map_kind(kind, v@),
{
    match kind {
        ListKind::Gender => normalize_gender(v),
        ListKind::Auxiliary => normalize_auxiliary(v),
        ListKind::Case => normalize_case(v),
    }
}

/// Whether a string occurs among the strings.
fn contains_string(vs: &Vec<String>, v: &String) -> (r: bool)
    ensures
        r == strs(vs@).contains(v@),
{
    let mut i: usize = 0;
    while i < vs.len()
        invariant
            0 <= i <= vs@.len(),
            forall|j: int| 0 <= j < i ==> strs(vs@)[j] != v@,
        decreases vs@.len() - i,
    {
        let a = chars_of(vs[i].as_str());
        let b = chars_of(v.as_str());
        if same(&a, &b) {
            assert(strs(vs@)[i as int] == v@);
            return true;
        }
        i = i + 1;
    }
    false
}

/// Adds a value unless it is empty or already present.
fn push_new(out: &mut Vec<String>, v: String)
    ensures
        strs(final(out)@) == (if v@.len() > 0 && !strs(old(out)@).contains(v@) {
            strs(old(out)@).push(v@)
        } else {
            strs(old(out)@)
        }),
{
    if !v.as_str().is_empty() && !contains_string(out, &v) {
        let ghost before = strs(out@);
        let ghost vv = v@;
        out.push(v);
        assert(strs(out@) =~= before.push(vv));
    }
}

/// The items of a list the model wrote as one text: the parts between
/// slashes, trimmed, without empty ones.
pub open spec fn model_string_items(s: Seq<char>) -> Seq<Seq<char>> {
    crate::text::non_empty(crate::text::pieces(s, false, seq!['/']).map_values(|p: Seq<char>| trim(p)))
}

pub fn split_model_string(value: &str) -> (r: Vec<String>)
    ensures
        str_views(r@) == model_string_items(value@),
{
    let c = chars_of(value);
    let set: [char; 1] = ['/'];
    assert(set@ =~= seq!['/']);
    let ps = crate::text::pieces_exec(&c, false, &set);
    let ghost tv = crate::text::views(ps@).map_values(|p: Seq<char>| trim(p));
    let mut out: Vec<String> = Vec::new();
    let mut i: usize = 0;
    while i < ps.len()
        invariant
            0 <= i <= ps@.len(),
            tv == crate::text::views(ps@).map_values(|p: Seq<char>| trim(p)),
            str_views(out@) == crate::text::non_empty(tv.take(i as int)),
        decreases ps@.len() - i,
    {
        assert(tv.take(i + 1).drop_last() =~= tv.take(i as int));
        assert(tv.take(i + 1).last() == trim(ps@[i as int]@));
        let t = trim_exec(&ps[i]);
        if t.len() > 0 {
            let ghost before = str_views(out@);
            out.push(crate::text::string_of(&t));
            assert(str_views(out@) =~= before.push(t@));
        }
        i = i + 1;
    }
    assert(tv.take(ps@.len() as int) =~= tv);
    out
}

/// The values mapped to the vocabulary of `kind`, without empties and
/// repeats.
pub fn normalize_string_list(values: &Vec<String>, kind: ListKind) -> (r: Vec<String>)
    ensures
        strs(r@) == dedupe_exact(strs(values@).map_values(|v: Seq<char>| map_kind(kind, v))),
{
    let ghost mv = strs(values@).map_values(|v: Seq<char>| map_kind(kind, v));
    let mut out: Vec<String> = Vec::new();
    let mut i: usize = 0;
    while i < values.len()
        invariant
            0 <= i <= values@.len(),
            mv == strs(values@).map_values(|v: Seq<char>| map_kind(kind, v)),
            strs(out@) == dedupe_exact(mv.take(i as int)),
        decreases values@.len() - i,
    {
        assert(mv.take(i + 1).drop_last() =~= mv.take(i as int));
        assert(mv.take(i + 1).last() == map_kind(kind, values@[i as int]@));
        let m = map_value(kind, values[i].as_str());
        push_new(&mut out, m);
        i = i + 1;
    }
    assert(mv.take(mv.len() as int) =~= mv);
    out
}

/// The trimmed values without empties and repeats.
pub fn normalize_free_text_list(values: &Vec<String>) -> (r: Vec<String>)
    ensures
        strs(r@) == dedupe_exact(strs(values@).map_values(|v: Seq<char>| trim(v))),
{
    let ghost mv = strs(values@).map_values(|v: Seq<char>| trim(v));
    let mut out: Vec<String> = Vec::new();
    let mut i: usize = 0;
    while i < values.len()
        invariant
            0 <= i <= values@.len(),
            mv == strs(values@).map_values(|v: Seq<char>| trim(v)),
            strs(out@) == dedupe_exact(mv.take(i as int)),
        decreases values@.len() - i,
    {
        assert(mv.take(i + 1).drop_last() =~= mv.take(i as int));
        assert(mv.take(i + 1).last() == trim(values@[i as int]@));
        let t = trim_str(values[i].as_str());
        push_new(&mut out, t);
        i = i + 1;
    }
    assert(mv.take(mv.len() as int) =~= mv);
    out
}

// ---------------------------------------------------------------------------
// Grammar, entries and the whole output
// ---------------------------------------------------------------------------

/// The grammar in the canonical vocabulary; a transitive verb whose cases are
/// not given governs the accusative.
pub open spec fn norm_grammar(g: BranchGrammarV) -> BranchGrammarV {
    let cases = dedupe_exact(g.governs_cases.map_values(|v: Seq<char>| norm_case(v)));
    let t = norm_transitivity(g.transitivity);
    BranchGrammarV {
        genders: dedupe_exact(g.genders.map_values(|v: Seq<char>| norm_gender(v))),
        noun_class: norm_noun_class(g.noun_class),
        plural_forms: dedupe_exact(g.plural_forms.map_values(|v: Seq<char>| trim(v))),
        genitive_forms: dedupe_exact(g.genitive_forms.map_values(|v: Seq<char>| trim(v))),
        separable: norm_separable(g.separable),
        transitivity: t,
        reflexive: norm_reflexive(g.reflexive),
        auxiliaries: dedupe_exact(g.auxiliaries.map_values(|v: Seq<char>| norm_auxiliary(v))),
        present_3sg: trim(g.present_3sg),
        preterite_3sg: trim(g.preterite_3sg),
        partizip_ii: trim(g.partizip_ii),
        comparative: trim(g.comparative),
        superlative: trim(g.superlative),
        governs_cases: if cases.len() == 0 && (t == "transitive"@ || t == "both"@) {
            seq!["accusative"@]
        } else {
            cases
        },
        word_order: norm_word_order(g.word_order),
    }
}

/// Whether any grammar field is given.
pub open spec fn grammar_has_content(g: BranchGrammarV) -> bool {
    ||| g.genders.len() > 0
    ||| g.noun_class.len() > 0
    ||| g.plural_forms.len() > 0
    ||| g.genitive_forms.len() > 0
    ||| g.separable.len() > 0
    ||| g.transitivity.len() > 0
    ||| g.reflexive.len() > 0
    ||| g.auxiliaries.len() > 0
    ||| g.present_3sg.len() > 0
    ||| g.preterite_3sg.len() > 0
    ||| g.partizip_ii.len() > 0
    ||| g.comparative.len() > 0
    ||| g.superlative.len() > 0
    ||| g.governs_cases.len() > 0
    ||| g.word_order.len() > 0
}

/// The trimmed meanings with a Chinese or English side.
pub open spec fn norm_branch_meanings(ms: Seq<BranchMeaningV>) -> Seq<BranchMeaningV>
    decreases ms.len(),
{
    if ms.len() == 0 {
        Seq::empty()
    } else {
        let m = BranchMeaningV { zh: trim(ms.last().zh), en: trim(ms.last().en) };
        if m.zh.len() > 0 || m.en.len() > 0 {
            norm_branch_meanings(ms.drop_last()).push(m)
        } else {
            norm_branch_meanings(ms.drop_last())
        }
    }
}

pub open spec fn norm_entry(e: GrammarBranchV) -> GrammarBranchV {
    GrammarBranchV {
        selector: trim(e.selector),
        pos: norm_pos(e.pos),
        meanings: norm_branch_meanings(e.meanings),
        grammar: norm_grammar(e.grammar),
    }
}

/// The normalised entries that still say something.
pub open spec fn norm_entries(es: Seq<GrammarBranchV>) -> Seq<GrammarBranchV>
    decreases es.len(),
{
    if es.len() == 0 {
        Seq::empty()
    } else {
        let e = norm_entry(es.last());
        if e.pos.len() > 0 || e.selector.len() > 0 || e.meanings.len() > 0 || grammar_has_content(
            e.grammar,
        ) {
            norm_entries(es.drop_last()).push(e)
        } else {
            norm_entries(es.drop_last())
        }
    }
}

pub open spec fn norm_output(o: ModelAOutputV) -> ModelAOutputV {
    ModelAOutputV { word: trim(o.word), entries: norm_entries(o.entries) }
}

pub fn normalize_grammar(g: &ModelAGrammar) -> (r: ModelAGrammar)
    ensures
        r@ == norm_grammar(g@),
{
    let transitivity = normalize_transitivity(g.transitivity.as_str());
    let mut cases = normalize_string_list(&g.governs_cases, ListKind::Case);
    let tv = chars_of(transitivity.as_str());
    if cases.len() == 0 && (is_lit(&tv, "transitive") || is_lit(&tv, "both")) {
        cases.push(owned("accusative"));
        assert(strs(cases@) =~= seq!["accusative"@]);
    }
    let r = ModelAGrammar {
        genders: normalize_string_list(&g.genders, ListKind::Gender),
        noun_class: normalize_noun_class(g.noun_class.as_str()),
        plural_forms: normalize_free_text_list(&g.plural_forms),
        genitive_forms: normalize_free_text_list(&g.genitive_forms),
        separable: normalize_separable(g.separable.as_str()),
        transitivity,
        reflexive: normalize_reflexive(g.reflexive.as_str()),
        auxiliaries: normalize_string_list(&g.auxiliaries, ListKind::Auxiliary),
        present_3sg: trim_str(g.present_3sg.as_str()),
        preterite_3sg: trim_str(g.preterite_3sg.as_str()),
        partizip_ii: trim_str(g.partizip_ii.as_str()),
        comparative: trim_str(g.comparative.as_str()),
        superlative: trim_str(g.superlative.as_str()),
        governs_cases: cases,
        word_order: normalize_word_order(g.word_order.as_str()),
    };
    assert(strs(g.genders@).map_values(|v: Seq<char>| map_kind(ListKind::Gender, v)) =~= strs(
        g.genders@,
    ).map_values(|v: Seq<char>| norm_gender(v)));
    assert(strs(g.auxiliaries@).map_values(|v: Seq<char>| map_kind(ListKind::Auxiliary, v))
        =~= strs(g.auxiliaries@).map_values(|v: Seq<char>| norm_auxiliary(v)));
    assert(strs(g.governs_cases@).map_values(|v: Seq<char>| map_kind(ListKind::Case, v))
        =~= strs(g.governs_cases@).map_values(|v: Seq<char>| norm_case(v)));
    assert(r@ =~= norm_grammar(g@));
    r
}

fn has_non_empty_grammar(g: &ModelAGrammar) -> (r: bool)
    ensures
        r == grammar_has_content(g@),
{
    g.genders.len() > 0 || !g.noun_class.as_str().is_empty() || g.plural_forms.len() > 0
        || g.genitive_forms.len() > 0 || !g.separable.as_str().is_empty()
        || !g.transitivity.as_str().is_empty() || !g.reflexive.as_str().is_empty()
        || g.auxiliaries.len() > 0 || !g.present_3sg.as_str().is_empty()
        || !g.preterite_3sg.as_str().is_empty() || !g.partizip_ii.as_str().is_empty()
        || !g.comparative.as_str().is_empty() || !g.superlative.as_str().is_empty()
        || g.governs_cases.len() > 0 || !g.word_order.as_str().is_empty()
}

pub(crate) fn normalize_branch_meanings(ms: &Vec<StructuredBranchMeaning>) -> (r: Vec<StructuredBranchMeaning>)
    ensures
        branch_meaning_views(r@) == norm_branch_meanings(branch_meaning_views(ms@)),
{
    let ghost vv = branch_meaning_views(ms@);
    let mut out: Vec<StructuredBranchMeaning> = Vec::new();
    let mut i: usize = 0;
    while i < ms.len()
        invariant
            0 <= i <= ms@.len(),
            vv == branch_meaning_views(ms@),
            branch_meaning_views(out@) == norm_branch_meanings(vv.take(i as int)),
        decreases ms@.len() - i,
    {
        assert(vv.take(i + 1).drop_last() =~= vv.take(i as int));
        assert(vv.take(i + 1).last() == ms@[i as int]@);
        let m = StructuredBranchMeaning {
            zh: trim_str(ms[i].zh.as_str()),
            en: trim_str(ms[i].en.as_str()),
        };
        if !m.zh.as_str().is_empty() || !m.en.as_str().is_empty() {
            let ghost before = branch_meaning_views(out@);
            let ghost mv = m@;
            out.push(m);
            assert(branch_meaning_views(out@) =~= before.push(mv));
        }
        i = i + 1;
    }
    assert(vv.take(vv.len() as int) =~= vv);
    out
}

pub fn normalize_model_a_entry(e: &ModelAEntry) -> (r: ModelAEntry)
    ensures
        r@ == norm_entry(e@),
{
    let r = ModelAEntry {
        selector: trim_str(e.selector.as_str()),
        pos: normalize_pos(e.pos.as_str()),
        meanings: normalize_branch_meanings(&e.meanings),
        grammar: normalize_grammar(&e.grammar),
    };
    assert(r@ =~= norm_entry(e@));
    r
}

/// The output with its word trimmed and its entries in the canonical
/// vocabulary, dropping entries that say nothing.
pub fn normalize_model_a_output(output: ModelAOutput) -> (r: ModelAOutput)
    ensures
        r@ == norm_output(output@),
{
    let ghost vv = entry_views(output.entries@);
    let mut out: Vec<ModelAEntry> = Vec::new();
    let mut i: usize = 0;
    while i < output.entries.len()
        invariant
            0 <= i <= output.entries@.len(),
            vv == entry_views(output.entries@),
            entry_views(out@) == norm_entries(vv.take(i as int)),
        decreases output.entries@.len() - i,
    {
        assert(vv.take(i + 1).drop_last() =~= vv.take(i as int));
        assert(vv.take(i + 1).last() == output.entries@[i as int]@);
        let e = normalize_model_a_entry(&output.entries[i]);
        if !e.pos.as_str().is_empty() || !e.selector.as_str().is_empty() || e.meanings.len() > 0
            || has_non_empty_grammar(&e.grammar) {
            let ghost before = entry_views(out@);
            let ghost ev = e@;
            out.push(e);
            assert(entry_views(out@) =~= before.push(ev));
        }
        i = i + 1;
    }
    assert(vv.take(vv.len() as int) =~= vv);
    let r = ModelAOutput { word: trim_str(output.word.as_str()), entries: out };
    assert(r@ =~= norm_output(output@));
    r
}

} // verus!
