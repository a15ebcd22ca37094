//! The structured analysis document and its parts.

use vstd::prelude::*;

verus! {

/// The structured form of a word analysis.
#[derive(Debug, Clone)]
pub struct StructuredAnalysisDocument {
    pub headword: String,
    pub phonetic: String,
    pub meanings: Vec<StructuredMeaning>,
    pub usage_modules: Vec<StructuredUsageModule>,
    pub collocations: Vec<String>,
    pub examples: Vec<StructuredExample>,
    pub grammar_rows: Vec<StructuredGrammarRow>,
    pub grammar_branches: Vec<StructuredGrammarBranch>,
    pub word_network: StructuredWordNetwork,
    pub deep_insights: Vec<StructuredDeepInsight>,
}

#[derive(Debug, Clone)]
pub struct StructuredMeaning {
    pub part_of_speech: String,
    pub chinese: String,
    pub english: String,
}

#[derive(Debug, Clone)]
pub struct StructuredUsageModule {
    pub title: String,
    pub explanation: String,
    pub example_de: String,
    pub example_zh: String,
}

#[derive(Debug, Clone)]
pub struct StructuredExample {
    pub de: String,
    pub zh: String,
}

#[derive(Debug, Clone)]
pub struct StructuredGrammarRow {
    pub key: String,
    pub value: String,
}

#[derive(Debug, Clone)]
pub struct StructuredGrammarBranch {
    pub selector: String,
    pub pos: String,
    pub meanings: Vec<StructuredBranchMeaning>,
    pub grammar: StructuredBranchGrammar,
}

#[derive(Debug, Clone)]
pub struct StructuredBranchMeaning {
    pub zh: String,
    pub en: String,
}

#[derive(Debug, Clone)]
pub struct StructuredBranchGrammar {
    pub genders: Vec<String>,
    pub noun_class: String,
    pub plural_forms: Vec<String>,
    pub genitive_forms: Vec<String>,
    pub separable: String,
    pub transitivity: String,
    pub reflexive: String,
    pub auxiliaries: Vec<String>,
    pub present_3sg: String,
    pub preterite_3sg: String,
    pub partizip_ii: String,
    pub comparative: String,
    pub superlative: String,
    pub governs_cases: Vec<String>,
    pub word_order: String,
}

#[derive(Debug, Clone)]
pub struct StructuredDeepInsight {
    pub title: String,
    pub content_markdown: String,
}

#[derive(Debug, Clone)]
pub struct StructuredWordNetwork {
    pub family: Vec<StructuredWordNetworkItem>,
    pub synonyms: Vec<StructuredWordNetworkItem>,
    pub antonyms: Vec<StructuredWordNetworkItem>,
}

#[derive(Debug, Clone)]
pub struct StructuredWordNetworkItem {
    pub term: String,
    pub part_of_speech: String,
    pub chinese: String,
    pub english: String,
    pub note: String,
}

/// A phrase's usage module as the phrase lookup produces it.
#[derive(Debug, Clone)]
pub struct PhraseUsageModule {
    pub title: String,
    pub explanation: String,
    pub example_de: String,
    pub example_zh: String,
}

/// A preview of a phrase: its meanings and one usage module.
#[derive(Debug, Clone)]
pub struct PhraseUsagePreview {
    pub meaning_zh: String,
    pub meaning_en: String,
    pub usage_module: PhraseUsageModule,
}

pub open spec fn word_network_is_empty(n: StructuredWordNetwork) -> bool {
    n.family@.len() == 0 && n.synonyms@.len() == 0 && n.antonyms@.len() == 0
}

/// Every field of the document is empty.
pub open spec fn document_is_default(d: StructuredAnalysisDocument) -> bool {
    &&& d.headword@.len() == 0
    &&& d.phonetic@.len() == 0
    &&& d.meanings@.len() == 0
    &&& d.usage_modules@.len() == 0
    &&& d.collocations@.len() == 0
    &&& d.examples@.len() == 0
    &&& d.grammar_rows@.len() == 0
    &&& d.grammar_branches@.len() == 0
    &&& word_network_is_empty(d.word_network)
    &&& d.deep_insights@.len() == 0
}

impl Default for StructuredWordNetwork {
    fn default() -> (r: Self)
        ensures
            word_network_is_empty(r),
    {
        StructuredWordNetwork { family: Vec::new(), synonyms: Vec::new(), antonyms: Vec::new() }
    }
}

impl Default for StructuredAnalysisDocument {
    fn default() -> (r: Self)
        ensures
            document_is_default(r),
    {
        StructuredAnalysisDocument {
            headword: String::new(),
            phonetic: String::new(),
            meanings: Vec::new(),
            usage_modules: Vec::new(),
            collocations: Vec::new(),
            examples: Vec::new(),
            grammar_rows: Vec::new(),
            grammar_branches: Vec::new(),
            word_network: StructuredWordNetwork::default(),
            deep_insights: Vec::new(),
        }
    }
}

impl Default for StructuredMeaning {
    fn default() -> (r: Self)
        ensures
            r.part_of_speech@.len() == 0,
            r.chinese@.len() == 0,
            r.english@.len() == 0,
    {
        StructuredMeaning {
            part_of_speech: String::new(),
            chinese: String::new(),
            english: String::new(),
        }
    }
}

impl Default for StructuredUsageModule {
    fn default() -> (r: Self)
        ensures
            r.title@.len() == 0,
            r.explanation@.len() == 0,
            r.example_de@.len() == 0,
            r.example_zh@.len() == 0,
    {
        StructuredUsageModule {
            title: String::new(),
            explanation: String::new(),
            example_de: String::new(),
            example_zh: String::new(),
        }
    }
}

impl Default for StructuredExample {
    fn default() -> (r: Self)
        ensures
            r.de@.len() == 0,
            r.zh@.len() == 0,
    {
        StructuredExample { de: String::new(), zh: String::new() }
    }
}

impl Default for StructuredGrammarRow {
    fn default() -> (r: Self)
        ensures
            r.key@.len() == 0,
            r.value@.len() == 0,
    {
        StructuredGrammarRow { key: String::new(), value: String::new() }
    }
}

impl Default for StructuredBranchMeaning {
    fn default() -> (r: Self)
        ensures
            r.zh@.len() == 0,
            r.en@.len() == 0,
    {
        StructuredBranchMeaning { zh: String::new(), en: String::new() }
    }
}

impl Default for StructuredDeepInsight {
    fn default() -> (r: Self)
        ensures
            r.title@.len() == 0,
            r.content_markdown@.len() == 0,
    {
        StructuredDeepInsight { title: String::new(), content_markdown: String::new() }
    }
}

impl Default for StructuredWordNetworkItem {
    fn default() -> (r: Self)
        ensures
            r.term@.len() == 0,
            r.part_of_speech@.len() == 0,
            r.chinese@.len() == 0,
            r.english@.len() == 0,
            r.note@.len() == 0,
    {
        StructuredWordNetworkItem {
            term: String::new(),
            part_of_speech: String::new(),
            chinese: String::new(),
            english: String::new(),
            note: String::new(),
        }
    }
}


// ---------------------------------------------------------------------------
// Views: the same records with every string taken as its characters.
// ---------------------------------------------------------------------------

#[verifier::ext_equal]
pub struct MeaningV {
    pub part_of_speech: Seq<char>,
    pub chinese: Seq<char>,
    pub english: Seq<char>,
}

#[verifier::ext_equal]
pub struct UsageModuleV {
    pub title: Seq<char>,
    pub explanation: Seq<char>,
    pub example_de: Seq<char>,
    pub example_zh: Seq<char>,
}

#[verifier::ext_equal]
pub struct ExampleV {
    pub de: Seq<char>,
    pub zh: Seq<char>,
}

#[verifier::ext_equal]
pub struct GrammarRowV {
    pub key: Seq<char>,
    pub value: Seq<char>,
}

#[verifier::ext_equal]
pub struct BranchMeaningV {
    pub zh: Seq<char>,
    pub en: Seq<char>,
}

#[verifier::ext_equal]
pub struct BranchGrammarV {
    pub genders: Seq<Seq<char>>,
    pub noun_class: Seq<char>,
    pub plural_forms: Seq<Seq<char>>,
    pub genitive_forms: Seq<Seq<char>>,
    pub separable: Seq<char>,
    pub transitivity: Seq<char>,
    pub reflexive: Seq<char>,
    pub auxiliaries: Seq<Seq<char>>,
    pub present_3sg: Seq<char>,
    pub preterite_3sg: Seq<char>,
    pub partizip_ii: Seq<char>,
    pub comparative: Seq<char>,
    pub superlative: Seq<char>,
    pub governs_cases: Seq<Seq<char>>,
    pub word_order: Seq<char>,
}

#[verifier::ext_equal]
pub struct GrammarBranchV {
    pub selector: Seq<char>,
    pub pos: Seq<char>,
    pub meanings: Seq<BranchMeaningV>,
    pub grammar: BranchGrammarV,
}

#[verifier::ext_equal]
pub struct DeepInsightV {
    pub title: Seq<char>,
    pub content_markdown: Seq<char>,
}

#[verifier::ext_equal]
pub struct WordNetworkItemV {
    pub term: Seq<char>,
    pub part_of_speech: Seq<char>,
    pub chinese: Seq<char>,
    pub english: Seq<char>,
    pub note: Seq<char>,
}

#[verifier::ext_equal]
pub struct WordNetworkV {
    pub family: Seq<WordNetworkItemV>,
    pub synonyms: Seq<WordNetworkItemV>,
    pub antonyms: Seq<WordNetworkItemV>,
}

#[verifier::ext_equal]
pub struct DocumentV {
    pub headword: Seq<char>,
    pub phonetic: Seq<char>,
    pub meanings: Seq<MeaningV>,
    pub usage_modules: Seq<UsageModuleV>,
    pub collocations: Seq<Seq<char>>,
    pub examples: Seq<ExampleV>,
    pub grammar_rows: Seq<GrammarRowV>,
    pub grammar_branches: Seq<GrammarBranchV>,
    pub word_network: WordNetworkV,
    pub deep_insights: Seq<DeepInsightV>,
}

pub open spec fn strs(v: Seq<String>) -> Seq<Seq<char>> {
    v.map_values(|s: String| s@)
}

impl View for StructuredMeaning {
    type V = MeaningV;

    open spec fn view(&self) -> MeaningV {
        MeaningV {
            part_of_speech: self.part_of_speech@,
            chinese: self.chinese@,
            english: self.english@,
        }
    }
}

impl View for StructuredUsageModule {
    type V = UsageModuleV;

    open spec fn view(&self) -> UsageModuleV {
        UsageModuleV {
            title: self.title@,
            explanation: self.explanation@,
            example_de: self.example_de@,
            example_zh: self.example_zh@,
        }
    }
}

impl View for StructuredExample {
    type V = ExampleV;

    open spec fn view(&self) -> ExampleV {
        ExampleV { de: self.de@, zh: self.zh@ }
    }
}

impl View for StructuredGrammarRow {
    type V = GrammarRowV;

    open spec fn view(&self) -> GrammarRowV {
        GrammarRowV { key: self.key@, value: self.value@ }
    }
}

impl View for StructuredBranchMeaning {
    type V = BranchMeaningV;

    open spec fn view(&self) -> BranchMeaningV {
        BranchMeaningV { zh: self.zh@, en: self.en@ }
    }
}

impl View for StructuredBranchGrammar {
    type V = BranchGrammarV;

    open spec fn view(&self) -> BranchGrammarV {
        BranchGrammarV {
            genders: strs(self.genders@),
            noun_class: self.noun_class@,
            plural_forms: strs(self.plural_forms@),
            genitive_forms: strs(self.genitive_forms@),
            separable: self.separable@,
            transitivity: self.transitivity@,
            reflexive: self.reflexive@,
            auxiliaries: strs(self.auxiliaries@),
            present_3sg: self.present_3sg@,
            preterite_3sg: self.preterite_3sg@,
            partizip_ii: self.partizip_ii@,
            comparative: self.comparative@,
            superlative: self.superlative@,
            governs_cases: strs(self.governs_cases@),
            word_order: self.word_order@,
        }
    }
}

impl View for StructuredGrammarBranch {
    type V = GrammarBranchV;

    open spec fn view(&self) -> GrammarBranchV {
        GrammarBranchV {
            selector: self.selector@,
            pos: self.pos@,
            meanings: self.meanings@.map_values(|m: StructuredBranchMeaning| m@),
            grammar: self.grammar@,
        }
    }
}

impl View for StructuredDeepInsight {
    type V = DeepInsightV;

    open spec fn view(&self) -> DeepInsightV {
        DeepInsightV { title: self.title@, content_markdown: self.content_markdown@ }
    }
}

impl View for StructuredWordNetworkItem {
    type V = WordNetworkItemV;

    open spec fn view(&self) -> WordNetworkItemV {
        WordNetworkItemV {
            term: self.term@,
            part_of_speech: self.part_of_speech@,
            chinese: self.chinese@,
            english: self.english@,
            note: self.note@,
        }
    }
}

pub open spec fn item_views(v: Seq<StructuredWordNetworkItem>) -> Seq<WordNetworkItemV> {
    v.map_values(|x: StructuredWordNetworkItem| x@)
}

impl View for StructuredWordNetwork {
    type V = WordNetworkV;

    open spec fn view(&self) -> WordNetworkV {
        WordNetworkV {
            family: item_views(self.family@),
            synonyms: item_views(self.synonyms@),
            antonyms: item_views(self.antonyms@),
        }
    }
}

pub open spec fn meaning_views(v: Seq<StructuredMeaning>) -> Seq<MeaningV> {
    v.map_values(|x: StructuredMeaning| x@)
}

pub open spec fn module_views(v: Seq<StructuredUsageModule>) -> Seq<UsageModuleV> {
    v.map_values(|x: StructuredUsageModule| x@)
}

pub open spec fn example_views(v: Seq<StructuredExample>) -> Seq<ExampleV> {
    v.map_values(|x: StructuredExample| x@)
}

pub open spec fn row_views(v: Seq<StructuredGrammarRow>) -> Seq<GrammarRowV> {
    v.map_values(|x: StructuredGrammarRow| x@)
}

pub open spec fn branch_views(v: Seq<StructuredGrammarBranch>) -> Seq<GrammarBranchV> {
    v.map_values(|x: StructuredGrammarBranch| x@)
}

pub open spec fn insight_views(v: Seq<StructuredDeepInsight>) -> Seq<DeepInsightV> {
    v.map_values(|x: StructuredDeepInsight| x@)
}

impl View for StructuredAnalysisDocument {
    type V = DocumentV;

    open spec fn view(&self) -> DocumentV {
        DocumentV {
            headword: self.headword@,
            phonetic: self.phonetic@,
            meanings: meaning_views(self.meanings@),
            usage_modules: module_views(self.usage_modules@),
            collocations: strs(self.collocations@),
            examples: example_views(self.examples@),
            grammar_rows: row_views(self.grammar_rows@),
            grammar_branches: branch_views(self.grammar_branches@),
            word_network: self.word_network@,
            deep_insights: insight_views(self.deep_insights@),
        }
    }
}


// ---------------------------------------------------------------------------
// Copies whose contents the contract states.
// ---------------------------------------------------------------------------

impl StructuredUsageModule {
    pub fn copy(&self) -> (r: Self)
        ensures
            r@ == self@,
    {
        StructuredUsageModule {
            title: self.title.clone(),
            explanation: self.explanation.clone(),
            example_de: self.example_de.clone(),
            example_zh: self.example_zh.clone(),
        }
    }
}

impl StructuredDeepInsight {
    pub fn copy(&self) -> (r: Self)
        ensures
            r@ == self@,
    {
        StructuredDeepInsight {
            title: self.title.clone(),
            content_markdown: self.content_markdown.clone(),
        }
    }
}

impl StructuredWordNetworkItem {
    pub fn copy(&self) -> (r: Self)
        ensures
            r@ == self@,
    {
        StructuredWordNetworkItem {
            term: self.term.clone(),
            part_of_speech: self.part_of_speech.clone(),
            chinese: self.chinese.clone(),
            english: self.english.clone(),
            note: self.note.clone(),
        }
    }
}

} // verus!
