use de_ai_hilfer::analysis_preview::{
    branch_discriminant, compact_branch_label, compact_gender, compact_pos, preview_branches,
    preview_from_analysis, strip_markdown_preview,
};
use de_ai_hilfer::models::{
    StructuredAnalysisDocument, StructuredBranchGrammar, StructuredBranchMeaning,
    StructuredGrammarBranch, StructuredMeaning,
};

fn grammar() -> StructuredBranchGrammar {
    StructuredBranchGrammar {
        genders: vec![],
        noun_class: String::new(),
        plural_forms: vec![],
        genitive_forms: vec![],
        separable: String::new(),
        transitivity: String::new(),
        reflexive: String::new(),
        auxiliaries: vec![],
        present_3sg: String::new(),
        preterite_3sg: String::new(),
        partizip_ii: String::new(),
        comparative: String::new(),
        superlative: String::new(),
        governs_cases: vec![],
        word_order: String::new(),
    }
}

fn branch(selector: &str, pos: &str, zh: &[&str], g: StructuredBranchGrammar) -> StructuredGrammarBranch {
    StructuredGrammarBranch {
        selector: selector.to_string(),
        pos: pos.to_string(),
        meanings: zh.iter().map(|z| StructuredBranchMeaning { zh: z.to_string(), en: String::new() }).collect(),
        grammar: g,
    }
}

#[test]
fn compact_labels() {
    assert_eq!(compact_pos("Verb", ""), "v.");
    assert_eq!(compact_pos("", "Substantiv"), "n.");
    assert_eq!(compact_pos("Adverb", ""), "adv.");
    assert_eq!(compact_pos("  ", " "), "?");
    assert_eq!(compact_pos(" Zahlwort ", ""), "Zahlwort");
    assert_eq!(compact_gender(" Feminin "), Some("f."));
    assert_eq!(compact_gender("x"), None);
    let mut g = grammar();
    g.separable = "Trennbar".to_string();
    assert_eq!(compact_branch_label(&branch("", "verb", &[], g.clone())), "v. sep.");
    assert_eq!(branch_discriminant(&branch("", "verb", &[], g)), "separable:Trennbar");
    let mut n = grammar();
    n.genders = vec!["x".to_string(), "neuter".to_string()];
    assert_eq!(compact_branch_label(&branch("", "noun", &[], n.clone())), "(n.) n.");
    assert_eq!(branch_discriminant(&branch("", "noun", &[], n)), "gender:x/neuter");
}

#[test]
fn same_pos_branches_merge_meanings() {
    let bs = vec![
        branch("", "verb", &[" 跑；走 "], grammar()),
        branch("", "verb", &["走/行"], grammar()),
        branch("c", "noun", &[""], grammar()),
    ];
    let ps = preview_branches(&bs);
    assert_eq!(ps.len(), 1);
    assert_eq!(ps[0].label, "v.");
    assert_eq!(ps[0].meaning, "跑/走/行");
}

#[test]
fn distinct_branches_stay_apart() {
    let mut g1 = grammar();
    g1.separable = "separable".to_string();
    let mut g2 = grammar();
    g2.separable = "inseparable".to_string();
    let bs = vec![branch("um|fahren", "verb", &["撞倒"], g1), branch("umfahren", "verb", &["绕行"], g2)];
    let ps = preview_branches(&bs);
    assert_eq!(ps.len(), 2);
    assert_eq!(ps[0].label, "v. sep.");
    assert_eq!(ps[1].label, "v. insep.");
}

#[test]
fn markdown_preview_strips_markup() {
    assert_eq!(strip_markdown_preview("* **Haus** (n.)\t  _Gebäude_"), "Haus n. Gebäude");
    let md = "# Haus\n\n#### 核心释义\n* **n.** 房子\n";
    assert_eq!(preview_from_analysis(None, md), "n. 房子");
    assert_eq!(preview_from_analysis(None, ""), "无法生成预览");
    assert_eq!(preview_from_analysis(None, "# nur Titel"), "无法生成预览");
}

#[test]
fn structured_preview_wins() {
    let doc = StructuredAnalysisDocument {
        meanings: vec![StructuredMeaning { part_of_speech: "Substantiv".to_string(), chinese: " 房子 ".to_string(), english: String::new() }],
        ..StructuredAnalysisDocument::default()
    };
    assert_eq!(preview_from_analysis(Some(&doc), "ignored"), "[n.] 房子");
    let branches = StructuredAnalysisDocument {
        grammar_branches: vec![branch("", "verb", &["跑"], grammar())],
        ..StructuredAnalysisDocument::default()
    };
    assert_eq!(preview_from_analysis(Some(&branches), ""), "[v.] 跑");
}
