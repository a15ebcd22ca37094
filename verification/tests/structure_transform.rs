use de_ai_hilfer::models::{
    PhraseUsageModule, PhraseUsagePreview, StructuredAnalysisDocument, StructuredDeepInsight,
    StructuredMeaning, StructuredUsageModule, StructuredWordNetwork, StructuredWordNetworkItem,
};
use de_ai_hilfer::structure_transform::{
    merge_structured_with_seed, normalize_structured_analysis, normalize_usage_explanation,
    structured_from_phrase_preview,
};

fn item(term: &str, zh: &str) -> StructuredWordNetworkItem {
    StructuredWordNetworkItem {
        term: term.to_string(),
        part_of_speech: String::new(),
        chinese: zh.to_string(),
        english: String::new(),
        note: String::new(),
    }
}

#[test]
fn normalizes_usage_explanation_line_breaks_only() {
    let structured = StructuredAnalysisDocument {
        headword: "helfen".to_string(),
        usage_modules: vec![StructuredUsageModule {
            title: "jemandem helfen".to_string(),
            explanation: "用于表达帮助某人。\n注意支配 Dativ，\n不要按中文直觉使用 Akkusativ。".to_string(),
            example_de: "Ich helfe dir.".to_string(),
            example_zh: "我帮你。".to_string(),
        }],
        deep_insights: vec![StructuredDeepInsight {
            title: "为什么用 Dativ".to_string(),
            content_markdown: "1. 第一层\n2. 第二层".to_string(),
        }],
        ..StructuredAnalysisDocument::default()
    };

    let normalized = normalize_structured_analysis(Some(structured), "helfen").unwrap();

    assert_eq!(
        normalized.usage_modules[0].explanation,
        "用于表达帮助某人。 注意支配 Dativ， 不要按中文直觉使用 Akkusativ。"
    );
    assert_eq!(normalized.deep_insights[0].content_markdown, "1. 第一层\n2. 第二层");
}

#[test]
fn fills_missing_deep_insights_from_seed() {
    let structured = StructuredAnalysisDocument {
        deep_insights: vec![StructuredDeepInsight {
            title: "辨析".to_string(),
            content_markdown: "已抽取内容".to_string(),
        }],
        ..StructuredAnalysisDocument::default()
    };
    let seed = StructuredAnalysisDocument {
        deep_insights: vec![
            StructuredDeepInsight { title: "辨析".to_string(), content_markdown: "规则解析内容".to_string() },
            StructuredDeepInsight { title: "词源".to_string(), content_markdown: "词源内容".to_string() },
        ],
        ..StructuredAnalysisDocument::default()
    };

    let merged = merge_structured_with_seed(structured, &seed);

    assert_eq!(merged.deep_insights.len(), 2);
    assert_eq!(merged.deep_insights[0].content_markdown, "已抽取内容");
    assert_eq!(merged.deep_insights[1].title, "词源");
}

#[test]
fn normalization_of_nothing_is_nothing() {
    assert!(normalize_structured_analysis(None, "x").is_none());
    let only_headword = StructuredAnalysisDocument {
        headword: "Haus".to_string(),
        meanings: vec![StructuredMeaning {
            part_of_speech: "n.".to_string(),
            chinese: "  ".to_string(),
            english: String::new(),
        }],
        ..StructuredAnalysisDocument::default()
    };
    assert!(normalize_structured_analysis(Some(only_headword), "Haus").is_none());
}

#[test]
fn normalization_falls_back_to_headword_and_dedupes() {
    let doc = StructuredAnalysisDocument {
        headword: "   ".to_string(),
        phonetic: " [haʊs] ".to_string(),
        collocations: vec![" im Haus ".to_string(), "IM HAUS".to_string(), "".to_string(), "nach Hause".to_string()],
        word_network: StructuredWordNetwork {
            family: vec![item(" Häuschen ", " 小房子 "), item("häuschen", "dup"), item("  ", "x")],
            ..StructuredWordNetwork::default()
        },
        deep_insights: vec![StructuredDeepInsight { title: " ".to_string(), content_markdown: " Inhalt ".to_string() }],
        ..StructuredAnalysisDocument::default()
    };

    let n = normalize_structured_analysis(Some(doc), " Haus ").unwrap();

    assert_eq!(n.headword, "Haus");
    assert_eq!(n.phonetic, "[haʊs]");
    assert_eq!(n.collocations, vec!["im Haus".to_string(), "nach Hause".to_string()]);
    assert_eq!(n.word_network.family.len(), 1);
    assert_eq!(n.word_network.family[0].term, "Häuschen");
    assert_eq!(n.word_network.family[0].chinese, "小房子");
    assert_eq!(n.deep_insights[0].title, "分析片段");
    assert_eq!(n.deep_insights[0].content_markdown, "Inhalt");
}

#[test]
fn usage_explanation_collapses_all_whitespace() {
    assert_eq!(normalize_usage_explanation("  a \t b\n\n c  "), "a b c");
    assert_eq!(normalize_usage_explanation("   "), "");
}

#[test]
fn phrase_preview_becomes_a_phrase_document() {
    let preview = PhraseUsagePreview {
        meaning_zh: " 放弃 ".to_string(),
        meaning_en: "to give up".to_string(),
        usage_module: PhraseUsageModule {
            title: "aufgeben".to_string(),
            explanation: " 表示放弃。 ".to_string(),
            example_de: "Gib nicht auf!".to_string(),
            example_zh: "别放弃！".to_string(),
        },
    };

    let doc = structured_from_phrase_preview(" etwas aufgeben ", &preview);

    assert_eq!(doc.headword, "etwas aufgeben");
    assert_eq!(doc.meanings.len(), 1);
    assert_eq!(doc.meanings[0].part_of_speech, "短语");
    assert_eq!(doc.meanings[0].chinese, "放弃");
    assert_eq!(doc.usage_modules[0].explanation, "表示放弃。");
    assert_eq!(doc.deep_insights[0].title, "短语说明");
    assert_eq!(doc.deep_insights[0].content_markdown, "表示放弃。");
}

#[test]
fn empty_phrase_preview_gives_the_empty_document() {
    let preview = PhraseUsagePreview {
        meaning_zh: String::new(),
        meaning_en: String::new(),
        usage_module: PhraseUsageModule {
            title: String::new(),
            explanation: String::new(),
            example_de: String::new(),
            example_zh: String::new(),
        },
    };
    let doc = structured_from_phrase_preview("x", &preview);
    assert_eq!(doc.headword, "");
    assert!(doc.meanings.is_empty());
}

#[test]
fn merge_adds_new_items_and_modules_only() {
    let doc = StructuredAnalysisDocument {
        usage_modules: vec![StructuredUsageModule {
            title: "Alltag".to_string(),
            explanation: "a".to_string(),
            example_de: "b".to_string(),
            example_zh: "c".to_string(),
        }],
        word_network: StructuredWordNetwork { synonyms: vec![item("Hilfe", "帮助")], ..StructuredWordNetwork::default() },
        ..StructuredAnalysisDocument::default()
    };
    let seed = StructuredAnalysisDocument {
        usage_modules: vec![
            StructuredUsageModule { title: " alltag ".to_string(), explanation: "x".to_string(), example_de: "y".to_string(), example_zh: "z".to_string() },
            StructuredUsageModule { title: "Beruf".to_string(), explanation: "x".to_string(), example_de: "y".to_string(), example_zh: "z".to_string() },
        ],
        word_network: StructuredWordNetwork { synonyms: vec![item("hilfe", "dup"), item("Beistand", "援助")], ..StructuredWordNetwork::default() },
        ..StructuredAnalysisDocument::default()
    };

    let merged = merge_structured_with_seed(doc, &seed);

    assert_eq!(merged.usage_modules.len(), 2);
    assert_eq!(merged.usage_modules[0].explanation, "a");
    assert_eq!(merged.usage_modules[1].title, "Beruf");
    assert_eq!(merged.word_network.synonyms.len(), 2);
    assert_eq!(merged.word_network.synonyms[0].chinese, "帮助");
    assert_eq!(merged.word_network.synonyms[1].term, "Beistand");
}

#[test]
fn normalizing_twice_changes_nothing() {
    let doc = StructuredAnalysisDocument {
        headword: "  ".to_string(),
        collocations: vec![" Hilfe leisten ".to_string(), "hilfe LEISTEN".to_string(), "  ".to_string()],
        usage_modules: vec![StructuredUsageModule {
            title: " helfen ".to_string(),
            explanation: " a \n b  c ".to_string(),
            example_de: String::new(),
            example_zh: String::new(),
        }],
        word_network: StructuredWordNetwork {
            family: vec![item(" Hilfe ", "帮助"), item("hilfe", "重复"), item(" ", "空")],
            synonyms: vec![],
            antonyms: vec![],
        },
        deep_insights: vec![StructuredDeepInsight { title: " ".to_string(), content_markdown: " x ".to_string() }],
        ..StructuredAnalysisDocument::default()
    };
    let once = normalize_structured_analysis(Some(doc), " helfen ").unwrap();
    assert_eq!(once.headword, "helfen");
    assert_eq!(once.collocations, vec!["Hilfe leisten".to_string()]);
    assert_eq!(once.word_network.family.len(), 1);
    assert_eq!(once.deep_insights[0].title, "分析片段");
    assert_eq!(once.usage_modules[0].explanation, "a b c");
    let twice = normalize_structured_analysis(Some(once.clone()), " helfen ").unwrap();
    assert_eq!(format!("{twice:?}"), format!("{once:?}"));
}
