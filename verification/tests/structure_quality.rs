use de_ai_hilfer::models::{
    StructuredAnalysisDocument, StructuredDeepInsight, StructuredGrammarRow, StructuredUsageModule,
    StructuredWordNetwork, StructuredWordNetworkItem,
};
use de_ai_hilfer::structure_quality::{
    count_top_level_deep_insight_items, parse_markdown_table_cells, validate_structured_capture,
};

fn item(term: &str, pos: &str, zh: &str) -> StructuredWordNetworkItem {
    StructuredWordNetworkItem {
        term: term.to_string(),
        part_of_speech: pos.to_string(),
        chinese: zh.to_string(),
        english: String::new(),
        note: String::new(),
    }
}

#[test]
fn accepts_declared_empty_word_network_bucket() {
    let markdown = "#### 词汇网络 (Wortnetz)\n\n**词族**\n*   无高价值项\n\n**同义词**\n*   [helfen] (*Verb*, 帮助, to help)\n\n**反义词**\n*   无高价值项";
    let structured = StructuredAnalysisDocument {
        word_network: StructuredWordNetwork {
            synonyms: vec![StructuredWordNetworkItem {
                term: "helfen".to_string(),
                part_of_speech: "Verb".to_string(),
                chinese: "帮助".to_string(),
                english: "to help".to_string(),
                note: String::new(),
            }],
            ..StructuredWordNetwork::default()
        },
        ..StructuredAnalysisDocument::default()
    };

    assert!(validate_structured_capture(markdown, &structured).is_ok());
}

#[test]
fn rejects_flat_word_network_items_without_buckets() {
    let markdown = "#### 词汇网络 (Wortnetz)\n\n*   [helfen] (*Verb*, 帮助, to help)";
    let structured = StructuredAnalysisDocument::default();

    let err = validate_structured_capture(markdown, &structured).unwrap_err();
    assert!(err.contains("no relation buckets"));
}

#[test]
fn accepts_legacy_word_network_bucket_list_items() {
    let markdown = "#### 词汇网络 (Wortnetz)\n\n* 词族 (Wortfamilie)\n    * Architekt (m. 建筑师)\n* 同义词 (Synonyme)\n    * Baukunst (强调艺术性)";
    let structured = StructuredAnalysisDocument {
        word_network: StructuredWordNetwork {
            family: vec![item("Architekt", "m.", "建筑师")],
            synonyms: vec![item("Baukunst", "", "强调艺术性")],
            ..StructuredWordNetwork::default()
        },
        ..StructuredAnalysisDocument::default()
    };

    assert!(validate_structured_capture(markdown, &structured).is_ok());
}

#[test]
fn ignores_indented_example_bullets_in_deep_insight_count() {
    let markdown = "#### 深度解析与避坑 (Einblicke)\n\n*   **逻辑对立：bereits vs. erst**\n德语学习者常混淆这两个词。\n例如：\n- Er ist **bereits** zehn Jahre alt.\n- Er ist **erst** zehn Jahre alt.\n\n*   **词源逻辑**\n`bereits` 来源于形容词 `bereit`。";

    assert_eq!(count_top_level_deep_insight_items(markdown), 2);
}

#[test]
fn ignores_nested_deep_insight_bullets() {
    let markdown = "#### 深度解析与避坑 (Einblicke)\n\n*   **核心逻辑：从“重”到“轻”**\n说明：\n    *   **体力/精力上**：使工作不那么累。\n    *   **心理/情感上**：使心情不再沉重。\n\n*   **词源小记**\n说明。";

    assert_eq!(count_top_level_deep_insight_items(markdown), 2);
}

#[test]
fn reports_missing_usage_modules_with_counts() {
    let markdown = "#### 应用与例句\n\n1. Alltag\nIch helfe dir.\n（我帮你。）\n\n2. Beruf\nEr hilft mir.\n（他帮我。）";
    let structured = StructuredAnalysisDocument {
        usage_modules: vec![StructuredUsageModule {
            title: "Alltag".to_string(),
            explanation: "x".to_string(),
            example_de: "Ich helfe dir.".to_string(),
            example_zh: "我帮你。".to_string(),
        }],
        ..StructuredAnalysisDocument::default()
    };

    let err = validate_structured_capture(markdown, &structured).unwrap_err();
    assert_eq!(err, "usage_modules incomplete: expected at least 2, got 1");
}

#[test]
fn reports_missing_grammar_rows_and_counts_collocations() {
    let markdown = "#### 语法详情\r\n\r\n| 项目 | 内容 |\r\n| :--- | :--- |\r\n| 词性 | Verb |\r\n| 常见搭配 | jemandem helfen |";
    let none = StructuredAnalysisDocument::default();
    let err = validate_structured_capture(markdown, &none).unwrap_err();
    assert_eq!(err, "grammar_rows incomplete: expected at least 2, got 0");

    let with_collocation = StructuredAnalysisDocument {
        grammar_rows: vec![StructuredGrammarRow { key: "词性".to_string(), value: "Verb".to_string() }],
        collocations: vec!["jemandem helfen".to_string()],
        ..StructuredAnalysisDocument::default()
    };
    assert!(validate_structured_capture(markdown, &with_collocation).is_ok());
}

#[test]
fn reports_missing_family_bucket_and_etymology() {
    let markdown = "#### 词汇网络\n\n**词族**\n*   [Hilfe] (f., 帮助, help)";
    let err = validate_structured_capture(markdown, &StructuredAnalysisDocument::default()).unwrap_err();
    assert_eq!(err, "word_network.family missing despite family subsection");

    let deep = "#### 避坑\n\n* **Etymologie**：来自古高地德语。";
    let wrong_title = StructuredAnalysisDocument {
        deep_insights: vec![StructuredDeepInsight {
            title: "其他".to_string(),
            content_markdown: "x".to_string(),
        }],
        ..StructuredAnalysisDocument::default()
    };
    let err = validate_structured_capture(deep, &wrong_title).unwrap_err();
    assert_eq!(err, "etymology subsection missing from deep_insights");

    let short = validate_structured_capture(deep, &StructuredAnalysisDocument::default()).unwrap_err();
    assert_eq!(short, "deep_insights incomplete: expected at least 1, got 0");
}

#[test]
fn table_cells_are_trimmed_between_outer_bars() {
    let line: Vec<char> = "| 常见搭配 |  jemandem helfen |".chars().collect();
    let cells = parse_markdown_table_cells(&line).unwrap();
    let cells: Vec<String> = cells.iter().map(|c| c.iter().collect()).collect();
    assert_eq!(cells, vec!["常见搭配".to_string(), "jemandem helfen".to_string()]);
}
