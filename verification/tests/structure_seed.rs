use de_ai_hilfer::structure_seed::build_structure_seed;

#[test]
fn parses_bold_deep_insight_title_without_marker_leak() {
    let markdown =
        "#### 深度解析与避坑 (Einblicke)\n\n*   **词源理解**\n    从 `über` 到抽象转化。";

    let seed = build_structure_seed("übersetzen", markdown);

    assert_eq!(seed.deep_insights.len(), 1);
    assert_eq!(seed.deep_insights[0].title, "词源理解");
    assert_eq!(seed.deep_insights[0].content_markdown, "从 `über` 到抽象转化。");
}

#[test]
fn parses_word_network_part_of_speech_with_internal_comma() {
    let markdown = "#### 词汇网络 (Wortnetz)\n\n**词族**\n*   [die Nähe] (*Substantiv, f.*, 附近/亲近, proximity/closeness)";

    let seed = build_structure_seed("nah", markdown);

    assert_eq!(seed.word_network.family.len(), 1);
    assert_eq!(seed.word_network.family[0].term, "die Nähe");
    assert_eq!(seed.word_network.family[0].part_of_speech, "Substantiv, f.");
    assert_eq!(seed.word_network.family[0].chinese, "附近/亲近");
    assert_eq!(seed.word_network.family[0].english, "proximity/closeness");
}

#[test]
fn parses_unbracketed_word_network_item_with_article_term() {
    let markdown = "#### 词汇网络 (Wortnetz)\n\n**词族**\n*   die Leitung (noun, 领导层/导线/管道, management/line/pipe)";

    let seed = build_structure_seed("Leiter", markdown);

    assert_eq!(seed.word_network.family.len(), 1);
    assert_eq!(seed.word_network.family[0].term, "die Leitung");
    assert_eq!(seed.word_network.family[0].part_of_speech, "noun");
    assert_eq!(seed.word_network.family[0].chinese, "领导层/导线/管道");
    assert_eq!(seed.word_network.family[0].english, "management/line/pipe");
}

#[test]
fn preserves_parenthetical_notes_inside_word_network_detail() {
    let markdown = "#### 词汇网络 (Wortnetz)\n\n**同义词**\n*   [Föhre] (*f.*, *松树（多见于南德/奥地利）*, *pine tree*)";

    let seed = build_structure_seed("Kiefer", markdown);

    assert_eq!(seed.word_network.synonyms.len(), 1);
    assert_eq!(seed.word_network.synonyms[0].term, "Föhre");
    assert_eq!(seed.word_network.synonyms[0].part_of_speech, "f.");
    assert_eq!(seed.word_network.synonyms[0].chinese, "松树（多见于南德/奥地利）");
    assert_eq!(seed.word_network.synonyms[0].english, "pine tree");
}

#[test]
fn seed_reads_labelled_usage_module_and_trims_headword() {
    let markdown = "#### 应用与例句 (Anwendung)\n\n1. Im Alltag:\n用法解析：日常用法。\n场景例句：Ich gehe nach Hause.\n例句翻译：（我回家。）\n\n#### 词汇网络\n\n**反义词**\n*   weit (adj., 远, far)";

    let seed = build_structure_seed("  nach  ", markdown);

    assert_eq!(seed.headword, "nach");
    assert_eq!(seed.usage_modules.len(), 1);
    assert_eq!(seed.usage_modules[0].title, "1. Im Alltag");
    assert_eq!(seed.usage_modules[0].explanation, "日常用法。");
    assert_eq!(seed.usage_modules[0].example_de, "Ich gehe nach Hause.");
    assert_eq!(seed.usage_modules[0].example_zh, "我回家。");
    assert_eq!(seed.word_network.antonyms.len(), 1);
    assert_eq!(seed.word_network.antonyms[0].term, "weit");
    assert_eq!(seed.word_network.antonyms[0].part_of_speech, "adj.");
    assert_eq!(seed.word_network.antonyms[0].chinese, "远");
    assert_eq!(seed.word_network.antonyms[0].english, "far");
    assert!(seed.deep_insights.is_empty());
}

#[test]
fn seed_uses_positional_usage_lines_without_labels() {
    let markdown = "#### 应用与例句\n\nTitel\nErklärung\nBeispiel\n(翻译)";

    let seed = build_structure_seed("x", markdown);

    assert_eq!(seed.usage_modules.len(), 1);
    assert_eq!(seed.usage_modules[0].title, "Titel");
    assert_eq!(seed.usage_modules[0].explanation, "Erklärung");
    assert_eq!(seed.usage_modules[0].example_de, "Beispiel");
    assert_eq!(seed.usage_modules[0].example_zh, "翻译");
}

#[test]
fn seed_skips_empty_bucket_marker_and_short_blocks() {
    let markdown = "#### 应用与例句\n\nNur\nzwei\n\n#### 词汇网络\n\n**同义词**\n*   无高价值项";

    let seed = build_structure_seed("x", markdown);

    assert!(seed.usage_modules.is_empty());
    assert!(seed.word_network.synonyms.is_empty());
    assert!(seed.word_network.family.is_empty());
}

#[test]
fn seed_of_markdown_without_sections_is_empty() {
    let seed = build_structure_seed("Haus", "Kein Abschnitt hier.");

    assert_eq!(seed.headword, "Haus");
    assert!(seed.usage_modules.is_empty());
    assert!(seed.deep_insights.is_empty());
    assert!(seed.word_network.family.is_empty());
    assert!(seed.meanings.is_empty());
}

#[test]
fn seed_reads_inline_deep_insight_text_after_bold_title() {
    let markdown = "#### 深度解析\n\n- **注意**：不要混淆。\n  更多说明\n- 空标题项";

    let seed = build_structure_seed("x", markdown);

    assert_eq!(seed.deep_insights.len(), 1);
    assert_eq!(seed.deep_insights[0].title, "注意");
    assert_eq!(seed.deep_insights[0].content_markdown, "不要混淆。\n更多说明");
}
