use de_ai_hilfer::stage2_quality::validate_stage2_markdown_completeness;

#[test]
fn rejects_truncated_stage2_markdown() {
    let markdown = "#### 应用与例句 (Anwendung & Beispiele)\n\nx\n\n#### 词汇网络 (Wortnetz)\n\nx\n\n#### 深度解析与避坑 (Einblicke)\n\n* 格位\n    在德语逻辑中，D";

    let err = validate_stage2_markdown_completeness(markdown).unwrap_err();
    assert!(err.to_string().contains("unexpectedly short"));
}

#[test]
fn accepts_complete_markdown_ending_with_bold_markup() {
    let markdown = format!(
        "#### 应用与例句 (Anwendung & Beispiele)\n\n{}\n\n#### 词汇网络 (Wortnetz)\n\n{}\n\n#### 深度解析与避坑 (Einblicke)\n\n* **语法提醒**\n    作为可分动词，前缀位于句尾：*Ich habe das Radio **an**ge**macht**.*",
        "x".repeat(400),
        "y".repeat(400)
    );

    validate_stage2_markdown_completeness(&markdown).unwrap();
}

#[test]
fn names_the_first_missing_section() {
    let err = validate_stage2_markdown_completeness("#### 应用与例句 (Anwendung & Beispiele)\n").unwrap_err();
    assert_eq!(err, "grounded stage2 markdown missing section: #### 词汇网络 (Wortnetz)");
}

#[test]
fn short_error_reports_byte_length_of_trimmed_text() {
    let markdown = "#### 应用与例句 (Anwendung & Beispiele)\r\n#### 词汇网络 (Wortnetz)\n#### 深度解析与避坑 (Einblicke)\n  \n";
    let err = validate_stage2_markdown_completeness(markdown).unwrap_err();
    let expected_len = markdown.replace('\r', "").trim_end().len();
    assert_eq!(err, format!("grounded stage2 markdown unexpectedly short: len={expected_len}"));
}

#[test]
fn reports_truncated_tail_of_long_markdown() {
    let markdown = format!(
        "#### 应用与例句 (Anwendung & Beispiele)\n#### 词汇网络 (Wortnetz)\n#### 深度解析与避坑 (Einblicke)\n{}und dann",
        "a".repeat(900)
    );
    let err = validate_stage2_markdown_completeness(&markdown).unwrap_err();
    let tail: String = markdown.chars().rev().take(80).collect::<Vec<_>>().into_iter().rev().collect();
    assert_eq!(err, format!("grounded stage2 markdown appears truncated: tail={tail}"));
}
