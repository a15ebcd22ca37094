use de_ai_hilfer::model_a::{ModelAEntry, ModelAGrammar, ModelAOutput};
use de_ai_hilfer::models::StructuredBranchMeaning;
use de_ai_hilfer::prompts::{
    build_model_a_prompt, build_model_a_user_payload, build_stage2_prompt, build_stage2_user_payload,
    build_structure_prompt, render_stage1_boundary_summary, PromptConfig,
};

fn config(a: &str, b: &str, c: &str) -> PromptConfig {
    PromptConfig { model_a_prompt: a.to_string(), stage2_prompt: b.to_string(), structure_prompt: c.to_string() }
}

#[test]
fn configured_prompts_win_over_defaults() {
    let p = config("  Schema:\n{model_a_schema}\n", " Stufe 2 ", "   ");
    let a = build_model_a_prompt(&p, "default");
    assert!(a.starts_with("Schema:\n{\n  \"word\": \"\","));
    assert!(a.ends_with("  ]\n}"));
    assert_eq!(build_stage2_prompt(&p, "default"), "Stufe 2");
    assert_eq!(build_structure_prompt(&p, "  Struktur  "), "Struktur");
}

#[test]
fn model_a_payload_defaults_facts_to_empty_object() {
    assert_eq!(build_model_a_user_payload("Haus", None), "查询词：Haus\n\n--- Dictionary Facts JSON ---\n{}");
    assert_eq!(build_model_a_user_payload("Haus", Some("{\"a\":1}")), "查询词：Haus\n\n--- Dictionary Facts JSON ---\n{\"a\":1}");
}

#[test]
fn skeleton_lists_entries_with_core_grammar() {
    assert_eq!(render_stage1_boundary_summary(&ModelAOutput::default()), "无稳定 branch 参考。");
    let out = ModelAOutput {
        word: "laufen".to_string(),
        entries: vec![
            ModelAEntry {
                selector: "laufen".to_string(),
                pos: "verb".to_string(),
                meanings: vec![
                    StructuredBranchMeaning { zh: "跑".to_string(), en: "run".to_string() },
                    StructuredBranchMeaning { zh: " ".to_string(), en: "".to_string() },
                    StructuredBranchMeaning { zh: "".to_string(), en: "walk".to_string() },
                ],
                grammar: ModelAGrammar {
                    transitivity: "intransitive".to_string(),
                    governs_cases: vec!["dative".to_string(), "accusative".to_string()],
                    ..ModelAGrammar::default()
                },
            },
            ModelAEntry {
                selector: "laufend".to_string(),
                pos: "adjective".to_string(),
                meanings: vec![],
                grammar: ModelAGrammar { separable: "x".to_string(), ..ModelAGrammar::default() },
            },
        ],
    };
    let s = render_stage1_boundary_summary(&out);
    let lines: Vec<&str> = s.split('\n').collect();
    assert_eq!(lines.len(), 6);
    assert_eq!(lines[0], "下面是本轮输入的 Branch Skeleton。");
    assert_eq!(
        lines[4],
        "1. [core] selector=laufen; pos=verb; meanings=跑 (run)；walk; grammar: transitivity=intransitive, cases=dative/accusative"
    );
    assert_eq!(lines[5], "2. [secondary] selector=laufend; pos=adjective; meanings=（空）");
    let payload = build_stage2_user_payload("laufen", None, &out);
    assert!(payload.starts_with("查询词：laufen\n\n--- Dictionary Facts JSON ---\n{}\n\n--- Branch Skeleton Reference ---\n下面是"));
}
