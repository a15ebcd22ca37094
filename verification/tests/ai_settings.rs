use de_ai_hilfer::ai_settings::{
    api_key_preview, looks_like_embedding_model, resolve_persisted_setting, test_inputs_present,
    validate_update, AiClientChoice, AiModelTask, AiProviderProfileInput, AiProviderProfileRecord,
    AiSettingsUpdateRequest, AiTaskModelSettingInput, AiTaskModelSettingRecord,
};

fn profile(id: i64) -> AiProviderProfileRecord {
    AiProviderProfileRecord {
        id,
        name: "p".to_string(),
        base_url: "https://x".to_string(),
        api_key: "k".to_string(),
        model_ids: vec![],
        is_default: true,
    }
}

fn setting(task: &str, provider: Option<i64>, model: Option<&str>, inherit: Option<&str>) -> AiTaskModelSettingRecord {
    AiTaskModelSettingRecord {
        task_key: task.to_string(),
        provider_id: provider,
        model_id: model.map(|m| m.to_string()),
        inherit_task_key: inherit.map(|m| m.to_string()),
    }
}

#[test]
fn task_keys_round_trip() {
    for t in [AiModelTask::Analyze, AiModelTask::Phrase, AiModelTask::Structure, AiModelTask::Embedding, AiModelTask::IntelligentSearch] {
        assert_eq!(AiModelTask::from_key(t.key()), Some(t));
    }
    assert_eq!(AiModelTask::from_key("Analyze"), None);
}

#[test]
fn persisted_settings_follow_inheritance() {
    let profiles = vec![profile(7)];
    let settings = vec![
        setting("phrase", None, None, Some("analyze")),
        setting("analyze", Some(7), Some(" gpt-x "), None),
        setting("structure", Some(9), Some("m"), None),
        setting("embedding", Some(7), Some("  "), None),
    ];
    let r = resolve_persisted_setting(AiModelTask::Phrase, &profiles, &settings, 0).unwrap().unwrap();
    assert_eq!(r.model, "gpt-x");
    assert!(r.persisted);
    assert!(matches!(r.client, AiClientChoice::Profile { ref api_key, .. } if api_key == "k"));
    assert_eq!(
        resolve_persisted_setting(AiModelTask::Structure, &profiles, &settings, 0).err().unwrap(),
        "AI provider profile not found: 9"
    );
    assert_eq!(
        resolve_persisted_setting(AiModelTask::Embedding, &profiles, &settings, 0).err().unwrap(),
        "AI task embedding is missing model"
    );
    assert!(resolve_persisted_setting(AiModelTask::IntelligentSearch, &profiles, &settings, 0).unwrap().is_none());
    let cyclic = vec![setting("phrase", None, None, Some("phrase"))];
    assert_eq!(
        resolve_persisted_setting(AiModelTask::Phrase, &profiles, &cyclic, 0).err().unwrap(),
        "AI model setting inheritance is too deep"
    );
}

fn input(name: &str, default: bool) -> AiProviderProfileInput {
    AiProviderProfileInput { id: None, name: name.to_string(), base_url: String::new(), api_key: None, model_ids: vec![], is_default: default }
}

fn task(key: &str, provider: Option<&str>, model: Option<&str>, inherit: Option<&str>) -> AiTaskModelSettingInput {
    AiTaskModelSettingInput {
        task_key: key.to_string(),
        provider_name: provider.map(|p| p.to_string()),
        model_id: model.map(|m| m.to_string()),
        inherit_task_key: inherit.map(|m| m.to_string()),
    }
}

#[test]
fn settings_updates_are_checked() {
    let ok = AiSettingsUpdateRequest {
        profiles: vec![input(" Main ", true), input("Other", false)],
        task_settings: vec![task("analyze", Some("Main"), Some("m"), None), task(" phrase ", None, None, Some("analyze"))],
    };
    assert!(validate_update(&ok).is_ok());
    let none = AiSettingsUpdateRequest { profiles: vec![], task_settings: vec![] };
    assert_eq!(validate_update(&none).unwrap_err(), "at least one provider profile is required");
    let two = AiSettingsUpdateRequest { profiles: vec![input("a", true), input("b", true)], task_settings: vec![] };
    assert_eq!(validate_update(&two).unwrap_err(), "exactly one provider profile must be default");
    let dup = AiSettingsUpdateRequest {
        profiles: vec![input("a", true)],
        task_settings: vec![task("analyze", Some("a"), Some("m"), None), task("analyze ", Some("a"), Some("m"), None)],
    };
    assert_eq!(validate_update(&dup).unwrap_err(), "duplicate AI task key: analyze");
    let unknown = AiSettingsUpdateRequest { profiles: vec![input("a", true)], task_settings: vec![task("x", None, None, None)] };
    assert_eq!(validate_update(&unknown).unwrap_err(), "unsupported AI task key: x");
    let bad_provider = AiSettingsUpdateRequest { profiles: vec![input("a", true)], task_settings: vec![task("embedding", Some("b"), Some("m"), None)] };
    assert_eq!(validate_update(&bad_provider).unwrap_err(), "unknown provider profile: b");
    let no_model = AiSettingsUpdateRequest { profiles: vec![input("a", true)], task_settings: vec![task("embedding", Some("a"), Some(" "), None)] };
    assert_eq!(validate_update(&no_model).unwrap_err(), "model_id is required for embedding");
    let bad_inherit = AiSettingsUpdateRequest { profiles: vec![input("a", true)], task_settings: vec![task("structure", None, None, Some("analyze"))] };
    assert_eq!(validate_update(&bad_inherit).unwrap_err(), "only phrase may inherit analyze in the initial settings schema");
}

#[test]
fn key_previews_and_model_kinds() {
    assert_eq!(api_key_preview(""), None);
    assert_eq!(api_key_preview("short"), Some("********".to_string()));
    assert_eq!(api_key_preview("sk-abcdefghij"), Some("sk-a...ghij".to_string()));
    assert!(looks_like_embedding_model("text-Embedding-3"));
    assert!(!looks_like_embedding_model("gpt"));
    assert!(!test_inputs_present(" ", "m"));
    assert!(test_inputs_present("u", "m"));
}
