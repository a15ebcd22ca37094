use de_ai_hilfer::ai_settings::{
    AiClientChoice, AiModelTask, AiProviderProfileInput, AiProviderProfileRecord, AiSettingsUpdateRequest,
    AiTaskModelSettingRecord,
};
use de_ai_hilfer::ai_settings_view::{
    env_backed_settings, env_model_ids, env_structure_model, get_ai_settings, hydrate_env_api_key, profile_view,
    resolve_task_model, test_api_key, test_failure, EnvModels, EnvProvider,
};

fn models() -> EnvModels {
    EnvModels {
        analyze: "m-a".to_string(),
        analyze_pro: "m-p".to_string(),
        follow_up: "m-a".to_string(),
        follow_up_pro: "".to_string(),
        intelligent_search: "m-s".to_string(),
        embedding: "emb".to_string(),
        fallback_fast: "m-a".to_string(),
        fallback_pro: "".to_string(),
        structure: "minimax".to_string(),
    }
}

fn env(key: Option<&str>) -> EnvProvider {
    EnvProvider { base_url: None, api_key: key.map(|k| k.to_string()), models: models() }
}

fn record(id: i64, name: &str, key: &str) -> AiProviderProfileRecord {
    AiProviderProfileRecord {
        id,
        name: name.to_string(),
        base_url: "https://x".to_string(),
        api_key: key.to_string(),
        model_ids: vec!["m1".to_string()],
        is_default: id == 1,
    }
}

#[test]
fn environment_model_ids_are_sorted_and_distinct() {
    assert_eq!(
        env_model_ids(&models()),
        vec!["emb", "m-a", "m-p", "m-s", "minimax"].into_iter().map(String::from).collect::<Vec<_>>()
    );
}

#[test]
fn environment_settings_before_anything_is_stored() {
    let r = env_backed_settings(&env(Some("sk-1234567890")));
    assert_eq!(r.profiles.len(), 1);
    let p = &r.profiles[0];
    assert_eq!((p.id, p.name.as_str(), p.base_url.as_str()), (None, "环境变量", "https://api.openai.com/v1"));
    assert!(p.api_key_set && p.is_default);
    assert_eq!(p.api_key_preview, Some("sk-1...7890".to_string()));
    let keys: Vec<&str> = r.task_settings.iter().map(|t| t.task_key.as_str()).collect();
    assert_eq!(keys, vec!["analyze", "phrase", "structure", "embedding", "intelligent_search"]);
    assert_eq!(r.task_settings[1].inherit_task_key, Some("analyze".to_string()));
    assert_eq!(r.task_settings[2].model_id, Some("minimax".to_string()));
    let none = env_backed_settings(&env(None));
    assert!(!none.profiles[0].api_key_set);
    assert_eq!(none.profiles[0].api_key_preview, None);
}

#[test]
fn stored_settings_are_completed_from_the_environment() {
    let profiles = vec![record(1, "main", "short"), record(2, "other", "")];
    let settings = vec![AiTaskModelSettingRecord {
        task_key: "structure".to_string(),
        provider_id: Some(2),
        model_id: Some("m1".to_string()),
        inherit_task_key: None,
    }];
    let r = get_ai_settings(&profiles, &settings, &env(None));
    assert_eq!(r.profiles.len(), 2);
    assert_eq!(r.profiles[0].api_key_preview, Some("********".to_string()));
    assert!(!r.profiles[1].api_key_set);
    let keys: Vec<&str> = r.task_settings.iter().map(|t| t.task_key.as_str()).collect();
    assert_eq!(keys, vec!["structure", "analyze", "phrase", "embedding", "intelligent_search"]);
    assert_eq!(r.task_settings[0].provider_name, Some("other".to_string()));
    let v = profile_view(&record(3, "p", "0123456789"));
    assert_eq!((v.id, v.api_key_preview), (Some(3), Some("0123...6789".to_string())));
}

#[test]
fn test_keys_prefer_the_request() {
    assert_eq!(test_api_key(Some(" k1 "), Some("k2"), Some("k3")), Some("k1".to_string()));
    assert_eq!(test_api_key(Some(" "), Some(" k2 "), Some("k3")), Some(" k2 ".to_string()));
    assert_eq!(test_api_key(None, Some(""), Some("k3")), None);
    assert_eq!(test_api_key(None, None, Some(" k3 ")), Some("k3".to_string()));
    assert_eq!(test_api_key(None, None, Some(" ")), None);
    let f = test_failure("timeout");
    assert!(!f.ok);
    assert_eq!(f.message, "测试失败：timeout");
}

#[test]
fn environment_key_fills_the_first_new_default_profile() {
    let input = |id: Option<i64>, default: bool, key: Option<&str>| AiProviderProfileInput {
        id,
        name: "n".to_string(),
        base_url: "u".to_string(),
        api_key: key.map(|k| k.to_string()),
        model_ids: vec![],
        is_default: default,
    };
    let mut req = AiSettingsUpdateRequest {
        profiles: vec![input(Some(1), true, None), input(None, true, None), input(None, true, None)],
        task_settings: vec![],
    };
    hydrate_env_api_key(false, Some(" env-key "), &mut req);
    assert_eq!(req.profiles[0].api_key, None);
    assert_eq!(req.profiles[1].api_key, Some("env-key".to_string()));
    assert_eq!(req.profiles[2].api_key, None);
    let mut stored = AiSettingsUpdateRequest { profiles: vec![input(None, true, None)], task_settings: vec![] };
    hydrate_env_api_key(true, Some("env-key"), &mut stored);
    assert_eq!(stored.profiles[0].api_key, None);
}

#[test]
fn structure_model_and_task_resolution() {
    assert_eq!(env_structure_model(Some(" "), Some("arch")), "arch");
    assert_eq!(env_structure_model(Some("s"), Some("arch")), "s");
    assert_eq!(env_structure_model(None, None), "minimax-m2.5");
    let r = resolve_task_model(AiModelTask::Phrase, &vec![], &vec![], &models()).unwrap();
    assert!(matches!(r.client, AiClientChoice::Environment));
    assert_eq!(r.model, "m-a");
    assert!(!r.persisted);
}
