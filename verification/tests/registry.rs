use hambur::models::{find_models, get_provider_by_model, get_providers};

#[test]
fn registry_lists_two_providers() {
    let providers = get_providers();
    assert_eq!(providers.len(), 2);
    assert_eq!(providers[0].name, "deepseek");
    assert_eq!(providers[1].name, "openrouter");
    assert_eq!(providers[0].models.len(), 2);
    assert_eq!(providers[1].models.len(), 3);
}

#[test]
fn find_models_flash_returns_both_flash_models_in_order() {
    let found = find_models("flash");
    let ids: Vec<&str> = found.iter().map(|m| m.id.as_str()).collect();
    assert_eq!(ids, vec!["google/gemini-2.0-flash-001", "google/gemini-2.0-flash-lite-001"]);
}

#[test]
fn find_models_nonexistent_is_empty() {
    assert!(find_models("nonexistent").is_empty());
}

#[test]
fn provider_lookup_by_model_id() {
    let provider = get_provider_by_model("deepseek-v3-241226").unwrap();
    assert_eq!(provider.name, "deepseek");
    assert_eq!(provider.api_key_env, "OPENAI_API_KEY");
    assert!(get_provider_by_model("gemini-flash").is_none());
}
