use nidex::models::ReasoningEffort;
use nidex::models::{
    all_model_presets, builtin_model_presets, find_model_info_for_slug, with_config_overrides,
    BaseInstructions, ConfigShellToolType, ModelOverrides, ModelsCache, ModelsCacheManager, Timestamp,
    TruncationPolicyConfig, cache_matches, timestamp_since_epoch,
};

#[test]
fn only_one_default_model_is_configured() {
    let presets = all_model_presets();
    let default_models = presets.iter().filter(|preset| preset.is_default).count();
    assert!(default_models == 1);
}

#[test]
fn builtin_presets_list_the_default_first() {
    let presets = builtin_model_presets();
    let ids: Vec<&str> = presets.iter().map(|p| p.id.as_str()).collect();
    assert_eq!(ids, vec!["big-pickle", "big-pickle-codex", "big-pickle-codex-mini"]);
    assert!(presets[0].show_in_picker);
    assert_eq!(presets[1].upgrade.as_ref().map(|u| u.id.as_str()), Some("big-pickle"));
    assert_eq!(presets[2].supported_reasoning_efforts.len(), 3);
}

#[test]
fn model_info_depends_on_slug_family() {
    let gemma = find_model_info_for_slug("gemma-4-27b");
    assert_eq!(gemma.shell_type, ConfigShellToolType::Default);
    assert_eq!(gemma.base_instructions, BaseInstructions::Gemma4);
    let other = find_model_info_for_slug("big-pickle");
    assert_eq!(other.shell_type, ConfigShellToolType::ShellCommand);
    assert_eq!(other.base_instructions, BaseInstructions::Codex);
    assert_eq!(other.context_window, Some(131_072));
    assert!(other.experimental_supported_tools.is_empty());
    let test = find_model_info_for_slug("test-big-pickle-codex");
    assert_eq!(test.experimental_supported_tools, vec!["test_sync_tool", "read_file", "grep_files", "list_dir"]);
}

#[test]
fn overrides_replace_configured_fields() {
    let model = find_model_info_for_slug("big-pickle");
    let config = ModelOverrides {
        model_supports_reasoning_summaries: Some(false),
        model_context_window: Some(1000),
        model_auto_compact_token_limit: Some(900),
        tool_output_token_limit: Some(usize::MAX),
        base_instructions: Some("custom".to_string()),
    };
    let r = with_config_overrides(model, &config);
    assert!(!r.supports_reasoning_summaries);
    assert_eq!(r.context_window, Some(1000));
    assert_eq!(r.auto_compact_token_limit, Some(900));
    assert_eq!(r.truncation_policy, TruncationPolicyConfig::Tokens(i64::MAX));
    assert_eq!(r.base_instructions, BaseInstructions::Custom("custom".to_string()));
    assert_eq!(r.model_messages, None);
}

fn cache(version: Option<&str>, url: Option<&str>, secs: i64) -> ModelsCache {
    ModelsCache {
        fetched_at: Timestamp { secs, nanos: 0 },
        etag: None,
        client_version: version.map(str::to_string),
        models: Vec::new(),
        provider_base_url: url.map(str::to_string),
    }
}

#[test]
fn cache_freshness_follows_the_ttl() {
    let c = cache(Some("1.0"), None, 100);
    assert!(c.is_fresh_at(10, 0, Timestamp { secs: 110, nanos: 0 }));
    assert!(!c.is_fresh_at(10, 0, Timestamp { secs: 110, nanos: 1 }));
    assert!(!c.is_fresh_at(0, 0, Timestamp { secs: 100, nanos: 0 }));
    assert!(!c.is_fresh_at(u64::MAX, 0, Timestamp { secs: 100, nanos: 0 }));
}

#[test]
fn cache_matches_version_and_provider_url() {
    let c = cache(Some("1.0"), Some("https://api.example.com/v1/"), 0);
    assert!(cache_matches(&c, true, "1.0", Some("https://api.example.com/v1")));
    assert!(!cache_matches(&c, true, "2.0", Some("https://api.example.com/v1")));
    assert!(!cache_matches(&c, false, "1.0", Some("https://api.example.com/v1")));
    assert!(!cache_matches(&c, true, "1.0", None));
    assert!(!cache_matches(&c, true, "1.0", Some("https://other.example.com")));
    let plain = cache(Some("1.0"), None, 0);
    assert!(cache_matches(&plain, true, "1.0", None));
    assert!(cache_matches(&plain, true, "1.0", Some("")));
}

#[test]
fn load_fresh_rejects_zero_ttl() {
    let m = ModelsCacheManager::new("models_cache.json".to_string(), 0, 0);
    assert!(m.load_fresh(Some(cache(Some("1.0"), None, 0)), "1.0", None).is_none());
    assert!(m.load_fresh(None, "1.0", None).is_none());
    let m = ModelsCacheManager::new("models_cache.json".to_string(), 3600, 0);
    assert!(m.load_fresh(Some(cache(Some("1.0"), None, i64::MAX / 2)), "1.0", None).is_some());
}

#[test]
fn snapshots_and_renewal_keep_the_models() {
    let manager = ModelsCacheManager::new("/tmp/models_cache.json".to_string(), 300, 0);
    let snap = manager.snapshot(vec![], Some("etag-1".to_string()), "0.9.0".to_string(), None).unwrap();
    assert_eq!(snap.etag.as_deref(), Some("etag-1"));
    assert_eq!(snap.client_version.as_deref(), Some("0.9.0"));
    assert!(snap.fetched_at.nanos < 1_000_000_000);
    assert_eq!(manager.renewed(None), Err("cache not found".to_string()));
    let old = ModelsCache { fetched_at: Timestamp { secs: 1, nanos: 0 }, ..snap.clone() };
    let renewed = manager.renewed(Some(old)).unwrap();
    assert!(renewed.fetched_at.secs > 1);
    assert_eq!(renewed.etag, snap.etag);
    assert_eq!(renewed.client_version, snap.client_version);
}

#[test]
fn load_fresh_at_decides_by_the_given_time() {
    let m = ModelsCacheManager::new("models_cache.json".to_string(), 300, 0);
    let c = cache(Some("1.0"), Some("https://api.example.com/v1/"), 1000);
    let at = |secs| Timestamp { secs, nanos: 0 };
    assert_eq!(
        m.load_fresh_at(Some(c.clone()), "1.0", Some("https://api.example.com/v1"), at(1300)),
        Some(c.clone())
    );
    assert_eq!(m.load_fresh_at(Some(c.clone()), "1.0", Some("https://api.example.com/v1"), at(1301)), None);
    assert_eq!(m.load_fresh_at(Some(c.clone()), "2.0", Some("https://api.example.com/v1"), at(1000)), None);
    assert_eq!(m.load_fresh_at(Some(c.clone()), "1.0", None, at(1000)), None);
    assert_eq!(m.load_fresh_at(None, "1.0", None, at(1000)), None);
    assert!(c.is_fresh_at(300, 0, at(1300)));
}

fn efforts_of(p: &nidex::models::ModelPreset) -> Vec<(nidex::models::ReasoningEffort, String)> {
    p.supported_reasoning_efforts.iter().map(|e| (e.effort, e.description.clone())).collect()
}

#[test]
fn list_models_returns_api_key_models() {
    let models = builtin_model_presets();
    let ids: Vec<&str> = models.iter().map(|m| m.id.as_str()).collect();
    assert_eq!(ids, vec!["big-pickle", "big-pickle-codex", "big-pickle-codex-mini"]);
    assert_eq!(models[0].description, "big pickle");
    assert_eq!(
        efforts_of(&models[0]),
        vec![
            (ReasoningEffort::Low, "Fast responses with lighter reasoning".to_string()),
            (ReasoningEffort::Medium, "Dynamically adjusts reasoning based on the task".to_string()),
            (ReasoningEffort::High, "Maximizes reasoning depth for complex or ambiguous problems".to_string()),
            (ReasoningEffort::XHigh, "Extra high reasoning depth for complex problems".to_string()),
        ]
    );
    assert_eq!(models[1].description, "Advanced coding model with extended context.");
    assert_eq!(efforts_of(&models[1])[1].1, "Balances speed and reasoning depth for everyday tasks");
    assert_eq!(efforts_of(&models[1])[3].0, ReasoningEffort::XHigh);
    assert_eq!(models[2].description, "Compact coding model for everyday tasks.");
    assert_eq!(efforts_of(&models[2]).len(), 3);
    assert_eq!(models[2].upgrade.as_ref().map(|u| u.migration_config_key.as_str()), Some("hide_gpt5_1_migration_prompt"));
}

#[test]
fn list_models_returns_chatgpt_models() {
    let a = builtin_model_presets();
    let b = all_model_presets();
    assert_eq!(a, b);
}

#[test]
fn epoch_readings_become_timestamps() {
    assert_eq!(timestamp_since_epoch(Some((5, 7))), Some(Timestamp { secs: 5, nanos: 7 }));
    assert_eq!(
        timestamp_since_epoch(Some((i64::MAX as u64, 999_999_999))),
        Some(Timestamp { secs: i64::MAX, nanos: 999_999_999 })
    );
    assert_eq!(timestamp_since_epoch(Some((i64::MAX as u64 + 1, 0))), None);
    assert_eq!(timestamp_since_epoch(None), None);
}
