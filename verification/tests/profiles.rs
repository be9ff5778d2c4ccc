use prism_proxy::commands::{
    activate_profile, create_profile, get_all_profiles, get_proxy_server_url, log_page,
    update_profile, CreateProfileDto, ProfileDto,
};
use prism_proxy::config::store::{api_key_from_bytes, ConfigManager};
use prism_proxy::config::{MappingRule, ModelMappingMode, Profile};
use prism_proxy::db::config::{flag_to_int, flag_to_text, profile_from_row, rule_from_row};
use prism_proxy::proxy::proxy_config::ProxyConfig;

fn profile(name: &str) -> Profile {
    Profile::new(name.to_string(), "https://api.anthropic.com".to_string(), "KEY".to_string())
}

fn rule(pattern: &str, target: &str, use_regex: bool) -> MappingRule {
    MappingRule { pattern: pattern.to_string(), target: target.to_string(), use_regex }
}

#[test]
fn mapping_mode_names_round_trip() {
    for mode in [ModelMappingMode::Passthrough, ModelMappingMode::Override, ModelMappingMode::MapRules] {
        assert_eq!(ModelMappingMode::from_str(mode.as_str()), mode);
    }
    assert_eq!(ModelMappingMode::MapRules.as_str(), "map");
    assert_eq!(ModelMappingMode::from_str("nonsense"), ModelMappingMode::Passthrough);
    assert_eq!(ModelMappingMode::default(), ModelMappingMode::Passthrough);
}

#[test]
fn new_profile_is_inactive_passthrough_with_fresh_id() {
    let a = profile("a");
    let b = profile("b");
    assert_eq!(a.id.len(), 36);
    assert_ne!(a.id, b.id);
    assert!(!a.is_active);
    assert_eq!(a.model_mapping_mode, ModelMappingMode::Passthrough);
    assert!(a.override_model.is_none());
    assert!(a.model_mappings.is_empty());
}

#[test]
fn passthrough_keeps_the_model() {
    let p = profile("P");
    assert_eq!(p.resolve_model("big-model-3-5"), "big-model-3-5");
    assert_eq!(p.resolve_model(""), "");
}

#[test]
fn override_uses_its_model_or_falls_back() {
    let mut p = profile("P");
    p.model_mapping_mode = ModelMappingMode::Override;
    assert_eq!(p.resolve_model("sonnet"), "sonnet");
    p.override_model = Some("opus-3".to_string());
    assert_eq!(p.resolve_model("sonnet"), "opus-3");
}

#[test]
fn map_with_regex_takes_the_first_matching_rule() {
    let mut p = profile("P");
    p.model_mapping_mode = ModelMappingMode::MapRules;
    p.model_mappings =
        vec![rule("^gpt-.*", "haiku-3", true), rule("sonnet", "sonnet-3", false)];
    assert_eq!(p.resolve_model("gpt-4"), "haiku-3");
    assert_eq!(p.resolve_model("sonnet"), "sonnet-3");
    assert_eq!(p.resolve_model("llama"), "llama");
}

#[test]
fn map_is_sensitive_to_rule_order() {
    let mut p = profile("P");
    p.model_mapping_mode = ModelMappingMode::MapRules;
    p.model_mappings = vec![rule("gpt-.*", "first", true), rule("gpt-4", "second", false)];
    assert_eq!(p.resolve_model("gpt-4"), "first");
    p.model_mappings = vec![rule("gpt-4", "second", false), rule("gpt-.*", "first", true)];
    assert_eq!(p.resolve_model("gpt-4"), "second");
}

#[test]
fn invalid_regex_is_skipped() {
    let mut p = profile("P");
    p.model_mapping_mode = ModelMappingMode::MapRules;
    p.model_mappings = vec![rule("foo(bar", "broken", true), rule("foo(bar", "exact", false)];
    assert_eq!(p.resolve_model("foo(bar"), "exact");
    assert_eq!(p.resolve_model("other"), "other");
}

#[test]
fn exact_rule_does_not_match_a_substring() {
    let mut p = profile("P");
    p.model_mapping_mode = ModelMappingMode::MapRules;
    p.model_mappings = vec![rule("sonnet", "mapped", false)];
    assert_eq!(p.resolve_model("sonnet-4"), "sonnet-4");
}

#[test]
fn create_then_get_gives_the_fields_back() {
    let mut m = ConfigManager::new();
    let mut p = profile("first");
    p.model_mapping_mode = ModelMappingMode::Override;
    p.override_model = Some("m".to_string());
    p.model_mappings = vec![rule("a", "b", true)];
    let id = m.create_profile(p.clone()).unwrap();
    assert_eq!(id, p.id);
    let got = m.get_profile(&id).unwrap();
    assert_eq!(got.name, "first");
    assert_eq!(got.api_base_url, "https://api.anthropic.com");
    assert_eq!(got.api_key, "KEY");
    assert_eq!(got.model_mapping_mode, ModelMappingMode::Override);
    assert_eq!(got.override_model.as_deref(), Some("m"));
    assert_eq!(got.model_mappings.len(), 1);
    assert_eq!(got.model_mappings[0].pattern, "a");
    assert!(got.model_mappings[0].use_regex);
    assert!(m.get_profile("missing").is_none());
}

#[test]
fn create_refuses_a_stored_identifier() {
    let mut m = ConfigManager::new();
    let p = profile("p");
    m.create_profile(p.clone()).unwrap();
    assert_eq!(m.create_profile(p), Err("Profile already exists".to_string()));
    assert_eq!(m.list_profiles().len(), 1);
}

#[test]
fn update_and_delete_refuse_unknown_identifiers() {
    let mut m = ConfigManager::new();
    assert_eq!(m.update_profile("x", profile("p")), Err("Profile not found".to_string()));
    assert_eq!(m.delete_profile("x"), Err("Profile not found".to_string()));
    assert_eq!(m.activate_profile("x"), Err("Profile not found".to_string()));
}

#[test]
fn update_replaces_and_delete_removes() {
    let mut m = ConfigManager::new();
    let a = m.create_profile(profile("a")).unwrap();
    let b = m.create_profile(profile("b")).unwrap();
    let mut changed = profile("a2");
    changed.id = a.clone();
    m.update_profile(&a, changed).unwrap();
    assert_eq!(m.get_profile(&a).unwrap().name, "a2");
    assert_eq!(m.get_profile(&b).unwrap().name, "b");
    m.delete_profile(&a).unwrap();
    assert!(m.get_profile(&a).is_none());
    assert_eq!(m.list_profiles().len(), 1);
    assert_eq!(m.get_profiles_with_keys()[0].0, b);
}

#[test]
fn activate_leaves_exactly_one_active() {
    let mut m = ConfigManager::new();
    let a = m.create_profile(profile("a")).unwrap();
    let _b = m.create_profile(profile("b")).unwrap();
    let c = m.create_profile(profile("c")).unwrap();
    assert!(m.get_active_profile().is_none());
    m.activate_profile(&c).unwrap();
    assert_eq!(m.list_profiles().iter().filter(|p| p.is_active).count(), 1);
    assert_eq!(m.get_active_profile().unwrap().id, c);
    m.activate_profile(&a).unwrap();
    assert_eq!(m.list_profiles().iter().filter(|p| p.is_active).count(), 1);
    assert_eq!(m.get_active_profile().unwrap().id, a);
}

#[test]
fn activate_twice_leaves_the_second_active() {
    let mut m = ConfigManager::new();
    let a = m.create_profile(profile("a")).unwrap();
    let b = m.create_profile(profile("b")).unwrap();
    m.activate_profile(&a).unwrap();
    m.activate_profile(&b).unwrap();
    assert_eq!(m.get_active_profile().unwrap().id, b);
    assert_eq!(m.list_profiles().iter().filter(|p| p.is_active).count(), 1);
}

#[test]
fn api_key_has_the_sk_hex_shape() {
    let key = ConfigManager::generate_api_key();
    assert_eq!(key.len(), 35);
    assert!(key.starts_with("sk-"));
    assert!(key[3..].chars().all(|c| matches!(c, '0'..='9' | 'a'..='f')));
    assert_ne!(key, ConfigManager::generate_api_key());
}

#[test]
fn api_key_from_bytes_writes_lower_hex() {
    let bytes = [0u8, 1, 15, 16, 171, 255];
    assert_eq!(api_key_from_bytes(&bytes), "sk-00010f10abff");
    assert_eq!(api_key_from_bytes(&[]), "sk-");
}

#[test]
fn refresh_replaces_the_key() {
    let mut m = ConfigManager::new();
    assert!(m.get_api_key().is_none());
    let key = m.refresh_api_key();
    assert_eq!(m.get_api_key(), Some(&key));
    let next = m.refresh_api_key();
    assert_ne!(key, next);
    assert_eq!(m.get_api_key(), Some(&next));
}

#[test]
fn verify_api_key_follows_the_switch() {
    let mut m = ConfigManager::new();
    assert!(!m.is_auth_enabled());
    assert!(m.verify_api_key("anything"));
    m.set_auth_enabled(true);
    assert!(m.is_auth_enabled());
    assert!(!m.verify_api_key("anything"));
    let key = m.refresh_api_key();
    assert!(m.verify_api_key(&key));
    assert!(!m.verify_api_key("sk-wrong"));
    assert!(!m.verify_api_key(""));
}

#[test]
fn from_loaded_keeps_the_last_of_an_identifier() {
    let mut first = profile("first");
    first.id = "same".to_string();
    let mut second = profile("second");
    second.id = "same".to_string();
    let other = profile("other");
    let all = vec![first, other.clone(), second];
    let m = ConfigManager::from_loaded(&all, Some("sk-1".to_string()), Some("true"));
    assert_eq!(m.list_profiles().len(), 2);
    assert_eq!(m.get_profile("same").unwrap().name, "second");
    assert_eq!(m.get_profile(&other.id).unwrap().name, "other");
    assert!(m.is_auth_enabled());
    assert_eq!(m.get_api_key().map(|k| k.as_str()), Some("sk-1"));
    let off = ConfigManager::from_loaded(&all, None, Some("yes"));
    assert!(!off.is_auth_enabled());
    assert!(!ConfigManager::from_loaded(&all, None, None).is_auth_enabled());
}

#[test]
fn command_create_stores_an_inactive_profile() {
    let mut m = ConfigManager::new();
    let dto = CreateProfileDto {
        name: "n".to_string(),
        api_base_url: "https://api.openai.com".to_string(),
        api_key: "k".to_string(),
        model_mapping_mode: ModelMappingMode::MapRules,
        override_model: None,
        model_mappings: vec![rule("a", "b", false)],
    };
    let (id, stored) = create_profile(&mut m, dto).unwrap();
    assert_eq!(stored.id, id);
    assert!(!stored.is_active);
    let got = m.get_profile(&id).unwrap();
    assert_eq!(got.name, "n");
    assert_eq!(got.model_mapping_mode, ModelMappingMode::MapRules);
    assert_eq!(got.model_mappings[0].target, "b");
}

#[test]
fn command_update_keeps_id_and_activation() {
    let mut m = ConfigManager::new();
    let id = m.create_profile(profile("a")).unwrap();
    m.activate_profile(&id).unwrap();
    let mut dto = ProfileDto::from_profile(&profile("renamed"));
    dto.is_active = false;
    dto.id = "ignored".to_string();
    let stored = update_profile(&mut m, &id, dto).unwrap();
    assert_eq!(stored.id, id);
    assert!(stored.is_active);
    assert_eq!(m.get_profile(&id).unwrap().name, "renamed");
    assert!(m.get_profile(&id).unwrap().is_active);
    let missing = update_profile(&mut m, "nope", ProfileDto::from_profile(&profile("x")));
    assert_eq!(missing.err(), Some("Profile not found".to_string()));
}

#[test]
fn command_activate_returns_all_profiles() {
    let mut m = ConfigManager::new();
    let a = m.create_profile(profile("a")).unwrap();
    let b = m.create_profile(profile("b")).unwrap();
    let all = activate_profile(&mut m, &b).unwrap();
    assert_eq!(all.len(), 2);
    assert_eq!(all.iter().filter(|p| p.is_active).map(|p| p.id.clone()).collect::<Vec<_>>(), vec![b]);
    assert!(!all.iter().find(|p| p.id == a).unwrap().is_active);
    assert!(activate_profile(&mut m, "nope").is_err());
}

#[test]
fn command_list_shows_the_keys() {
    let mut m = ConfigManager::new();
    let a = m.create_profile(profile("a")).unwrap();
    let mut other = profile("b");
    other.id = "inner".to_string();
    m.update_profile(&a, other).unwrap();
    let listed = get_all_profiles(&m);
    assert_eq!(listed.len(), 1);
    assert_eq!(listed[0].id, a);
    assert_eq!(listed[0].name, "b");
}

#[test]
fn get_logs_clamps_limit_and_offset() {
    assert_eq!(log_page(None, None), (100, 0));
    assert_eq!(log_page(Some(500), Some(20)), (100, 20));
    assert_eq!(log_page(Some(100), Some(0)), (100, 0));
    assert_eq!(log_page(Some(7), Some(-3)), (7, 0));
    assert_eq!(log_page(Some(-1), Some(i32::MIN)), (0, 0));
    assert_eq!(log_page(Some(0), Some(i32::MAX)), (0, i32::MAX as usize));
}

#[test]
fn server_url_names_host_and_port() {
    assert_eq!(get_proxy_server_url(&ProxyConfig::default()), "http://127.0.0.1:15288");
    let c = ProxyConfig { host: "::1".to_string(), port: 0 };
    assert_eq!(get_proxy_server_url(&c), "http://::1:0");
    let d = ProxyConfig { host: "10.0.0.1".to_string(), port: 65535 };
    assert_eq!(get_proxy_server_url(&d), "http://10.0.0.1:65535");
}

#[test]
fn rows_decode_flags_and_modes() {
    assert_eq!(flag_to_int(true), 1);
    assert_eq!(flag_to_int(false), 0);
    assert_eq!(flag_to_text(true), "true");
    assert_eq!(flag_to_text(false), "false");
    let r = rule_from_row("p".to_string(), "t".to_string(), 2);
    assert!(r.use_regex);
    assert!(!rule_from_row("p".to_string(), "t".to_string(), 0).use_regex);
    let p = profile_from_row(
        "id".to_string(),
        "n".to_string(),
        "u".to_string(),
        "k".to_string(),
        1,
        "override",
        Some("m".to_string()),
        vec![r],
    );
    assert!(p.is_active);
    assert_eq!(p.model_mapping_mode, ModelMappingMode::Override);
    assert_eq!(p.resolve_model("x"), "m");
}

#[test]
fn stores_are_well_formed() {
    let mut m = ConfigManager::new();
    assert!(m.is_well_formed());
    let a = m.create_profile(profile("a")).unwrap();
    m.create_profile(profile("b")).unwrap();
    let mut moved = profile("c");
    moved.id = "elsewhere".to_string();
    m.put(moved);
    m.update_profile(&a, profile("a2")).unwrap();
    m.activate_profile(&a).unwrap();
    assert!(m.is_well_formed());
    assert_eq!(m.list_profiles().len(), 3);
    assert_eq!(m.get_profile("elsewhere").unwrap().name, "c");
}

fn active_ids(m: &ConfigManager) -> Vec<String> {
    m.list_profiles().iter().filter(|p| p.is_active).map(|p| p.id.clone()).collect()
}

#[test]
fn creating_an_active_profile_leaves_it_the_only_active() {
    let mut m = ConfigManager::new();
    let mut first = profile("a");
    first.is_active = true;
    let a = m.create_profile(first).unwrap();
    assert_eq!(active_ids(&m), vec![a.clone()]);
    let b = m.create_profile(profile("b")).unwrap();
    assert_eq!(active_ids(&m), vec![a.clone()]);
    let mut third = profile("c");
    third.is_active = true;
    let c = m.create_profile(third).unwrap();
    assert_eq!(active_ids(&m), vec![c.clone()]);
    assert!(m.get_profile(&c).unwrap().is_active);
    assert!(!m.get_profile(&a).unwrap().is_active);
    assert_eq!(m.get_profile(&a).unwrap().name, "a");
    assert_eq!(m.get_profile(&b).unwrap().name, "b");
    assert_eq!(m.list_profiles().len(), 3);
    assert!(m.is_well_formed());
}

#[test]
fn updating_to_an_active_profile_leaves_it_the_only_active() {
    let mut m = ConfigManager::new();
    let a = m.create_profile(profile("a")).unwrap();
    let b = m.create_profile(profile("b")).unwrap();
    m.activate_profile(&a).unwrap();
    let mut changed = profile("b2");
    changed.id = b.clone();
    changed.is_active = true;
    m.update_profile(&b, changed).unwrap();
    assert_eq!(active_ids(&m), vec![b.clone()]);
    assert_eq!(m.get_profile(&b).unwrap().name, "b2");
    assert_eq!(m.get_profile(&a).unwrap().name, "a");
    m.update_profile(&b, profile("b3")).unwrap();
    assert!(active_ids(&m).is_empty());
    assert!(m.is_well_formed());
    let mut again = profile("a2");
    again.is_active = true;
    assert_eq!(m.update_profile("nowhere", again), Err("Profile not found".to_string()));
    assert!(active_ids(&m).is_empty());
}

#[test]
fn a_store_read_back_has_one_active_at_most() {
    let mut a = profile("a");
    a.is_active = true;
    let mut b = profile("b");
    b.is_active = true;
    let c = profile("c");
    let all = vec![a.clone(), b.clone(), c.clone()];
    let m = ConfigManager::from_loaded(&all, None, None);
    assert!(m.is_well_formed());
    assert_eq!(active_ids(&m), vec![b.id.clone()]);
    assert_eq!(m.get_active_profile().unwrap().name, "b");
    assert_eq!(m.list_profiles().len(), 3);
    let mut n = ConfigManager::new();
    n.put(a.clone());
    n.put(c);
    n.put(b.clone());
    assert_eq!(active_ids(&n), vec![b.id.clone()]);
    let mut back = profile("a-again");
    back.id = a.id.clone();
    back.is_active = true;
    n.put(back);
    assert_eq!(active_ids(&n), vec![a.id.clone()]);
    assert_eq!(n.get_profile(&a.id).unwrap().name, "a-again");
    assert!(n.is_well_formed());
}

#[test]
fn deleting_keeps_one_active_at_most() {
    let mut m = ConfigManager::new();
    let a = m.create_profile(profile("a")).unwrap();
    let b = m.create_profile(profile("b")).unwrap();
    m.activate_profile(&b).unwrap();
    m.delete_profile(&a).unwrap();
    assert_eq!(active_ids(&m), vec![b.clone()]);
    m.delete_profile(&b).unwrap();
    assert!(active_ids(&m).is_empty());
    assert!(m.get_active_profile().is_none());
}
