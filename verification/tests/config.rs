use gemini_proxy::config::{
    default_aistudio_url, default_cooldown_seconds, default_gemini_url, default_listen_address,
    default_model_prefix, default_model_suffix, default_retry_limit, default_true,
    default_user_prefix, default_user_suffix, AIStudioCookieConfig, Config, GeminiKeyConfig,
    KeyConfig, MergeRole, PromptConfig, TlsConfig,
};
use gemini_proxy::models::{Key, KeyStatus, KeyType};
use gemini_proxy::pool::CredentialPool;

fn gemini_entry(value: &str, enabled: bool) -> KeyConfig {
    KeyConfig::Gemini(GeminiKeyConfig { key_value: value.to_string(), enabled })
}

fn cookie_entry(value: &str, enabled: bool) -> KeyConfig {
    KeyConfig::AIStudio(AIStudioCookieConfig { cookie_value: value.to_string(), enabled })
}

fn config_with(keys: Vec<KeyConfig>) -> Config {
    Config {
        gemini_base_url: default_gemini_url(),
        aistudio_base_url: default_aistudio_url(),
        management_key: "secret".to_string(),
        listen_address: default_listen_address(),
        tls: Some(TlsConfig { cert_path: "cert.pem".to_string(), key_path: "key.pem".to_string() }),
        prompt_config: PromptConfig::default(),
        keys,
        retry_limit: default_retry_limit(),
        cooldown_seconds: default_cooldown_seconds(),
    }
}

#[test]
fn defaults_have_their_documented_values() {
    assert_eq!(default_model_prefix(), "Assistant: ");
    assert_eq!(default_user_prefix(), "Human: ");
    assert_eq!(default_model_suffix(), "\n");
    assert_eq!(default_user_suffix(), "\n");
    assert_eq!(default_listen_address(), "127.0.0.1:3200");
    assert!(default_true());
    assert_eq!(default_gemini_url(), "https://generativelanguage.googleapis.com");
    assert_eq!(default_aistudio_url(), "https://aistudio.google.com/app");
    assert_eq!(default_retry_limit(), 3);
    assert_eq!(default_cooldown_seconds(), 60);
}

#[test]
fn default_merge_role_merges_nothing() {
    assert_eq!(MergeRole::default(), MergeRole::Off);
}

#[test]
fn default_prompt_config() {
    let config = PromptConfig::default();
    assert_eq!(config.merge_role, MergeRole::Off);
    assert_eq!(config.model_prefix, "Assistant: ");
    assert_eq!(config.user_prefix, "Human: ");
    assert_eq!(config.model_suffix, "\n");
    assert_eq!(config.user_suffix, "\n");
}

#[test]
fn entry_kind() {
    assert_eq!(gemini_entry("k", true).get_type(), KeyType::Gemini);
    assert_eq!(cookie_entry("c", false).get_type(), KeyType::AIStudio);
}

#[test]
fn enabled_entry_becomes_available_key() {
    let key = gemini_entry("k-1", true).to_key_with_id(7);
    match key {
        Key::Gemini(info) => {
            assert_eq!(info.id, 7);
            assert_eq!(info.key_value, "k-1");
            assert_eq!(info.last_used, None);
            assert_eq!(info.status, KeyStatus::Available);
        }
        other => panic!("wrong kind: {:?}", other),
    }
}

#[test]
fn disabled_entry_becomes_invalid_key() {
    let key = cookie_entry("c-1", false).to_key_with_id(9);
    match key {
        Key::AIStudio(info) => {
            assert_eq!(info.id, 9);
            assert_eq!(info.cookie_value, "c-1");
            assert_eq!(info.last_used, None);
            assert_eq!(info.status, KeyStatus::Invalid);
        }
        other => panic!("wrong kind: {:?}", other),
    }
}

#[test]
fn to_key_draws_a_random_uuid() {
    let entry = gemini_entry("k", true);
    let first = entry.to_key();
    let second = entry.to_key();
    assert_eq!(first.get_type(), KeyType::Gemini);
    assert_eq!(first.get_secret(), "k");
    assert_eq!(first.get_status(), KeyStatus::Available);
    assert_eq!(first.get_last_used(), None);
    assert_ne!(first.get_id(), second.get_id());
    for key in [first, second] {
        let uuid = uuid::Uuid::from_u128(key.get_id());
        assert_eq!(uuid.get_version_num(), 4);
        assert_eq!(uuid.get_variant(), uuid::Variant::RFC4122);
        assert_eq!(
            key.get_id() & gemini_proxy::ident::VERSION_AND_VARIANT_MASK,
            gemini_proxy::ident::RANDOM_RFC_BITS
        );
    }
}

#[test]
fn pool_from_config_keeps_order_and_states() {
    let config = config_with(vec![
        gemini_entry("g-1", true),
        cookie_entry("c-1", true),
        gemini_entry("g-2", false),
    ]);
    let mut pool = CredentialPool::from_config(&config).unwrap();
    assert_eq!(pool.len(), 3);
    assert_eq!(pool.cooldown(), 60);

    let gemini = pool.acquire(KeyType::Gemini, 0).unwrap();
    assert_eq!(pool.get(gemini.id()).unwrap().get_secret(), "g-1");
    assert!(pool.acquire(KeyType::Gemini, 0).is_err());

    let cookie = pool.acquire(KeyType::AIStudio, 0).unwrap();
    assert_eq!(pool.get(cookie.id()).unwrap().get_secret(), "c-1");
    assert_ne!(gemini.id(), cookie.id());
}

#[test]
fn pool_from_empty_config_is_empty() {
    let mut pool = CredentialPool::from_config(&config_with(vec![])).unwrap();
    assert_eq!(pool.len(), 0);
    assert!(pool.acquire(KeyType::Gemini, 0).is_err());
}
