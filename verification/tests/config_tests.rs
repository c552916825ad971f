use todoclist::config::{ApiKeyManager, Config, EncryptedKey};

#[test]
fn refresh_interval_defaults_and_is_settable() {
    let mut cfg = Config::new();
    assert_eq!(cfg.version, 1);
    assert_eq!(cfg.refresh_interval(), 10);
    cfg.set_refresh_interval(30);
    assert_eq!(cfg.refresh_interval(), 30);
    assert_eq!(cfg.refresh_interval, Some(30));
}

fn stored_key(service: &str, value: &str) -> EncryptedKey {
    EncryptedKey {
        value: value.to_string(),
        nonce: String::new(),
        service: service.to_string(),
        created_at: "2024-01-01T00:00:00Z".to_string(),
        last_used: None,
    }
}

#[test]
fn upsert_replaces_only_the_same_service() {
    let mut cfg = Config::new();
    cfg.upsert_key(stored_key("todoist", "first"));
    cfg.upsert_key(stored_key("other", "keep"));
    cfg.upsert_key(stored_key("todoist", "second"));
    assert_eq!(cfg.keys.len(), 2);
    assert_eq!(cfg.keys[0].service, "other");
    assert_eq!(cfg.keys[1].service, "todoist");
    assert_eq!(cfg.keys[1].value, "second");
}

#[test]
fn find_key_index_returns_the_first_match() {
    let mut cfg = Config::new();
    cfg.upsert_key(stored_key("a", "va"));
    cfg.upsert_key(stored_key("b", "vb"));
    assert_eq!(cfg.find_key_index(&"a".to_string()), Some(0));
    assert_eq!(cfg.find_key_index(&"b".to_string()), Some(1));
    assert_eq!(cfg.find_key_index(&"c".to_string()), None);
}

#[test]
fn save_then_load_recovers_the_key() {
    let manager = ApiKeyManager::new();
    let mut cfg = Config::new();
    let service = "todoist".to_string();
    let api_key = "7x9y2z8w4v5q1r3t".to_string();
    manager
        .save_api_key(&mut cfg, &service, &api_key, "2024-01-01T00:00:00Z".to_string())
        .unwrap();
    assert_eq!(cfg.keys.len(), 1);
    let stored = &cfg.keys[0];
    assert_eq!(stored.service, "todoist");
    assert_eq!(stored.created_at, "2024-01-01T00:00:00Z");
    assert_eq!(stored.last_used, None);
    // The nonce travels base64-encoded, and the key material is not stored
    // in the clear.
    assert_eq!(stored.nonce, "dW5pcXVlIG5vbmNl");
    assert_ne!(stored.value, api_key);
    let loaded = manager.load_api_key(&cfg, &service).unwrap();
    assert_eq!(loaded, api_key);
}

#[test]
fn load_for_an_unknown_service_fails() {
    let manager = ApiKeyManager::new();
    let cfg = Config::new();
    assert!(manager.load_api_key(&cfg, &"todoist".to_string()).is_err());
}

#[test]
fn save_replaces_an_older_key_for_the_service() {
    let manager = ApiKeyManager::new();
    let mut cfg = Config::new();
    let service = "todoist".to_string();
    manager
        .save_api_key(&mut cfg, &service, &"old-key".to_string(), "t1".to_string())
        .unwrap();
    manager
        .save_api_key(&mut cfg, &service, &"new-key".to_string(), "t2".to_string())
        .unwrap();
    assert_eq!(cfg.keys.len(), 1);
    assert_eq!(manager.load_api_key(&cfg, &service).unwrap(), "new-key");
}
