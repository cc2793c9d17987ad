use r2s_api_proxy::cache::{cache_file_after_store, cached_token, entries_after_store, get_cache_path, lookup_entry, without_entry};

#[test]
fn cache_path_joins_config_json() {
    assert_eq!(get_cache_path("/home/u/.r2s-api-proxy"), "/home/u/.r2s-api-proxy/config.json");
    assert_eq!(get_cache_path("/data/"), "/data/config.json");
    assert_eq!(get_cache_path(""), "config.json");
    assert_eq!(
        get_cache_path("/x/y"),
        std::path::PathBuf::from("/x/y").join("config.json").to_string_lossy()
    );
}

#[test]
fn token_is_read_for_its_endpoint() {
    let content = "{\n  \"https://a\": \"tok-a\",\n  \"https://b\": \"tok-b\"\n}";
    assert_eq!(cached_token(content, "https://a"), Some("tok-a".to_string()));
    assert_eq!(cached_token(content, "https://b"), Some("tok-b".to_string()));
    assert_eq!(cached_token(content, "https://c"), None);
}

#[test]
fn malformed_cache_gives_nothing() {
    assert_eq!(cached_token("not json", "https://a"), None);
    assert_eq!(cached_token("{\"https://a\": 1}", "https://a"), None);
    assert_eq!(cached_token("[]", "https://a"), None);
}

#[test]
fn store_into_missing_file() {
    let s = cache_file_after_store(None, "https://a", "tok").unwrap();
    assert_eq!(s, "{\n  \"https://a\": \"tok\"\n}");
    assert_eq!(cached_token(&s, "https://a"), Some("tok".to_string()));
}

#[test]
fn store_keeps_other_endpoints() {
    let existing = "{\"https://a\": \"old\", \"https://b\": \"keep\"}";
    let s = cache_file_after_store(Some(existing), "https://a", "new").unwrap();
    assert_eq!(cached_token(&s, "https://a"), Some("new".to_string()));
    assert_eq!(cached_token(&s, "https://b"), Some("keep".to_string()));
}

#[test]
fn store_over_malformed_file_starts_afresh() {
    let s = cache_file_after_store(Some("garbage"), "https://a", "tok").unwrap();
    assert_eq!(cached_token(&s, "https://a"), Some("tok".to_string()));
    assert_eq!(s, "{\n  \"https://a\": \"tok\"\n}");
}

#[test]
fn second_store_overwrites() {
    let s1 = cache_file_after_store(None, "e", "t1").unwrap();
    let s2 = cache_file_after_store(Some(&s1), "e", "t2").unwrap();
    assert_eq!(cached_token(&s2, "e"), Some("t2".to_string()));
    let parsed: serde_json::Value = serde_json::from_str(&s2).unwrap();
    assert_eq!(parsed.as_object().unwrap().len(), 1);
}

#[test]
fn lookup_takes_last_entry() {
    let entries = vec![
        ("a".to_string(), "1".to_string()),
        ("b".to_string(), "2".to_string()),
        ("a".to_string(), "3".to_string()),
    ];
    assert_eq!(lookup_entry(&entries, "a"), Some("3".to_string()));
    assert_eq!(lookup_entry(&entries, "b"), Some("2".to_string()));
    assert_eq!(lookup_entry(&entries, "c"), None);
}

#[test]
fn store_moves_entry_last() {
    let entries = vec![
        ("a".to_string(), "1".to_string()),
        ("b".to_string(), "2".to_string()),
        ("a".to_string(), "3".to_string()),
    ];
    let after = entries_after_store(&entries, "a", "9");
    assert_eq!(after, vec![("b".to_string(), "2".to_string()), ("a".to_string(), "9".to_string())]);
    assert_eq!(without_entry(&entries, "b").len(), 2);
}
