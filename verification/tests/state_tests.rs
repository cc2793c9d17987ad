use r2s_api_proxy::cli::Args;
use r2s_api_proxy::state::{AppState, TokenCache};

fn args(keys: &[&str]) -> Args {
    Args {
        endpoint: "https://api.example".to_string(),
        key: keys.iter().map(|k| k.to_string()).collect(),
        ping_interval: 1800,
        host: "0.0.0.0".to_string(),
        port: 8080,
        base: "/".to_string(),
        cache_dir: "/data/r2s".to_string(),
    }
}

#[test]
fn app_state_from_args() {
    let s = AppState::new(&args(&["a", "b"]));
    assert_eq!(s.endpoint(), "https://api.example");
    assert_eq!(s.cache_dir(), "/data/r2s");
}

#[test]
fn keys_are_checked_exactly() {
    let s = AppState::new(&args(&["custom_key", "other"]));
    assert!(s.is_key_valid("custom_key"));
    assert!(s.is_key_valid("other"));
    assert!(!s.is_key_valid("custom"));
    assert!(!s.is_key_valid("Custom_key"));
    assert!(!s.is_key_valid(""));
}

#[test]
fn no_keys_accept_nothing() {
    let s = AppState::new(&args(&[]));
    assert!(!s.is_key_valid("anything"));
}

#[test]
fn new_token_cache_is_valid_and_empty() {
    let c = TokenCache::new("e".to_string(), "d".to_string());
    assert!(c.is_valid());
    assert_eq!(c.auth_token(), None);
}

#[test]
fn token_reads_back_after_set() {
    let mut c = TokenCache::new("e".to_string(), "d".to_string());
    c.set_auth_token("t1".to_string());
    assert_eq!(c.auth_token(), Some(&"t1".to_string()));
    c.set_valid(false);
    assert!(!c.is_valid());
    assert_eq!(c.auth_token(), Some(&"t1".to_string()));
    c.set_valid(true);
    assert!(c.is_valid());
}

#[test]
fn store_returns_the_write() {
    let mut c = TokenCache::new("https://api.example".to_string(), "/data".to_string());
    let w = c.store_auth_token("eyJ.new".to_string());
    assert_eq!(c.auth_token(), Some(&"eyJ.new".to_string()));
    assert_eq!(w.token, "eyJ.new");
    assert_eq!(w.endpoint, "https://api.example");
    assert_eq!(w.cache_dir, "/data");
    assert!(c.is_valid());
}
