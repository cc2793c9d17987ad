use r2s_api_proxy::cli::{add_fallback_key, key_noun, parse_base_path, proxy_routes, Args, FALLBACK_KEY_LEN};
use r2s_api_proxy::keygen::{generate_random_key, key_from_indices};

#[test]
fn base_path_empty_is_root() {
    assert_eq!(parse_base_path(""), Ok("/".to_string()));
}

#[test]
fn base_path_gets_leading_slash() {
    assert_eq!(parse_base_path("api"), Ok("/api".to_string()));
}

#[test]
fn base_path_with_slash_is_kept() {
    assert_eq!(parse_base_path("/api/v1"), Ok("/api/v1".to_string()));
    assert_eq!(parse_base_path("/"), Ok("/".to_string()));
}

#[test]
fn base_path_twice_is_once() {
    for s in ["", "x", "/x", "x/", "//"] {
        let once = parse_base_path(s).unwrap();
        assert_eq!(parse_base_path(&once).unwrap(), once);
    }
}

#[test]
fn routes_for_root() {
    let r = proxy_routes("/");
    assert_eq!(r.with_slash, "/");
    assert_eq!(r.wildcard, "/*path");
    assert_eq!(r.exact, None);
}

#[test]
fn routes_for_api() {
    let r = proxy_routes("/api");
    assert_eq!(r.exact, Some("/api".to_string()));
    assert_eq!(r.with_slash, "/api/");
    assert_eq!(r.wildcard, "/api/*path");
}

#[test]
fn routes_for_api_trailing_slash() {
    let r = proxy_routes("/api/");
    assert_eq!(r.exact, Some("/api".to_string()));
    assert_eq!(r.with_slash, "/api/");
    assert_eq!(r.wildcard, "/api/*path");
}

#[test]
fn routes_for_api_double_slash() {
    let r = proxy_routes("/api//");
    assert_eq!(r.exact, None);
    assert_eq!(r.with_slash, "/api//");
    assert_eq!(r.wildcard, "/api//*path");
}

#[test]
fn key_noun_singular_and_plural() {
    assert_eq!(key_noun(1), "key");
    assert_eq!(key_noun(0), "keys");
    assert_eq!(key_noun(3), "keys");
}

#[test]
fn fallback_key_added_only_when_none() {
    let mut keys: Vec<String> = Vec::new();
    let k = add_fallback_key(&mut keys).unwrap();
    assert_eq!(k.chars().count(), FALLBACK_KEY_LEN);
    assert!(k.chars().all(|c| c.is_ascii_alphanumeric()));
    assert_eq!(keys, vec![k.clone()]);

    let mut given = vec!["custom_key".to_string()];
    assert_eq!(add_fallback_key(&mut given), None);
    assert_eq!(given, vec!["custom_key".to_string()]);
}

#[test]
fn random_key_has_length_and_alphabet() {
    let k = generate_random_key(32);
    assert_eq!(k.len(), 32);
    assert!(k.chars().all(|c| c.is_ascii_alphanumeric()));
    assert_eq!(generate_random_key(0), "");
}

#[test]
fn key_alphabet_positions() {
    assert_eq!(key_from_indices(&[0, 25, 26, 51, 52, 61]), "azAZ09");
    assert_eq!(key_from_indices(&[]), "");
}

#[test]
fn args_hold_settings() {
    let a = Args {
        endpoint: "http://upstream".to_string(),
        key: vec!["k".to_string()],
        ping_interval: 1800,
        host: "0.0.0.0".to_string(),
        port: 8080,
        base: "/".to_string(),
        cache_dir: "/tmp/x".to_string(),
    };
    assert_eq!(a.ping_interval, 1800);
    assert_eq!(a.port, 8080);
}
