use r2s_api_proxy::cli::Args;
use r2s_api_proxy::headers::{relay_headers, response_status, status_is_success, is_valid_header_text, Header};
use r2s_api_proxy::proxy::{
    apply_refreshed_token, authorize_upstream, bad_gateway_response, extract_bearer_token, extract_client_key, internal_server_error_response,
    into_request, path_and_query, ping_request, plan_request, refreshed_token, response_headers,
    service_unavailable_response, unauthorized_response, PlainResponse,
};
use r2s_api_proxy::state::{AppState, TokenCache};
use r2s_api_proxy::text::visible_ascii_text;

fn h(name: &str, value: &str) -> Header {
    Header { name: name.to_string(), value: value.as_bytes().to_vec() }
}

fn names_values(hs: &[Header]) -> Vec<(String, Vec<u8>)> {
    hs.iter().map(|x| (x.name.clone(), x.value.clone())).collect()
}

fn state() -> AppState {
    AppState::new(&Args {
        endpoint: "https://upstream.example".to_string(),
        key: vec!["custom_key".to_string()],
        ping_interval: 1800,
        host: "0.0.0.0".to_string(),
        port: 8080,
        base: "/".to_string(),
        cache_dir: "/tmp/c".to_string(),
    })
}

fn is(r: &PlainResponse, status: u16, body: &str) -> bool {
    r.status == status && r.body == body && r.content_type == "text/plain"
}

#[test]
fn error_responses() {
    assert!(is(&unauthorized_response(), 401, "unauthorized"));
    assert!(is(&service_unavailable_response(), 503, "service unavailable"));
    assert!(is(&internal_server_error_response(), 500, "internal server error"));
    assert!(is(&bad_gateway_response(), 502, "bad gateway"));
}

#[test]
fn bearer_token_is_read_from_proxy_authorization() {
    let hs = vec![h("accept", "*/*"), h("proxy-authorization", "Bearer custom_key")];
    assert_eq!(extract_bearer_token(&hs), Some("custom_key".to_string()));
}

#[test]
fn bearer_token_header_name_ignores_case() {
    let hs = vec![h("Proxy-Authorization", "Bearer abc")];
    assert_eq!(extract_bearer_token(&hs), Some("abc".to_string()));
}

#[test]
fn bearer_token_needs_scheme() {
    assert_eq!(extract_bearer_token(&vec![h("proxy-authorization", "Basic abc")]), None);
    assert_eq!(extract_bearer_token(&vec![h("proxy-authorization", "bearer abc")]), None);
    assert_eq!(extract_bearer_token(&vec![h("authorization", "Bearer abc")]), None);
    assert_eq!(extract_bearer_token(&vec![]), None);
}

#[test]
fn bearer_token_first_header_counts() {
    let hs = vec![h("proxy-authorization", "Basic x"), h("proxy-authorization", "Bearer y")];
    assert_eq!(extract_bearer_token(&hs), None);
}

#[test]
fn bearer_token_needs_visible_ascii() {
    let hs = vec![Header { name: "proxy-authorization".to_string(), value: b"Bearer k\xc3\xa9y".to_vec() }];
    assert_eq!(extract_bearer_token(&hs), None);
}

#[test]
fn visible_ascii_reading() {
    assert_eq!(visible_ascii_text(b"a b\tc~"), Some("a b\tc~".to_string()));
    assert_eq!(visible_ascii_text(b"a\x7f"), None);
    assert_eq!(visible_ascii_text(b"\x01"), None);
    assert_eq!(visible_ascii_text(b"\xc3\xa9"), None);
}

#[test]
fn path_and_query_forms() {
    assert_eq!(path_and_query(None, None), "/");
    assert_eq!(path_and_query(Some("account/profile"), None), "/account/profile");
    assert_eq!(path_and_query(Some("a"), Some("x=1&y=2")), "/a?x=1&y=2");
    assert_eq!(path_and_query(None, Some("q")), "/?q");
}

#[test]
fn request_without_key_is_refused() {
    let r = plan_request(&state(), "/x", &vec![h("accept", "*/*")]);
    assert!(is(&r.err().unwrap(), 401, "unauthorized"));
}

#[test]
fn request_with_unknown_key_is_refused() {
    let r = plan_request(&state(), "/x", &vec![h("proxy-authorization", "Bearer nope")]);
    assert!(is(&r.err().unwrap(), 401, "unauthorized"));
}

#[test]
fn request_with_key_is_planned() {
    let hs = vec![
        h("host", "proxy.local"),
        h("proxy-authorization", "Bearer custom_key"),
        h("accept", "a"),
        h("accept", "b"),
        h("x-other", "1"),
    ];
    let plan = plan_request(&state(), "/account/profile?x=1", &hs).ok().unwrap();
    assert_eq!(plan.url, "https://upstream.example/account/profile?x=1");
    assert!(!plan.has_authorization);
    assert_eq!(
        names_values(&plan.headers),
        vec![
            ("proxy-authorization".to_string(), b"Bearer custom_key".to_vec()),
            ("accept".to_string(), b"b".to_vec()),
            ("x-other".to_string(), b"1".to_vec()),
        ]
    );
}

#[test]
fn client_authorization_is_noticed() {
    let hs = vec![h("proxy-authorization", "Bearer custom_key"), h("Authorization", "Bearer mine")];
    let plan = plan_request(&state(), "/", &hs).ok().unwrap();
    assert!(plan.has_authorization);
    let req = into_request(plan);
    assert_eq!(req.url, "https://upstream.example/");
    assert_eq!(req.headers.len(), 2);
}

#[test]
fn invalid_headers_are_dropped_when_relayed() {
    let hs = vec![
        Header { name: "x-bad".to_string(), value: b"a\x00b".to_vec() },
        h("bad name", "v"),
        Header { name: "ok".to_string(), value: b"v\xff".to_vec() },
    ];
    let out = relay_headers(&hs, false);
    assert_eq!(out.len(), 1);
    assert_eq!(out[0].name, "ok");
}

#[test]
fn response_headers_keep_host() {
    let hs = vec![h("host", "x"), h("set-token", "t")];
    assert_eq!(response_headers(&hs).len(), 2);
    assert_eq!(relay_headers(&hs, true).len(), 1);
}

#[test]
fn cached_token_is_added_upstream() {
    let plan = plan_request(&state(), "/p", &vec![h("proxy-authorization", "Bearer custom_key")]).ok().unwrap();
    let mut cache = TokenCache::new("e".to_string(), "d".to_string());
    cache.set_auth_token("eyJ.tok".to_string());
    let req = authorize_upstream(plan, &cache).ok().unwrap();
    let last = req.headers.last().unwrap();
    assert_eq!(last.name, "authorization");
    assert_eq!(last.value, b"Bearer eyJ.tok".to_vec());
    assert_eq!(req.url, "https://upstream.example/p");
}

#[test]
fn invalid_service_is_unavailable() {
    let plan = plan_request(&state(), "/p", &vec![h("proxy-authorization", "Bearer custom_key")]).ok().unwrap();
    let mut cache = TokenCache::new("e".to_string(), "d".to_string());
    cache.set_auth_token("t".to_string());
    cache.set_valid(false);
    assert!(is(&authorize_upstream(plan, &cache).err().unwrap(), 503, "service unavailable"));
}

#[test]
fn missing_token_is_unavailable() {
    let plan = plan_request(&state(), "/p", &vec![h("proxy-authorization", "Bearer custom_key")]).ok().unwrap();
    let cache = TokenCache::new("e".to_string(), "d".to_string());
    assert!(is(&authorize_upstream(plan, &cache).err().unwrap(), 503, "service unavailable"));
}

#[test]
fn unsendable_token_is_internal_error() {
    let plan = plan_request(&state(), "/p", &vec![h("proxy-authorization", "Bearer custom_key")]).ok().unwrap();
    let mut cache = TokenCache::new("e".to_string(), "d".to_string());
    cache.set_auth_token("bad\ntoken".to_string());
    assert!(is(&authorize_upstream(plan, &cache).err().unwrap(), 500, "internal server error"));
}

#[test]
fn header_text_validity() {
    assert!(is_valid_header_text("Bearer abc"));
    assert!(is_valid_header_text("Bearer \u{e9}"));
    assert!(!is_valid_header_text("a\nb"));
    assert!(!is_valid_header_text("a\u{7f}"));
}

#[test]
fn refreshed_token_from_set_token() {
    assert_eq!(refreshed_token(&vec![h("Set-Token", "eyJ.new")]), Some("eyJ.new".to_string()));
    assert_eq!(refreshed_token(&vec![h("x", "y")]), None);
}

#[test]
fn refreshed_token_is_applied() {
    let mut cache = TokenCache::new("https://e".to_string(), "/d".to_string());
    let w = apply_refreshed_token(&mut cache, &vec![h("set-token", "fresh")]).unwrap();
    assert_eq!(cache.auth_token(), Some(&"fresh".to_string()));
    assert_eq!(w.token, "fresh");
    assert_eq!(w.endpoint, "https://e");
    assert!(apply_refreshed_token(&mut cache, &vec![]).is_none());
    assert_eq!(cache.auth_token(), Some(&"fresh".to_string()));
}

#[test]
fn ping_needs_a_token() {
    let mut cache = TokenCache::new("https://e".to_string(), "/d".to_string());
    assert!(ping_request("https://e", &cache).is_none());
    cache.set_auth_token("t".to_string());
    let p = ping_request("https://e", &cache).unwrap();
    assert_eq!(p.url, "https://e/ping");
    assert_eq!(p.authorization, "Bearer t");
}

#[test]
fn statuses() {
    assert_eq!(response_status(404), 404);
    assert_eq!(response_status(999), 999);
    assert_eq!(response_status(99), 200);
    assert_eq!(response_status(1000), 200);
    assert!(status_is_success(200));
    assert!(status_is_success(299));
    assert!(!status_is_success(300));
    assert!(!status_is_success(199));
}

#[test]
fn key_in_authorization_is_exchanged_for_upstream_token() {
    let hs = vec![h("authorization", "Bearer custom_key"), h("accept", "*/*")];
    let plan = plan_request(&state(), "/account/profile", &hs).ok().unwrap();
    assert!(!plan.has_authorization);
    assert_eq!(names_values(&plan.headers), vec![("accept".to_string(), b"*/*".to_vec())]);
    let mut cache = TokenCache::new("e".to_string(), "d".to_string());
    cache.set_auth_token("eyJ.upstream".to_string());
    let req = authorize_upstream(plan, &cache).ok().unwrap();
    assert_eq!(
        names_values(&req.headers),
        vec![
            ("accept".to_string(), b"*/*".to_vec()),
            ("authorization".to_string(), b"Bearer eyJ.upstream".to_vec()),
        ]
    );
}

#[test]
fn proxy_authorization_key_comes_first() {
    let hs = vec![h("proxy-authorization", "Bearer nope"), h("authorization", "Bearer custom_key")];
    assert!(is(&plan_request(&state(), "/", &hs).err().unwrap(), 401, "unauthorized"));
}

#[test]
fn unknown_key_in_authorization_is_refused() {
    let hs = vec![h("authorization", "Bearer eyJ.something")];
    assert!(is(&plan_request(&state(), "/", &hs).err().unwrap(), 401, "unauthorized"));
}

#[test]
fn client_key_source() {
    assert_eq!(extract_client_key(&vec![h("proxy-authorization", "Bearer a")]), Some(("a".to_string(), false)));
    assert_eq!(extract_client_key(&vec![h("authorization", "Bearer b")]), Some(("b".to_string(), true)));
    assert_eq!(
        extract_client_key(&vec![h("proxy-authorization", "Basic x"), h("authorization", "Bearer b")]),
        Some(("b".to_string(), true))
    );
    assert_eq!(extract_client_key(&vec![h("authorization", "Basic b")]), None);
}
