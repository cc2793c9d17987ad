use r2s_api_proxy::headers::Header;
use r2s_api_proxy::startup::{ProbeReply, StartupAction, StartupCheck, StartupEvent, StartupPhase, StartupWarning};
use r2s_api_proxy::state::TokenCache;

fn reply(status: u16, set_token: Option<&str>) -> StartupEvent {
    let headers = match set_token {
        Some(t) => vec![Header { name: "set-token".to_string(), value: t.as_bytes().to_vec() }],
        None => vec![],
    };
    StartupEvent::ProfileReply(Some(ProbeReply { status, headers }))
}

fn probe_of(a: &StartupAction) -> (String, String) {
    match a {
        StartupAction::Probe(p) => (p.url.clone(), p.authorization.clone()),
        _ => panic!("expected a probe"),
    }
}

fn finish_of(a: &StartupAction) -> (bool, Option<StartupWarning>) {
    match a {
        StartupAction::Finish { valid, warning } => (*valid, *warning),
        _ => panic!("expected the end"),
    }
}

fn cache() -> TokenCache {
    TokenCache::new("https://e".to_string(), "/d".to_string())
}

#[test]
fn env_token_accepted() {
    let mut c = cache();
    let (mut check, first) = StartupCheck::new("https://e");
    assert!(matches!(first, StartupAction::ReadEnvToken));
    let s = check.step(&mut c, StartupEvent::EnvToken(Some("env".to_string())));
    assert_eq!(probe_of(&s.action), ("https://e/account/profile".to_string(), "Bearer env".to_string()));
    assert!(s.writes.is_empty());
    let s = check.step(&mut c, reply(200, None));
    assert_eq!(finish_of(&s.action), (true, None));
    assert_eq!(s.writes.len(), 1);
    assert_eq!(s.writes[0].token, "env");
    assert_eq!(c.auth_token(), Some(&"env".to_string()));
    assert!(check.phase() == StartupPhase::Done);
}

#[test]
fn env_token_accepted_with_refresh() {
    let mut c = cache();
    let (mut check, _) = StartupCheck::new("https://e");
    check.step(&mut c, StartupEvent::EnvToken(Some("env".to_string())));
    let s = check.step(&mut c, reply(204, Some("fresh")));
    assert_eq!(finish_of(&s.action), (true, None));
    let tokens: Vec<String> = s.writes.iter().map(|w| w.token.clone()).collect();
    assert_eq!(tokens, vec!["fresh".to_string(), "env".to_string()]);
    assert_eq!(c.auth_token(), Some(&"env".to_string()));
}

#[test]
fn env_token_refused_then_cached_accepted() {
    let mut c = cache();
    let (mut check, _) = StartupCheck::new("https://e");
    check.step(&mut c, StartupEvent::EnvToken(Some("env".to_string())));
    let s = check.step(&mut c, reply(401, None));
    assert!(matches!(s.action, StartupAction::LoadCachedToken));
    let s = check.step(&mut c, StartupEvent::CachedToken(Some("cached".to_string())));
    assert_eq!(probe_of(&s.action).1, "Bearer cached");
    let s = check.step(&mut c, reply(200, None));
    assert_eq!(finish_of(&s.action), (true, None));
    assert!(s.writes.is_empty());
    assert_eq!(c.auth_token(), Some(&"cached".to_string()));
}

#[test]
fn refused_probe_still_takes_refresh() {
    let mut c = cache();
    let (mut check, _) = StartupCheck::new("https://e");
    check.step(&mut c, StartupEvent::EnvToken(None));
    check.step(&mut c, StartupEvent::CachedToken(Some("cached".to_string())));
    let s = check.step(&mut c, reply(403, Some("fresh")));
    assert!(matches!(s.action, StartupAction::CheckPresence));
    assert_eq!(s.writes.len(), 1);
    assert_eq!(s.writes[0].token, "fresh");
    assert_eq!(c.auth_token(), Some(&"fresh".to_string()));
}

#[test]
fn no_token_anywhere() {
    let mut c = cache();
    let (mut check, _) = StartupCheck::new("https://e");
    let s = check.step(&mut c, StartupEvent::EnvToken(None));
    assert!(matches!(s.action, StartupAction::LoadCachedToken));
    let s = check.step(&mut c, StartupEvent::CachedToken(None));
    assert!(matches!(s.action, StartupAction::CheckPresence));
    let s = check.step(&mut c, StartupEvent::Presence { has_env_token: false, has_cached_token: false });
    assert_eq!(finish_of(&s.action), (false, Some(StartupWarning::TokenNotFound)));
    assert_eq!(c.auth_token(), None);
    assert!(c.is_valid());
}

#[test]
fn all_tokens_invalid() {
    let mut c = cache();
    let (mut check, _) = StartupCheck::new("https://e");
    check.step(&mut c, StartupEvent::EnvToken(Some("env".to_string())));
    check.step(&mut c, StartupEvent::ProfileReply(None));
    check.step(&mut c, StartupEvent::CachedToken(Some("cached".to_string())));
    let s = check.step(&mut c, StartupEvent::ProfileReply(None));
    assert!(matches!(s.action, StartupAction::CheckPresence));
    let s = check.step(&mut c, StartupEvent::Presence { has_env_token: true, has_cached_token: true });
    assert_eq!(finish_of(&s.action), (false, Some(StartupWarning::AllTokensInvalid)));
}

#[test]
fn events_out_of_turn_are_not_expected() {
    let (check, _) = StartupCheck::new("https://e");
    assert!(check.expects(&StartupEvent::EnvToken(None)));
    assert!(!check.expects(&StartupEvent::CachedToken(None)));
    assert!(!check.expects(&StartupEvent::ProfileReply(None)));
}
