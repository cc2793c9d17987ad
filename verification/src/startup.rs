//! The startup check of the upstream token: try the token from the
//! environment, then the cached one, and settle whether the service is
//! usable. The check is a state machine; the caller performs each action it
//! asks for and feeds the outcome back as an event.

use vstd::prelude::*;
use crate::headers::{Header, header_views, is_success};
use crate::proxy::{ProbeRequest, apply_refreshed_token, bearer_value, header_text};
use crate::state::{CacheWrite, TokenCache, TokenCacheView, with_token};
use crate::text::concat;

verus! {

/// Where the startup check stands.
#[derive(Clone, Copy, Debug, PartialEq, Eq, Structural)]
pub enum StartupPhase {
    /// Waiting for the `AUTH_TOKEN` variable.
    ReadingEnv,
    /// Waiting for the profile reply to the environment token.
    ProbingEnv,
    /// Waiting for the token cached for the endpoint.
    LoadingCache,
    /// Waiting for the profile reply to the cached token.
    ProbingCache,
    /// Waiting to learn which tokens exist at all.
    CheckingPresence,
    /// Finished.
    Done,
}

/// The order of the phases; every step moves to a later one.
pub open spec fn phase_rank(p: StartupPhase) -> int {
    match p {
        StartupPhase::ReadingEnv => 0,
        StartupPhase::ProbingEnv => 1,
        StartupPhase::LoadingCache => 2,
        StartupPhase::ProbingCache => 3,
        StartupPhase::CheckingPresence => 4,
        StartupPhase::Done => 5,
    }
}

/// An upstream reply to a profile request: its status and headers.
pub struct ProbeReply {
    pub status: u16,
    pub headers: Vec<Header>,
}

/// What the caller reports back.
pub enum StartupEvent {
    /// The value of `AUTH_TOKEN`, if it is set.
    EnvToken(Option<String>),
    /// The token cached for the endpoint, if any.
    CachedToken(Option<String>),
    /// The reply to the last probe, or `None` when the request failed.
    ProfileReply(Option<ProbeReply>),
    /// Whether `AUTH_TOKEN` is set and whether a token is cached, read anew.
    Presence { has_env_token: bool, has_cached_token: bool },
}

/// Why no token could be used.
#[derive(Clone, Copy, Debug, PartialEq, Eq, Structural)]
pub enum StartupWarning {
    /// Neither the environment nor the cache has a token.
    TokenNotFound,
    /// Every token there is was refused.
    AllTokensInvalid,
}

/// What the caller does next.
pub enum StartupAction {
    /// Read `AUTH_TOKEN` and report `EnvToken`.
    ReadEnvToken,
    /// Load the cached token and report `CachedToken`.
    LoadCachedToken,
    /// Send the probe and report `ProfileReply`.
    Probe(ProbeRequest),
    /// Read both sources again and report `Presence`.
    CheckPresence,
    /// The check is over: whether a usable token was found, and the warning
    /// when none was.
    Finish { valid: bool, warning: Option<StartupWarning> },
}

/// The outcome of one step: the cache writes to perform first, in order,
/// then the next action.
pub struct StartupStep {
    pub writes: Vec<CacheWrite>,
    pub action: StartupAction,
}

/// The state of a startup check.
pub struct StartupCheck {
    phase: StartupPhase,
    profile_url: String,
    candidate: Option<String>,
}

/// What a startup check holds: its phase, the profile URL and the token
/// under probe.
pub struct StartupCheckView {
    pub phase: StartupPhase,
    pub profile_url: Seq<char>,
    pub candidate: Option<Seq<char>>,
}

impl View for StartupCheck {
    type V = StartupCheckView;

    closed spec fn view(&self) -> StartupCheckView {
        StartupCheckView {
            phase: self.phase,
            profile_url: self.profile_url@,
            candidate: match self.candidate {
                Some(t) => Some(t@),
                None => None,
            },
        }
    }
}

/// Whether `event` is the outcome the check waits for in `phase`.
pub open spec fn expected_event(phase: StartupPhase, event: StartupEvent) -> bool {
    match phase {
        StartupPhase::ReadingEnv => event is EnvToken,
        StartupPhase::ProbingEnv => event is ProfileReply,
        StartupPhase::LoadingCache => event is CachedToken,
        StartupPhase::ProbingCache => event is ProfileReply,
        StartupPhase::CheckingPresence => event is Presence,
        StartupPhase::Done => false,
    }
}

/// `a` asks to probe `url` with `Authorization: Bearer <token>`.
pub open spec fn probes(a: StartupAction, url: Seq<char>, token: Seq<char>) -> bool {
    a matches StartupAction::Probe(p) && p.url@ == url && p.authorization@ == "Bearer "@ + token
}

/// The writes are exactly the refresh that `reply` carries, if any, for
/// cache `c`, followed by `then` when given.
pub open spec fn writes_are(writes: Seq<CacheWrite>, c: TokenCacheView, refreshed: Option<Seq<char>>, then: Option<Seq<char>>) -> bool {
    let expected: Seq<Seq<char>> = match (refreshed, then) {
        (Some(a), Some(b)) => seq![a, b],
        (Some(a), None) => seq![a],
        (None, Some(b)) => seq![b],
        (None, None) => Seq::empty(),
    };
    &&& writes.len() == expected.len()
    &&& forall|i: int| 0 <= i < writes.len() ==> {
        &&& (#[trigger] writes[i]).token@ == expected[i]
        &&& writes[i].endpoint@ == c.endpoint
        &&& writes[i].cache_dir@ == c.cache_dir
    }
}

/// The warning for the tokens present when every probe failed.
pub open spec fn warning_for(has_env_token: bool, has_cached_token: bool) -> StartupWarning {
    if !has_env_token && !has_cached_token {
        StartupWarning::TokenNotFound
    } else {
        StartupWarning::AllTokensInvalid
    }
}

impl StartupCheck {
    /// While a token is under probe, the check knows which token it is.
    #[verifier::type_invariant]
    spec fn candidate_known(self) -> bool {
        (self.phase == StartupPhase::ProbingEnv || self.phase == StartupPhase::ProbingCache) ==> self.candidate is Some
    }

    /// Starts the check for `endpoint`; the first action reads `AUTH_TOKEN`.
    pub fn new(endpoint: &str) -> (r: (StartupCheck, StartupAction))
        ensures
            r.0@.phase == StartupPhase::ReadingEnv,
            r.0@.profile_url == endpoint@ + "/account/profile"@,
            r.0@.candidate is None,
            r.1 is ReadEnvToken,
    {
        let check = StartupCheck {
            phase: StartupPhase::ReadingEnv,
            profile_url: concat(endpoint, "/account/profile"),
            candidate: None,
        };
        (check, StartupAction::ReadEnvToken)
    }

    /// The phase the check is in.
    pub fn phase(&self) -> (r: StartupPhase)
        ensures
            r == self@.phase,
    {
        self.phase
    }

    /// Whether `event` is the outcome the check waits for.
    pub fn expects(&self, event: &StartupEvent) -> (r: bool)
        ensures
            r == expected_event(self@.phase, *event),
    {
        let kind: u8 = match event {
            StartupEvent::EnvToken(_) => 0,
            StartupEvent::CachedToken(_) => 1,
            StartupEvent::ProfileReply(_) => 2,
            StartupEvent::Presence { .. } => 3,
        };
        match self.phase {
            StartupPhase::ReadingEnv => kind == 0,
            StartupPhase::ProbingEnv => kind == 2,
            StartupPhase::LoadingCache => kind == 1,
            StartupPhase::ProbingCache => kind == 2,
            StartupPhase::CheckingPresence => kind == 3,
            StartupPhase::Done => false,
        }
    }

    fn probe(&self, token: &String) -> (r: StartupAction)
        ensures
            probes(r, self@.profile_url, token@),
    {
        StartupAction::Probe(ProbeRequest { url: self.profile_url.clone(), authorization: bearer_value(token.as_str()) })
    }

    /// Advances the check with the outcome of the last action.
    ///
    /// An environment token that the profile request accepts is stored
    /// (and persisted); a cached one that it accepts is set in memory only.
    /// A `Set-Token` header in any reply is stored and persisted first.
    pub fn step(&mut self, cache: &mut TokenCache, event: StartupEvent) -> (r: StartupStep)
        requires
            expected_event(old(self)@.phase, event),
        ensures
            phase_rank(final(self)@.phase) > phase_rank(old(self)@.phase),
            final(self)@.profile_url == old(self)@.profile_url,
            final(cache)@.valid == old(cache)@.valid,
            final(cache)@.endpoint == old(cache)@.endpoint,
            final(cache)@.cache_dir == old(cache)@.cache_dir,
            event matches StartupEvent::ProfileReply(Some(reply)) ==> (r.action matches StartupAction::Finish { valid, .. }
                ==> (valid && 200 <= reply.status && reply.status < 300)),
            event matches StartupEvent::ProfileReply(Some(reply)) ==> (!(200 <= reply.status && reply.status < 300) ==> (
            if old(self)@.phase == StartupPhase::ProbingEnv {
                r.action is LoadCachedToken
            } else {
                r.action is CheckPresence
            })),
            match event {
                StartupEvent::EnvToken(Some(t)) => {
                    &&& final(self)@.phase == StartupPhase::ProbingEnv
                    &&& final(self)@.candidate == Some(t@)
                    &&& probes(r.action, old(self)@.profile_url, t@)
                    &&& r.writes@.len() == 0
                    &&& final(cache)@ == old(cache)@
                },
                StartupEvent::EnvToken(None) => {
                    &&& final(self)@.phase == StartupPhase::LoadingCache
                    &&& r.action is LoadCachedToken
                    &&& r.writes@.len() == 0
                    &&& final(cache)@ == old(cache)@
                },
                StartupEvent::CachedToken(Some(t)) => {
                    &&& final(self)@.phase == StartupPhase::ProbingCache
                    &&& final(self)@.candidate == Some(t@)
                    &&& probes(r.action, old(self)@.profile_url, t@)
                    &&& r.writes@.len() == 0
                    &&& final(cache)@ == old(cache)@
                },
                StartupEvent::CachedToken(None) => {
                    &&& final(self)@.phase == StartupPhase::CheckingPresence
                    &&& r.action is CheckPresence
                    &&& r.writes@.len() == 0
                    &&& final(cache)@ == old(cache)@
                },
                StartupEvent::ProfileReply(None) => {
                    &&& final(self)@.phase == (if old(self)@.phase == StartupPhase::ProbingEnv {
                        StartupPhase::LoadingCache
                    } else {
                        StartupPhase::CheckingPresence
                    })
                    &&& (if old(self)@.phase == StartupPhase::ProbingEnv {
                        r.action is LoadCachedToken
                    } else {
                        r.action is CheckPresence
                    })
                    &&& r.writes@.len() == 0
                    &&& final(cache)@ == old(cache)@
                },
                StartupEvent::ProfileReply(Some(reply)) => {
                    let refreshed = header_text(header_views(reply.headers@), "set-token"@);
                    let after_refresh = match refreshed {
                        Some(t) => with_token(old(cache)@, t),
                        None => old(cache)@,
                    };
                    let token = old(self)@.candidate.unwrap();
                    if is_success(reply.status) {
                        &&& final(self)@.phase == StartupPhase::Done
                        &&& r.action == (StartupAction::Finish { valid: true, warning: None })
                        &&& final(cache)@ == with_token(after_refresh, token)
                        &&& if old(self)@.phase == StartupPhase::ProbingEnv {
                            writes_are(r.writes@, old(cache)@, refreshed, Some(token))
                        } else {
                            writes_are(r.writes@, old(cache)@, refreshed, None)
                        }
                    } else {
                        &&& final(cache)@ == after_refresh
                        &&& writes_are(r.writes@, old(cache)@, refreshed, None)
                        &&& if old(self)@.phase == StartupPhase::ProbingEnv {
                            final(self)@.phase == StartupPhase::LoadingCache && r.action is LoadCachedToken
                        } else {
                            final(self)@.phase == StartupPhase::CheckingPresence && r.action is CheckPresence
                        }
                    }
                },
                StartupEvent::Presence { has_env_token, has_cached_token } => {
                    &&& final(self)@.phase == StartupPhase::Done
                    &&& r.action == (StartupAction::Finish {
                        valid: false,
                        warning: Some(warning_for(has_env_token, has_cached_token)),
                    })
                    &&& r.writes@.len() == 0
                    &&& final(cache)@ == old(cache)@
                },
            },
    {
        proof {
            use_type_invariant(&*self);
        }
        let from_env = self.phase == StartupPhase::ProbingEnv;
        match event {
            StartupEvent::EnvToken(Some(t)) => {
                let action = self.probe(&t);
                self.candidate = Some(t);
                self.phase = StartupPhase::ProbingEnv;
                StartupStep { writes: Vec::new(), action }
            },
            StartupEvent::EnvToken(None) => {
                self.phase = StartupPhase::LoadingCache;
                StartupStep { writes: Vec::new(), action: StartupAction::LoadCachedToken }
            },
            StartupEvent::CachedToken(Some(t)) => {
                let action = self.probe(&t);
                self.candidate = Some(t);
                self.phase = StartupPhase::ProbingCache;
                StartupStep { writes: Vec::new(), action }
            },
            StartupEvent::CachedToken(None) => {
                self.phase = StartupPhase::CheckingPresence;
                StartupStep { writes: Vec::new(), action: StartupAction::CheckPresence }
            },
            StartupEvent::ProfileReply(None) => {
                self.failed_probe(from_env)
            },
            StartupEvent::ProfileReply(Some(reply)) => {
                let mut writes: Vec<CacheWrite> = Vec::new();
                let refresh = apply_refreshed_token(cache, &reply.headers);
                match refresh {
                    Some(w) => writes.push(w),
                    None => {},
                }
                if reply.status >= 200 && reply.status < 300 {
                    let token = self.candidate.as_ref().unwrap().clone();
                    if from_env {
                        let w = cache.store_auth_token(token);
                        writes.push(w);
                    } else {
                        cache.set_auth_token(token);
                    }
                    self.phase = StartupPhase::Done;
                    StartupStep { writes, action: StartupAction::Finish { valid: true, warning: None } }
                } else {
                    let step = self.failed_probe(from_env);
                    StartupStep { writes, action: step.action }
                }
            },
            StartupEvent::Presence { has_env_token, has_cached_token } => {
                self.phase = StartupPhase::Done;
                let warning = if !has_env_token && !has_cached_token {
                    StartupWarning::TokenNotFound
                } else {
                    StartupWarning::AllTokensInvalid
                };
                StartupStep { writes: Vec::new(), action: StartupAction::Finish { valid: false, warning: Some(warning) } }
            },
        }
    }

    /// Moves on after a probe that did not succeed.
    fn failed_probe(&mut self, from_env: bool) -> (r: StartupStep)
        ensures
            final(self)@.profile_url == old(self)@.profile_url,
            r.writes@.len() == 0,
            from_env ==> final(self)@.phase == StartupPhase::LoadingCache && r.action is LoadCachedToken,
            !from_env ==> final(self)@.phase == StartupPhase::CheckingPresence && r.action is CheckPresence,
    {
        if from_env {
            self.phase = StartupPhase::LoadingCache;
            StartupStep { writes: Vec::new(), action: StartupAction::LoadCachedToken }
        } else {
            self.phase = StartupPhase::CheckingPresence;
            StartupStep { writes: Vec::new(), action: StartupAction::CheckPresence }
        }
    }
}

} // verus!
