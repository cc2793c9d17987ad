//! The proxy's configuration (`AppState`) and its mutable upstream token
//! state (`TokenCache`).

use vstd::prelude::*;
use crate::cli::Args;

verus! {

/// The strings of a list of owned strings.
pub open spec fn string_views(v: Seq<String>) -> Seq<Seq<char>> {
    v.map_values(|s: String| s@)
}

/// Copies a list of strings.
pub fn clone_strings(v: &Vec<String>) -> (r: Vec<String>)
    ensures
        string_views(r@) == string_views(v@),
{
    let mut r: Vec<String> = Vec::new();
    let n = v.len();
    let mut i: usize = 0;
    while i < n
        invariant
            n == v@.len(),
            i <= n,
            r@.len() == i,
            forall|j: int| 0 <= j < i ==> #[trigger] r@[j]@ == v@[j]@,
        decreases n - i,
    {
        let s = v[i].clone();
        r.push(s);
        i = i + 1;
    }
    assert(string_views(r@) =~= string_views(v@));
    r
}

/// Immutable application state: the upstream endpoint, the accepted
/// client keys and the cache directory.
pub struct AppState {
    endpoint: String,
    keys: Vec<String>,
    cache_dir: String,
}

/// What an `AppState` holds.
pub struct AppStateView {
    pub endpoint: Seq<char>,
    pub keys: Set<Seq<char>>,
    pub cache_dir: Seq<char>,
}

impl View for AppState {
    type V = AppStateView;

    closed spec fn view(&self) -> AppStateView {
        AppStateView {
            endpoint: self.endpoint@,
            keys: string_views(self.keys@).to_set(),
            cache_dir: self.cache_dir@,
        }
    }
}

impl AppState {
    /// Builds the state from the settings: every configured key is accepted.
    pub fn new(args: &Args) -> (r: AppState)
        ensures
            r@.endpoint == args.endpoint@,
            r@.keys == string_views(args.key@).to_set(),
            r@.cache_dir == args.cache_dir@,
    {
        AppState {
            endpoint: args.endpoint.clone(),
            keys: clone_strings(&args.key),
            cache_dir: args.cache_dir.clone(),
        }
    }

    /// The upstream endpoint.
    pub fn endpoint(&self) -> (r: &str)
        ensures
            r@ == self@.endpoint,
    {
        self.endpoint.as_str()
    }

    /// The directory of the token cache file.
    pub fn cache_dir(&self) -> (r: &str)
        ensures
            r@ == self@.cache_dir,
    {
        self.cache_dir.as_str()
    }

    /// Whether `key` is one of the accepted client keys.
    pub fn is_key_valid(&self, key: &str) -> (r: bool)
        ensures
            r == self@.keys.contains(key@),
    {
        let k = String::from_str(key);
        let n = self.keys.len();
        let ghost views = string_views(self.keys@);
        let mut i: usize = 0;
        while i < n
            invariant
                n == self.keys@.len(),
                views == string_views(self.keys@),
                k@ == key@,
                i <= n,
                forall|j: int| 0 <= j < i ==> views[j] != key@,
            decreases n - i,
        {
            if self.keys[i] == k {
                assert(views[i as int] == key@);
                assert(views.contains(key@));
                return true;
            }
            i = i + 1;
        }
        assert(!views.contains(key@));
        false
    }
}

/// A token that was set and must now be written to the cache file of
/// `cache_dir`, under `endpoint`.
pub struct CacheWrite {
    pub cache_dir: String,
    pub endpoint: String,
    pub token: String,
}

/// Mutable token state shared by the request handlers: the current
/// upstream token and whether the upstream service is usable.
pub struct TokenCache {
    endpoint: String,
    cache_dir: String,
    auth_token: Option<String>,
    valid: bool,
}

/// What a `TokenCache` holds.
pub struct TokenCacheView {
    pub endpoint: Seq<char>,
    pub cache_dir: Seq<char>,
    pub auth_token: Option<Seq<char>>,
    pub valid: bool,
}

/// The view of an optional string.
pub open spec fn opt_view(o: Option<String>) -> Option<Seq<char>> {
    match o {
        Some(s) => Some(s@),
        None => None,
    }
}

impl View for TokenCache {
    type V = TokenCacheView;

    closed spec fn view(&self) -> TokenCacheView {
        TokenCacheView {
            endpoint: self.endpoint@,
            cache_dir: self.cache_dir@,
            auth_token: opt_view(self.auth_token),
            valid: self.valid,
        }
    }
}

/// `c` with its token replaced by `token`.
pub open spec fn with_token(c: TokenCacheView, token: Seq<char>) -> TokenCacheView {
    TokenCacheView { auth_token: Some(token), ..c }
}

/// `c` with its validity flag replaced by `valid`.
pub open spec fn with_valid(c: TokenCacheView, valid: bool) -> TokenCacheView {
    TokenCacheView { valid, ..c }
}

impl TokenCache {
    /// A cache for `endpoint` with no token yet, marked valid.
    pub fn new(endpoint: String, cache_dir: String) -> (r: TokenCache)
        ensures
            r@.endpoint == endpoint@,
            r@.cache_dir == cache_dir@,
            r@.auth_token is None,
            r@.valid,
    {
        TokenCache { endpoint, cache_dir, auth_token: None, valid: true }
    }

    /// The current upstream token, if any.
    pub fn auth_token(&self) -> (r: Option<&String>)
        ensures
            r is Some <==> self@.auth_token is Some,
            r matches Some(t) ==> Some(t@) == self@.auth_token,
    {
        self.auth_token.as_ref()
    }

    /// Replaces the token in memory only.
    pub fn set_auth_token(&mut self, token: String)
        ensures
            final(self)@ == with_token(old(self)@, token@),
    {
        self.auth_token = Some(token);
    }

    /// Replaces the token and returns the write that persists it to the
    /// cache file.
    pub fn store_auth_token(&mut self, token: String) -> (w: CacheWrite)
        ensures
            final(self)@ == with_token(old(self)@, token@),
            w.token@ == token@,
            w.endpoint@ == old(self)@.endpoint,
            w.cache_dir@ == old(self)@.cache_dir,
    {
        let w = CacheWrite {
            cache_dir: self.cache_dir.clone(),
            endpoint: self.endpoint.clone(),
            token: token.clone(),
        };
        self.auth_token = Some(token);
        w
    }

    /// Whether the upstream service is considered usable.
    pub fn is_valid(&self) -> (r: bool)
        ensures
            r == self@.valid,
    {
        self.valid
    }

    /// Sets the validity flag.
    pub fn set_valid(&mut self, valid: bool)
        ensures
            final(self)@ == with_valid(old(self)@, valid),
    {
        self.valid = valid;
    }
}

/// A token read back after it was set is the token that was set, whatever
/// the validity flag is set to in between.
pub proof fn token_reads_back(c: TokenCacheView, token: Seq<char>, valid: bool)
    ensures
        with_token(c, token).auth_token == Some(token),
        with_valid(with_token(c, token), valid).auth_token == Some(token),
{
}

/// Setting the token leaves the validity flag, the endpoint and the cache
/// directory as they were; setting the flag leaves the token as it was.
pub proof fn token_and_flag_independent(c: TokenCacheView, token: Seq<char>, valid: bool)
    ensures
        with_token(c, token).valid == c.valid,
        with_token(c, token).endpoint == c.endpoint,
        with_token(c, token).cache_dir == c.cache_dir,
        with_valid(c, valid).auth_token == c.auth_token,
        with_valid(c, valid).valid == valid,
{
}

} // verus!
