//! Command-line settings and what follows from them: the normalised base
//! path and the routes that the proxy answers on.

use vstd::prelude::*;
use crate::keygen::{generate_random_key, is_key_char};
use crate::text::{concat, ends_with_char, starts_with_char};

verus! {

/// The settings the proxy is started with.
pub struct Args {
    /// The endpoint to proxy requests to.
    pub endpoint: String,
    /// Authorization keys that clients may present.
    pub key: Vec<String>,
    /// Ping interval in seconds.
    pub ping_interval: u64,
    /// Host to listen on.
    pub host: String,
    /// Port to listen on.
    pub port: u16,
    /// Base path for the proxy, as `parse_base_path` leaves it.
    pub base: String,
    /// Directory of the token cache file.
    pub cache_dir: String,
}

/// The base path a user setting stands for: empty means the root, and a
/// missing leading slash is added.
pub open spec fn base_path(s: Seq<char>) -> Seq<char> {
    if s.len() == 0 {
        seq!['/']
    } else if s[0] != '/' {
        seq!['/'] + s
    } else {
        s
    }
}

/// Normalises the `--base` option; it never fails.
pub fn parse_base_path(s: &str) -> (r: Result<String, String>)
    ensures
        r is Ok,
        r matches Ok(p) ==> p@ == base_path(s@),
{
    proof {
        reveal_strlit("/");
    }
    if s.unicode_len() == 0 {
        Ok(String::from_str("/"))
    } else if !starts_with_char(s, '/') {
        Ok(concat("/", s))
    } else {
        Ok(String::from_str(s))
    }
}

/// A normalised base path begins with a slash.
pub proof fn base_path_is_rooted(s: Seq<char>)
    ensures
        base_path(s).len() > 0,
        base_path(s)[0] == '/',
{
}

/// Normalising a base path twice gives what normalising it once gives.
pub proof fn base_path_idempotent(s: Seq<char>)
    ensures
        base_path(base_path(s)) == base_path(s),
{
}

/// The base path without one trailing slash, if it has one.
pub open spec fn trimmed_base(base: Seq<char>) -> Seq<char> {
    if base.len() > 0 && base.last() == '/' {
        base.drop_last()
    } else {
        base
    }
}

/// The routes the proxy serves for a base path.
pub struct ProxyRoutes {
    /// The catch-all route: the trimmed base, `/` and a `*path` capture.
    pub wildcard: String,
    /// The trimmed base followed by `/`.
    pub with_slash: String,
    /// The trimmed base itself, served when it is not empty and does not
    /// end with `/`.
    pub exact: Option<String>,
}

/// Computes the routes for `base`: `/` gives `/` and `/*path`; `/api` gives
/// `/api`, `/api/` and `/api/*path`; `/api//` gives `/api//` and `/api//*path`.
pub fn proxy_routes(base: &str) -> (r: ProxyRoutes)
    ensures
        r.wildcard@ == trimmed_base(base@) + "/*path"@,
        r.with_slash@ == trimmed_base(base@) + seq!['/'],
        r.exact is Some <==> (trimmed_base(base@).len() > 0 && trimmed_base(base@).last() != '/'),
        r.exact matches Some(e) ==> e@ == trimmed_base(base@),
{
    proof {
        reveal_strlit("/");
    }
    let n = base.unicode_len();
    let trimmed: &str = if ends_with_char(base, '/') {
        base.substring_char(0, n - 1)
    } else {
        base
    };
    assert(trimmed@ == trimmed_base(base@));
    let with_slash = concat(trimmed, "/");
    let wildcard = concat(trimmed, "/*path");
    let exact = if !ends_with_char(trimmed, '/') && trimmed.unicode_len() > 0 {
        Some(String::from_str(trimmed))
    } else {
        None
    };
    ProxyRoutes { wildcard, with_slash, exact }
}

/// The word for a number of keys in the startup message.
pub fn key_noun(count: usize) -> (r: &'static str)
    ensures
        r@ == (if count == 1 { "key"@ } else { "keys"@ }),
{
    if count == 1 {
        "key"
    } else {
        "keys"
    }
}


/// Length of the key generated when none is configured.
pub const FALLBACK_KEY_LEN: usize = 32;

/// When no client key is configured, generates a random one of
/// `FALLBACK_KEY_LEN` alphanumeric characters, adds it and returns it;
/// otherwise leaves the keys as they are.
pub fn add_fallback_key(keys: &mut Vec<String>) -> (r: Option<String>)
    ensures
        old(keys)@.len() == 0 ==> {
            &&& r is Some
            &&& final(keys)@.len() == 1
            &&& final(keys)@[0]@ == r->0@
            &&& r->0@.len() == FALLBACK_KEY_LEN
            &&& forall|i: int| 0 <= i < r->0@.len() ==> is_key_char(#[trigger] r->0@[i])
        },
        old(keys)@.len() > 0 ==> r is None && final(keys)@ == old(keys)@,
{
    if keys.len() == 0 {
        let key = generate_random_key(FALLBACK_KEY_LEN);
        keys.push(key.clone());
        Some(key)
    } else {
        None
    }
}

} // verus!
