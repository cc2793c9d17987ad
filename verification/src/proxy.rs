//! The decisions of the proxy handler and of the keep-alive ping: who is
//! let through, what is sent upstream, and what is answered.

use vstd::prelude::*;
use crate::headers::{
    Header, HeaderView, is_value_byte, contains_header, find_header, forwarded_headers_exclude_host, has_header, header_value,
    header_views, is_valid_header_text, relay_headers, relayable, relayed, relayed_names_come_from_input,
    remove_named, valid_header_value, without_named, without_named_members,
};
use crate::state::{AppState, CacheWrite, TokenCache, TokenCacheView, opt_view, with_token};
use crate::text::{eq_ignore_ascii_case, all_visible_ascii, ascii_chars, concat, has_prefix, strip_prefix, visible_ascii_text};

verus! {

/// A short plain-text answer of the proxy itself.
pub struct PlainResponse {
    pub status: u16,
    pub content_type: String,
    pub body: String,
}

/// A plain-text answer with status `status` and body `body`.
pub open spec fn plain(r: PlainResponse, status: u16, body: Seq<char>) -> bool {
    r.status == status && r.content_type@ == "text/plain"@ && r.body@ == body
}

fn plain_response(status: u16, body: &str) -> (r: PlainResponse)
    ensures
        plain(r, status, body@),
{
    PlainResponse { status, content_type: String::from_str("text/plain"), body: String::from_str(body) }
}

/// 401, "unauthorized".
pub fn unauthorized_response() -> (r: PlainResponse)
    ensures
        plain(r, 401, "unauthorized"@),
{
    plain_response(401, "unauthorized")
}

/// 503, "service unavailable".
pub fn service_unavailable_response() -> (r: PlainResponse)
    ensures
        plain(r, 503, "service unavailable"@),
{
    plain_response(503, "service unavailable")
}

/// 500, "internal server error".
pub fn internal_server_error_response() -> (r: PlainResponse)
    ensures
        plain(r, 500, "internal server error"@),
{
    plain_response(500, "internal server error")
}

/// 502, "bad gateway": the answer when the upstream request fails.
pub fn bad_gateway_response() -> (r: PlainResponse)
    ensures
        plain(r, 502, "bad gateway"@),
{
    plain_response(502, "bad gateway")
}

/// The text of the first header called `name`, when its bytes are visible
/// ASCII.
pub open spec fn header_text(hs: Seq<HeaderView>, name: Seq<char>) -> Option<Seq<char>> {
    match header_value(hs, name) {
        Some(v) => if all_visible_ascii(v) {
            Some(ascii_chars(v))
        } else {
            None
        },
        None => None,
    }
}

/// The text of the first header called `name`, when it is visible ASCII.
pub fn header_text_of(headers: &Vec<Header>, name: &str) -> (r: Option<String>)
    ensures
        opt_view(r) == header_text(header_views(headers@), name@),
{
    match find_header(headers, name) {
        Some(i) => {
            assert(headers@[i as int].value@ == header_views(headers@)[i as int].1);
            visible_ascii_text(headers[i].value.as_slice())
        },
        None => None,
    }
}

/// The text after `Bearer ` in the first header called `name`.
pub open spec fn bearer_in(hs: Seq<HeaderView>, name: Seq<char>) -> Option<Seq<char>> {
    match header_text(hs, name) {
        Some(t) => if has_prefix(t, "Bearer "@) {
            Some(t.subrange(7, t.len() as int))
        } else {
            None
        },
        None => None,
    }
}

/// The key in the `Proxy-Authorization: Bearer <key>` header.
pub open spec fn bearer_token(hs: Seq<HeaderView>) -> Option<Seq<char>> {
    bearer_in(hs, "proxy-authorization"@)
}

/// The key a client presents, and whether it came in `Authorization`: the
/// key of `Proxy-Authorization: Bearer <key>`, or else that of
/// `Authorization: Bearer <key>`.
pub open spec fn client_key(hs: Seq<HeaderView>) -> Option<(Seq<char>, bool)> {
    match bearer_token(hs) {
        Some(k) => Some((k, false)),
        None => match bearer_in(hs, "authorization"@) {
            Some(k) => Some((k, true)),
            None => None,
        },
    }
}

/// The text after `Bearer ` in the first header called `name`.
fn bearer_from(headers: &Vec<Header>, name: &str) -> (r: Option<String>)
    ensures
        opt_view(r) == bearer_in(header_views(headers@), name@),
{
    proof {
        reveal_strlit("Bearer ");
    }
    match header_text_of(headers, name) {
        Some(t) => strip_prefix(t.as_str(), "Bearer "),
        None => None,
    }
}

/// Reads the client key from the `Proxy-Authorization: Bearer <key>` header.
pub fn extract_bearer_token(headers: &Vec<Header>) -> (r: Option<String>)
    ensures
        opt_view(r) == bearer_token(header_views(headers@)),
{
    bearer_from(headers, "proxy-authorization")
}

/// Reads the client key (see `client_key`).
pub fn extract_client_key(headers: &Vec<Header>) -> (r: Option<(String, bool)>)
    ensures
        match client_key(header_views(headers@)) {
            Some((k, from_authorization)) => (r matches Some((t, f)) && t@ == k && f == from_authorization),
            None => r is None,
        },
{
    match extract_bearer_token(headers) {
        Some(k) => Some((k, false)),
        None => match bearer_from(headers, "authorization") {
            Some(k) => Some((k, true)),
            None => None,
        },
    }
}

/// The path and query sent upstream for a request whose captured path is
/// `path` (none for the base route itself) and whose query is `query`.
pub open spec fn path_and_query_of(path: Option<Seq<char>>, query: Option<Seq<char>>) -> Seq<char> {
    let p = match path {
        Some(p) => seq!['/'] + p,
        None => seq!['/'],
    };
    match query {
        Some(q) => p + seq!['?'] + q,
        None => p,
    }
}

/// The upstream path is `/` followed by the captured path, and a query,
/// when there is one, follows it after `?`.
pub proof fn path_and_query_law(path: Option<Seq<char>>, query: Option<Seq<char>>)
    ensures
        path_and_query_of(None, None) == seq!['/'],
        path matches Some(p) ==> path_and_query_of(path, None) == seq!['/'] + p,
        query matches Some(q) ==> path_and_query_of(path, query) == path_and_query_of(path, None) + seq!['?'] + q,
        query is None ==> path_and_query_of(path, query) == path_and_query_of(path, None),
{
}

/// Rebuilds the upstream path and query of a request.
pub fn path_and_query(path: Option<&str>, query: Option<&str>) -> (r: String)
    ensures
        r@ == path_and_query_of(
            match path { Some(p) => Some(p@), None => None },
            match query { Some(q) => Some(q@), None => None },
        ),
{
    proof {
        reveal_strlit("/");
        reveal_strlit("?");
    }
    let p = match path {
        Some(p) => concat("/", p),
        None => String::from_str("/"),
    };
    match query {
        Some(q) => {
            let with_mark = concat(p.as_str(), "?");
            concat(with_mark.as_str(), q)
        },
        None => p,
    }
}

/// The value of an `Authorization` header carrying `token`.
pub fn bearer_value(token: &str) -> (r: String)
    ensures
        r@ == "Bearer "@ + token@,
{
    concat("Bearer ", token)
}

/// What a request becomes once the client is let in: the upstream URL, the
/// headers to send, and whether the client sent its own `Authorization`.
pub struct ForwardPlan {
    pub url: String,
    pub headers: Vec<Header>,
    pub has_authorization: bool,
}

/// A request ready to be sent upstream.
pub struct UpstreamRequest {
    pub url: String,
    pub headers: Vec<Header>,
}

/// The headers sent upstream for a client whose key came in
/// `Authorization` (`from_authorization`) or not: `Host` is never sent,
/// and neither is an `Authorization` that carried the client key.
pub open spec fn forwarded(hs: Seq<HeaderView>, from_authorization: bool) -> Seq<HeaderView> {
    if from_authorization {
        relayed(without_named(hs, "authorization"@), true)
    } else {
        relayed(hs, true)
    }
}

/// Checks the client key and prepares the upstream request: refused with
/// 401 exactly when the client presents no key or a key that is not
/// accepted. The plan keeps the client's own `Authorization` only when the
/// key came in `Proxy-Authorization`.
pub fn plan_request(state: &AppState, path_and_query: &str, headers: &Vec<Header>) -> (r: Result<ForwardPlan, PlainResponse>)
    ensures
        r is Err <==> (match client_key(header_views(headers@)) {
            Some((k, _)) => !state@.keys.contains(k),
            None => true,
        }),
        r matches Err(e) ==> plain(e, 401, "unauthorized"@),
        r matches Ok(p) ==> {
            let from_authorization = client_key(header_views(headers@)).unwrap().1;
            &&& p.url@ == state@.endpoint + path_and_query@
            &&& header_views(p.headers@) == forwarded(header_views(headers@), from_authorization)
            &&& p.has_authorization == (!from_authorization && has_header(header_views(headers@), "authorization"@))
        },
{
    let (token, from_authorization) = match extract_client_key(headers) {
        Some(k) => k,
        None => return Err(unauthorized_response()),
    };
    if !state.is_key_valid(token.as_str()) {
        return Err(unauthorized_response());
    }
    let url = concat(state.endpoint(), path_and_query);
    if from_authorization {
        let others = remove_named(headers, "authorization");
        let forwarded_headers = relay_headers(&others, true);
        Ok(ForwardPlan { url, headers: forwarded_headers, has_authorization: false })
    } else {
        let forwarded_headers = relay_headers(headers, true);
        let has_authorization = contains_header(headers, "authorization");
        Ok(ForwardPlan { url, headers: forwarded_headers, has_authorization })
    }
}

/// A client key that came in `Authorization` is never sent upstream in an
/// `Authorization` header, and `Host` is never sent upstream.
pub proof fn forwarded_excludes_client_key(hs: Seq<HeaderView>)
    ensures
        !has_header(forwarded(hs, true), "authorization"@),
        !has_header(forwarded(hs, true), "host"@),
        !has_header(forwarded(hs, false), "host"@),
{
    let rest = without_named(hs, "authorization"@);
    without_named_members(hs, "authorization"@);
    relayed_names_come_from_input(rest, true);
    forwarded_headers_exclude_host(rest);
    forwarded_headers_exclude_host(hs);
    let r = relayed(rest, true);
    assert forall|i: int| 0 <= i < r.len() implies !eq_ignore_ascii_case(#[trigger] r[i].0, "authorization"@) by {
        let j = choose|j: int| 0 <= j < rest.len() && (#[trigger] rest[j]).0 == r[i].0 && relayable(rest[j])
            && !(true && eq_ignore_ascii_case(rest[j].0, "host"@));
        assert(!eq_ignore_ascii_case(rest[j].0, "authorization"@));
    }
}

/// The request of a plan whose client brought its own `Authorization`.
pub fn into_request(plan: ForwardPlan) -> (r: UpstreamRequest)
    ensures
        r.url@ == plan.url@,
        header_views(r.headers@) == header_views(plan.headers@),
{
    UpstreamRequest { url: plan.url, headers: plan.headers }
}

/// The `Authorization` value that the cache allows to add upstream, or the
/// status refusing the request: 503 when the service is marked invalid or
/// no token is known, 500 when `Bearer <token>` cannot be a header value.
pub open spec fn upstream_authorization(c: TokenCacheView) -> Result<Seq<u8>, u16> {
    if !c.valid {
        Err(503)
    } else {
        match c.auth_token {
            None => Err(503),
            Some(t) => {
                let v = vstd::utf8::encode_utf8("Bearer "@ + t);
                if valid_header_value(v) {
                    Ok(v)
                } else {
                    Err(500)
                }
            },
        }
    }
}

/// A printable ASCII character.
pub open spec fn is_printable_ascii(c: char) -> bool {
    ' ' <= c && c <= '~'
}

/// A valid service with a token of printable ASCII characters, of any
/// length, is always authorised with `Bearer <token>`; the refusal 500 only
/// ever comes from a control byte in `Bearer <token>`, and a refusal of 503
/// only from an invalid service or a missing token.
pub proof fn upstream_authorization_law(c: TokenCacheView)
    ensures
        (c.valid && c.auth_token is Some && (forall|i: int|
            0 <= i < c.auth_token.unwrap().len() ==> is_printable_ascii(#[trigger] c.auth_token.unwrap()[i])))
            ==> upstream_authorization(c) == Ok::<Seq<u8>, u16>(vstd::utf8::encode_utf8("Bearer "@ + c.auth_token.unwrap())),
        upstream_authorization(c) == Err::<Seq<u8>, u16>(500) ==> (c.valid && c.auth_token is Some && exists|i: int|
            0 <= i < vstd::utf8::encode_utf8("Bearer "@ + c.auth_token.unwrap()).len() && !is_value_byte(
                #[trigger] vstd::utf8::encode_utf8("Bearer "@ + c.auth_token.unwrap())[i],
            )),
        upstream_authorization(c) == Err::<Seq<u8>, u16>(503) ==> (!c.valid || c.auth_token is None),
{
    if c.valid && c.auth_token is Some {
        let t = c.auth_token.unwrap();
        let v = "Bearer "@ + t;
        let b = vstd::utf8::encode_utf8(v);
        if forall|i: int| 0 <= i < t.len() ==> is_printable_ascii(#[trigger] t[i]) {
            reveal_strlit("Bearer ");
            assert forall|i: int| 0 <= i < v.len() implies ' ' <= #[trigger] v[i] && v[i] <= '~' by {
                if i >= 7 {
                    assert(v[i] == t[i - 7]);
                }
            }
            assert(vstd::utf8::is_ascii_chars(v));
            vstd::utf8::is_ascii_chars_encode_utf8(v);
            assert forall|i: int| 0 <= i < b.len() implies is_value_byte(#[trigger] b[i]) by {
                assert(v[i] as u8 == b[i]);
                assert(' ' <= v[i] && v[i] <= '~');
            }
        }
    }
}

/// The body of the proxy's own error answers.
pub open spec fn error_body(status: u16) -> Seq<char> {
    if status == 401 {
        "unauthorized"@
    } else if status == 503 {
        "service unavailable"@
    } else if status == 500 {
        "internal server error"@
    } else {
        "bad gateway"@
    }
}

/// Adds the upstream token to a plan whose client sent no `Authorization`
/// (see `upstream_authorization`): the plan's headers with
/// `authorization: Bearer <token>` appended, or the refusal.
pub fn authorize_upstream(plan: ForwardPlan, cache: &TokenCache) -> (r: Result<UpstreamRequest, PlainResponse>)
    ensures
        match upstream_authorization(cache@) {
            Ok(v) => {
                &&& r is Ok
                &&& r->Ok_0.url@ == plan.url@
                &&& header_views(r->Ok_0.headers@) == header_views(plan.headers@).push(("authorization"@, v))
            },
            Err(code) => r is Err && plain(r->Err_0, code, error_body(code)),
        },
{
    if !cache.is_valid() {
        return Err(service_unavailable_response());
    }
    let token = match cache.auth_token() {
        Some(t) => t,
        None => return Err(service_unavailable_response()),
    };
    let value = bearer_value(token.as_str());
    if !is_valid_header_text(value.as_str()) {
        return Err(internal_server_error_response());
    }
    let mut headers = plan.headers;
    let ghost before = header_views(headers@);
    let auth = Header { name: String::from_str("authorization"), value: value.as_str().as_bytes_vec() };
    headers.push(auth);
    assert(header_views(headers@) =~= before.push(("authorization"@, vstd::utf8::encode_utf8(value@))));
    Ok(UpstreamRequest { url: plan.url, headers })
}

/// The refreshed token an upstream reply carries in `Set-Token`, if any.
pub fn refreshed_token(headers: &Vec<Header>) -> (r: Option<String>)
    ensures
        opt_view(r) == header_text(header_views(headers@), "set-token"@),
{
    header_text_of(headers, "set-token")
}

/// Takes over the token an upstream reply refreshes: stores it and returns
/// the cache write, or leaves the cache as it is when there is none.
pub fn apply_refreshed_token(cache: &mut TokenCache, headers: &Vec<Header>) -> (w: Option<CacheWrite>)
    ensures
        match header_text(header_views(headers@), "set-token"@) {
            Some(t) => {
                &&& final(cache)@ == with_token(old(cache)@, t)
                &&& w is Some
                &&& w->0.token@ == t
                &&& w->0.endpoint@ == old(cache)@.endpoint
                &&& w->0.cache_dir@ == old(cache)@.cache_dir
            },
            None => final(cache)@ == old(cache)@ && w is None,
        },
{
    match refreshed_token(headers) {
        Some(t) => Some(cache.store_auth_token(t)),
        None => None,
    }
}

/// The headers of the proxy's reply: those of the upstream reply, one per
/// name, relayable ones only.
pub fn response_headers(headers: &Vec<Header>) -> (r: Vec<Header>)
    ensures
        header_views(r@) == relayed(header_views(headers@), false),
{
    relay_headers(headers, false)
}

/// A request with an `Authorization` header, to a URL of the upstream.
pub struct ProbeRequest {
    pub url: String,
    pub authorization: String,
}

/// The keep-alive ping: `GET <endpoint>/ping` with the current token, or
/// nothing when no token is known.
pub fn ping_request(endpoint: &str, cache: &TokenCache) -> (r: Option<ProbeRequest>)
    ensures
        r is Some <==> cache@.auth_token is Some,
        r matches Some(p) ==> p.url@ == endpoint@ + "/ping"@
            && p.authorization@ == "Bearer "@ + cache@.auth_token.unwrap(),
{
    match cache.auth_token() {
        Some(t) => Some(ProbeRequest { url: concat(endpoint, "/ping"), authorization: bearer_value(t.as_str()) }),
        None => None,
    }
}

} // verus!
