//! HTTP headers as plain values, and the rules by which the proxy reads
//! and relays them.

use vstd::prelude::*;
use reqwest::header::{HeaderName, HeaderValue};
use reqwest::StatusCode;
use crate::text::{ascii_fold, eq_ignore_ascii_case, equals_ignore_ascii_case};

verus! {

/// One header line: its name and the raw bytes of its value.
pub struct Header {
    pub name: String,
    pub value: Vec<u8>,
}

/// A header as text and bytes.
pub type HeaderView = (Seq<char>, Seq<u8>);

/// The view of a header.
pub open spec fn header_view(h: Header) -> HeaderView {
    (h.name@, h.value@)
}

/// The views of a list of headers.
pub open spec fn header_views(hs: Seq<Header>) -> Seq<HeaderView> {
    hs.map_values(|h: Header| header_view(h))
}

/// `i` is the position of the first header called `name` (ASCII case
/// ignored).
pub open spec fn is_first_named(hs: Seq<HeaderView>, name: Seq<char>, i: int) -> bool {
    &&& 0 <= i < hs.len()
    &&& eq_ignore_ascii_case(hs[i].0, name)
    &&& forall|j: int| 0 <= j < i ==> !eq_ignore_ascii_case(#[trigger] hs[j].0, name)
}

/// Some header is called `name`.
pub open spec fn has_header(hs: Seq<HeaderView>, name: Seq<char>) -> bool {
    exists|i: int| 0 <= i < hs.len() && eq_ignore_ascii_case(#[trigger] hs[i].0, name)
}

/// The position of the first header called `name`, if any.
pub open spec fn first_named(hs: Seq<HeaderView>, name: Seq<char>) -> Option<int> {
    if exists|i: int| is_first_named(hs, name, i) {
        Some(choose|i: int| is_first_named(hs, name, i))
    } else {
        None
    }
}

/// The value of the first header called `name`, if any: what a header map
/// lookup by name gives.
pub open spec fn header_value(hs: Seq<HeaderView>, name: Seq<char>) -> Option<Seq<u8>> {
    match first_named(hs, name) {
        Some(i) => Some(hs[i].1),
        None => None,
    }
}

/// The first position named `name` is unique.
proof fn first_named_unique(hs: Seq<HeaderView>, name: Seq<char>, i: int)
    requires
        is_first_named(hs, name, i),
    ensures
        first_named(hs, name) == Some(i),
{
    let k = choose|k: int| is_first_named(hs, name, k);
    assert(is_first_named(hs, name, k));
    if k < i {
        assert(!eq_ignore_ascii_case(hs[k].0, name));
    } else if i < k {
        assert(!eq_ignore_ascii_case(hs[i].0, name));
    }
}

/// The position of the first header called `name` (ASCII case ignored).
pub fn find_header(headers: &Vec<Header>, name: &str) -> (r: Option<usize>)
    ensures
        match r {
            Some(i) => first_named(header_views(headers@), name@) == Some(i as int),
            None => first_named(header_views(headers@), name@) is None
                && !has_header(header_views(headers@), name@),
        },
{
    let ghost hs = header_views(headers@);
    let n = headers.len();
    let mut i: usize = 0;
    while i < n
        invariant
            n == headers@.len(),
            hs == header_views(headers@),
            i <= n,
            forall|j: int| 0 <= j < i ==> !eq_ignore_ascii_case(#[trigger] hs[j].0, name@),
        decreases n - i,
    {
        if equals_ignore_ascii_case(headers[i].name.as_str(), name) {
            assert(hs[i as int].0 == headers@[i as int].name@);
            proof {
                first_named_unique(hs, name@, i as int);
            }
            return Some(i);
        }
        assert(hs[i as int].0 == headers@[i as int].name@);
        i = i + 1;
    }
    assert(!exists|k: int| is_first_named(hs, name@, k));
    None
}

/// Whether some header is called `name` (ASCII case ignored).
pub fn contains_header(headers: &Vec<Header>, name: &str) -> (r: bool)
    ensures
        r == has_header(header_views(headers@), name@),
{
    match find_header(headers, name) {
        Some(i) => {
            assert(is_first_named(header_views(headers@), name@, i as int));
            true
        },
        None => false,
    }
}

/// A byte that a header value may hold: anything but a control byte, and
/// the tab.
pub open spec fn is_value_byte(b: u8) -> bool {
    (32 <= b && b != 127) || b == 9
}

/// Every byte may stand in a header value.
pub open spec fn valid_header_value(bytes: Seq<u8>) -> bool {
    forall|i: int| 0 <= i < bytes.len() ==> is_value_byte(#[trigger] bytes[i])
}

/// A byte that may stand in a header name (a token character; upper-case
/// letters are folded to lower case).
pub open spec fn is_name_byte(b: u8) -> bool {
    ||| (48 <= b && b <= 57)
    ||| (65 <= b && b <= 90)
    ||| (97 <= b && b <= 122)
    ||| b == 33 || b == 35 || b == 36 || b == 37 || b == 38 || b == 39
    ||| b == 42 || b == 43 || b == 45 || b == 46
    ||| b == 94 || b == 95 || b == 96 || b == 124 || b == 126
}

/// The bytes form a header name: between one and 65535 name bytes.
pub open spec fn valid_header_name(bytes: Seq<u8>) -> bool {
    &&& 1 <= bytes.len() <= 65535
    &&& forall|i: int| 0 <= i < bytes.len() ==> is_name_byte(#[trigger] bytes[i])
}

/// `reqwest::header::HeaderValue::from_bytes`: the contract claims that it
/// accepts exactly the byte strings with no control byte other than tab.
#[verifier::external_body]
fn header_value_accepts_bytes(bytes: &[u8]) -> (r: bool)
    ensures
        r == valid_header_value(bytes@),
{
    HeaderValue::from_bytes(bytes).is_ok()
}

/// `reqwest::header::HeaderValue::from_str`: the contract claims that it
/// accepts exactly the strings whose UTF-8 bytes hold no control byte other
/// than tab.
#[verifier::external_body]
fn header_value_accepts_str(text: &str) -> (r: bool)
    ensures
        r == valid_header_value(vstd::utf8::encode_utf8(text@)),
{
    HeaderValue::from_str(text).is_ok()
}

/// `reqwest::header::HeaderName::from_bytes` on the UTF-8 bytes of `name`:
/// the contract claims that it accepts exactly one to 65535 token bytes.
#[verifier::external_body]
fn header_name_accepts(name: &str) -> (r: bool)
    ensures
        r == valid_header_name(vstd::utf8::encode_utf8(name@)),
{
    HeaderName::from_bytes(name.as_bytes()).is_ok()
}

/// `reqwest::StatusCode::from_u16`: the contract claims that it accepts
/// exactly the codes from 100 to 999 and keeps the code.
#[verifier::external_body]
fn status_from_u16(code: u16) -> (r: Option<u16>)
    ensures
        r == (if 100 <= code && code <= 999 { Some(code) } else { None::<u16> }),
{
    StatusCode::from_u16(code).ok().map(|s| s.as_u16())
}

/// Whether `text` may be sent as a header value.
pub fn is_valid_header_text(text: &str) -> (r: bool)
    ensures
        r == valid_header_value(vstd::utf8::encode_utf8(text@)),
{
    header_value_accepts_str(text)
}

/// The status the proxy answers with for an upstream status code: the code
/// itself when it is a valid status, else 200.
pub fn response_status(code: u16) -> (r: u16)
    ensures
        r == (if 100 <= code && code <= 999 { code } else { 200 }),
{
    match status_from_u16(code) {
        Some(c) => c,
        None => 200,
    }
}

/// A status in the success class, 200 to 299.
pub open spec fn is_success(code: u16) -> bool {
    200 <= code && code < 300
}

/// The success statuses are exactly 200 to 299: a reply with any other
/// status, such as 500, is not a success.
pub proof fn success_is_2xx(code: u16)
    ensures
        is_success(code) <==> (200 <= code && code < 300),
        code >= 300 ==> !is_success(code),
        code < 200 ==> !is_success(code),
{
}

/// Whether `code` is a success status.
pub fn status_is_success(code: u16) -> (r: bool)
    ensures
        r == is_success(code),
{
    200 <= code && code < 300
}

/// A header that can be relayed: its name and value are both accepted.
pub open spec fn relayable(h: HeaderView) -> bool {
    valid_header_name(vstd::utf8::encode_utf8(h.0)) && valid_header_value(h.1)
}

/// `out` with header `h` set: the value of the first header of the same
/// name is replaced, or `h` is appended when there is none.
pub open spec fn set_header(out: Seq<HeaderView>, h: HeaderView) -> Seq<HeaderView> {
    match first_named(out, h.0) {
        Some(i) => out.update(i, (out[i].0, h.1)),
        None => out.push(h),
    }
}

/// The headers that copying `hs` into a header map leaves, one per name,
/// each with the last value given for it; `Host` is left out when
/// `skip_host` holds, and headers that are not relayable are dropped.
pub open spec fn relayed(hs: Seq<HeaderView>, skip_host: bool) -> Seq<HeaderView>
    decreases hs.len(),
{
    if hs.len() == 0 {
        Seq::empty()
    } else {
        let prev = relayed(hs.drop_last(), skip_host);
        let h = hs.last();
        if (skip_host && eq_ignore_ascii_case(h.0, "host"@)) || !relayable(h) {
            prev
        } else {
            set_header(prev, h)
        }
    }
}

/// Copies the header `h` into `out` with `set_header`.
fn set_header_in(out: &mut Vec<Header>, h: &Header)
    ensures
        header_views(final(out)@) == set_header(header_views(old(out)@), header_view(*h)),
{
    let ghost before = header_views(out@);
    match find_header(out, h.name.as_str()) {
        Some(i) => {
            let name = out[i].name.clone();
            let value = h.value.clone();
            assert(value@ == h.value@);
            out.set(i, Header { name, value });
            assert(header_views(out@) =~= before.update(i as int, (before[i as int].0, h.value@)));
        },
        None => {
            let name = h.name.clone();
            let value = h.value.clone();
            assert(value@ == h.value@);
            out.push(Header { name, value });
            assert(header_views(out@) =~= before.push(header_view(*h)));
        },
    }
}

/// Copies `headers` the way filling a header map does (see `relayed`).
pub fn relay_headers(headers: &Vec<Header>, skip_host: bool) -> (r: Vec<Header>)
    ensures
        header_views(r@) == relayed(header_views(headers@), skip_host),
{
    let ghost hs = header_views(headers@);
    let n = headers.len();
    let mut out: Vec<Header> = Vec::new();
    let mut i: usize = 0;
    proof {
        reveal_strlit("host");
    }
    while i < n
        invariant
            n == headers@.len(),
            hs == header_views(headers@),
            i <= n,
            header_views(out@) == relayed(hs.take(i as int), skip_host),
        decreases n - i,
    {
        let h = &headers[i];
        assert(hs.take(i + 1).drop_last() =~= hs.take(i as int));
        assert(hs.take(i + 1).last() == header_view(*h));
        let skip = skip_host && equals_ignore_ascii_case(h.name.as_str(), "host");
        if !skip && header_name_accepts(h.name.as_str()) && header_value_accepts_bytes(h.value.as_slice()) {
            set_header_in(&mut out, h);
        }
        i = i + 1;
    }
    assert(hs.take(n as int) =~= hs);
    out
}


/// The headers not called `name` (ASCII case ignored), in their order.
pub open spec fn without_named(hs: Seq<HeaderView>, name: Seq<char>) -> Seq<HeaderView>
    decreases hs.len(),
{
    if hs.len() == 0 {
        hs
    } else if eq_ignore_ascii_case(hs.last().0, name) {
        without_named(hs.drop_last(), name)
    } else {
        without_named(hs.drop_last(), name).push(hs.last())
    }
}

/// Removes the headers called `name`.
pub fn remove_named(headers: &Vec<Header>, name: &str) -> (r: Vec<Header>)
    ensures
        header_views(r@) == without_named(header_views(headers@), name@),
{
    let ghost hs = header_views(headers@);
    let n = headers.len();
    let mut out: Vec<Header> = Vec::new();
    let mut i: usize = 0;
    while i < n
        invariant
            n == headers@.len(),
            hs == header_views(headers@),
            i <= n,
            header_views(out@) == without_named(hs.take(i as int), name@),
        decreases n - i,
    {
        let h = &headers[i];
        assert(hs.take(i + 1).drop_last() =~= hs.take(i as int));
        assert(hs.take(i + 1).last() == header_view(*h));
        if !equals_ignore_ascii_case(h.name.as_str(), name) {
            let ghost before = header_views(out@);
            let copy = Header { name: h.name.clone(), value: h.value.clone() };
            out.push(copy);
            assert(header_views(out@) =~= before.push(header_view(*h)));
        }
        i = i + 1;
    }
    assert(hs.take(n as int) =~= hs);
    out
}

/// Every header left by `without_named` comes from the input and is not
/// called `name`.
pub proof fn without_named_members(hs: Seq<HeaderView>, name: Seq<char>)
    ensures
        forall|i: int| #![trigger without_named(hs, name)[i]] 0 <= i < without_named(hs, name).len() ==> {
            &&& !eq_ignore_ascii_case(without_named(hs, name)[i].0, name)
            &&& exists|j: int| 0 <= j < hs.len() && #[trigger] hs[j] == without_named(hs, name)[i]
        },
    decreases hs.len(),
{
    if hs.len() > 0 {
        let init = hs.drop_last();
        without_named_members(init, name);
        let prev = without_named(init, name);
        let r = without_named(hs, name);
        assert forall|i: int| #![trigger without_named(hs, name)[i]] 0 <= i < r.len() implies {
            &&& !eq_ignore_ascii_case(r[i].0, name)
            &&& exists|j: int| 0 <= j < hs.len() && #[trigger] hs[j] == r[i]
        } by {
            if i < prev.len() {
                assert(r[i] == prev[i]);
                let j = choose|j: int| 0 <= j < init.len() && #[trigger] init[j] == prev[i];
                assert(hs[j] == init[j]);
            } else {
                assert(hs[hs.len() - 1] == r[i]);
            }
        }
    }
}

/// Removing the headers called `name` keeps every other header, in order:
/// the result is the input filtered by name, so it holds exactly the input
/// headers not called `name`, and as many of them.
pub proof fn without_named_is_filter(hs: Seq<HeaderView>, name: Seq<char>)
    ensures
        without_named(hs, name) == hs.filter(|h: HeaderView| !eq_ignore_ascii_case(h.0, name)),
        forall|i: int| 0 <= i < hs.len() && !eq_ignore_ascii_case(hs[i].0, name) ==> without_named(hs, name).contains(
            #[trigger] hs[i],
        ),
    decreases hs.len(),
{
    reveal(Seq::filter);
    if hs.len() > 0 {
        let init = hs.drop_last();
        without_named_is_filter(init, name);
        assert forall|i: int| 0 <= i < hs.len() && !eq_ignore_ascii_case(hs[i].0, name) implies without_named(
            hs,
            name,
        ).contains(#[trigger] hs[i]) by {
            if i < hs.len() - 1 {
                assert(hs[i] == init[i]);
                let prev = without_named(init, name);
                let k = choose|k: int| 0 <= k < prev.len() && prev[k] == init[i];
                if !eq_ignore_ascii_case(hs.last().0, name) {
                    assert(without_named(hs, name)[k] == prev[k]);
                }
            } else {
                let r = without_named(hs, name);
                assert(r[r.len() - 1] == hs[i]);
            }
        }
    }
}

/// No two headers share a name (ASCII case ignored).
pub open spec fn distinct_names(hs: Seq<HeaderView>) -> bool {
    forall|i: int, j: int|
        0 <= i < hs.len() && 0 <= j < hs.len() && i != j ==> !eq_ignore_ascii_case(#[trigger] hs[i].0, #[trigger] hs[j].0)
}

/// When some header is called `name`, there is a first one.
proof fn first_exists(hs: Seq<HeaderView>, name: Seq<char>)
    requires
        has_header(hs, name),
    ensures
        exists|i: int| is_first_named(hs, name, i),
    decreases hs.len(),
{
    let init = hs.drop_last();
    if has_header(init, name) {
        first_exists(init, name);
        let i = choose|i: int| is_first_named(init, name, i);
        assert(is_first_named(hs, name, i)) by {
            assert forall|j: int| 0 <= j < i implies !eq_ignore_ascii_case(#[trigger] hs[j].0, name) by {
                assert(hs[j] == init[j]);
            }
        }
    } else {
        let k = choose|k: int| 0 <= k < hs.len() && eq_ignore_ascii_case(#[trigger] hs[k].0, name);
        if k < hs.len() - 1 {
            assert(hs[k] == init[k]);
            assert(has_header(init, name));
        }
        assert(is_first_named(hs, name, hs.len() - 1)) by {
            assert forall|j: int| 0 <= j < hs.len() - 1 implies !eq_ignore_ascii_case(#[trigger] hs[j].0, name) by {
                assert(hs[j] == init[j]);
            }
        }
    }
}

/// Setting a header keeps the names distinct.
proof fn set_header_distinct(out: Seq<HeaderView>, h: HeaderView)
    requires
        distinct_names(out),
    ensures
        distinct_names(set_header(out, h)),
{
    match first_named(out, h.0) {
        Some(i) => {
            let r = set_header(out, h);
            assert forall|a: int, b: int|
                0 <= a < r.len() && 0 <= b < r.len() && a != b implies !eq_ignore_ascii_case(#[trigger] r[a].0, #[trigger] r[b].0) by {
                assert(r[a].0 == out[a].0);
                assert(r[b].0 == out[b].0);
            }
        },
        None => {
            if has_header(out, h.0) {
                first_exists(out, h.0);
            }
            let r = out.push(h);
            assert forall|a: int, b: int|
                0 <= a < r.len() && 0 <= b < r.len() && a != b implies !eq_ignore_ascii_case(#[trigger] r[a].0, #[trigger] r[b].0) by {
                if a == out.len() {
                    assert(!eq_ignore_ascii_case(out[b].0, h.0));
                    assert(!eq_ignore_ascii_case(r[a].0, r[b].0)) by {
                        if eq_ignore_ascii_case(r[a].0, r[b].0) {
                            assert forall|k: int| 0 <= k < out[b].0.len() implies ascii_fold(#[trigger] out[b].0[k]) == ascii_fold(h.0[k]) by {
                                assert(ascii_fold(r[a].0[k]) == ascii_fold(r[b].0[k]));
                            }
                        }
                    }
                } else if b == out.len() {
                    assert(!eq_ignore_ascii_case(out[a].0, h.0));
                } else {
                    assert(r[a] == out[a] && r[b] == out[b]);
                }
            }
        },
    }
}

/// Copying headers into a header map leaves at most one header per name.
pub proof fn relayed_names_distinct(hs: Seq<HeaderView>, skip_host: bool)
    ensures
        distinct_names(relayed(hs, skip_host)),
    decreases hs.len(),
{
    if hs.len() > 0 {
        relayed_names_distinct(hs.drop_last(), skip_host);
        set_header_distinct(relayed(hs.drop_last(), skip_host), hs.last());
    }
}

/// Only headers that were given, under a given name, are relayed: every
/// relayed name is the name of some input header that is relayable and,
/// when `skip_host` holds, not `Host`.
pub proof fn relayed_names_come_from_input(hs: Seq<HeaderView>, skip_host: bool)
    ensures
        forall|i: int| #![trigger relayed(hs, skip_host)[i]] 0 <= i < relayed(hs, skip_host).len() ==> exists|j: int|
            0 <= j < hs.len() && (#[trigger] hs[j]).0 == relayed(hs, skip_host)[i].0 && relayable(hs[j])
                && !(skip_host && eq_ignore_ascii_case(hs[j].0, "host"@)),
    decreases hs.len(),
{
    if hs.len() > 0 {
        let init = hs.drop_last();
        relayed_names_come_from_input(init, skip_host);
        let prev = relayed(init, skip_host);
        let r = relayed(hs, skip_host);
        assert forall|i: int| #![trigger relayed(hs, skip_host)[i]] 0 <= i < r.len() implies exists|j: int|
            0 <= j < hs.len() && (#[trigger] hs[j]).0 == r[i].0 && relayable(hs[j])
                && !(skip_host && eq_ignore_ascii_case(hs[j].0, "host"@)) by {
            let h = hs.last();
            if (skip_host && eq_ignore_ascii_case(h.0, "host"@)) || !relayable(h) {
                let j = choose|j: int| 0 <= j < init.len() && (#[trigger] init[j]).0 == prev[i].0 && relayable(init[j])
                    && !(skip_host && eq_ignore_ascii_case(init[j].0, "host"@));
                assert(hs[j] == init[j]);
            } else {
                match first_named(prev, h.0) {
                    Some(k) => {
                        let j = choose|j: int| 0 <= j < init.len() && (#[trigger] init[j]).0 == prev[i].0 && relayable(init[j])
                            && !(skip_host && eq_ignore_ascii_case(init[j].0, "host"@));
                        assert(hs[j] == init[j]);
                    },
                    None => {
                        if i == prev.len() {
                            assert(hs[hs.len() - 1] == h);
                        } else {
                            let j = choose|j: int| 0 <= j < init.len() && (#[trigger] init[j]).0 == prev[i].0 && relayable(init[j])
                                && !(skip_host && eq_ignore_ascii_case(init[j].0, "host"@));
                            assert(hs[j] == init[j]);
                        }
                    },
                }
            }
        }
    }
}


/// The headers forwarded upstream never include `Host`.
pub proof fn forwarded_headers_exclude_host(hs: Seq<HeaderView>)
    ensures
        !has_header(relayed(hs, true), "host"@),
{
    relayed_names_come_from_input(hs, true);
    let r = relayed(hs, true);
    assert forall|i: int| 0 <= i < r.len() implies !eq_ignore_ascii_case(#[trigger] r[i].0, "host"@) by {
        let j = choose|j: int| 0 <= j < hs.len() && (#[trigger] hs[j]).0 == r[i].0 && relayable(hs[j])
            && !(true && eq_ignore_ascii_case(hs[j].0, "host"@));
    }
}

} // verus!
