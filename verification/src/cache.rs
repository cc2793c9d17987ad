//! The token cache file: a JSON object that maps each upstream endpoint to
//! the last token stored for it, in `config.json` under the cache directory.

use vstd::prelude::*;
use std::collections::BTreeMap;
use crate::state::opt_view;
use crate::text::{concat, ends_with_char};

verus! {

/// One endpoint and its token, as text.
pub type EntryView = (Seq<char>, Seq<char>);

/// The text of a list of cache entries.
pub open spec fn entry_views(v: Seq<(String, String)>) -> Seq<EntryView> {
    v.map_values(|p: (String, String)| (p.0@, p.1@))
}

/// `serde_json::from_str` into a map from strings to strings, as the list
/// of its entries: `None` when the text is not such a JSON object.
pub uninterp spec fn parsed_cache(content: Seq<char>) -> Option<Seq<EntryView>>;

/// `serde_json::to_string_pretty` of the map that the entries make.
pub uninterp spec fn cache_text(entries: Seq<EntryView>) -> Seq<char>;

/// The token stored for `key`; when a key occurs more than once, the last
/// occurrence counts, as when the entries are collected into a map.
pub open spec fn lookup(entries: Seq<EntryView>, key: Seq<char>) -> Option<Seq<char>>
    decreases entries.len(),
{
    if entries.len() == 0 {
        None
    } else if entries.last().0 == key {
        Some(entries.last().1)
    } else {
        lookup(entries.drop_last(), key)
    }
}

/// No key occurs twice.
pub open spec fn distinct_keys(entries: Seq<EntryView>) -> bool {
    forall|i: int, j: int|
        0 <= i < entries.len() && 0 <= j < entries.len() && i != j ==> #[trigger] entries[i].0 != #[trigger] entries[j].0
}

/// The entries without those for `key`, in their order.
pub open spec fn without_key(entries: Seq<EntryView>, key: Seq<char>) -> Seq<EntryView>
    decreases entries.len(),
{
    if entries.len() == 0 {
        entries
    } else if entries.last().0 == key {
        without_key(entries.drop_last(), key)
    } else {
        without_key(entries.drop_last(), key).push(entries.last())
    }
}

/// The token that the cache file text `content` holds for `endpoint`.
pub open spec fn cached_token_in(content: Seq<char>, endpoint: Seq<char>) -> Option<Seq<char>> {
    match parsed_cache(content) {
        Some(entries) => lookup(entries, endpoint),
        None => None,
    }
}

/// The entries a store starts from: those of the existing file, or none
/// when there is no file or it does not parse.
pub open spec fn base_entries(existing: Option<Seq<char>>) -> Seq<EntryView> {
    match existing {
        Some(c) => match parsed_cache(c) {
            Some(entries) => entries,
            None => Seq::empty(),
        },
        None => Seq::empty(),
    }
}

/// The entries after storing `token` for `endpoint`.
pub open spec fn stored_entries(existing: Option<Seq<char>>, endpoint: Seq<char>, token: Seq<char>) -> Seq<EntryView> {
    without_key(base_entries(existing), endpoint).push((endpoint, token))
}

/// The path of the cache file in directory `dir`.
pub open spec fn cache_file_path(dir: Seq<char>) -> Seq<char> {
    if dir.len() == 0 {
        "config.json"@
    } else if dir.last() == '/' {
        dir + "config.json"@
    } else {
        dir + "/config.json"@
    }
}

/// The path of the cache file in `cache_dir`: `config.json` joined to the
/// directory, with a separator only where the directory lacks one.
pub fn get_cache_path(cache_dir: &str) -> (r: String)
    ensures
        r@ == cache_file_path(cache_dir@),
{
    if cache_dir.unicode_len() == 0 {
        String::from_str("config.json")
    } else if ends_with_char(cache_dir, '/') {
        concat(cache_dir, "config.json")
    } else {
        concat(cache_dir, "/config.json")
    }
}

/// `serde_json::from_str::<BTreeMap<String, String>>`: reads the cache file
/// text. The contract claims that the entries returned are the ones the
/// name `parsed_cache` gives for the text, and `None` exactly when it gives
/// none.
#[verifier::external_body]
fn parse_cache_json(content: &str) -> (r: Option<Vec<(String, String)>>)
    ensures
        r is Some <==> parsed_cache(content@) is Some,
        r matches Some(v) ==> parsed_cache(content@) == Some(entry_views(v@)),
        r matches Some(v) ==> distinct_keys(entry_views(v@)),
{
    serde_json::from_str::<BTreeMap<String, String>>(content).ok().map(|m| m.into_iter().collect())
}

/// `serde_json::to_string_pretty` of the map the entries make. The contract
/// claims that the text is the one the name `cache_text` gives, and that
/// reading it back gives, when no key occurs twice, the token the entries
/// hold for each key. It also claims success: serialisation fails only for
/// a failing `Serialize` impl or a map with non-string keys, and a map from
/// strings to strings written into memory has neither.
#[verifier::external_body]
fn render_cache_json(entries: &Vec<(String, String)>) -> (r: Option<String>)
    ensures
        r is Some,
        r matches Some(s) ==> s@ == cache_text(entry_views(entries@)),
        r matches Some(s) ==> (distinct_keys(entry_views(entries@)) ==> parsed_cache(s@) is Some),
        r matches Some(s) ==> (distinct_keys(entry_views(entries@)) ==> forall|k: Seq<char>|
            lookup(parsed_cache(s@).unwrap(), k) == #[trigger] lookup(entry_views(entries@), k)),
{
    let map: BTreeMap<String, String> = entries.iter().cloned().collect();
    serde_json::to_string_pretty(&map).ok()
}

/// Looking a key up after one more entry is added.
proof fn lookup_push(entries: Seq<EntryView>, e: EntryView, key: Seq<char>)
    ensures
        lookup(entries.push(e), key) == if e.0 == key { Some(e.1) } else { lookup(entries, key) },
{
    assert(entries.push(e).drop_last() =~= entries);
}

/// Removing a key's entries hides that key and no other.
pub proof fn lookup_without_key(entries: Seq<EntryView>, key: Seq<char>, other: Seq<char>)
    ensures
        lookup(without_key(entries, key), other) == if other == key { None } else { lookup(entries, other) },
    decreases entries.len(),
{
    if entries.len() > 0 {
        lookup_without_key(entries.drop_last(), key, other);
        if entries.last().0 != key {
            lookup_push(without_key(entries.drop_last(), key), entries.last(), other);
        }
    }
}

/// A store into a file that parses starts from all of its entries: for
/// every other endpoint, the entries after the store give the token that
/// the parsed file gives, and the stored endpoint gives the stored token.
pub proof fn store_keeps_parsed_entries(content: Seq<char>, endpoint: Seq<char>, token: Seq<char>, other: Seq<char>)
    requires
        parsed_cache(content) is Some,
    ensures
        lookup(stored_entries(Some(content), endpoint, token), endpoint) == Some(token),
        other != endpoint ==> lookup(stored_entries(Some(content), endpoint, token), other) == cached_token_in(
            content,
            other,
        ),
{
    store_then_lookup(Some(content), endpoint, token, other);
}

/// Every entry left by `without_key` is an entry of the input, under
/// another key.
pub proof fn without_key_members(entries: Seq<EntryView>, key: Seq<char>)
    ensures
        forall|i: int| #![trigger without_key(entries, key)[i]] 0 <= i < without_key(entries, key).len() ==> {
            &&& without_key(entries, key)[i].0 != key
            &&& exists|j: int| 0 <= j < entries.len() && #[trigger] entries[j] == without_key(entries, key)[i]
        },
    decreases entries.len(),
{
    if entries.len() > 0 {
        let init = entries.drop_last();
        without_key_members(init, key);
        let prev = without_key(init, key);
        let r = without_key(entries, key);
        assert forall|i: int| #![trigger without_key(entries, key)[i]] 0 <= i < r.len() implies {
            &&& r[i].0 != key
            &&& exists|j: int| 0 <= j < entries.len() && #[trigger] entries[j] == r[i]
        } by {
            if i < prev.len() {
                assert(r[i] == prev[i]);
                let j = choose|j: int| 0 <= j < init.len() && #[trigger] init[j] == prev[i];
                assert(entries[j] == init[j]);
            } else {
                assert(entries[entries.len() - 1] == r[i]);
            }
        }
    }
}

/// Removing a key keeps the keys distinct.
pub proof fn without_key_distinct(entries: Seq<EntryView>, key: Seq<char>)
    requires
        distinct_keys(entries),
    ensures
        distinct_keys(without_key(entries, key)),
    decreases entries.len(),
{
    if entries.len() > 0 {
        let init = entries.drop_last();
        assert(distinct_keys(init)) by {
            assert forall|i: int, j: int| 0 <= i < init.len() && 0 <= j < init.len() && i != j implies #[trigger] init[i].0
                != #[trigger] init[j].0 by {
                assert(init[i] == entries[i] && init[j] == entries[j]);
            }
        }
        without_key_distinct(init, key);
        if entries.last().0 != key {
            let prev = without_key(init, key);
            without_key_members(init, key);
            let r = prev.push(entries.last());
            assert forall|i: int, j: int| 0 <= i < r.len() && 0 <= j < r.len() && i != j implies #[trigger] r[i].0
                != #[trigger] r[j].0 by {
                if i == prev.len() {
                    let k = choose|k: int| 0 <= k < init.len() && #[trigger] init[k] == prev[j];
                    assert(entries[k] == init[k]);
                    assert(entries[entries.len() - 1] == r[i]);
                } else if j == prev.len() {
                    let k = choose|k: int| 0 <= k < init.len() && #[trigger] init[k] == prev[i];
                    assert(entries[k] == init[k]);
                    assert(entries[entries.len() - 1] == r[j]);
                } else {
                    assert(r[i] == prev[i] && r[j] == prev[j]);
                }
            }
        }
    }
}

/// The entries after a store have distinct keys when the existing ones do.
proof fn stored_entries_distinct(base: Seq<EntryView>, endpoint: Seq<char>, token: Seq<char>)
    requires
        distinct_keys(base),
    ensures
        distinct_keys(without_key(base, endpoint).push((endpoint, token))),
{
    without_key_distinct(base, endpoint);
    without_key_members(base, endpoint);
    let prev = without_key(base, endpoint);
    let r = prev.push((endpoint, token));
    assert forall|i: int, j: int| 0 <= i < r.len() && 0 <= j < r.len() && i != j implies #[trigger] r[i].0
        != #[trigger] r[j].0 by {
        if i == prev.len() {
            assert(r[j] == prev[j]);
        } else if j == prev.len() {
            assert(r[i] == prev[i]);
        } else {
            assert(r[i] == prev[i] && r[j] == prev[j]);
        }
    }
}

/// After a store, the entries give the stored token for its endpoint and,
/// for every other endpoint, what they gave before.
pub proof fn store_then_lookup(existing: Option<Seq<char>>, endpoint: Seq<char>, token: Seq<char>, other: Seq<char>)
    ensures
        lookup(stored_entries(existing, endpoint, token), endpoint) == Some(token),
        other != endpoint ==> lookup(stored_entries(existing, endpoint, token), other) == lookup(
            base_entries(existing),
            other,
        ),
{
    let kept = without_key(base_entries(existing), endpoint);
    lookup_push(kept, (endpoint, token), endpoint);
    lookup_push(kept, (endpoint, token), other);
    lookup_without_key(base_entries(existing), endpoint, other);
}

/// The token stored for `key` in a list of entries (the last entry for the
/// key counts).
pub fn lookup_entry(entries: &Vec<(String, String)>, key: &str) -> (r: Option<String>)
    ensures
        opt_view(r) == lookup(entry_views(entries@), key@),
{
    let k = String::from_str(key);
    let n = entries.len();
    let ghost views = entry_views(entries@);
    let mut found: Option<String> = None;
    let mut i: usize = 0;
    while i < n
        invariant
            n == entries@.len(),
            views == entry_views(entries@),
            k@ == key@,
            i <= n,
            opt_view(found) == lookup(views.take(i as int), key@),
        decreases n - i,
    {
        assert(views.take(i + 1).drop_last() =~= views.take(i as int));
        if entries[i].0 == k {
            found = Some(entries[i].1.clone());
        }
        i = i + 1;
    }
    assert(views.take(n as int) =~= views);
    found
}

/// The entries without those for `key`.
pub fn without_entry(entries: &Vec<(String, String)>, key: &str) -> (r: Vec<(String, String)>)
    ensures
        entry_views(r@) == without_key(entry_views(entries@), key@),
{
    let k = String::from_str(key);
    let n = entries.len();
    let ghost views = entry_views(entries@);
    let mut out: Vec<(String, String)> = Vec::new();
    let mut i: usize = 0;
    while i < n
        invariant
            n == entries@.len(),
            views == entry_views(entries@),
            k@ == key@,
            i <= n,
            entry_views(out@) == without_key(views.take(i as int), key@),
        decreases n - i,
    {
        assert(views.take(i + 1).drop_last() =~= views.take(i as int));
        if entries[i].0 != k {
            let pair = (entries[i].0.clone(), entries[i].1.clone());
            let ghost before = out@;
            out.push(pair);
            assert(entry_views(out@) =~= entry_views(before).push(views[i as int]));
        }
        i = i + 1;
    }
    assert(views.take(n as int) =~= views);
    out
}

/// The token that the cache file text `content` holds for `endpoint`;
/// `None` when the text is not a JSON object of strings or has no entry
/// for the endpoint.
pub fn cached_token(content: &str, endpoint: &str) -> (r: Option<String>)
    ensures
        opt_view(r) == cached_token_in(content@, endpoint@),
{
    match parse_cache_json(content) {
        Some(entries) => lookup_entry(&entries, endpoint),
        None => None,
    }
}

/// The entries after storing `token` for `endpoint` in `entries`: the
/// entries for other endpoints in their order, then the new one.
pub fn entries_after_store(entries: &Vec<(String, String)>, endpoint: &str, token: &str) -> (r: Vec<(String, String)>)
    ensures
        entry_views(r@) == without_key(entry_views(entries@), endpoint@).push((endpoint@, token@)),
{
    let mut out = without_entry(entries, endpoint);
    let ghost kept = entry_views(out@);
    out.push((String::from_str(endpoint), String::from_str(token)));
    assert(entry_views(out@) =~= kept.push((endpoint@, token@)));
    out
}

/// The new text of the cache file after storing `token` for `endpoint`,
/// given the text of the existing file if there is one. The existing
/// entries are kept unless the file does not parse. A string-to-string map
/// always serialises, so the text is always there.
pub fn cache_file_after_store(existing: Option<&str>, endpoint: &str, token: &str) -> (r: Option<String>)
    ensures
        r is Some,
        r matches Some(s) ==> s@ == cache_text(
            stored_entries(
                match existing { Some(c) => Some(c@), None => None },
                endpoint@,
                token@,
            ),
        ),
        r matches Some(s) ==> cached_token_in(s@, endpoint@) == Some(token@),
        r matches Some(s) ==> forall|k: Seq<char>|
            k != endpoint@ ==> #[trigger] cached_token_in(s@, k) == lookup(
                base_entries(match existing { Some(c) => Some(c@), None => None }),
                k,
            ),
        r matches Some(s) ==> (existing is Some && parsed_cache(existing.unwrap()@) is Some ==> forall|k: Seq<char>|
            k != endpoint@ ==> #[trigger] cached_token_in(s@, k) == cached_token_in(existing.unwrap()@, k)),
{
    let ghost ex: Option<Seq<char>> = match existing {
        Some(c) => Some(c@),
        None => None,
    };
    let base: Vec<(String, String)> = match existing {
        Some(c) => match parse_cache_json(c) {
            Some(entries) => entries,
            None => Vec::new(),
        },
        None => Vec::new(),
    };
    assert(entry_views(base@) == base_entries(ex) && distinct_keys(base_entries(ex))) by {
        if base@.len() == 0 {
            assert(entry_views(base@) =~= Seq::<EntryView>::empty());
        }
    }
    proof {
        stored_entries_distinct(base_entries(ex), endpoint@, token@);
    }
    let entries = entries_after_store(&base, endpoint, token);
    let ghost kept = without_key(entry_views(base@), endpoint@);
    let r = render_cache_json(&entries);
    proof {
        if r is Some {
            let s = r->0;
            let parsed = parsed_cache(s@).unwrap();
            assert(lookup(parsed, endpoint@) == lookup(entry_views(entries@), endpoint@));
            lookup_push(kept, (endpoint@, token@), endpoint@);
            assert forall|k: Seq<char>| k != endpoint@ implies #[trigger] cached_token_in(s@, k) == lookup(
                base_entries(ex),
                k,
            ) by {
                assert(lookup(parsed, k) == lookup(entry_views(entries@), k));
                lookup_push(kept, (endpoint@, token@), k);
                lookup_without_key(base_entries(ex), endpoint@, k);
            }
        }
    }
    r
}

} // verus!
