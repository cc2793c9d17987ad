//! Random alphanumeric keys, used when no client key was configured.

use vstd::prelude::*;
use rand::Rng;
use rand::rngs::ThreadRng;
use crate::text::{visible_ascii_text, is_visible_ascii};

verus! {

#[verifier::external_type_specification]
#[verifier::external_body]
pub struct ExThreadRng(ThreadRng);

/// Number of characters a generated key draws from.
pub const KEY_ALPHABET_LEN: usize = 62;

/// The byte at position `i` of the key alphabet: `a`-`z`, then `A`-`Z`,
/// then `0`-`9`.
pub open spec fn key_alphabet(i: int) -> u8 {
    if i < 26 {
        (97 + i) as u8
    } else if i < 52 {
        (65 + (i - 26)) as u8
    } else {
        (48 + (i - 52)) as u8
    }
}

/// A character of the key alphabet.
pub open spec fn is_key_char(c: char) -> bool {
    ('a' <= c && c <= 'z') || ('A' <= c && c <= 'Z') || ('0' <= c && c <= '9')
}

/// The key spelled by a sequence of alphabet positions.
pub open spec fn key_text(indices: Seq<usize>) -> Seq<char> {
    Seq::new(indices.len(), |i: int| key_alphabet(indices[i] as int) as char)
}

/// `rand::rng`: the thread-local random number generator. Nothing is
/// claimed of it.
#[verifier::external_body]
fn thread_rng() -> ThreadRng {
    rand::rng()
}

/// `rand::Rng::random_range` over `0..bound`: the contract claims only that
/// the number drawn lies in that range; `bound` must be positive, since an
/// empty range panics.
#[verifier::external_body]
fn random_below(rng: &mut ThreadRng, bound: usize) -> (r: usize)
    requires
        bound > 0,
    ensures
        r < bound,
{
    rng.random_range(0..bound)
}

/// The byte at position `i` of the key alphabet.
fn alphabet_byte(i: usize) -> (b: u8)
    requires
        i < KEY_ALPHABET_LEN,
    ensures
        b == key_alphabet(i as int),
{
    if i < 26 {
        97 + i as u8
    } else if i < 52 {
        65 + (i - 26) as u8
    } else {
        48 + (i - 52) as u8
    }
}

/// Spells the key given by alphabet positions.
pub fn key_from_indices(indices: &[usize]) -> (r: String)
    requires
        forall|i: int| 0 <= i < indices@.len() ==> #[trigger] indices@[i] < KEY_ALPHABET_LEN,
    ensures
        r@ == key_text(indices@),
{
    let n = indices.len();
    let mut bytes: Vec<u8> = Vec::new();
    let mut i: usize = 0;
    while i < n
        invariant
            n == indices@.len(),
            i <= n,
            forall|j: int| 0 <= j < n ==> #[trigger] indices@[j] < KEY_ALPHABET_LEN,
            bytes@.len() == i,
            forall|j: int| 0 <= j < i ==> #[trigger] bytes@[j] == key_alphabet(indices@[j] as int),
        decreases n - i,
    {
        let b = alphabet_byte(indices[i]);
        bytes.push(b);
        i = i + 1;
    }
    assert forall|j: int| 0 <= j < bytes@.len() implies is_visible_ascii(#[trigger] bytes@[j]) by {
        assert(indices@[j] < KEY_ALPHABET_LEN);
    }
    let text = visible_ascii_text(bytes.as_slice());
    let s = text.unwrap();
    assert(s@ =~= key_text(indices@));
    s
}

/// Generates a random key of `keylen` alphanumeric characters.
pub fn generate_random_key(keylen: usize) -> (r: String)
    ensures
        r@.len() == keylen,
        forall|i: int| 0 <= i < r@.len() ==> is_key_char(#[trigger] r@[i]),
{
    let mut rng = thread_rng();
    let mut indices: Vec<usize> = Vec::new();
    let mut i: usize = 0;
    while i < keylen
        invariant
            i <= keylen,
            indices@.len() == i,
            forall|j: int| 0 <= j < i ==> #[trigger] indices@[j] < KEY_ALPHABET_LEN,
        decreases keylen - i,
    {
        let k = random_below(&mut rng, KEY_ALPHABET_LEN);
        indices.push(k);
        i = i + 1;
    }
    let r = key_from_indices(indices.as_slice());
    assert forall|j: int| 0 <= j < r@.len() implies is_key_char(#[trigger] r@[j]) by {
        assert(r@[j] == key_alphabet(indices@[j] as int) as char);
    }
    r
}

} // verus!
