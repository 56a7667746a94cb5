use vstd::prelude::*;
use vstd::utf8::encode_utf8;
use rand::Rng;
use blake2::{Blake2b, Digest};

verus! {

/// Number of characters in a seed.
pub const SEED_LEN: usize = 81;

/// A character that seeds are made of: `A` to `Z`, or `9`.
pub open spec fn is_seed_char(c: char) -> bool {
    ('A' <= c && c <= 'Z') || c == '9'
}

/// Relies on rand's `thread_rng().gen_range(0..bound)`: a value below `bound`
/// (it panics on an empty range, which `requires` leaves out).
#[verifier::external_body]
fn random_below(bound: usize) -> (r: usize)
    requires
        bound > 0,
    ensures
        r < bound,
{
    rand::thread_rng().gen_range(0..bound)
}

/// A fresh random seed of `SEED_LEN` characters, each `A` to `Z` or `9`.
pub fn random_seed() -> (r: String)
    ensures
        r@.len() == SEED_LEN,
        forall|i: int| 0 <= i < r@.len() ==> is_seed_char(#[trigger] r@[i]),
{
    let charset = "ABCDEFGHIJKLMNOPQRSTUVWXYZ9";
    proof {
        reveal_strlit("ABCDEFGHIJKLMNOPQRSTUVWXYZ9");
    }
    assert(charset@.len() == 27);
    assert forall|i: int| 0 <= i < 27 implies is_seed_char(#[trigger] charset@[i]) by {}
    let mut seed = String::new();
    let mut n: usize = 0;
    while n < SEED_LEN
        invariant
            n <= SEED_LEN,
            seed@.len() == n,
            charset@.len() == 27,
            forall|i: int| 0 <= i < 27 ==> is_seed_char(#[trigger] charset@[i]),
            forall|i: int| 0 <= i < seed@.len() ==> is_seed_char(#[trigger] seed@[i]),
        decreases SEED_LEN - n,
    {
        let idx = random_below(27);
        let piece = charset.substring_char(idx, idx + 1);
        let ghost before = seed@;
        seed.append(piece);
        assert(seed@ == before + charset@.subrange(idx as int, idx + 1));
        assert forall|i: int| 0 <= i < seed@.len() implies is_seed_char(#[trigger] seed@[i]) by {
            if i >= before.len() {
                assert(seed@[i] == charset@[idx as int]);
            } else {
                assert(seed@[i] == before[i]);
            }
        }
        n += 1;
    }
    seed
}

/// The BLAKE2b-512 digest of `b`.
pub uninterp spec fn blake2b_of(b: Seq<u8>) -> Seq<u8>;

/// Relies on blake2's `Blake2b::digest`: the 64-byte BLAKE2b digest of `b`.
#[verifier::external_body]
fn blake2b_digest(b: &[u8]) -> (r: Vec<u8>)
    ensures
        r@ == blake2b_of(b@),
{
    Blake2b::digest(b).to_vec()
}

/// The lower-case hexadecimal digit of `n`, below 16.
pub open spec fn hex_digit(n: u8) -> char {
    if n < 10 {
        (48 + n) as u8 as char
    } else {
        (87 + n) as u8 as char
    }
}

/// Two lower-case hexadecimal digits for each byte of `b`, high digit first.
pub open spec fn hex_of(b: Seq<u8>) -> Seq<char>
    decreases b.len(),
{
    if b.len() == 0 {
        Seq::empty()
    } else {
        hex_of(b.drop_last()) + seq![hex_digit(b.last() / 16), hex_digit(b.last() % 16)]
    }
}

/// Relies on `hex::encode`: two lower-case hexadecimal digits for each byte.
#[verifier::external_body]
fn to_hex(b: &[u8]) -> (r: String)
    ensures
        r@ == hex_of(b@),
{
    hex::encode(b)
}

/// The hexadecimal BLAKE2b-512 digest of the UTF-8 bytes of `s`.
pub fn hash_string(s: &str) -> (r: String)
    ensures
        r@ == hex_of(blake2b_of(encode_utf8(s@))),
{
    let digest = blake2b_digest(s.as_bytes());
    to_hex(digest.as_slice())
}

} // verus!
