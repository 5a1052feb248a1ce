//! Content fingerprints: SHA-256 in lowercase hex, and the hashed bag of
//! words that stands for a text's term vector.

use sha2::Digest;
use vstd::prelude::*;
use vstd::utf8::encode_utf8;
use crate::text::{tokenize, tokens_of, strings_view};

verus! {

broadcast use vstd::seq_lib::group_seq_properties;

/// The number of buckets of a term vector.
pub const VECTOR_DIMENSIONS: usize = 256;

/// What SHA-256 gives for a byte string.
pub uninterp spec fn sha256(data: Seq<u8>) -> Seq<u8>;

/// `sha2::Sha256::digest`: the SHA-256 of the data, 32 bytes long (the
/// output type of `Sha256` has 32 elements).
#[verifier::external_body]
fn sha256_digest(data: &[u8]) -> (digest: Vec<u8>)
    ensures
        digest@ == sha256(data@),
        digest@.len() == 32,
{
    sha2::Sha256::digest(data).to_vec()
}

/// The lowercase hexadecimal digits.
pub open spec fn hex_digits() -> Seq<char> {
    seq!['0', '1', '2', '3', '4', '5', '6', '7', '8', '9', 'a', 'b', 'c', 'd', 'e', 'f']
}

/// Lowercase hexadecimal of a byte string: two digits per byte, high nibble first.
pub open spec fn hex_lower(data: Seq<u8>) -> Seq<char>
    decreases data.len(),
{
    if data.len() == 0 {
        Seq::empty()
    } else {
        hex_lower(data.drop_last()) + seq![
            hex_digits()[(data.last() / 16) as int],
            hex_digits()[(data.last() % 16) as int],
        ]
    }
}

/// `hex::encode`: each byte becomes two lowercase hexadecimal digits, the
/// high nibble first (`HEX_CHARS_LOWER[byte >> 4]`, then `[byte & 0x0F]`).
#[verifier::external_body]
fn hex_encode(data: &[u8]) -> (encoded: String)
    ensures
        encoded@ == hex_lower(data@),
{
    hex::encode(data)
}

/// Lowercase hexadecimal has two digits per byte.
pub proof fn lemma_hex_lower_len(data: Seq<u8>)
    ensures
        hex_lower(data).len() == 2 * data.len(),
    decreases data.len(),
{
    if data.len() > 0 {
        lemma_hex_lower_len(data.drop_last());
    }
}

/// The fingerprint of a byte string: its SHA-256 in lowercase hex.
pub open spec fn fingerprint(data: Seq<u8>) -> Seq<char> {
    hex_lower(sha256(data))
}

/// SHA-256 of `bytes` as 64 lowercase hexadecimal digits.
pub fn sha256_hex(bytes: &[u8]) -> (hex: String)
    ensures
        hex@ == fingerprint(bytes@),
        hex@.len() == 64,
        forall|i: int| 0 <= i < hex@.len() ==> hex_digits().contains(#[trigger] hex@[i]),
{
    let digest = sha256_digest(bytes);
    proof {
        lemma_hex_lower_len(digest@);
        crate::laws::law_fingerprint_is_lowercase_hex(bytes@);
    }
    hex_encode(digest.as_slice())
}

/// The bucket of a token: the first two bytes of the SHA-256 of its UTF-8
/// encoding, read as a big-endian number, modulo the vector's dimension.
pub open spec fn bucket_of(token: Seq<char>) -> int {
    let d = sha256(encode_utf8(token));
    (d[0] * 256 + d[1]) % (VECTOR_DIMENSIONS as int)
}

/// How many of `tokens` fall into bucket `b`.
pub open spec fn bucket_count(tokens: Seq<Seq<char>>, b: int) -> nat {
    tokens.filter(|t: Seq<char>| bucket_of(t) == b).len()
}

/// The bucket of one token.
pub fn token_bucket(token: &str) -> (b: usize)
    ensures
        b == bucket_of(token@),
        b < VECTOR_DIMENSIONS,
{
    let digest = sha256_digest(token.as_bytes());
    let hi: usize = digest[0] as usize;
    let lo: usize = digest[1] as usize;
    assert(hi << 8usize | lo == hi * 256 + lo) by (bit_vector)
        requires
            hi < 256,
            lo < 256,
    ;
    (hi << 8usize | lo) % VECTOR_DIMENSIONS
}

/// The term counts of a text: for each bucket, how many of its tokens hash
/// into it.
pub fn term_counts(text: &str) -> (counts: Vec<u64>)
    ensures
        counts@.len() == VECTOR_DIMENSIONS,
        forall|b: int| 0 <= b < VECTOR_DIMENSIONS ==> #[trigger] counts@[b] == bucket_count(tokens_of(text@), b),
{
    let tokens = tokenize(text);
    let ghost toks = strings_view(tokens@);
    let mut counts: Vec<u64> = Vec::new();
    let mut k: usize = 0;
    while k < VECTOR_DIMENSIONS
        invariant
            k <= VECTOR_DIMENSIONS,
            counts@.len() == k,
            forall|b: int| 0 <= b < k ==> #[trigger] counts@[b] == 0,
        decreases VECTOR_DIMENSIONS - k,
    {
        counts.push(0);
        k = k + 1;
    }
    let n: usize = tokens.len();
    let mut i: usize = 0;
    assert forall|b: int| 0 <= b < VECTOR_DIMENSIONS implies #[trigger] counts@[b] == bucket_count(toks.take(0), b) by {
        reveal(Seq::filter);
        assert(toks.take(0) =~= Seq::<Seq<char>>::empty());
    }
    while i < n
        invariant
            n == tokens@.len(),
            toks == strings_view(tokens@),
            i <= n,
            counts@.len() == VECTOR_DIMENSIONS,
            forall|b: int| 0 <= b < VECTOR_DIMENSIONS ==> #[trigger] counts@[b] == bucket_count(toks.take(i as int), b),
        decreases n - i,
    {
        let bucket = token_bucket(tokens[i].as_str());
        let ghost before = toks.take(i as int);
        let ghost t = toks[i as int];
        assert(toks.take(i + 1) =~= before.push(t));
        assert forall|b: int| 0 <= b < VECTOR_DIMENSIONS implies
            bucket_count(toks.take(i + 1), b) == bucket_count(before, b) + (if b == bucket { 1int } else { 0int }) by {
            before.lemma_filter_push(t, |x: Seq<char>| bucket_of(x) == b);
        }
        assert(bucket_count(before, bucket as int) <= before.len()) by {
            before.lemma_filter_len(|x: Seq<char>| bucket_of(x) == bucket as int);
        }
        let c = counts[bucket];
        counts.set(bucket, c + 1);
        i = i + 1;
    }
    assert(toks.take(n as int) =~= toks);
    counts
}

} // verus!
