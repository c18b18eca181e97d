//! The deterministic content hash over a result buffer: the raw
//! little-endian byte representation of every element in row-major order is
//! digested with SHA-256 and the digest is rendered as lowercase hex. The
//! hash is a pure function of the buffer, whichever kernel produced it.

use vstd::prelude::*;

use sha2::Digest;

use crate::FlatMatrix;

verus! {

/// The four little-endian bytes of one 32-bit word.
pub open spec fn le_bytes_of_word(w: u32) -> Seq<u8> {
    seq![
        (w % 256) as u8,
        ((w / 256) % 256) as u8,
        ((w / 65536) % 256) as u8,
        ((w / 16777216) % 256) as u8,
    ]
}

/// The little-endian byte stream of a word sequence, in order.
pub open spec fn le_bytes_of_words(s: Seq<u32>) -> Seq<u8>
    decreases s.len(),
{
    if s.len() == 0 {
        Seq::empty()
    } else {
        le_bytes_of_words(s.drop_last()) + le_bytes_of_word(s.last())
    }
}

/// Serializes every word as four little-endian bytes.
pub fn words_to_le_bytes(words: &Vec<u32>) -> (r: Vec<u8>)
    ensures
        r@ == le_bytes_of_words(words@),
        r@.len() == 4 * words@.len(),
{
    let mut out: Vec<u8> = Vec::new();
    let mut i: usize = 0;
    while i < words.len()
        invariant
            i <= words@.len(),
            out@ =~= le_bytes_of_words(words@.take(i as int)),
            out@.len() == 4 * i,
        decreases words@.len() - i,
    {
        let w = words[i];
        out.push((w % 256) as u8);
        out.push(((w / 256) % 256) as u8);
        out.push(((w / 65536) % 256) as u8);
        out.push(((w / 16777216) % 256) as u8);
        proof {
            let pre = words@.take(i as int);
            let cur = words@.take(i as int + 1);
            assert(cur.drop_last() =~= pre);
            assert(cur.last() == words@[i as int]);
            assert(out@ =~= le_bytes_of_words(pre) + le_bytes_of_word(words@[i as int]));
        }
        i = i + 1;
    }
    proof {
        assert(words@.take(words@.len() as int) =~= words@);
    }
    out
}

/// The 32-byte SHA-256 digest, named: it is a function of the input bytes
/// alone.
pub uninterp spec fn sha256_of(bytes: Seq<u8>) -> Seq<u8>;

/// Relies on sha2's Sha256: the digest is 32 bytes and depends only on the
/// bytes fed to the hasher.
#[verifier::external_body]
fn sha256_digest(bytes: &Vec<u8>) -> (r: Vec<u8>)
    ensures
        r@ == sha256_of(bytes@),
        r@.len() == 32,
{
    let mut hasher = sha2::Sha256::new();
    hasher.update(bytes.as_slice());
    hasher.finalize().to_vec()
}

/// The lowercase hex character for one nibble.
pub open spec fn hex_digit(d: nat) -> char {
    if d == 0 {
        '0'
    } else if d == 1 {
        '1'
    } else if d == 2 {
        '2'
    } else if d == 3 {
        '3'
    } else if d == 4 {
        '4'
    } else if d == 5 {
        '5'
    } else if d == 6 {
        '6'
    } else if d == 7 {
        '7'
    } else if d == 8 {
        '8'
    } else if d == 9 {
        '9'
    } else if d == 10 {
        'a'
    } else if d == 11 {
        'b'
    } else if d == 12 {
        'c'
    } else if d == 13 {
        'd'
    } else if d == 14 {
        'e'
    } else {
        'f'
    }
}

/// Lowercase hex rendering of a byte sequence, two digits per byte, high
/// nibble first.
pub open spec fn hex_str_of_bytes(bytes: Seq<u8>) -> Seq<char>
    decreases bytes.len(),
{
    if bytes.len() == 0 {
        Seq::empty()
    } else {
        hex_str_of_bytes(bytes.drop_last()) + seq![
            hex_digit((bytes.last() / 16) as nat),
            hex_digit((bytes.last() % 16) as nat),
        ]
    }
}

/// Relies on hex::encode: each byte becomes two lowercase hex digits, high
/// nibble first, in input order.
#[verifier::external_body]
fn hex_encode(bytes: &Vec<u8>) -> (r: String)
    ensures
        r@ == hex_str_of_bytes(bytes@),
{
    hex::encode(bytes)
}

/// The canonical fingerprint of a buffer: lowercase hex of the SHA-256
/// digest of its little-endian bytes.
pub open spec fn spec_hash_of(data: Seq<u32>) -> Seq<char> {
    hex_str_of_bytes(sha256_of(le_bytes_of_words(data)))
}

/// Hashes the matrix buffer in row-major order.
pub fn compute_hash(matrix: &FlatMatrix) -> (r: String)
    ensures
        r@ == spec_hash_of(matrix.data@),
{
    let bytes = words_to_le_bytes(&matrix.data);
    let digest = sha256_digest(&bytes);
    hex_encode(&digest)
}

} // verus!
