//! The seeded matrix generator: a byte seed is fed to a cryptographic
//! extendable-output function and the stream is split into the two
//! operands. The first block becomes matrix A, each byte stored as the bit
//! pattern of its unsigned value; the second becomes matrix B, each byte
//! shifted down by 128 into the signed range before encoding. Identical
//! seed and dimensions always yield bit-identical matrices.

use vstd::prelude::*;

use crate::FlatMatrix;
use crate::error::Error;
use crate::bits::{f32_bits_of_int, f32_bits_from_i64};

verus! {

/// The first `n` bytes of the extendable output stream of `seed`, named: the
/// stream is a function of the seed and requested length alone.
pub uninterp spec fn blake3_xof(seed: Seq<u8>, n: nat) -> Seq<u8>;

/// Relies on blake3: hashing `seed` and filling an `n`-byte buffer from the
/// extendable-output reader yields a stream determined by seed and length.
#[verifier::external_body]
fn blake3_xof_bytes(seed: &[u8], n: usize) -> (r: Vec<u8>)
    ensures
        r@ == blake3_xof(seed@, n as nat),
        r@.len() == n,
{
    let mut hasher = blake3::Hasher::new();
    hasher.update(seed);
    let mut out = vec![0u8; n];
    hasher.finalize_xof().fill(&mut out);
    out
}

/// What the generator owes: A holds the unsigned byte values of the first
/// block of the stream, B the byte values of the second block shifted down
/// by 128, both encoded as binary32 bit patterns.
pub open spec fn generated_pair_spec(
    seed: Seq<u8>,
    rows_a: nat,
    cols_a: nat,
    rows_b: nat,
    cols_b: nat,
    a: &FlatMatrix,
    b: &FlatMatrix,
) -> bool {
    let stream = blake3_xof(seed, rows_a * cols_a + rows_b * cols_b);
    &&& a.wf()
    &&& a.rows == rows_a
    &&& a.cols == cols_a
    &&& b.wf()
    &&& b.rows == rows_b
    &&& b.cols == cols_b
    &&& forall|t: int|
        0 <= t < rows_a * cols_a ==> a.data@[t] == f32_bits_of_int(stream[t] as int)
    &&& forall|t: int|
        0 <= t < rows_b * cols_b ==> b.data@[t] == f32_bits_of_int(
            stream[rows_a * cols_a + t] as int - 128,
        )
}

/// Derives the two operand matrices deterministically from a byte seed.
pub fn generate_matrices_from_seed(
    seed: &[u8],
    rows_a: usize,
    cols_a: usize,
    rows_b: usize,
    cols_b: usize,
) -> (r: (FlatMatrix, FlatMatrix))
    requires
        rows_a * cols_a + rows_b * cols_b <= usize::MAX,
        rows_a * cols_a <= usize::MAX,
        rows_b * cols_b <= usize::MAX,
    ensures
        generated_pair_spec(
            seed@,
            rows_a as nat,
            cols_a as nat,
            rows_b as nat,
            cols_b as nat,
            &r.0,
            &r.1,
        ),
{
    let a_count = rows_a * cols_a;
    let b_count = rows_b * cols_b;
    let total = a_count + b_count;
    let stream = blake3_xof_bytes(seed, total);

    let mut a_data: Vec<u32> = Vec::new();
    let mut t: usize = 0;
    while t < a_count
        invariant
            t <= a_count,
            a_count + b_count == total,
            stream@.len() == total,
            a_data@.len() == t,
            forall|s: int|
                0 <= s < t ==> a_data@[s] == f32_bits_of_int(stream@[s] as int),
        decreases a_count - t,
    {
        let byte = stream[t];
        a_data.push(f32_bits_from_i64(byte as i64));
        t = t + 1;
    }

    let mut b_data: Vec<u32> = Vec::new();
    let mut u: usize = 0;
    while u < b_count
        invariant
            u <= b_count,
            a_count + b_count == total,
            stream@.len() == total,
            b_data@.len() == u,
            forall|s: int|
                0 <= s < u ==> b_data@[s] == f32_bits_of_int(stream@[a_count + s] as int - 128),
        decreases b_count - u,
    {
        let byte = stream[a_count + u];
        b_data.push(f32_bits_from_i64(byte as i64 - 128));
        u = u + 1;
    }

    (
        FlatMatrix { data: a_data, rows: rows_a, cols: cols_a },
        FlatMatrix { data: b_data, rows: rows_b, cols: cols_b },
    )
}

/// A character that hex decoding accepts.
pub open spec fn is_hex_digit_char(c: char) -> bool {
    ('0' <= c && c <= '9') || ('a' <= c && c <= 'f') || ('A' <= c && c <= 'F')
}

/// The nibble value of an accepted character.
pub open spec fn hex_char_val(c: char) -> nat {
    if '0' <= c && c <= '9' {
        (c as nat - '0' as nat) as nat
    } else if 'a' <= c && c <= 'f' {
        (c as nat - 'a' as nat + 10) as nat
    } else {
        (c as nat - 'A' as nat + 10) as nat
    }
}

/// A string decodes exactly when it has an even number of characters, all
/// of them hex digits.
pub open spec fn hex_decodable(s: Seq<char>) -> bool {
    s.len() % 2 == 0 && forall|i: int| 0 <= i < s.len() ==> is_hex_digit_char(#[trigger] s[i])
}

/// The bytes a hex string decodes to, two characters per byte.
pub open spec fn hex_decode_spec(s: Seq<char>) -> Seq<u8> {
    Seq::new(s.len() / 2, |i: int| (hex_char_val(s[2 * i]) * 16 + hex_char_val(s[2 * i + 1])) as u8)
}

/// Relies on hex::decode: it succeeds exactly on even-length strings of hex
/// digits of either case, pairing characters high nibble first; the error
/// rendering is the decoder's own. The decoder checks the string's bytes,
/// but a character outside ASCII only produces bytes outside the digit
/// set, so its byte-level acceptance and this character-level statement
/// coincide.
#[verifier::external_body]
fn hex_decode(s: &str) -> (r: Result<Vec<u8>, String>)
    ensures
        r is Ok <==> hex_decodable(s@),
        r matches Ok(b) ==> b@ == hex_decode_spec(s@),
{
    match hex::decode(s) {
        Ok(b) => Ok(b),
        Err(e) => Err(format!("{}", e)),
    }
}

/// Convenience variant taking the seed as a hex string; a malformed seed
/// fails with `InvalidSeed`.
pub fn generate_matrices_from_seed_hex(
    seed_hex: &str,
    rows_a: usize,
    cols_a: usize,
    rows_b: usize,
    cols_b: usize,
) -> (r: Result<(FlatMatrix, FlatMatrix), Error>)
    requires
        rows_a * cols_a + rows_b * cols_b <= usize::MAX,
        rows_a * cols_a <= usize::MAX,
        rows_b * cols_b <= usize::MAX,
    ensures
        r is Ok <==> hex_decodable(seed_hex@),
        r matches Ok(pair) ==> generated_pair_spec(
            hex_decode_spec(seed_hex@),
            rows_a as nat,
            cols_a as nat,
            rows_b as nat,
            cols_b as nat,
            &pair.0,
            &pair.1,
        ),
        r matches Err(e) ==> e is InvalidSeed,
{
    match hex_decode(seed_hex) {
        Ok(seed_bytes) => {
            let pair = generate_matrices_from_seed(
                seed_bytes.as_slice(),
                rows_a,
                cols_a,
                rows_b,
                cols_b,
            );
            Ok(pair)
        },
        Err(detail) => Err(Error::InvalidSeed { detail }),
    }
}

/// Seed determinism: two generated pairs from the same seed and dimensions
/// are identical, byte for byte.
pub proof fn lemma_generate_deterministic(
    seed: Seq<u8>,
    rows_a: nat,
    cols_a: nat,
    rows_b: nat,
    cols_b: nat,
    a1: &FlatMatrix,
    b1: &FlatMatrix,
    a2: &FlatMatrix,
    b2: &FlatMatrix,
)
    requires
        generated_pair_spec(seed, rows_a, cols_a, rows_b, cols_b, a1, b1),
        generated_pair_spec(seed, rows_a, cols_a, rows_b, cols_b, a2, b2),
    ensures
        a1.data@ =~= a2.data@,
        b1.data@ =~= b2.data@,
        a1.rows == a2.rows && a1.cols == a2.cols,
        b1.rows == b2.rows && b1.cols == b2.cols,
{
}

} // verus!
