//! IEEE-754 binary32 bit patterns as pure integer arithmetic.
//!
//! The engine stores every matrix element as the bit pattern of a 32-bit
//! IEEE-754 value. The conversions that the exact u8i8 path and the seeded
//! generator need — encoding a small integer and truncating a value back to
//! an integer with the saturating semantics of an `as` cast — are integer
//! functions of the bit pattern, defined and verified here. Round to
//! nearest, ties to even, matches the platform conversion for every integer
//! whose magnitude is at most 2^31.

use vstd::prelude::*;
use vstd::arithmetic::power2::{
    pow2,
    lemma_pow2_adds,
    lemma_pow2_pos,
    lemma_pow2_strictly_increases,
    lemma_pow2_unfold,
    lemma2_to64,
};
use vstd::arithmetic::div_mod::{
    lemma_fundamental_div_mod,
    lemma_fundamental_div_mod_converse,
};

verus! {

/// Largest `e` with `pow2(e) <= n` (0 for `n < 2`).
pub open spec fn floor_log2(n: nat) -> nat
    decreases n,
{
    if n < 2 {
        0
    } else {
        1 + floor_log2(n / 2)
    }
}

/// `floor_log2` names the unique exponent window that contains `n`.
pub proof fn lemma_floor_log2_bounds(n: nat)
    requires
        n >= 1,
    ensures
        pow2(floor_log2(n)) <= n < pow2(floor_log2(n) + 1),
    decreases n,
{
    if n < 2 {
        lemma2_to64();
    } else {
        lemma_floor_log2_bounds(n / 2);
        lemma_pow2_unfold(floor_log2(n));
        lemma_pow2_unfold(floor_log2(n) + 1);
        assert(n == 2 * (n / 2) + n % 2) by {
            lemma_fundamental_div_mod(n as int, 2);
        }
    }
}

/// `floor_log2` is monotone in its window: if `pow2(e) <= n < pow2(e + 1)`
/// then `floor_log2(n) == e`.
pub proof fn lemma_floor_log2_unique(n: nat, e: nat)
    requires
        pow2(e) <= n < pow2(e + 1),
    ensures
        floor_log2(n) == e,
    decreases n,
{
    lemma_pow2_pos(e);
    if e == 0 {
        lemma2_to64();
    } else {
        lemma_pow2_unfold(e);
        lemma_pow2_unfold(e + 1);
        assert(n == 2 * (n / 2) + n % 2) by {
            lemma_fundamental_div_mod(n as int, 2);
        }
        lemma_floor_log2_unique(n / 2, (e - 1) as nat);
    }
}

/// Computes `pow2(e)` for exponents that fit in a `u64`.
pub fn pow2_u64(e: u64) -> (r: u64)
    requires
        e <= 63,
    ensures
        r as nat == pow2(e as nat),
{
    let mut r: u64 = 1;
    let mut i: u64 = 0;
    proof {
        lemma2_to64();
    }
    while i < e
        invariant
            i <= e,
            e <= 63,
            r as nat == pow2(i as nat),
        decreases e - i,
    {
        proof {
            lemma_pow2_unfold(i as nat + 1);
            if i as nat + 1 < 64 {
                lemma_pow2_strictly_increases(i as nat + 1, 64);
            }
            assert(pow2(64) == 0x10000000000000000) by {
                lemma_pow2_adds(32, 32);
                lemma2_to64();
            }
        }
        r = r * 2;
        i = i + 1;
    }
    r
}

/// The IEEE-754 binary32 bit pattern that a nonnegative integer magnitude
/// `m <= 2^31` rounds to (round to nearest, ties to even).
pub open spec fn f32_bits_of_abs(m: nat) -> u32 {
    if m == 0 {
        0u32
    } else {
        let e = floor_log2(m);
        if e <= 23 {
            ((127 + e) * pow2(23) + (m * pow2((23 - e) as nat) - pow2(23))) as u32
        } else {
            let sh = (e - 23) as nat;
            let q = m / pow2(sh);
            let r = m % pow2(sh);
            let q2: nat = if 2 * r > pow2(sh) || (2 * r == pow2(sh) && q % 2 == 1) {
                q + 1
            } else {
                q
            };
            if q2 == pow2(24) {
                ((127 + e + 1) * pow2(23)) as u32
            } else {
                ((127 + e) * pow2(23) + (q2 - pow2(23))) as u32
            }
        }
    }
}

/// The IEEE-754 binary32 bit pattern of an integer `v` with `|v| <= 2^31`;
/// negative values carry the sign bit over the magnitude's pattern.
pub open spec fn f32_bits_of_int(v: int) -> u32 {
    if v >= 0 {
        f32_bits_of_abs(v as nat)
    } else {
        (0x8000_0000u32 + f32_bits_of_abs((-v) as nat)) as u32
    }
}

/// Exponent field of a bit pattern (bits 23..31).
pub open spec fn exp_field(bits: u32) -> nat {
    ((bits as nat) / pow2(23)) % 256
}

/// Mantissa field of a bit pattern (bits 0..23).
pub open spec fn man_field(bits: u32) -> nat {
    (bits as nat) % pow2(23)
}

/// Sign bit of a bit pattern.
pub open spec fn sign_bit(bits: u32) -> bool {
    bits >= 0x8000_0000
}

/// The pattern encodes a NaN.
pub open spec fn is_nan_bits(bits: u32) -> bool {
    exp_field(bits) == 255 && man_field(bits) != 0
}

/// Magnitude of the encoded value truncated toward zero. Subnormals and all
/// magnitudes below one truncate to zero; the result for an infinity or NaN
/// pattern is a huge integer that callers never use directly.
pub open spec fn trunc_abs(bits: u32) -> nat {
    let e = exp_field(bits);
    let m = man_field(bits);
    if e < 127 {
        0
    } else {
        let k = (e - 127) as nat;
        if k <= 23 {
            (pow2(23) + m) / pow2((23 - k) as nat)
        } else {
            (pow2(23) + m) * pow2((k - 23) as nat)
        }
    }
}

/// The encoded value truncated toward zero, with its sign.
pub open spec fn trunc_int(bits: u32) -> int {
    if sign_bit(bits) {
        -(trunc_abs(bits) as int)
    } else {
        trunc_abs(bits) as int
    }
}

/// What `as u8` yields on the encoded value: zero for NaN and anything
/// negative, saturation at 255, truncation toward zero otherwise.
pub open spec fn cast_bits_to_u8(bits: u32) -> u8 {
    if is_nan_bits(bits) {
        0u8
    } else if sign_bit(bits) {
        0u8
    } else if exp_field(bits) == 255 {
        255u8
    } else if trunc_abs(bits) >= 256 {
        255u8
    } else {
        trunc_abs(bits) as u8
    }
}

/// What `as i8` yields on the encoded value: zero for NaN, saturation at
/// -128 and 127, truncation toward zero otherwise.
pub open spec fn cast_bits_to_i8(bits: u32) -> i8 {
    if is_nan_bits(bits) {
        0i8
    } else if sign_bit(bits) {
        if exp_field(bits) == 255 || trunc_abs(bits) >= 128 {
            -128i8
        } else {
            (-(trunc_abs(bits) as int)) as i8
        }
    } else {
        if exp_field(bits) == 255 || trunc_abs(bits) >= 127 {
            127i8
        } else {
            trunc_abs(bits) as i8
        }
    }
}

/// Exponent window of `m`, computed by halving.
fn floor_log2_u64(m: u64) -> (e: u64)
    requires
        m >= 1,
    ensures
        e as nat == floor_log2(m as nat),
{
    let mut e: u64 = 0;
    let mut t: u64 = m;
    proof {
        lemma2_to64();
    }
    while t >= 2
        invariant
            t >= 1,
            floor_log2(m as nat) == e + floor_log2(t as nat),
            t as nat * pow2(e as nat) <= m as nat,
        decreases t,
    {
        proof {
            assert(floor_log2(t as nat) == 1 + floor_log2((t / 2) as nat));
            lemma_pow2_pos(e as nat);
            lemma_pow2_unfold(e as nat + 1);
            lemma_fundamental_div_mod(t as int, 2);
            assert((t / 2) as nat * pow2(e as nat + 1) <= m as nat) by (nonlinear_arith)
                requires
                    t as nat * pow2(e as nat) <= m as nat,
                    pow2(e as nat + 1) == 2 * pow2(e as nat),
                    2 * (t as nat / 2) <= t as nat,
                    pow2(e as nat) >= 1,
            ;
            if e >= 64 {
                lemma2_to64();
                lemma_pow2_adds(32, 32);
                if e > 64 {
                    lemma_pow2_strictly_increases(64, e as nat);
                }
                assert(t as nat * pow2(e as nat) >= pow2(e as nat)) by (nonlinear_arith)
                    requires
                        t >= 1,
                        pow2(e as nat) >= 1,
                ;
                assert(false);
            }
        }
        t = t / 2;
        e = e + 1;
    }
    e
}

/// Encodes the magnitude `1 <= m <= 2^31` as a binary32 bit pattern.
fn f32_abs_bits_exec(m: u64) -> (r: u32)
    requires
        1 <= m <= 0x8000_0000,
    ensures
        r == f32_bits_of_abs(m as nat),
        r < 0x8000_0000,
{
    proof {
        lemma2_to64();
    }
    let e = floor_log2_u64(m);
    proof {
        lemma_floor_log2_bounds(m as nat);
        if e >= 32 {
            lemma_pow2_strictly_increases(31, e as nat);
            assert(pow2(31) == 0x8000_0000);
            assert(false);
        }
        lemma_pow2_pos(e as nat);
    }
    if e <= 23 {
        let p = pow2_u64(23 - e);
        proof {
            lemma_pow2_adds((e + 1) as nat, (23 - e) as nat);
            lemma_pow2_adds(e as nat, (23 - e) as nat);
            lemma_pow2_pos((23 - e) as nat);
            assert(m * p < pow2(24) && m * p >= pow2(23)) by (nonlinear_arith)
                requires
                    (m as nat) < pow2(e as nat + 1),
                    (m as nat) >= pow2(e as nat),
                    p as nat == pow2((23 - e) as nat),
                    p >= 1,
                    pow2(e as nat + 1) * pow2((23 - e) as nat) == pow2(24),
                    pow2(e as nat) * pow2((23 - e) as nat) == pow2(23),
            ;
            assert(pow2(24) == 0x1000000);
        }
        let full = m * p;
        let bits = (127 + e) * 8388608 + (full - 8388608);
        proof {
            assert(pow2(23) == 8388608);
        }
        bits as u32
    } else {
        let sh = e - 23;
        let d = pow2_u64(sh);
        proof {
            lemma_pow2_pos(sh as nat);
        }
        let q = m / d;
        let r = m % d;
        proof {
            lemma_fundamental_div_mod(m as int, d as int);
            lemma_pow2_adds(23, sh as nat);
            lemma_pow2_adds(24, sh as nat);
            assert(pow2(e as nat) == pow2(23) * pow2(sh as nat));
            assert(pow2(e as nat + 1) == pow2(24) * pow2(sh as nat));
            assert(q >= pow2(23) && q < pow2(24)) by (nonlinear_arith)
                requires
                    m as int == d as int * (q as int) + r as int,
                    0 <= r < d,
                    d as nat == pow2(sh as nat),
                    (m as nat) >= pow2(23) * pow2(sh as nat),
                    (m as nat) < pow2(24) * pow2(sh as nat),
                    d >= 1,
            ;
            assert(pow2(23) == 8388608);
            assert(pow2(24) == 16777216);
            if e >= 32 {
                assert(false);
            }
            assert(sh <= 8);
            if d > 0x200 {
                lemma_pow2_strictly_increases(9, sh as nat);
                assert(pow2(9) == 512);
                assert(false);
            }
        }
        let q2 = if 2 * r > d || (2 * r == d && q % 2 == 1) {
            q + 1
        } else {
            q
        };
        let bits = if q2 == 16777216 {
            (127 + e + 1) * 8388608
        } else {
            (127 + e) * 8388608 + (q2 - 8388608)
        };
        bits as u32
    }
}

/// Encodes an integer `|v| <= 2^31` as a binary32 bit pattern, rounding to
/// nearest with ties to even exactly as the platform conversion does.
pub fn f32_bits_from_i64(v: i64) -> (r: u32)
    requires
        -0x8000_0000 <= v <= 0x8000_0000,
    ensures
        r == f32_bits_of_int(v as int),
{
    if v >= 0 {
        if v == 0 {
            return 0;
        }
        f32_abs_bits_exec(v as u64)
    } else {
        let m = (-v) as u64;
        let mag = f32_abs_bits_exec(m);
        0x8000_0000u32 + mag
    }
}

/// A pattern assembled from sign, exponent field and mantissa field reads
/// back field by field.
pub proof fn lemma_bit_fields(bits: u32, sign: bool, ef: nat, man: nat)
    requires
        man < pow2(23),
        ef < 256,
        bits as nat == (if sign {
            pow2(31)
        } else {
            0nat
        }) + ef * pow2(23) + man,
    ensures
        sign_bit(bits) == sign,
        exp_field(bits) == ef,
        man_field(bits) == man,
{
    lemma2_to64();
    let s: nat = if sign {
        256
    } else {
        0
    };
    assert(bits as nat == (s + ef) * pow2(23) + man) by (nonlinear_arith)
        requires
            bits as nat == (if sign {
                pow2(31)
            } else {
                0nat
            }) + ef * pow2(23) + man,
            s == (if sign {
                256nat
            } else {
                0nat
            }),
            pow2(31) == 0x80000000,
            pow2(23) == 0x800000,
    ;
    lemma_fundamental_div_mod_converse(
        bits as int,
        pow2(23) as int,
        (s + ef) as int,
        man as int,
    );
    lemma_fundamental_div_mod_converse((s + ef) as int, 256, (s / 256) as int, ef as int);
    assert(exp_field(bits) == ef);
    assert(man_field(bits) == man);
    if sign {
        assert(bits as nat >= pow2(31));
    } else {
        assert((s + ef) * pow2(23) + man < pow2(31)) by (nonlinear_arith)
            requires
                s == 0,
                ef < 256,
                man < pow2(23),
                pow2(31) == 0x80000000,
                pow2(23) == 0x800000,
        ;
    }
}

/// Every integer of magnitude at most 2^24 is encoded exactly: truncating
/// the encoded pattern recovers the integer, and the pattern is a finite,
/// non-NaN one. This is the "no rounding" guarantee behind the exact u8i8
/// path.
pub proof fn lemma_encode_exact(v: int)
    requires
        -pow2(24) <= v <= pow2(24),
    ensures
        trunc_int(f32_bits_of_int(v)) == v,
        exp_field(f32_bits_of_int(v)) < 255,
        !is_nan_bits(f32_bits_of_int(v)),
        sign_bit(f32_bits_of_int(v)) == (v < 0),
{
    lemma2_to64();
    if v == 0 {
        let bits = f32_bits_of_int(0);
        assert(bits == 0u32);
        lemma_bit_fields(0u32, false, 0, 0);
        lemma_pow2_pos(23);
    } else {
        let m: nat = if v >= 0 {
            v as nat
        } else {
            (-v) as nat
        };
        lemma_abs_encode_exact(m);
        let mag = f32_bits_of_abs(m);
        let ef = exp_field(mag);
        let man = man_field(mag);
        if v >= 0 {
            assert(f32_bits_of_int(v) == mag);
        } else {
            let bits = f32_bits_of_int(v);
            lemma_bit_fields(mag, false, ef, man);
            assert(mag as nat == ef * pow2(23) + man) by {
                lemma_fundamental_div_mod(mag as int, pow2(23) as int);
                lemma_fundamental_div_mod((mag as nat / pow2(23)) as int, 256);
                assert(mag < pow2(31));
                assert((mag as nat / pow2(23)) < 256) by (nonlinear_arith)
                    requires
                        (mag as nat) < pow2(31),
                        pow2(31) == 0x80000000,
                        pow2(23) == 0x800000,
                        mag as nat == pow2(23) * (mag as nat / pow2(23)) + (mag as nat % pow2(
                            23,
                        )),
                        0 <= (mag as nat % pow2(23)),
                ;
            }
            assert(bits as nat == pow2(31) + ef * pow2(23) + man);
            lemma_bit_fields(bits, true, ef, man);
        }
    }
}

/// Exact encoding for positive magnitudes up to 2^24: the truncated
/// magnitude of the pattern is the magnitude itself, and the exponent field
/// stays below 255.
proof fn lemma_abs_encode_exact(m: nat)
    requires
        1 <= m <= pow2(24),
    ensures
        trunc_abs(f32_bits_of_abs(m)) == m,
        exp_field(f32_bits_of_abs(m)) < 255,
        !sign_bit(f32_bits_of_abs(m)),
        man_field(f32_bits_of_abs(m)) < pow2(23),
{
    lemma2_to64();
    let e = floor_log2(m);
    lemma_floor_log2_bounds(m);
    if e >= 25 {
        lemma_pow2_strictly_increases(24, e);
        assert(false);
    }
    if e <= 23 {
        lemma_pow2_pos((23 - e) as nat);
        lemma_pow2_adds(e, (23 - e) as nat);
        lemma_pow2_adds(e + 1, (23 - e) as nat);
        let full = m * pow2((23 - e) as nat);
        assert(pow2(23) <= full < pow2(24)) by (nonlinear_arith)
            requires
                pow2(e) <= m < pow2(e + 1),
                pow2(e) * pow2((23 - e) as nat) == pow2(23),
                pow2(e + 1) * pow2((23 - e) as nat) == pow2(24),
                full == m * pow2((23 - e) as nat),
                pow2((23 - e) as nat) >= 1,
        ;
        assert(pow2(24) == pow2(24));
        let man = (full - pow2(23)) as nat;
        let bits = f32_bits_of_abs(m);
        assert(bits as nat == (127 + e) * pow2(23) + man);
        lemma_bit_fields(bits, false, 127 + e, man);
        // truncation divides the full mantissa back down
        let k = e;
        lemma_pow2_pos((23 - k) as nat);
        assert((pow2(23) + man) == m * pow2((23 - e) as nat));
        lemma_fundamental_div_mod_converse(
            (pow2(23) + man) as int,
            pow2((23 - e) as nat) as int,
            m as int,
            0,
        );
        assert(trunc_abs(bits) == m);
    } else {
        // e == 24 forces m == pow2(24) exactly, encoded with a zero mantissa
        assert(e == 24);
        assert(m == pow2(24)) by {
            if m < pow2(24) {
                lemma_floor_log2_unique(m, 24);
                assert(pow2(24) <= m);
                assert(false);
            }
        }
        let sh: nat = 1;
        lemma_pow2_pos(sh);
        assert(pow2(sh) == 2);
        lemma_fundamental_div_mod_converse(m as int, 2, pow2(23) as int, 0);
        let q = m / pow2(sh);
        let r = m % pow2(sh);
        assert(q == pow2(23) && r == 0);
        let bits = f32_bits_of_abs(m);
        assert(bits as nat == (127 + 24) * pow2(23) + 0);
        lemma_bit_fields(bits, false, 151, 0);
        assert(trunc_abs(bits) == (pow2(23) + 0) * pow2((24 - 23) as nat));
        assert(pow2(23) * pow2(1) == pow2(24)) by {
            lemma_pow2_adds(23, 1);
        }
    }
}

/// Encoding a byte value and casting the pattern back with `as u8`
/// semantics recovers the byte.
pub proof fn lemma_cast_u8_roundtrip(x: nat)
    requires
        x <= 255,
    ensures
        cast_bits_to_u8(f32_bits_of_int(x as int)) == x,
{
    lemma2_to64();
    lemma_encode_exact(x as int);
    let bits = f32_bits_of_int(x as int);
    if x == 0 {
        assert(bits == 0u32);
        lemma_bit_fields(0u32, false, 0, 0);
    } else {
        assert(trunc_abs(bits) == x);
    }
}

/// Encoding a signed byte value and casting the pattern back with `as i8`
/// semantics recovers the value.
pub proof fn lemma_cast_i8_roundtrip(x: int)
    requires
        -128 <= x <= 127,
    ensures
        cast_bits_to_i8(f32_bits_of_int(x)) == x,
{
    lemma2_to64();
    lemma_encode_exact(x);
    let bits = f32_bits_of_int(x);
    if x == 0 {
        assert(bits == 0u32);
        lemma_bit_fields(0u32, false, 0, 0);
    } else if x > 0 {
        assert(trunc_abs(bits) == x);
        if x == 127 {
            assert(cast_bits_to_i8(bits) == 127i8);
        }
    } else {
        assert(trunc_abs(bits) == -x);
    }
}

/// Truncates the encoded magnitude toward zero for exponents below 127 + 8,
/// i.e. wherever the result can be smaller than 256.
fn trunc_small_abs(e: u32, man: u32) -> (t: u32)
    requires
        127 <= e,
        e - 127 < 8,
        man < 0x800000,
    ensures
        t as nat == (pow2(23) + man as nat) / pow2((23 - (e - 127)) as nat),
        t < 256,
{
    let k = e - 127;
    let p = pow2_u64((23 - k) as u64);
    proof {
        lemma_pow2_pos((23 - k) as nat);
    }
    let t64 = (8388608u64 + man as u64) / p;
    proof {
        lemma2_to64();
        lemma_pow2_adds((k + 1) as nat, (23 - k) as nat);
        lemma_fundamental_div_mod((8388608 + man) as int, p as int);
        assert(t64 < pow2((k + 1) as nat)) by (nonlinear_arith)
            requires
                (8388608 + man as int) == p as int * (t64 as int) + (8388608 + man as int) % (
                p as int),
                0 <= (8388608 + man as int) % (p as int),
                p as nat == pow2((23 - k) as nat),
                p >= 1,
                8388608 + man < 0x1000000,
                pow2((k + 1) as nat) * pow2((23 - k) as nat) == pow2(24),
                pow2(24) == 0x1000000,
        ;
        if (k + 1) as nat <= 8 {
            if pow2((k + 1) as nat) > 256 {
                lemma_pow2_strictly_increases(8, (k + 1) as nat);
                assert(false);
            }
        }
    }
    t64 as u32
}

/// Saturating truncation of the encoded magnitude is at least 256 whenever
/// the unbiased exponent reaches 8.
proof fn lemma_trunc_abs_large(bits: u32)
    requires
        exp_field(bits) >= 135,
        exp_field(bits) < 255,
    ensures
        trunc_abs(bits) >= 256,
{
    lemma2_to64();
    let e = exp_field(bits);
    let m = man_field(bits);
    let k = (e - 127) as nat;
    assert(k >= 8);
    if k <= 23 {
        lemma_pow2_pos((23 - k) as nat);
        lemma_pow2_adds(k, (23 - k) as nat);
        lemma_fundamental_div_mod((pow2(23) + m) as int, pow2((23 - k) as nat) as int);
        assert((pow2(23) + m) / pow2((23 - k) as nat) >= pow2(k)) by (nonlinear_arith)
            requires
                (pow2(23) + m) as int == pow2((23 - k) as nat) as int * (((pow2(23) + m) as nat
                    / pow2((23 - k) as nat)) as int) + ((pow2(23) + m) as nat % pow2(
                    (23 - k) as nat,
                )) as int,
                ((pow2(23) + m) as nat % pow2((23 - k) as nat)) < pow2((23 - k) as nat),
                pow2((23 - k) as nat) >= 1,
                pow2(k) * pow2((23 - k) as nat) == pow2(23),
                m >= 0,
        ;
        if pow2(k) < 256 {
            if k > 8 {
                lemma_pow2_strictly_increases(8, k);
            }
            assert(pow2(8) == 256);
            assert(false);
        }
    } else {
        lemma_pow2_pos((k - 23) as nat);
        assert((pow2(23) + m) * pow2((k - 23) as nat) >= pow2(23)) by (nonlinear_arith)
            requires
                pow2((k - 23) as nat) >= 1,
                m >= 0,
                pow2(23) >= 0,
        ;
        assert(pow2(23) >= 256);
    }
}

/// Reads the fields of a bit pattern.
fn split_bits(bits: u32) -> (r: (bool, u32, u32))
    ensures
        r.0 == sign_bit(bits),
        r.1 as nat == exp_field(bits),
        r.2 as nat == man_field(bits),
        r.1 < 256,
        r.2 < 0x800000,
{
    proof {
        lemma2_to64();
    }
    let e = (bits / 8388608) % 256;
    let man = bits % 8388608;
    let sign = bits >= 0x8000_0000;
    (sign, e, man)
}

/// What `as u8` yields on the value whose bit pattern is `bits`.
pub fn cast_u8_from_bits(bits: u32) -> (r: u8)
    ensures
        r == cast_bits_to_u8(bits),
{
    let (sign, e, man) = split_bits(bits);
    if e == 255 && man != 0 {
        return 0;
    }
    if sign {
        return 0;
    }
    if e == 255 {
        return 255;
    }
    if e < 127 {
        return 0;
    }
    if e - 127 >= 8 {
        proof {
            lemma_trunc_abs_large(bits);
        }
        return 255;
    }
    let t = trunc_small_abs(e, man);
    t as u8
}

/// What `as i8` yields on the value whose bit pattern is `bits`.
pub fn cast_i8_from_bits(bits: u32) -> (r: i8)
    ensures
        r == cast_bits_to_i8(bits),
{
    let (sign, e, man) = split_bits(bits);
    if e == 255 && man != 0 {
        return 0;
    }
    if e == 255 {
        return if sign {
            -128
        } else {
            127
        };
    }
    if e < 127 {
        return 0;
    }
    if e - 127 >= 8 {
        proof {
            lemma_trunc_abs_large(bits);
        }
        return if sign {
            -128
        } else {
            127
        };
    }
    let t = trunc_small_abs(e, man);
    if sign {
        if t >= 128 {
            -128
        } else {
            let ti = t as i8;
            -ti
        }
    } else {
        if t >= 127 {
            127
        } else {
            t as i8
        }
    }
}

} // verus!
