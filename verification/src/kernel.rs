//! The exact integer kernels: u8-by-i8 matrix multiplication with 32-bit
//! accumulation, and the signed 8-bit dot product that the quantized fast
//! paths build on.
//!
//! Operand A is reinterpreted as unsigned 8-bit values and operand B as
//! signed 8-bit values — the seeded generator's convention — multiplied with
//! 32-bit accumulation, and each integer sum is encoded directly as a 32-bit
//! IEEE-754 bit pattern with no rescaling.

use vstd::prelude::*;

use crate::FlatMatrix;
use crate::lemma_row_major_index_in_range;
use crate::bits::{
    cast_bits_to_u8,
    cast_bits_to_i8,
    cast_u8_from_bits,
    cast_i8_from_bits,
    f32_bits_of_int,
    f32_bits_from_i64,
};

verus! {

/// Sum of the first `p` products of row `i` of `a` (decoded as unsigned
/// bytes) with column `j` of `b` (decoded as signed bytes); `k` is the inner
/// dimension and `n` the number of columns of `b`.
pub open spec fn dot_u8i8_prefix(
    a: Seq<u32>,
    b: Seq<u32>,
    i: int,
    j: int,
    k: int,
    n: int,
    p: int,
) -> int
    decreases p,
{
    if p <= 0 {
        0
    } else {
        dot_u8i8_prefix(a, b, i, j, k, n, p - 1) + cast_bits_to_u8(a[i * k + (p - 1)]) as int
            * cast_bits_to_i8(b[(p - 1) * n + j]) as int
    }
}

/// The full inner product over the `k` reduction steps.
pub open spec fn dot_u8i8(a: Seq<u32>, b: Seq<u32>, i: int, j: int, k: int, n: int) -> int {
    dot_u8i8_prefix(a, b, i, j, k, n, k)
}

/// Every prefix of the inner product stays within `p` times the largest
/// possible product of an unsigned and a signed byte.
pub proof fn lemma_dot_u8i8_prefix_bound(
    a: Seq<u32>,
    b: Seq<u32>,
    i: int,
    j: int,
    k: int,
    n: int,
    p: int,
)
    requires
        p >= 0,
    ensures
        -(p * 32640) <= dot_u8i8_prefix(a, b, i, j, k, n, p) <= p * 32640,
    decreases p,
{
    if p > 0 {
        lemma_dot_u8i8_prefix_bound(a, b, i, j, k, n, p - 1);
        let au = cast_bits_to_u8(a[i * k + (p - 1)]) as int;
        let bi = cast_bits_to_i8(b[(p - 1) * n + j]) as int;
        assert(-32640 <= au * bi <= 32640) by (nonlinear_arith)
            requires
                0 <= au <= 255,
                -128 <= bi <= 127,
        ;
    }
}

/// Decodes every element with `as u8` cast semantics.
fn decode_u8_vec(v: &Vec<u32>) -> (r: Vec<u8>)
    ensures
        r@.len() == v@.len(),
        forall|t: int| 0 <= t < v@.len() ==> r@[t] == cast_bits_to_u8(v@[t]),
{
    let mut r: Vec<u8> = Vec::new();
    let mut t: usize = 0;
    while t < v.len()
        invariant
            t <= v@.len(),
            r@.len() == t,
            forall|s: int| 0 <= s < t ==> r@[s] == cast_bits_to_u8(v@[s]),
        decreases v@.len() - t,
    {
        r.push(cast_u8_from_bits(v[t]));
        t = t + 1;
    }
    r
}

/// Decodes every element with `as i8` cast semantics.
fn decode_i8_vec(v: &Vec<u32>) -> (r: Vec<i8>)
    ensures
        r@.len() == v@.len(),
        forall|t: int| 0 <= t < v@.len() ==> r@[t] == cast_bits_to_i8(v@[t]),
{
    let mut r: Vec<i8> = Vec::new();
    let mut t: usize = 0;
    while t < v.len()
        invariant
            t <= v@.len(),
            r@.len() == t,
            forall|s: int| 0 <= s < t ==> r@[s] == cast_bits_to_i8(v@[s]),
        decreases v@.len() - t,
    {
        r.push(cast_i8_from_bits(v[t]));
        t = t + 1;
    }
    r
}

/// The result every u8i8 kernel must produce: element `(i, j)` is the exact
/// integer inner product, encoded as a binary32 bit pattern.
pub open spec fn u8i8_result_spec(a: &FlatMatrix, b: &FlatMatrix, r: &FlatMatrix) -> bool {
    &&& r.wf()
    &&& r.rows == a.rows
    &&& r.cols == b.cols
    &&& forall|i: int, j: int|
        0 <= i < r.rows && 0 <= j < r.cols ==> r.entry(i, j) == f32_bits_of_int(
            dot_u8i8(a.data@, b.data@, i, j, a.cols as int, b.cols as int),
        )
}

/// The exact u8i8 result as one row-major sequence: the unique buffer every
/// u8i8 kernel produces for these operands.
pub open spec fn u8i8_result_seq(a: &FlatMatrix, b: &FlatMatrix) -> Seq<u32> {
    Seq::new(
        (a.rows * b.cols) as nat,
        |t: int|
            f32_bits_of_int(
                dot_u8i8(
                    a.data@,
                    b.data@,
                    t / (b.cols as int),
                    t % (b.cols as int),
                    a.cols as int,
                    b.cols as int,
                ),
            ),
    )
}

/// A matrix meeting the u8i8 result specification holds exactly the result
/// sequence.
pub proof fn lemma_u8i8_result_data(a: &FlatMatrix, b: &FlatMatrix, r: &FlatMatrix)
    requires
        u8i8_result_spec(a, b, r),
    ensures
        r.data@ =~= u8i8_result_seq(a, b),
{
    let n = b.cols as int;
    assert forall|t: int| 0 <= t < r.data@.len() implies r.data@[t] == u8i8_result_seq(a, b)[t] by {
        if n > 0 {
            let i = t / n;
            let j = t % n;
            vstd::arithmetic::div_mod::lemma_fundamental_div_mod(t, n);
            vstd::arithmetic::div_mod::lemma_mod_bound(t, n);
            assert(0 <= i < r.rows) by (nonlinear_arith)
                requires
                    t == n * i + j,
                    0 <= j < n,
                    0 <= t < r.rows * n,
            ;
            assert(t == i * n + j);
            assert(r.data@[t] == r.entry(i, j));
        }
    }
}

/// u8-by-i8 matrix multiplication, generic shape. The inner dimension is
/// bounded so that no 32-bit accumulation can overflow.
pub fn matmul_u8i8(a: &FlatMatrix, b: &FlatMatrix) -> (r: FlatMatrix)
    requires
        a.wf(),
        b.wf(),
        a.cols == b.rows,
        (a.cols as int) * 32640 <= 0x7fff_ffff,
        (a.rows as int) * (b.cols as int) <= usize::MAX,
    ensures
        u8i8_result_spec(a, b, &r),
{
    let m = a.rows;
    let k = a.cols;
    let n = b.cols;
    let ghost aseq = a.data@;
    let ghost bseq = b.data@;
    let a_u8 = decode_u8_vec(&a.data);
    let b_i8 = decode_i8_vec(&b.data);
    let a_len = a.data.len();
    let b_len = b.data.len();

    let mut acc: Vec<i32> = Vec::new();
    let total = m * n;
    while acc.len() < total
        invariant
            acc@.len() <= total,
            forall|t: int| 0 <= t < acc@.len() ==> acc@[t] == 0i32,
        decreases total - acc@.len(),
    {
        acc.push(0i32);
    }

    proof {
        assert forall|r0: int, c: int| 0 <= r0 < m && 0 <= c < n implies acc@[r0 * n + c]
            == dot_u8i8_prefix(aseq, bseq, r0, c, k as int, n as int, 0) by {
            lemma_row_major_index_in_range(m as int, n as int, r0, c);
        }
    }

    let mut i: usize = 0;
    while i < m
        invariant
            i <= m,
            a.wf(),
            b.wf(),
            a.rows == m,
            a.cols == k,
            b.rows == k,
            b.cols == n,
            aseq == a.data@,
            bseq == b.data@,
            a_len == aseq.len(),
            b_len == bseq.len(),
            a_u8@.len() == aseq.len(),
            b_i8@.len() == bseq.len(),
            forall|t: int| 0 <= t < aseq.len() ==> a_u8@[t] == cast_bits_to_u8(aseq[t]),
            forall|t: int| 0 <= t < bseq.len() ==> b_i8@[t] == cast_bits_to_i8(bseq[t]),
            (k as int) * 32640 <= 0x7fff_ffff,
            acc@.len() == m * n,
            total == m * n,
            forall|r0: int, c: int|
                0 <= r0 < i && 0 <= c < n ==> acc@[r0 * n + c] == dot_u8i8_prefix(
                    aseq,
                    bseq,
                    r0,
                    c,
                    k as int,
                    n as int,
                    k as int,
                ),
            forall|r0: int, c: int|
                i <= r0 < m && 0 <= c < n ==> acc@[r0 * n + c] == dot_u8i8_prefix(
                    aseq,
                    bseq,
                    r0,
                    c,
                    k as int,
                    n as int,
                    0,
                ),
        decreases m - i,
    {
        let mut p: usize = 0;
        while p < k
            invariant
                p <= k,
                i < m,
                a.wf(),
                b.wf(),
                a.rows == m,
                a.cols == k,
                b.rows == k,
                b.cols == n,
                aseq == a.data@,
                bseq == b.data@,
                a_len == aseq.len(),
                b_len == bseq.len(),
                a_u8@.len() == aseq.len(),
                b_i8@.len() == bseq.len(),
                forall|t: int| 0 <= t < aseq.len() ==> a_u8@[t] == cast_bits_to_u8(aseq[t]),
                forall|t: int| 0 <= t < bseq.len() ==> b_i8@[t] == cast_bits_to_i8(bseq[t]),
                (k as int) * 32640 <= 0x7fff_ffff,
                acc@.len() == m * n,
                total == m * n,
                forall|r0: int, c: int|
                    0 <= r0 < i && 0 <= c < n ==> acc@[r0 * n + c] == dot_u8i8_prefix(
                        aseq,
                        bseq,
                        r0,
                        c,
                        k as int,
                        n as int,
                        k as int,
                    ),
                forall|r0: int, c: int|
                    i < r0 < m && 0 <= c < n ==> acc@[r0 * n + c] == dot_u8i8_prefix(
                        aseq,
                        bseq,
                        r0,
                        c,
                        k as int,
                        n as int,
                        0,
                    ),
                forall|c: int|
                    0 <= c < n ==> acc@[i * n + c] == dot_u8i8_prefix(
                        aseq,
                        bseq,
                        i as int,
                        c,
                        k as int,
                        n as int,
                        p as int,
                    ),
            decreases k - p,
        {
            proof {
                lemma_row_major_index_in_range(m as int, k as int, i as int, p as int);
            }
            let a_ip = a_u8[i * k + p] as i32;
            let ghost p1: int = p as int + 1;
            let mut j: usize = 0;
            while j < n
                invariant
                    j <= n,
                    p < k,
                    i < m,
                    a.wf(),
                    b.wf(),
                    a.rows == m,
                    a.cols == k,
                    b.rows == k,
                    b.cols == n,
                    aseq == a.data@,
                    bseq == b.data@,
                    a_len == aseq.len(),
                    b_len == bseq.len(),
                    a_u8@.len() == aseq.len(),
                    b_i8@.len() == bseq.len(),
                    forall|t: int| 0 <= t < aseq.len() ==> a_u8@[t] == cast_bits_to_u8(aseq[t]),
                    forall|t: int| 0 <= t < bseq.len() ==> b_i8@[t] == cast_bits_to_i8(bseq[t]),
                    (k as int) * 32640 <= 0x7fff_ffff,
                    a_ip as int == cast_bits_to_u8(aseq[i as int * k + p]) as int,
                    0 <= a_ip <= 255,
                    acc@.len() == m * n,
                    total == m * n,
                    forall|r0: int, c: int|
                        0 <= r0 < i && 0 <= c < n ==> acc@[r0 * n + c] == dot_u8i8_prefix(
                            aseq,
                            bseq,
                            r0,
                            c,
                            k as int,
                            n as int,
                            k as int,
                        ),
                    forall|r0: int, c: int|
                        i < r0 < m && 0 <= c < n ==> acc@[r0 * n + c] == dot_u8i8_prefix(
                            aseq,
                            bseq,
                            r0,
                            c,
                            k as int,
                            n as int,
                            0,
                        ),
                    forall|c: int|
                        j <= c < n ==> acc@[i * n + c] == dot_u8i8_prefix(
                            aseq,
                            bseq,
                            i as int,
                            c,
                            k as int,
                            n as int,
                            p as int,
                        ),
                    p1 == p as int + 1,
                    forall|c: int|
                        0 <= c < j ==> acc@[i * n + c] == dot_u8i8_prefix(
                            aseq,
                            bseq,
                            i as int,
                            c,
                            k as int,
                            n as int,
                            p1,
                        ),
                decreases n - j,
            {
                proof {
                    lemma_row_major_index_in_range(m as int, n as int, i as int, j as int);
                    lemma_row_major_index_in_range(k as int, n as int, p as int, j as int);
                    lemma_dot_u8i8_prefix_bound(
                        aseq,
                        bseq,
                        i as int,
                        j as int,
                        k as int,
                        n as int,
                        p as int,
                    );
                    assert((p as int) * 32640 + 32640 <= (k as int) * 32640) by (nonlinear_arith)
                        requires
                            0 <= p,
                            p < k,
                    ;
                    let au = a_ip as int;
                    let bi = cast_bits_to_i8(bseq[p as int * n + j]) as int;
                    assert(-32640 <= au * bi <= 32640) by (nonlinear_arith)
                        requires
                            0 <= au <= 255,
                            -128 <= bi <= 127,
                    ;
                }
                let idx = i * n + j;
                let b_pj = b_i8[p * n + j] as i32;
                let prior = acc[idx];
                let ghost acc_old = acc@;
                acc.set(idx, prior + a_ip * b_pj);
                proof {
                    assert forall|r0: int, c: int|
                        0 <= r0 < i && 0 <= c < n implies acc@[r0 * n + c] == dot_u8i8_prefix(
                        aseq,
                        bseq,
                        r0,
                        c,
                        k as int,
                        n as int,
                        k as int,
                    ) by {
                        lemma_row_major_index_in_range(m as int, n as int, r0, c);
                        if r0 * n + c == idx {
                            crate::lemma_row_major_injective(n as int, r0, c, i as int, j as int);
                        }
                    }
                    assert forall|r0: int, c: int|
                        i < r0 < m && 0 <= c < n implies acc@[r0 * n + c] == dot_u8i8_prefix(
                        aseq,
                        bseq,
                        r0,
                        c,
                        k as int,
                        n as int,
                        0,
                    ) by {
                        lemma_row_major_index_in_range(m as int, n as int, r0, c);
                        if r0 * n + c == idx {
                            crate::lemma_row_major_injective(n as int, r0, c, i as int, j as int);
                        }
                    }
                    assert forall|c: int|
                        0 <= c < j + 1 implies acc@[i * n + c] == dot_u8i8_prefix(
                        aseq,
                        bseq,
                        i as int,
                        c,
                        k as int,
                        n as int,
                        p1,
                    ) by {
                        lemma_row_major_index_in_range(m as int, n as int, i as int, c);
                        if c != j {
                            if i * n + c == idx {
                                crate::lemma_row_major_injective(
                                    n as int,
                                    i as int,
                                    c,
                                    i as int,
                                    j as int,
                                );
                            }
                        } else {
                            assert(dot_u8i8_prefix(
                                aseq,
                                bseq,
                                i as int,
                                j as int,
                                k as int,
                                n as int,
                                p1,
                            ) == dot_u8i8_prefix(
                                aseq,
                                bseq,
                                i as int,
                                j as int,
                                k as int,
                                n as int,
                                p as int,
                            ) + cast_bits_to_u8(aseq[i as int * k + p as int]) as int
                                * cast_bits_to_i8(bseq[(p as int) * n + j as int]) as int);
                        }
                    }
                    assert forall|c: int|
                        j + 1 <= c < n implies acc@[i * n + c] == dot_u8i8_prefix(
                        aseq,
                        bseq,
                        i as int,
                        c,
                        k as int,
                        n as int,
                        p as int,
                    ) by {
                        lemma_row_major_index_in_range(m as int, n as int, i as int, c);
                        if i * n + c == idx {
                            crate::lemma_row_major_injective(
                                n as int,
                                i as int,
                                c,
                                i as int,
                                j as int,
                            );
                        }
                    }
                }
                j = j + 1;
            }
            p = p + 1;
        }
        proof {
            assert forall|r0: int, c: int|
                0 <= r0 < i + 1 && 0 <= c < n implies acc@[r0 * n + c] == dot_u8i8_prefix(
                aseq,
                bseq,
                r0,
                c,
                k as int,
                n as int,
                k as int,
            ) by {}
        }
        i = i + 1;
    }

    let mut out: Vec<u32> = Vec::new();
    let mut t: usize = 0;
    while t < total
        invariant
            t <= total,
            total == m * n,
            acc@.len() == total,
            out@.len() == t,
            (k as int) * 32640 <= 0x7fff_ffff,
            forall|r0: int, c: int|
                0 <= r0 < m && 0 <= c < n ==> acc@[r0 * n + c] == dot_u8i8_prefix(
                    aseq,
                    bseq,
                    r0,
                    c,
                    k as int,
                    n as int,
                    k as int,
                ),
            forall|s: int| 0 <= s < t ==> out@[s] == f32_bits_of_int(acc@[s] as int),
        decreases total - t,
    {
        let v = acc[t];
        out.push(f32_bits_from_i64(v as i64));
        t = t + 1;
    }

    let r = FlatMatrix { data: out, rows: m, cols: n };
    proof {
        assert forall|i0: int, j0: int|
            0 <= i0 < m && 0 <= j0 < n implies r.entry(i0, j0) == f32_bits_of_int(
            dot_u8i8(aseq, bseq, i0, j0, k as int, n as int),
        ) by {
            lemma_row_major_index_in_range(m as int, n as int, i0, j0);
        }
    }
    r
}

/// Specialized u8-by-i8 fast path for the canonical 16-by-16 output shape.
/// The operands are packed into byte buffers first; the returned
/// nanosecond reading covers only the inner compute loop, so the reported
/// kernel time excludes the packing. The result is exactly the one the
/// generic path produces.
pub fn matmul_u8i8_16x16(a: &FlatMatrix, b: &FlatMatrix) -> (r: (FlatMatrix, u64))
    requires
        a.wf(),
        b.wf(),
        a.cols == b.rows,
        a.rows == 16,
        b.cols == 16,
        (a.cols as int) * 32640 <= 0x7fff_ffff,
    ensures
        u8i8_result_spec(a, b, &r.0),
{
    let m = a.rows;
    let k = a.cols;
    let n = b.cols;
    let ghost aseq = a.data@;
    let ghost bseq = b.data@;
    let a_u8 = decode_u8_vec(&a.data);
    let b_i8 = decode_i8_vec(&b.data);
    let a_len = a.data.len();
    let b_len = b.data.len();

    let mut out: Vec<u32> = Vec::new();
    let start = crate::clock::instant_now();
    let mut i: usize = 0;
    while i < 16
        invariant
            i <= 16,
            a.wf(),
            b.wf(),
            a.rows == 16,
            a.cols == k,
            b.rows == k,
            b.cols == 16,
            aseq == a.data@,
            bseq == b.data@,
            a_len == aseq.len(),
            b_len == bseq.len(),
            a_u8@.len() == aseq.len(),
            b_i8@.len() == bseq.len(),
            forall|t: int| 0 <= t < aseq.len() ==> a_u8@[t] == cast_bits_to_u8(aseq[t]),
            forall|t: int| 0 <= t < bseq.len() ==> b_i8@[t] == cast_bits_to_i8(bseq[t]),
            (k as int) * 32640 <= 0x7fff_ffff,
            out@.len() == i * 16,
            forall|i0: int, j0: int|
                0 <= i0 < i && 0 <= j0 < 16 ==> out@[i0 * 16 + j0] == f32_bits_of_int(
                    dot_u8i8(aseq, bseq, i0, j0, k as int, 16),
                ),
        decreases 16 - i,
    {
        let mut j: usize = 0;
        while j < 16
            invariant
                i < 16,
                j <= 16,
                a.wf(),
                b.wf(),
                a.rows == 16,
                a.cols == k,
                b.rows == k,
                b.cols == 16,
                aseq == a.data@,
                bseq == b.data@,
                a_len == aseq.len(),
                b_len == bseq.len(),
                a_u8@.len() == aseq.len(),
                b_i8@.len() == bseq.len(),
                forall|t: int| 0 <= t < aseq.len() ==> a_u8@[t] == cast_bits_to_u8(aseq[t]),
                forall|t: int| 0 <= t < bseq.len() ==> b_i8@[t] == cast_bits_to_i8(bseq[t]),
                (k as int) * 32640 <= 0x7fff_ffff,
                out@.len() == i * 16 + j,
                forall|i0: int, j0: int|
                    0 <= i0 < i && 0 <= j0 < 16 ==> out@[i0 * 16 + j0] == f32_bits_of_int(
                        dot_u8i8(aseq, bseq, i0, j0, k as int, 16),
                    ),
                forall|j0: int|
                    0 <= j0 < j ==> out@[i * 16 + j0] == f32_bits_of_int(
                        dot_u8i8(aseq, bseq, i as int, j0, k as int, 16),
                    ),
            decreases 16 - j,
        {
            let mut s: i32 = 0;
            let mut p: usize = 0;
            while p < k
                invariant
                    p <= k,
                    i < 16,
                    j < 16,
                    a.wf(),
                    b.wf(),
                    a.rows == 16,
                    a.cols == k,
                    b.rows == k,
                    b.cols == 16,
                    aseq == a.data@,
                    bseq == b.data@,
                    a_len == aseq.len(),
                    b_len == bseq.len(),
                    a_u8@.len() == aseq.len(),
                    b_i8@.len() == bseq.len(),
                    forall|t: int| 0 <= t < aseq.len() ==> a_u8@[t] == cast_bits_to_u8(aseq[t]),
                    forall|t: int| 0 <= t < bseq.len() ==> b_i8@[t] == cast_bits_to_i8(bseq[t]),
                    (k as int) * 32640 <= 0x7fff_ffff,
                    s as int == dot_u8i8_prefix(aseq, bseq, i as int, j as int, k as int, 16, p as int),
                decreases k - p,
            {
                proof {
                    lemma_row_major_index_in_range(16, k as int, i as int, p as int);
                    lemma_row_major_index_in_range(k as int, 16, p as int, j as int);
                    lemma_dot_u8i8_prefix_bound(
                        aseq,
                        bseq,
                        i as int,
                        j as int,
                        k as int,
                        16,
                        p as int,
                    );
                    assert((p as int) * 32640 + 32640 <= (k as int) * 32640) by (nonlinear_arith)
                        requires
                            0 <= p,
                            p < k,
                    ;
                    let au = cast_bits_to_u8(aseq[i as int * k + p as int]) as int;
                    let bi = cast_bits_to_i8(bseq[(p as int) * 16 + j as int]) as int;
                    assert(-32640 <= au * bi <= 32640) by (nonlinear_arith)
                        requires
                            0 <= au <= 255,
                            -128 <= bi <= 127,
                    ;
                }
                let a_ip = a_u8[i * k + p] as i32;
                let b_pj = b_i8[p * 16 + j] as i32;
                s = s + a_ip * b_pj;
                p = p + 1;
            }
            proof {
                lemma_dot_u8i8_prefix_bound(
                    aseq,
                    bseq,
                    i as int,
                    j as int,
                    k as int,
                    16,
                    k as int,
                );
            }
            out.push(f32_bits_from_i64(s as i64));
            j = j + 1;
        }
        i = i + 1;
    }
    let nanos = crate::clock::elapsed_nanos(&start);

    let r = FlatMatrix { data: out, rows: 16, cols: 16 };
    proof {
        assert forall|i0: int, j0: int|
            0 <= i0 < 16 && 0 <= j0 < 16 implies r.entry(i0, j0) == f32_bits_of_int(
            dot_u8i8(aseq, bseq, i0, j0, k as int, 16),
        ) by {
            lemma_row_major_index_in_range(16, 16, i0, j0);
        }
    }
    (r, nanos)
}

/// Both u8i8 kernels meet the same exact specification, so on any pair of
/// well-formed operands with the canonical shape the fast path and the
/// generic path produce identical matrices.
pub proof fn lemma_u8i8_paths_agree(a: &FlatMatrix, b: &FlatMatrix, r1: &FlatMatrix, r2: &FlatMatrix)
    requires
        u8i8_result_spec(a, b, r1),
        u8i8_result_spec(a, b, r2),
    ensures
        r1.data@ =~= r2.data@,
        r1.rows == r2.rows,
        r1.cols == r2.cols,
{
    crate::laws::lemma_matrix_data_from_entries(r1, r2);
}

/// The pattern with the sign bit cleared: the absolute value of the
/// encoded number.
pub open spec fn abs_bits(x: u32) -> u32 {
    if x >= 0x8000_0000 {
        (x - 0x8000_0000) as u32
    } else {
        x
    }
}

/// The largest absolute-value pattern among the first `p` elements, with
/// NaN patterns (those above the infinity pattern) skipped, starting from
/// the zero pattern.
pub open spec fn max_abs_bits_prefix(s: Seq<u32>, p: int) -> u32
    decreases p,
{
    if p <= 0 {
        0u32
    } else {
        let prev = max_abs_bits_prefix(s, p - 1);
        let cur = abs_bits(s[p - 1]);
        if cur <= 0x7f80_0000 && cur > prev {
            cur
        } else {
            prev
        }
    }
}

/// The bit pattern of the largest magnitude in the buffer, NaN entries
/// skipped. With the sign bit cleared, unsigned order of patterns
/// coincides with the numeric order of the encoded magnitudes, so this is
/// exactly the maximum the quantized paths' dynamic scale divides into.
pub fn max_abs_bits(v: &Vec<u32>) -> (r: u32)
    ensures
        r == max_abs_bits_prefix(v@, v@.len() as int),
{
    let mut best: u32 = 0;
    let mut t: usize = 0;
    while t < v.len()
        invariant
            t <= v@.len(),
            best == max_abs_bits_prefix(v@, t as int),
        decreases v@.len() - t,
    {
        let x = v[t];
        let cur = if x >= 0x8000_0000 {
            x - 0x8000_0000
        } else {
            x
        };
        if cur <= 0x7f80_0000 && cur > best {
            best = cur;
        }
        t = t + 1;
    }
    best
}

/// Sum of the first `p` elementwise products of two signed byte slices.
pub open spec fn dot_i8_prefix(a: Seq<i8>, b: Seq<i8>, p: int) -> int
    decreases p,
{
    if p <= 0 {
        0
    } else {
        dot_i8_prefix(a, b, p - 1) + (a[p - 1] as int) * (b[p - 1] as int)
    }
}

/// Every prefix of a signed byte dot product stays within `p * 16384`.
pub proof fn lemma_dot_i8_prefix_bound(a: Seq<i8>, b: Seq<i8>, p: int)
    requires
        p >= 0,
    ensures
        -(p * 16384) <= dot_i8_prefix(a, b, p) <= p * 16384,
    decreases p,
{
    if p > 0 {
        lemma_dot_i8_prefix_bound(a, b, p - 1);
        let x = a[p - 1] as int;
        let y = b[p - 1] as int;
        assert(-16384 <= x * y <= 16384) by (nonlinear_arith)
            requires
                -128 <= x <= 127,
                -128 <= y <= 127,
        ;
    }
}

/// Scalar inner product of two signed 8-bit slices with 32-bit
/// accumulation; the quantized fast paths hand it the packed rows. The
/// precondition asks exactly what the accumulator needs: no prefix of the
/// running sum may leave the 32-bit range (a caller that only knows the
/// slice length can discharge it through `lemma_dot_i8_prefix_bound`).
pub fn dot_i8(a: &[i8], b: &[i8]) -> (r: i32)
    requires
        a@.len() == b@.len(),
        forall|p: int|
            0 <= p <= a@.len() ==> -0x8000_0000 <= #[trigger] dot_i8_prefix(a@, b@, p)
                <= 0x7fff_ffff,
    ensures
        r as int == dot_i8_prefix(a@, b@, a@.len() as int),
{
    let len = a.len();
    let mut total: i32 = 0;
    let mut p: usize = 0;
    while p < len
        invariant
            p <= len,
            len == a@.len(),
            a@.len() == b@.len(),
            forall|q: int|
                0 <= q <= a@.len() ==> -0x8000_0000 <= #[trigger] dot_i8_prefix(a@, b@, q)
                    <= 0x7fff_ffff,
            total as int == dot_i8_prefix(a@, b@, p as int),
        decreases len - p,
    {
        proof {
            assert(dot_i8_prefix(a@, b@, p as int + 1) == dot_i8_prefix(a@, b@, p as int) + (
            a@[p as int] as int) * (b@[p as int] as int));
            let x = a@[p as int] as int;
            let y = b@[p as int] as int;
            assert(-16384 <= x * y <= 16384) by (nonlinear_arith)
                requires
                    -128 <= x <= 127,
                    -128 <= y <= 127,
            ;
        }
        let xa = a[p] as i32;
        let yb = b[p] as i32;
        total = total + xa * yb;
        p = p + 1;
    }
    total
}

} // verus!
