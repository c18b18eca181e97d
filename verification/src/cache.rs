//! The operand cache: one memoized packed (transposed or quantized) copy of
//! the right-hand operand per precision family, reused across calls.
//!
//! Keying on the operand's storage address can hand back stale packed data
//! when an address is reused for a different matrix of the same shape. This
//! cache therefore keys on the operand's *content* — the entry keeps the
//! source buffer it was packed from and is reused only when the current
//! operand's bytes, shape and packing scale all agree — so a reused storage
//! location can never surface another matrix's packed form.

use vstd::prelude::*;

use crate::FlatMatrix;

verus! {

/// A packed copy together with the exact source it was packed from.
pub struct CacheEntry<P> {
    /// The operand content this entry was built from.
    pub source: Vec<u32>,
    pub rows: usize,
    pub cols: usize,
    /// The quantization scale's bit pattern, for the integer family.
    pub scale_bits: Option<u32>,
    /// The packed operand an implementation stored.
    pub packed: P,
}

/// A single cache slot for one precision family.
pub struct OperandCache<P> {
    pub entry: Option<CacheEntry<P>>,
}

/// Compares two word buffers element by element.
fn words_equal(a: &Vec<u32>, b: &Vec<u32>) -> (r: bool)
    ensures
        r == (a@ =~= b@),
{
    if a.len() != b.len() {
        return false;
    }
    let mut i: usize = 0;
    while i < a.len()
        invariant
            i <= a@.len(),
            a@.len() == b@.len(),
            forall|t: int| 0 <= t < i ==> a@[t] == b@[t],
        decreases a@.len() - i,
    {
        if a[i] != b[i] {
            return false;
        }
        i = i + 1;
    }
    proof {
        assert(a@ =~= b@);
    }
    true
}

/// Compares two optional scale patterns.
fn scales_equal(a: &Option<u32>, b: &Option<u32>) -> (r: bool)
    ensures
        r == (a == b),
{
    match (a, b) {
        (Some(x), Some(y)) => *x == *y,
        (None, None) => true,
        _ => false,
    }
}

impl<P> OperandCache<P> {
    /// The stored entry was packed from exactly this operand content, shape
    /// and scale.
    pub open spec fn holds_for(&self, b: &FlatMatrix, scale_bits: Option<u32>) -> bool {
        match self.entry {
            Some(e) => {
                &&& e.source@ =~= b.data@
                &&& e.rows == b.rows
                &&& e.cols == b.cols
                &&& e.scale_bits == scale_bits
            },
            None => false,
        }
    }

    /// An empty slot.
    pub fn new() -> (r: Self)
        ensures
            r.entry is None,
    {
        OperandCache { entry: None }
    }

    /// Hands back the packed copy exactly when the entry was built from this
    /// operand's content, shape and scale; a matrix with different content
    /// never sees another matrix's packed form.
    pub fn lookup(&self, b: &FlatMatrix, scale_bits: Option<u32>) -> (r: Option<&P>)
        ensures
            r is Some <==> self.holds_for(b, scale_bits),
            r matches Some(p) ==> self.entry matches Some(e) && *p == e.packed,
    {
        match &self.entry {
            Some(e) => {
                if e.rows == b.rows && e.cols == b.cols && scales_equal(&e.scale_bits, &scale_bits)
                    && words_equal(&e.source, &b.data) {
                    Some(&e.packed)
                } else {
                    None
                }
            },
            None => None,
        }
    }

    /// Replaces the slot wholesale with a copy packed from this operand.
    pub fn store(&mut self, b: &FlatMatrix, scale_bits: Option<u32>, packed: P)
        ensures
            final(self).holds_for(b, scale_bits),
            final(self).entry matches Some(e) && e.packed == packed,
    {
        let mut source: Vec<u32> = Vec::new();
        let mut i: usize = 0;
        while i < b.data.len()
            invariant
                i <= b.data@.len(),
                source@.len() == i,
                forall|t: int| 0 <= t < i ==> source@[t] == b.data@[t],
            decreases b.data@.len() - i,
        {
            source.push(b.data[i]);
            i = i + 1;
        }
        proof {
            assert(source@ =~= b.data@);
        }
        self.entry = Some(
            CacheEntry { source, rows: b.rows, cols: b.cols, scale_bits, packed },
        );
    }
}

/// The regression target made precise: whatever entry the cache holds, two
/// operands whose contents differ can never both be served by it — reusing
/// one storage location for two different matrices of the same shape cannot
/// surface the first matrix's packed operand for the second.
pub proof fn lemma_no_stale_reuse<P>(
    cache: &OperandCache<P>,
    b1: &FlatMatrix,
    b2: &FlatMatrix,
    scale_bits: Option<u32>,
)
    requires
        cache.holds_for(b1, scale_bits),
        !(b1.data@ =~= b2.data@),
    ensures
        !cache.holds_for(b2, scale_bits),
{
}

} // verus!
