//! Sanitization of the precomputed diode-clipper table.
//!
//! The table is built once by sampling the closed-form diode clipping law
//! at `CLIP_N` uniformly spaced inputs.  Near the edges of the domain the
//! exponential inside that law can overflow to an infinity or a NaN, and
//! no such entry may be published: each one is replaced by the nearest
//! finite extreme of the whole table — its minimum for indices in the
//! lower half, its maximum for the upper half.  The entries arrive here
//! as raw bit patterns of 32-bit IEEE-754 floats, so both finiteness and
//! the ordering of the finite entries are decided by integer arithmetic
//! alone.

use vstd::prelude::*;

verus! {

/// Number of samples in the clipping table.
pub const CLIP_N: usize = 32768;

/// Whether `b`, read as the bit pattern of a 32-bit IEEE-754 float,
/// denotes a finite value: the eight exponent bits are not all ones.
pub open spec fn is_finite_bits(b: u32) -> bool {
    b & 0x7f80_0000 != 0x7f80_0000
}

/// Tests the exponent field of a float bit pattern for finiteness.
pub fn bits_finite(b: u32) -> (r: bool)
    ensures
        r == is_finite_bits(b),
{
    b & 0x7f80_0000 != 0x7f80_0000
}

/// A key under which the bit patterns of finite floats compare as the
/// floats themselves do: negative patterns (sign bit set) are flipped
/// entirely, non-negative ones are lifted above them.  Ties between the
/// two zeros are broken with -0.0 below +0.0.
pub open spec fn order_key(b: u32) -> u32 {
    if b & 0x8000_0000 != 0 {
        !b
    } else {
        b | 0x8000_0000
    }
}

/// Computes the ordering key of a float bit pattern.
pub fn bits_order_key(b: u32) -> (r: u32)
    ensures
        r == order_key(b),
{
    if b & 0x8000_0000 != 0 {
        !b
    } else {
        b | 0x8000_0000
    }
}

/// Whether some entry of `s` is a finite float bit pattern.
pub open spec fn has_finite(s: Seq<u32>) -> bool {
    exists|i: int| 0 <= i < s.len() && is_finite_bits(s[i])
}

/// The least finite entry of `s` under the float ordering, or the bit
/// pattern of 0.0 when `s` holds no finite entry.
pub open spec fn finite_min(s: Seq<u32>) -> u32
    decreases s.len(),
{
    if s.len() == 0 {
        0
    } else {
        let rest = finite_min(s.drop_last());
        let x = s.last();
        if !is_finite_bits(x) {
            rest
        } else if !has_finite(s.drop_last()) {
            x
        } else if order_key(x) < order_key(rest) {
            x
        } else {
            rest
        }
    }
}

/// The greatest finite entry of `s` under the float ordering, or the bit
/// pattern of 0.0 when `s` holds no finite entry.
pub open spec fn finite_max(s: Seq<u32>) -> u32
    decreases s.len(),
{
    if s.len() == 0 {
        0
    } else {
        let rest = finite_max(s.drop_last());
        let x = s.last();
        if !is_finite_bits(x) {
            rest
        } else if !has_finite(s.drop_last()) {
            x
        } else if order_key(x) > order_key(rest) {
            x
        } else {
            rest
        }
    }
}

/// Entry `i` of the published table built from the raw samples `s`:
/// finite samples are kept, a non-finite sample in the lower half of the
/// index range becomes the finite minimum of the whole table and one in
/// the upper half its finite maximum.
pub open spec fn sanitized(s: Seq<u32>, i: int) -> u32 {
    if is_finite_bits(s[i]) {
        s[i]
    } else if i >= s.len() / 2 {
        finite_max(s)
    } else {
        finite_min(s)
    }
}

/// Law: whatever the raw samples were, every entry the sanitization
/// publishes is finite — the extremes are finite entries of the table
/// when it has any, and the fallback 0.0 is finite.
pub proof fn lemma_extremes_finite(s: Seq<u32>)
    ensures
        has_finite(s) ==> is_finite_bits(finite_min(s)) && is_finite_bits(finite_max(s)),
        !has_finite(s) ==> finite_min(s) == 0 && finite_max(s) == 0,
        is_finite_bits(0),
    decreases s.len(),
{
    assert(0u32 & 0x7f80_0000 != 0x7f80_0000) by (bit_vector);
    if s.len() > 0 {
        lemma_extremes_finite(s.drop_last());
        if !is_finite_bits(s.last()) && has_finite(s) {
            let i = choose|i: int| 0 <= i < s.len() && is_finite_bits(s[i]);
            assert(s.drop_last()[i] == s[i]);
        }
        if is_finite_bits(s.last()) {
            assert(is_finite_bits(s[s.len() - 1]));
        }
    }
}

/// The finite extremes bound every finite entry of the table: under the
/// float ordering no finite entry lies below `finite_min` or above
/// `finite_max`.
pub proof fn lemma_extremes_bound(s: Seq<u32>, i: int)
    requires
        0 <= i < s.len(),
        is_finite_bits(s[i]),
    ensures
        order_key(finite_min(s)) <= order_key(s[i]),
        order_key(s[i]) <= order_key(finite_max(s)),
    decreases s.len(),
{
    assert(is_finite_bits(s[i]));
    if i == s.len() - 1 {
        if has_finite(s.drop_last()) {
            let j = choose|j: int|
                0 <= j < s.drop_last().len() && #[trigger] is_finite_bits(s.drop_last()[j]);
            lemma_extremes_bound(s.drop_last(), j);
        }
    } else {
        assert(s.drop_last()[i] == s[i]);
        lemma_extremes_bound(s.drop_last(), i);
    }
}

/// When the table holds a finite entry at all, its finite extremes are
/// themselves entries of the table.
pub proof fn lemma_extremes_attained(s: Seq<u32>)
    requires
        has_finite(s),
    ensures
        exists|i: int| 0 <= i < s.len() && s[i] == finite_min(s),
        exists|i: int| 0 <= i < s.len() && s[i] == finite_max(s),
    decreases s.len(),
{
    if is_finite_bits(s.last()) && !has_finite(s.drop_last()) {
        assert(s[s.len() - 1] == finite_min(s));
        assert(s[s.len() - 1] == finite_max(s));
    } else if !has_finite(s.drop_last()) {
        let i = choose|i: int| 0 <= i < s.len() && #[trigger] is_finite_bits(s[i]);
        if i < s.len() - 1 {
            assert(s.drop_last()[i] == s[i]);
            assert(has_finite(s.drop_last()));
        } else {
            assert(is_finite_bits(s.last()));
        }
        assert(false);
    } else {
        lemma_extremes_attained(s.drop_last());
        let i = choose|i: int| 0 <= i < s.drop_last().len() && s.drop_last()[i] == finite_min(
            s.drop_last(),
        );
        assert(s[i] == finite_min(s.drop_last()));
        let j = choose|j: int| 0 <= j < s.drop_last().len() && s.drop_last()[j] == finite_max(
            s.drop_last(),
        );
        assert(s[j] == finite_max(s.drop_last()));
        if is_finite_bits(s.last()) {
            assert(s[s.len() - 1] == s.last());
        }
    }
}

/// Law: sanitization never invents a value outside the raw table's finite
/// range — whenever the raw table holds any finite entry, every published
/// entry lies between its finite minimum and maximum under the float
/// ordering.
pub proof fn lemma_sanitized_within_extremes(s: Seq<u32>, i: int)
    requires
        0 <= i < s.len(),
        has_finite(s),
    ensures
        order_key(finite_min(s)) <= order_key(sanitized(s, i)),
        order_key(sanitized(s, i)) <= order_key(finite_max(s)),
{
    if is_finite_bits(s[i]) {
        lemma_extremes_bound(s, i);
    } else {
        let j = choose|j: int| 0 <= j < s.len() && #[trigger] is_finite_bits(s[j]);
        lemma_extremes_bound(s, j);
    }
}

/// Scans the table for its least and greatest finite entries under the
/// float ordering, returning the bit pattern of 0.0 for both when no
/// entry is finite.
fn finite_extremes(table: &Vec<u32>) -> (r: (u32, u32))
    ensures
        r.0 == finite_min(table@),
        r.1 == finite_max(table@),
{
    let mut lo: u32 = 0;
    let mut hi: u32 = 0;
    let mut seen = false;
    let mut i: usize = 0;
    while i < table.len()
        invariant
            i <= table@.len(),
            seen == has_finite(table@.take(i as int)),
            lo == finite_min(table@.take(i as int)),
            hi == finite_max(table@.take(i as int)),
        decreases table@.len() - i,
    {
        let x = table[i];
        proof {
            assert(table@.take(i + 1 as int).drop_last() =~= table@.take(i as int));
            assert(table@.take(i + 1 as int).last() == table@[i as int]);
        }
        if bits_finite(x) {
            if !seen {
                lo = x;
                hi = x;
                seen = true;
            } else {
                if bits_order_key(x) < bits_order_key(lo) {
                    lo = x;
                }
                if bits_order_key(x) > bits_order_key(hi) {
                    hi = x;
                }
            }
            proof {
                assert(has_finite(table@.take(i + 1 as int)));
            }
        } else {
            proof {
                if has_finite(table@.take(i + 1 as int)) {
                    let j = choose|j: int|
                        0 <= j < i + 1 && #[trigger] is_finite_bits(table@.take(i + 1 as int)[j]);
                    assert(table@.take(i as int)[j] == table@.take(i + 1 as int)[j]);
                    assert(has_finite(table@.take(i as int)));
                }
            }
        }
        i = i + 1;
    }
    proof {
        assert(table@.take(table@.len() as int) =~= table@);
    }
    (lo, hi)
}

/// Replaces every non-finite entry of the freshly generated clipper
/// table: entries in the lower half of the index range fall to the
/// table's least finite entry, entries in the upper half rise to its
/// greatest, and finite entries are left untouched, so the published
/// table is finite everywhere.
pub fn sanitize(table: &mut Vec<u32>)
    ensures
        final(table)@.len() == old(table)@.len(),
        forall|i: int|
            0 <= i < old(table)@.len() ==> final(table)@[i] == sanitized(old(table)@, i),
        forall|i: int| 0 <= i < final(table)@.len() ==> is_finite_bits(final(table)@[i]),
{
    let ghost orig = table@;
    let (lo, hi) = finite_extremes(table);
    let n = table.len();
    let half = n / 2;
    let mut i: usize = 0;
    while i < n
        invariant
            n == orig.len(),
            half == n / 2,
            table@.len() == n,
            lo == finite_min(orig),
            hi == finite_max(orig),
            i <= n,
            forall|j: int| 0 <= j < i ==> table@[j] == sanitized(orig, j),
            forall|j: int| i <= j < n ==> table@[j] == orig[j],
        decreases n - i,
    {
        if !bits_finite(table[i]) {
            if i >= half {
                table.set(i, hi);
            } else {
                table.set(i, lo);
            }
        }
        i = i + 1;
    }
    proof {
        lemma_extremes_finite(orig);
        assert forall|k: int| 0 <= k < table@.len() implies is_finite_bits(table@[k]) by {
            assert(table@[k] == sanitized(orig, k));
        }
    }
}

} // verus!
