//! Fixed-width bit sets, which record votes by owner position.
//!
//! A vote is a bit rather than the voter's 32-byte address, so a proposal costs
//! a byte per eight owners instead of thirty-two per voter.

use vstd::prelude::*;

verus! {

/// Whether bit `k` (0..8) of `b` is set.
pub open spec fn byte_bit(b: u8, k: int) -> bool {
    (b >> (k as u8)) & 1u8 == 1u8
}

/// Whether bit `index` of the set is set; an index past the end reads clear.
pub open spec fn bit_at(bits: Seq<u8>, index: int) -> bool {
    0 <= index && index / 8 < bits.len() && byte_bit(bits[index / 8], index % 8)
}

/// Number of set bits in one byte.
pub open spec fn byte_popcount(b: u8) -> nat {
    ((b & 1) + ((b >> 1u8) & 1) + ((b >> 2u8) & 1) + ((b >> 3u8) & 1) + ((b >> 4u8) & 1)
        + ((b >> 5u8) & 1) + ((b >> 6u8) & 1) + ((b >> 7u8) & 1)) as nat
}

/// Number of set bits in the whole set.
pub open spec fn popcount(bits: Seq<u8>) -> nat
    decreases bits.len(),
{
    if bits.len() == 0 {
        0
    } else {
        popcount(bits.drop_last()) + byte_popcount(bits.last())
    }
}

/// Number of indexes below `n` whose bit reads set.
pub open spec fn set_below(bits: Seq<u8>, n: nat) -> nat
    decreases n,
{
    if n == 0 {
        0
    } else {
        set_below(bits, (n - 1) as nat) + if bit_at(bits, n - 1) {
            1nat
        } else {
            0nat
        }
    }
}

/// The set after turning on bit `index`; an index past the end changes nothing.
pub open spec fn with_bit(bits: Seq<u8>, index: int) -> Seq<u8> {
    if 0 <= index && index / 8 < bits.len() {
        bits.update(index / 8, bits[index / 8] | (1u8 << ((index % 8) as u8)))
    } else {
        bits
    }
}

/// Bytes needed to hold `count` bits.
pub fn len_for(count: usize) -> (r: usize)
    ensures
        r == (count + 7) / 8,
{
    if count % 8 == 0 {
        count / 8
    } else {
        count / 8 + 1
    }
}

proof fn lemma_mask_test(b: u8, k: u8)
    requires
        k < 8,
    ensures
        (b & (1u8 << k) != 0) == ((b >> k) & 1u8 == 1u8),
{
    assert((b & (1u8 << k) != 0) == ((b >> k) & 1u8 == 1u8)) by (bit_vector)
        requires
            k < 8,
    ;
}

/// Whether the bit at `index` is set.
///
/// Returns `false` for an index past the end rather than panicking.
pub fn get(bits: &[u8], index: usize) -> (r: bool)
    ensures
        r == bit_at(bits@, index as int),
{
    let i = index / 8;
    if i < bits.len() {
        let k = (index % 8) as u8;
        proof {
            lemma_mask_test(bits@[i as int], k);
        }
        bits[i] & (1u8 << k) != 0
    } else {
        false
    }
}

/// Sets the bit at `index`, returning whether it was previously clear.
///
/// An index past the end changes nothing and reports `false`.
pub fn set(bits: &mut [u8], index: usize) -> (was_clear: bool)
    ensures
        final(bits)@ == with_bit(old(bits)@, index as int),
        was_clear == ((index as int) / 8 < old(bits)@.len() && !bit_at(old(bits)@, index as int)),
{
    let i = index / 8;
    if i < bits.len() {
        let k = (index % 8) as u8;
        let mask: u8 = 1u8 << k;
        let byte = bits[i];
        proof {
            lemma_mask_test(byte, k);
        }
        let was_clear = byte & mask == 0;
        bits[i] = byte | mask;
        was_clear
    } else {
        false
    }
}

/// Number of bits set in one byte.
fn byte_count(b: u8) -> (r: u32)
    ensures
        r == byte_popcount(b),
{
    let mut total: u32 = 0;
    let mut k: u8 = 0;
    while k < 8
        invariant
            k <= 8,
            total <= k,
            total == byte_popcount_below(b, k as nat),
        decreases 8 - k,
    {
        let bit = (b >> k) & 1u8;
        assert(bit <= 1) by (bit_vector)
            requires
                bit == (b >> k) & 1u8,
        ;
        total = total + bit as u32;
        k = k + 1;
    }
    proof {
        reveal_with_fuel(byte_popcount_below, 9);
        assert((b >> 0u8) & 1u8 == b & 1u8) by (bit_vector);
    }
    total
}

/// Set bits among the lowest `k` bits of `b`.
spec fn byte_popcount_below(b: u8, k: nat) -> nat
    decreases k,
{
    if k == 0 {
        0
    } else {
        byte_popcount_below(b, (k - 1) as nat) + ((b >> ((k - 1) as u8)) & 1u8) as nat
    }
}

/// Number of bits set.
pub fn count(bits: &[u8]) -> (r: u32)
    requires
        bits@.len() * 8 <= u32::MAX,
    ensures
        r == popcount(bits@),
        r == set_below(bits@, (8 * bits@.len()) as nat),
{
    proof {
        lemma_popcount_counts_set_bits(bits@);
    }
    let mut total: u32 = 0;
    let mut i: usize = 0;
    while i < bits.len()
        invariant
            i <= bits@.len(),
            bits@.len() * 8 <= u32::MAX,
            total == popcount(bits@.take(i as int)),
            total <= i * 8,
        decreases bits@.len() - i,
    {
        let c = byte_count(bits[i]);
        proof {
            lemma_byte_popcount_bound(bits@[i as int]);
            assert(bits@.take(i + 1).drop_last() == bits@.take(i as int));
        }
        total = total + c;
        i = i + 1;
    }
    assert(bits@.take(bits@.len() as int) == bits@);
    total
}

proof fn lemma_byte_popcount_bound(b: u8)
    ensures
        byte_popcount(b) <= 8,
{
    assert(((b & 1) + ((b >> 1u8) & 1) + ((b >> 2u8) & 1) + ((b >> 3u8) & 1) + ((b >> 4u8) & 1)
        + ((b >> 5u8) & 1) + ((b >> 6u8) & 1) + ((b >> 7u8) & 1)) <= 8) by (bit_vector);
}

/// Bit `k2` of `b` with bit `k` turned on.
proof fn lemma_byte_or_bit(b: u8, k: u8, k2: u8)
    requires
        k < 8,
        k2 < 8,
    ensures
        byte_bit(b | (1u8 << k), k2 as int) == (k2 == k || byte_bit(b, k2 as int)),
{
    assert(((b | (1u8 << k)) >> k2) & 1u8 == 1u8 <==> (k2 == k || (b >> k2) & 1u8 == 1u8))
        by (bit_vector)
        requires
            k < 8,
            k2 < 8,
    ;
}

/// Turning on a clear bit of a byte adds one to its count.
proof fn lemma_byte_popcount_or(b: u8, k: u8)
    requires
        k < 8,
        !byte_bit(b, k as int),
    ensures
        byte_popcount(b | (1u8 << k)) == byte_popcount(b) + 1,
{
    let c = b | (1u8 << k);
    assert((b >> k) & 1u8 != 1u8 ==> ((c & 1) + ((c >> 1u8) & 1) + ((c >> 2u8) & 1) + ((c >> 3u8)
        & 1) + ((c >> 4u8) & 1) + ((c >> 5u8) & 1) + ((c >> 6u8) & 1) + ((c >> 7u8) & 1)) == ((b
        & 1) + ((b >> 1u8) & 1) + ((b >> 2u8) & 1) + ((b >> 3u8) & 1) + ((b >> 4u8) & 1) + ((b
        >> 5u8) & 1) + ((b >> 6u8) & 1) + ((b >> 7u8) & 1)) + 1) by (bit_vector)
        requires
            k < 8,
            c == b | (1u8 << k),
    ;
}

/// Replacing one byte changes the count by the difference of the two bytes.
proof fn lemma_popcount_update(s: Seq<u8>, j: int, v: u8)
    requires
        0 <= j < s.len(),
    ensures
        popcount(s.update(j, v)) + byte_popcount(s[j]) == popcount(s) + byte_popcount(v),
    decreases s.len(),
{
    let t = s.update(j, v);
    if j == s.len() - 1 {
        assert(t.drop_last() == s.drop_last());
    } else {
        lemma_popcount_update(s.drop_last(), j, v);
        assert(t.drop_last() == s.drop_last().update(j, v));
    }
}

/// After `set`, the bit reads set, and every other bit reads as before.
pub proof fn lemma_with_bit_reads(bits: Seq<u8>, index: int, other: int)
    requires
        0 <= index,
        index / 8 < bits.len(),
    ensures
        bit_at(with_bit(bits, index), index),
        other != index ==> bit_at(with_bit(bits, index), other) == bit_at(bits, other),
        with_bit(bits, index).len() == bits.len(),
{
    let t = with_bit(bits, index);
    let k = (index % 8) as u8;
    lemma_byte_or_bit(bits[index / 8], k, k);
    if 0 <= other && other / 8 < bits.len() && other / 8 == index / 8 {
        lemma_byte_or_bit(bits[index / 8], k, (other % 8) as u8);
    }
}

/// A bit that `set` reports as newly set adds exactly one to the count, and
/// setting a bit that was already set leaves the set unchanged.
pub proof fn lemma_with_bit_count(bits: Seq<u8>, index: int)
    requires
        0 <= index,
        index / 8 < bits.len(),
    ensures
        !bit_at(bits, index) ==> popcount(with_bit(bits, index)) == popcount(bits) + 1,
        bit_at(bits, index) ==> with_bit(bits, index) == bits,
{
    let j = index / 8;
    let k = (index % 8) as u8;
    let b = bits[j];
    if !bit_at(bits, index) {
        lemma_byte_popcount_or(b, k);
        lemma_popcount_update(bits, j, b | (1u8 << k));
    } else {
        assert(b | (1u8 << k) == b) by (bit_vector)
            requires
                k < 8,
                (b >> k) & 1u8 == 1u8,
        ;
        assert(with_bit(bits, index) == bits);
    }
}

/// Two sets whose bits agree below `n` count alike below `n`.
proof fn lemma_set_below_agree(a: Seq<u8>, b: Seq<u8>, n: nat)
    requires
        forall|i: int| 0 <= i < n ==> bit_at(a, i) == bit_at(b, i),
    ensures
        set_below(a, n) == set_below(b, n),
    decreases n,
{
    if n > 0 {
        lemma_set_below_agree(a, b, (n - 1) as nat);
        assert(bit_at(a, n - 1) == bit_at(b, n - 1));
    }
}

/// One if the bit reads set, zero if not.
spec fn bit_value(set: bool) -> nat {
    if set {
        1
    } else {
        0
    }
}

/// A byte's count is the number of its bits that read set.
proof fn lemma_byte_popcount_bits(b: u8)
    ensures
        byte_popcount(b) == bit_value(byte_bit(b, 0)) + bit_value(byte_bit(b, 1)) + bit_value(
            byte_bit(b, 2),
        ) + bit_value(byte_bit(b, 3)) + bit_value(byte_bit(b, 4)) + bit_value(byte_bit(b, 5))
            + bit_value(byte_bit(b, 6)) + bit_value(byte_bit(b, 7)),
{
    assert(b & 1 == (b >> 0u8) & 1u8) by (bit_vector);
    assert(forall|k: u8| k < 8 ==> #[trigger] ((b >> k) & 1u8) <= 1u8) by (bit_vector);
    assert((b >> 0u8) & 1u8 <= 1u8);
    assert((b >> 1u8) & 1u8 <= 1u8);
    assert((b >> 2u8) & 1u8 <= 1u8);
    assert((b >> 3u8) & 1u8 <= 1u8);
    assert((b >> 4u8) & 1u8 <= 1u8);
    assert((b >> 5u8) & 1u8 <= 1u8);
    assert((b >> 6u8) & 1u8 <= 1u8);
    assert((b >> 7u8) & 1u8 <= 1u8);
}

/// One more index counts its bit.
proof fn lemma_set_below_step(bits: Seq<u8>, n: nat)
    ensures
        set_below(bits, n + 1) == set_below(bits, n) + bit_value(bit_at(bits, n as int)),
{
}

/// The last byte of a set contributes its own count to the set bits.
proof fn lemma_set_below_last_byte(bits: Seq<u8>)
    requires
        bits.len() > 0,
    ensures
        set_below(bits, (8 * bits.len()) as nat) == set_below(bits, (8 * (bits.len() - 1)) as nat)
            + byte_popcount(bits.last()),
{
    let l = bits.len() - 1;
    let b = bits.last();
    let base = (8 * l) as nat;
    assert forall|k: int| 0 <= k < 8 implies #[trigger] bit_at(bits, base + k) == byte_bit(b, k) by {
        assert((base + k) / 8 == l);
        assert((base + k) % 8 == k);
    }
    lemma_set_below_step(bits, (base + 0) as nat);
    assert(bit_at(bits, base + 0int) == byte_bit(b, 0));
    lemma_set_below_step(bits, (base + 1) as nat);
    assert(bit_at(bits, base + 1int) == byte_bit(b, 1));
    lemma_set_below_step(bits, (base + 2) as nat);
    assert(bit_at(bits, base + 2int) == byte_bit(b, 2));
    lemma_set_below_step(bits, (base + 3) as nat);
    assert(bit_at(bits, base + 3int) == byte_bit(b, 3));
    lemma_set_below_step(bits, (base + 4) as nat);
    assert(bit_at(bits, base + 4int) == byte_bit(b, 4));
    lemma_set_below_step(bits, (base + 5) as nat);
    assert(bit_at(bits, base + 5int) == byte_bit(b, 5));
    lemma_set_below_step(bits, (base + 6) as nat);
    assert(bit_at(bits, base + 6int) == byte_bit(b, 6));
    lemma_set_below_step(bits, (base + 7) as nat);
    assert(bit_at(bits, base + 7int) == byte_bit(b, 7));
    lemma_byte_popcount_bits(b);
    assert(base + 8 == 8 * bits.len());
}

/// The count of a set is the number of indexes whose bit reads set.
pub proof fn lemma_popcount_counts_set_bits(bits: Seq<u8>)
    ensures
        popcount(bits) == set_below(bits, (8 * bits.len()) as nat),
    decreases bits.len(),
{
    if bits.len() > 0 {
        let p = bits.drop_last();
        lemma_popcount_counts_set_bits(p);
        assert forall|i: int| 0 <= i < 8 * p.len() implies bit_at(bits, i) == bit_at(p, i) by {
            assert(i / 8 < p.len());
            assert(bits[i / 8] == p[i / 8]);
        }
        lemma_set_below_agree(bits, p, (8 * p.len()) as nat);
        lemma_set_below_last_byte(bits);
    }
}

} // verus!
