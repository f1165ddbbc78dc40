//! Byte helpers shared by the account layouts.

use vstd::bytes::*;
use vstd::prelude::*;
use vstd::slice::*;

verus! {

/// The array whose elements are `s`, for `s` of length `N`.
pub open spec fn array_of<const N: usize>(s: Seq<u8>) -> [u8; N] {
    choose|a: [u8; N]| a@ == s
}

/// An array is determined by its elements.
pub proof fn lemma_array_of<const N: usize>(a: [u8; N])
    ensures
        array_of::<N>(a@) == a,
{
    let b = choose|b: [u8; N]| b@ == a@;
    assert(b@ == a@);
    assert(b =~= a) by {
        assert forall|i: int| 0 <= i < N implies b[i] == a[i] by {
            assert(b@[i] == a@[i]);
        }
    }
}

/// Appends `s` to `v`.
pub fn append_bytes(v: &mut Vec<u8>, s: &[u8])
    ensures
        final(v)@ == old(v)@ + s@,
{
    let mut i: usize = 0;
    while i < s.len()
        invariant
            i <= s@.len(),
            v@ == old(v)@ + s@.take(i as int),
        decreases s@.len() - i,
    {
        v.push(s[i]);
        proof {
            assert(s@.take(i + 1) == s@.take(i as int).push(s@[i as int]));
        }
        i = i + 1;
    }
    assert(s@.take(s@.len() as int) == s@);
}

/// Reads a little-endian `u64` at `at`.
pub fn read_u64(b: &[u8], at: usize) -> (r: u64)
    requires
        at + 8 <= b@.len(),
    ensures
        r == spec_u64_from_le_bytes(b@.subrange(at as int, at + 8)),
{
    let _n = b.len();
    u64_from_le_bytes(slice_subrange(b, at, at + 8))
}

/// Reads a little-endian `u32` at `at`.
pub fn read_u32(b: &[u8], at: usize) -> (r: u32)
    requires
        at + 4 <= b@.len(),
    ensures
        r == spec_u32_from_le_bytes(b@.subrange(at as int, at + 4)),
{
    let _n = b.len();
    u32_from_le_bytes(slice_subrange(b, at, at + 4))
}

/// Appends `x` in little-endian order.
pub fn append_u64(v: &mut Vec<u8>, x: u64)
    ensures
        final(v)@ == old(v)@ + spec_u64_to_le_bytes(x),
{
    let b = u64_to_le_bytes(x);
    append_bytes(v, b.as_slice());
}

/// Appends `x` in little-endian order.
pub fn append_u32(v: &mut Vec<u8>, x: u32)
    ensures
        final(v)@ == old(v)@ + spec_u32_to_le_bytes(x),
{
    let b = u32_to_le_bytes(x);
    append_bytes(v, b.as_slice());
}

/// Appends `x` in little-endian order.
pub fn append_u16(v: &mut Vec<u8>, x: u16)
    ensures
        final(v)@ == old(v)@ + spec_u16_to_le_bytes(x),
{
    let b = u16_to_le_bytes(x);
    append_bytes(v, b.as_slice());
}

/// Copies `s` into a fixed-size array.
pub fn array7(s: &[u8]) -> (r: [u8; 7])
    requires
        s@.len() == 7,
    ensures
        r@ == s@,
{
    let r = [s[0], s[1], s[2], s[3], s[4], s[5], s[6]];
    assert(r@ =~= s@);
    r
}

/// Copies `s` into a fixed-size array.
pub fn array4(s: &[u8]) -> (r: [u8; 4])
    requires
        s@.len() == 4,
    ensures
        r@ == s@,
{
    let r = [s[0], s[1], s[2], s[3]];
    assert(r@ =~= s@);
    r
}

/// Copies `s` into a fixed-size array.
pub fn array3(s: &[u8]) -> (r: [u8; 3])
    requires
        s@.len() == 3,
    ensures
        r@ == s@,
{
    let r = [s[0], s[1], s[2]];
    assert(r@ =~= s@);
    r
}

/// Copies `s` into a fixed-size array.
pub fn array5(s: &[u8]) -> (r: [u8; 5])
    requires
        s@.len() == 5,
    ensures
        r@ == s@,
{
    let r = [s[0], s[1], s[2], s[3], s[4]];
    assert(r@ =~= s@);
    r
}

/// Reads a little-endian `i64` at `at`, as its two's-complement bits.
pub fn read_i64(b: &[u8], at: usize) -> (r: i64)
    requires
        at + 8 <= b@.len(),
    ensures
        r as u64 == spec_u64_from_le_bytes(b@.subrange(at as int, at + 8)),
{
    let u = read_u64(b, at);
    let r = u as i64;
    assert(r as u64 == u) by (bit_vector)
        requires
            r == u as i64,
    ;
    r
}

/// Appends `x` in little-endian two's-complement order.
pub fn append_i64(v: &mut Vec<u8>, x: i64)
    ensures
        final(v)@ == old(v)@ + spec_u64_to_le_bytes(x as u64),
{
    append_u64(v, x as u64);
}

} // verus!
