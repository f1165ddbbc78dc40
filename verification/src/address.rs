//! 32-byte account addresses and their ordering.
//!
//! Owner sets are kept strictly ascending under the byte-wise lexicographic
//! order defined here, which is the order Rust gives `[u8; 32]`.

use vstd::prelude::*;

verus! {

/// A 32-byte account address.
#[derive(Clone, Copy, Debug, PartialEq, Eq, PartialOrd, Ord, Hash)]
pub struct Address {
    /// The raw bytes.
    pub bytes: [u8; 32],
}

/// Outcome of comparing two addresses.
#[derive(Clone, Copy, PartialEq, Eq, Structural)]
pub enum Order {
    /// The first address sorts before the second.
    Less,
    /// The addresses are the same.
    Equal,
    /// The first address sorts after the second.
    Greater,
}

/// Byte-wise lexicographic "strictly less than" on equal-length sequences.
pub open spec fn lex_lt(a: Seq<u8>, b: Seq<u8>) -> bool {
    exists|i: int|
        0 <= i < a.len() && i < b.len() && a.take(i) == b.take(i) && #[trigger] a[i] < b[i]
}

/// Every address in `s` sorts strictly before the next one.
pub open spec fn strictly_ascending(s: Seq<Address>) -> bool {
    forall|i: int, j: int| 0 <= i < j < s.len() ==> lex_lt(#[trigger] s[i]@, #[trigger] s[j]@)
}

/// The address whose bytes are `s`, for a 32-byte `s`.
pub open spec fn address_of(s: Seq<u8>) -> Address {
    Address { bytes: choose|a: [u8; 32]| a@ == s }
}

/// An address is determined by its bytes.
pub proof fn lemma_address_of(a: Address)
    ensures
        address_of(a@) == a,
{
    let b = choose|b: [u8; 32]| b@ == a@;
    assert(b@ == a.bytes@);
    assert(b =~= a.bytes) by {
        assert forall|i: int| 0 <= i < 32 implies b[i] == a.bytes[i] by {
            assert(b@[i] == a.bytes@[i]);
        }
    }
}

impl View for Address {
    type V = Seq<u8>;

    open spec fn view(&self) -> Seq<u8> {
        self.bytes@
    }
}

impl Address {
    /// Wraps a byte array.
    pub fn new_from_array(bytes: [u8; 32]) -> (r: Address)
        ensures
            r.bytes == bytes,
    {
        Address { bytes }
    }

    /// Copies an address out of a 32-byte slice.
    pub fn from_slice(bytes: &[u8]) -> (r: Address)
        requires
            bytes@.len() == 32,
        ensures
            r@ == bytes@,
    {
        let mut out = [0u8; 32];
        let mut i: usize = 0;
        while i < 32
            invariant
                i <= 32,
                bytes@.len() == 32,
                forall|j: int| 0 <= j < i ==> out@[j] == bytes@[j],
            decreases 32 - i,
        {
            out[i] = bytes[i];
            i = i + 1;
        }
        let r = Address { bytes: out };
        assert(r@ =~= bytes@);
        r
    }

    /// The all-zero address, which marks an unset field.
    pub fn zero() -> (r: Address)
        ensures
            r@ == Seq::new(32, |i: int| 0u8),
    {
        let r = Address { bytes: [0u8; 32] };
        assert(r@ =~= Seq::new(32, |i: int| 0u8));
        r
    }

    /// The raw bytes.
    pub fn as_array(&self) -> (r: &[u8; 32])
        ensures
            r@ == self@,
    {
        &self.bytes
    }

    /// Whether this is the all-zero address.
    pub fn is_zero(&self) -> (r: bool)
        ensures
            r == (self@ == Seq::new(32, |i: int| 0u8)),
    {
        let mut i: usize = 0;
        while i < 32
            invariant
                i <= 32,
                self@.len() == 32,
                forall|j: int| 0 <= j < i ==> self@[j] == 0u8,
            decreases 32 - i,
        {
            if self.bytes[i] != 0 {
                assert(self@[i as int] != Seq::new(32, |i: int| 0u8)[i as int]);
                return false;
            }
            i = i + 1;
        }
        assert(self@ =~= Seq::new(32, |i: int| 0u8));
        true
    }

    /// Whether the two addresses are the same.
    pub fn is_eq(&self, other: &Address) -> (r: bool)
        ensures
            r == (self@ == other@),
    {
        match self.compare(other) {
            Order::Equal => true,
            _ => false,
        }
    }

    /// Compares byte by byte, as `[u8; 32]` compares.
    pub fn compare(&self, other: &Address) -> (r: Order)
        ensures
            r == Order::Less <==> lex_lt(self@, other@),
            r == Order::Equal <==> self@ == other@,
            r == Order::Greater <==> lex_lt(other@, self@),
    {
        let mut i: usize = 0;
        while i < 32
            invariant
                i <= 32,
                self@.len() == 32,
                other@.len() == 32,
                self@.take(i as int) == other@.take(i as int),
            decreases 32 - i,
        {
            let a = self.bytes[i];
            let b = other.bytes[i];
            if a < b {
                proof {
                    assert(self@[i as int] < other@[i as int]);
                    lemma_lex_lt_asym(self@, other@);
                    lemma_lex_lt_irreflexive(self@);
                }
                return Order::Less;
            }
            if a > b {
                proof {
                    assert(other@.take(i as int) == self@.take(i as int));
                    assert(other@[i as int] < self@[i as int]);
                    lemma_lex_lt_asym(other@, self@);
                    lemma_lex_lt_irreflexive(self@);
                }
                return Order::Greater;
            }
            proof {
                assert(self@.take(i + 1) == self@.take(i as int).push(a));
                assert(other@.take(i + 1) == other@.take(i as int).push(b));
            }
            i = i + 1;
        }
        proof {
            assert(self@ == self@.take(32));
            assert(other@ == other@.take(32));
            lemma_lex_lt_irreflexive(self@);
        }
        Order::Equal
    }
}

/// No address sorts before itself.
pub proof fn lemma_lex_lt_irreflexive(a: Seq<u8>)
    ensures
        !lex_lt(a, a),
{
}

/// Two addresses cannot each sort before the other.
pub proof fn lemma_lex_lt_asym(a: Seq<u8>, b: Seq<u8>)
    requires
        lex_lt(a, b),
    ensures
        !lex_lt(b, a),
{
    let i = choose|i: int|
        0 <= i < a.len() && i < b.len() && a.take(i) == b.take(i) && #[trigger] a[i] < b[i];
    if lex_lt(b, a) {
        let j = choose|j: int|
            0 <= j < b.len() && j < a.len() && b.take(j) == a.take(j) && #[trigger] b[j] < a[j];
        if j < i {
            assert(a.take(i)[j] == b.take(i)[j]);
        } else if i < j {
            assert(b.take(j)[i] == a.take(j)[i]);
        }
    }
}

/// The order is transitive.
pub proof fn lemma_lex_lt_trans(a: Seq<u8>, b: Seq<u8>, c: Seq<u8>)
    requires
        lex_lt(a, b),
        lex_lt(b, c),
        a.len() == b.len(),
        b.len() == c.len(),
    ensures
        lex_lt(a, c),
{
    let i = choose|i: int|
        0 <= i < a.len() && i < b.len() && a.take(i) == b.take(i) && #[trigger] a[i] < b[i];
    let j = choose|j: int|
        0 <= j < b.len() && j < c.len() && b.take(j) == c.take(j) && #[trigger] b[j] < c[j];
    if i < j {
        assert(b.take(j)[i] == c.take(j)[i]);
        assert(a.take(i) =~= c.take(i)) by {
            assert forall|k: int| 0 <= k < i implies a.take(i)[k] == c.take(i)[k] by {
                assert(a.take(i)[k] == b.take(i)[k]);
                assert(b.take(j)[k] == c.take(j)[k]);
            }
        }
        assert(a[i] < c[i]);
    } else if j < i {
        assert(a.take(i)[j] == b.take(i)[j]);
        assert(a.take(j) =~= c.take(j)) by {
            assert forall|k: int| 0 <= k < j implies a.take(j)[k] == c.take(j)[k] by {
                assert(a.take(i)[k] == b.take(i)[k]);
                assert(b.take(j)[k] == c.take(j)[k]);
            }
        }
        assert(a[j] < c[j]);
    } else {
        assert(a.take(i) =~= c.take(i));
        assert(a[i] < c[i]);
    }
}

} // verus!
