//! Multisig configuration account.
//!
//! A fixed header followed by the owner set, so the account is exactly as large
//! as the number of owners it holds and grows as owners are added.
//!
//! # Layout
//!
//! ```text
//! header        144 bytes
//! owners        32 * owners_count, strictly ascending
//! permissions   1 * owners_count, positionally matching owners
//! ```

use vstd::bytes::*;
use vstd::prelude::*;
use vstd::slice::*;

use crate::address::{
    address_of, lemma_address_of, lemma_lex_lt_asym, lemma_lex_lt_irreflexive, lemma_lex_lt_trans, lex_lt, strictly_ascending, Address, Order,
};
use crate::constants::{MAX_OWNER, MAX_TIME_LOCK};
use crate::encoding::{
    append_bytes, append_u32, append_u64, array7, array_of, lemma_array_of, read_u32, read_u64,
};
use crate::error::MultisigError;
use crate::state::message::address_models;
use crate::state::message::read_keys;
use crate::state::message_format::{encode_keys, keys_of, lemma_encode_keys_of, lemma_keys_of_encode};
use crate::state::permission::{mask_grants, Permission};

verus! {

/// Fixed header of a multisig account. The owner set follows it.
///
/// Stored at the PDA `["multisig", create_key]`.
#[derive(Clone, Copy, Debug)]
pub struct Multisig {
    /// Ephemeral key seeding the PDA, so one wallet can create many multisigs.
    pub create_key: Address,
    /// Key permitted to change the configuration without a vote. The all-zero
    /// address means the multisig is autonomous.
    pub config_authority: Address,
    /// Where reclaimed rent goes when a proposal or buffer is closed. The
    /// all-zero address means "refund whoever paid".
    pub rent_collector: Address,
    /// Seeds the next transaction PDA. Never reused.
    pub transaction_index: u64,
    /// Transactions at or below this index predate the last change to the owner
    /// set or threshold, so they may no longer be voted on.
    pub stale_transaction_index: u64,
    /// Proposals closed so far.
    pub closed_transaction_count: u64,
    /// Seconds that must pass between a proposal being approved and executed.
    pub time_lock: u32,
    /// Live entries in the owner set.
    pub owners_count: u32,
    /// Owners permitted to vote.
    pub voter_count: u32,
    /// Approvals needed to execute, in `1..=voter_count`.
    pub threshold: u32,
    /// Cached PDA bump.
    pub bump: u8,
    /// Pads the header to a multiple of 8 bytes.
    pub _pad: [u8; 7],
}

/// The 144 bytes of a multisig header.
pub open spec fn multisig_header_bytes(h: Multisig) -> Seq<u8> {
    h.create_key@ + h.config_authority@ + h.rent_collector@ + spec_u64_to_le_bytes(
        h.transaction_index,
    ) + spec_u64_to_le_bytes(h.stale_transaction_index) + spec_u64_to_le_bytes(
        h.closed_transaction_count,
    ) + spec_u32_to_le_bytes(h.time_lock) + spec_u32_to_le_bytes(h.owners_count)
        + spec_u32_to_le_bytes(h.voter_count) + spec_u32_to_le_bytes(h.threshold) + seq![h.bump]
        + h._pad@
}

/// The bytes of a whole multisig account: header, owners, permissions.
pub open spec fn multisig_account_bytes(h: Multisig, owners: Seq<Address>, permissions: Seq<u8>) -> Seq<
    u8,
> {
    multisig_header_bytes(h) + encode_keys(address_models(owners)) + permissions
}

/// The owner count a header's bytes record, read from offset 124.
pub open spec fn recorded_owners_count(data: Seq<u8>) -> int {
    spec_u32_from_le_bytes(data.subrange(124, 128)) as int
}

/// The first rule a header breaks, checked in order, or `None`.
pub open spec fn multisig_violation(h: Multisig) -> Option<MultisigError> {
    if h.owners_count == 0 || h.owners_count > MAX_OWNER {
        Some(MultisigError::InvalidOwnerCount)
    } else if h.voter_count == 0 {
        Some(MultisigError::NoVoters)
    } else if h.voter_count > h.owners_count {
        Some(MultisigError::InvalidAccountData)
    } else if h.threshold == 0 || h.threshold > h.voter_count {
        Some(MultisigError::InvalidThreshold)
    } else if h.stale_transaction_index > h.transaction_index || h.closed_transaction_count
        > h.transaction_index {
        Some(MultisigError::InvalidAccountData)
    } else if h.time_lock > MAX_TIME_LOCK {
        Some(MultisigError::InvalidTimeLock)
    } else {
        None
    }
}

/// The header that 144 bytes encode.
pub open spec fn parse_multisig_header(b: Seq<u8>) -> Multisig {
    Multisig {
        create_key: address_of(b.subrange(0, 32)),
        config_authority: address_of(b.subrange(32, 64)),
        rent_collector: address_of(b.subrange(64, 96)),
        transaction_index: spec_u64_from_le_bytes(b.subrange(96, 104)),
        stale_transaction_index: spec_u64_from_le_bytes(b.subrange(104, 112)),
        closed_transaction_count: spec_u64_from_le_bytes(b.subrange(112, 120)),
        time_lock: spec_u32_from_le_bytes(b.subrange(120, 124)),
        owners_count: spec_u32_from_le_bytes(b.subrange(124, 128)),
        voter_count: spec_u32_from_le_bytes(b.subrange(128, 132)),
        threshold: spec_u32_from_le_bytes(b.subrange(132, 136)),
        bump: b[136],
        _pad: array_of::<7>(b.subrange(137, 144)),
    }
}

/// `n` consecutive 32-byte addresses read from `b`.
pub open spec fn owners_of(b: Seq<u8>, n: nat) -> Seq<Address> {
    Seq::new(n, |i: int| address_of(b.subrange(32 * i, 32 * i + 32)))
}

/// What multisig account data holds: header, owners and permissions, when it
/// is laid out as the header's owner count says.
pub open spec fn parse_multisig_account(data: Seq<u8>) -> Option<(Multisig, Seq<Address>, Seq<u8>)> {
    if data.len() >= 144 && data.len() == 144 + 33 * recorded_owners_count(data) {
        let c = recorded_owners_count(data);
        Some(
            (
                parse_multisig_header(data.subrange(0, 144)),
                owners_of(data.subrange(144, 144 + 32 * c), c as nat),
                data.subrange(144 + 32 * c, data.len() as int),
            ),
        )
    } else {
        None
    }
}

/// The all-zero address.
pub open spec fn zero_address() -> Seq<u8> {
    Seq::new(32, |i: int| 0u8)
}

/// Position of `owner` in `owners`, where it occurs.
pub open spec fn owner_position(owners: Seq<Address>, owner: Seq<u8>) -> Option<int> {
    if exists|i: int| 0 <= i < owners.len() && owners[i]@ == owner {
        Some(choose|i: int| 0 <= i < owners.len() && owners[i]@ == owner)
    } else {
        None
    }
}

impl Multisig {
    /// Size of the header in bytes.
    pub const LEN: usize = 144;

    /// Account size needed to hold `owners` owners.
    pub fn space(owners: usize) -> (r: usize)
        requires
            144 + owners * 33 <= usize::MAX,
        ensures
            r == 144 + owners * 33,
    {
        Self::LEN + owners * 33
    }

    /// Decodes a header from exactly 144 bytes. Every byte pattern decodes.
    pub fn from_header_bytes(b: &[u8]) -> (r: Multisig)
        requires
            b@.len() == 144,
        ensures
            multisig_header_bytes(r) == b@,
    {
        let create_key = Address::from_slice(slice_subrange(b, 0, 32));
        let config_authority = Address::from_slice(slice_subrange(b, 32, 64));
        let rent_collector = Address::from_slice(slice_subrange(b, 64, 96));
        let h = Multisig {
            create_key,
            config_authority,
            rent_collector,
            transaction_index: read_u64(b, 96),
            stale_transaction_index: read_u64(b, 104),
            closed_transaction_count: read_u64(b, 112),
            time_lock: read_u32(b, 120),
            owners_count: read_u32(b, 124),
            voter_count: read_u32(b, 128),
            threshold: read_u32(b, 132),
            bump: b[136],
            _pad: array7(slice_subrange(b, 137, 144)),
        };
        proof {
            lemma_auto_spec_u64_to_from_le_bytes();
            lemma_auto_spec_u32_to_from_le_bytes();
            assert(spec_u64_to_le_bytes(h.transaction_index) == b@.subrange(96, 104));
            assert(spec_u64_to_le_bytes(h.stale_transaction_index) == b@.subrange(104, 112));
            assert(spec_u64_to_le_bytes(h.closed_transaction_count) == b@.subrange(112, 120));
            assert(spec_u32_to_le_bytes(h.time_lock) == b@.subrange(120, 124));
            assert(spec_u32_to_le_bytes(h.owners_count) == b@.subrange(124, 128));
            assert(spec_u32_to_le_bytes(h.voter_count) == b@.subrange(128, 132));
            assert(spec_u32_to_le_bytes(h.threshold) == b@.subrange(132, 136));
            assert(multisig_header_bytes(h) =~= b@);
        }
        h
    }

    /// Encodes the header as its 144 bytes.
    pub fn to_header_bytes(&self) -> (r: Vec<u8>)
        ensures
            r@ == multisig_header_bytes(*self),
            r@.len() == 144,
    {
        proof {
            lemma_auto_spec_u64_to_from_le_bytes();
            lemma_auto_spec_u32_to_from_le_bytes();
        }
        let mut v: Vec<u8> = Vec::new();
        append_bytes(&mut v, self.create_key.as_array().as_slice());
        append_bytes(&mut v, self.config_authority.as_array().as_slice());
        append_bytes(&mut v, self.rent_collector.as_array().as_slice());
        append_u64(&mut v, self.transaction_index);
        append_u64(&mut v, self.stale_transaction_index);
        append_u64(&mut v, self.closed_transaction_count);
        append_u32(&mut v, self.time_lock);
        append_u32(&mut v, self.owners_count);
        append_u32(&mut v, self.voter_count);
        append_u32(&mut v, self.threshold);
        v.push(self.bump);
        append_bytes(&mut v, self._pad.as_slice());
        assert(v@ =~= multisig_header_bytes(*self));
        v
    }

    /// Splits account data into the header, the owner addresses, and the
    /// permission bytes.
    ///
    /// Refused unless the data is a header followed by exactly the 33 bytes
    /// per owner that the header's count promises.

    pub fn load(data: &[u8]) -> (r: Result<(Multisig, Vec<Address>, Vec<u8>), MultisigError>)
        ensures
            r is Ok <==> data@.len() >= 144 && data@.len() == 144 + 33 * recorded_owners_count(
                data@,
            ),
            r is Ok <==> parse_multisig_account(data@) is Some,
            match r {
                Ok((h, owners, permissions)) => {
                    &&& parse_multisig_account(data@) == Some((h, owners@, permissions@))
                    &&& multisig_account_bytes(h, owners@, permissions@) == data@
                    &&& owners@.len() == h.owners_count
                    &&& permissions@.len() == h.owners_count
                },
                Err(e) => e == MultisigError::InvalidAccountData,
            },
    {
        let n = data.len();
        if n < Self::LEN {
            return Err(MultisigError::InvalidAccountData);
        }
        let header = Self::from_header_bytes(slice_subrange(data, 0, 144));
        proof {
            lemma_header_layout(header);
            assert(data@.subrange(124, 128) =~= data@.subrange(0, 144).subrange(124, 128));
            lemma_auto_spec_u32_to_from_le_bytes();
        }
        let tail_len: u64 = (n - 144) as u64;
        if tail_len != header.owners_count as u64 * 33 {
            return Err(MultisigError::InvalidAccountData);
        }
        let count = header.owners_count as usize;
        let tail = slice_subrange(data, 144, n);
        let owners = read_keys(slice_subrange(tail, 0, 32 * count), count);
        let permissions = slice_to_vec(slice_subrange(tail, 32 * count, n - 144));
        proof {
            lemma_encode_keys_of(tail@.subrange(0, 32 * count as int), count as nat);
            assert(multisig_account_bytes(header, owners@, permissions@) =~= data@);
            lemma_parse_multisig_header(header);
            assert(tail@.subrange(0, 32 * count as int) =~= data@.subrange(144, 144 + 32 * count));
            assert forall|i: int| 0 <= i < count implies owners@[i] == owners_of(
                data@.subrange(144, 144 + 32 * count),
                count as nat,
            )[i] by {
                assert(address_models(owners@)[i] == owners@[i]@);
                lemma_address_of(owners@[i]);
            }
            assert(owners@ =~= owners_of(data@.subrange(144, 144 + 32 * count), count as nat));
            assert(permissions@ =~= data@.subrange(144 + 32 * count, n as int));
        }
        Ok((header, owners, permissions))
    }

    /// Counterpart of [`Self::load`] for changing an account: the parts are
    /// owned, to be changed and written back with [`Self::to_account_bytes`].
    pub fn load_mut(data: &[u8]) -> (r: Result<(Multisig, Vec<Address>, Vec<u8>), MultisigError>)
        ensures
            r is Ok <==> parse_multisig_account(data@) is Some,
            match r {
                Ok((h, owners, permissions)) => {
                    &&& parse_multisig_account(data@) == Some((h, owners@, permissions@))
                    &&& multisig_account_bytes(h, owners@, permissions@) == data@
                    &&& owners@.len() == h.owners_count
                    &&& permissions@.len() == h.owners_count
                },
                Err(e) => e == MultisigError::InvalidAccountData,
            },
    {
        Self::load(data)
    }

    /// The bytes of a whole account holding this header, `owners` and
    /// `permissions`.
    pub fn to_account_bytes(&self, owners: &[Address], permissions: &[u8]) -> (r: Vec<u8>)
        ensures
            r@ == multisig_account_bytes(*self, owners@, permissions@),
    {
        let mut v = self.to_header_bytes();
        let mut i: usize = 0;
        while i < owners.len()
            invariant
                i <= owners@.len(),
                v@ == multisig_header_bytes(*self) + encode_keys(
                    address_models(owners@.take(i as int)),
                ),
            decreases owners@.len() - i,
        {
            append_bytes(&mut v, owners[i].as_array().as_slice());
            proof {
                assert(address_models(owners@.take(i + 1)).drop_last() =~= address_models(
                    owners@.take(i as int),
                ));
            }
            i = i + 1;
        }
        assert(owners@.take(owners@.len() as int) =~= owners@);
        append_bytes(&mut v, permissions);
        v
    }

    /// Splits data whose header has not been written yet into the header as
    /// the bytes currently read and everything after it.
    pub fn split_uninitialized(data: &[u8]) -> (r: Result<(Multisig, Vec<u8>), MultisigError>)
        ensures
            r is Ok <==> data@.len() >= 144,
            match r {
                Ok((h, tail)) => multisig_header_bytes(h) + tail@ == data@,
                Err(e) => e == MultisigError::InvalidAccountData,
            },
    {
        let n = data.len();
        if n < Self::LEN {
            return Err(MultisigError::InvalidAccountData);
        }
        let header = Self::from_header_bytes(slice_subrange(data, 0, 144));
        let tail = slice_to_vec(slice_subrange(data, 144, n));
        assert(multisig_header_bytes(header) + tail@ =~= data@);
        Ok((header, tail))
    }
}

/// The binary search over `owners[lo..hi]` for `owner`: `Ok` with the index
/// where it was met, or `Err` with where it would be inserted.
pub open spec fn search_range(owners: Seq<Address>, owner: Seq<u8>, lo: int, hi: int) -> Result<
    int,
    int,
>
    decreases hi - lo,
{
    if lo >= hi {
        Err(lo)
    } else {
        let mid = lo + (hi - lo) / 2;
        if owners[mid]@ == owner {
            Ok(mid)
        } else if lex_lt(owners[mid]@, owner) {
            search_range(owners, owner, mid + 1, hi)
        } else {
            search_range(owners, owner, lo, mid)
        }
    }
}

/// The binary search over the whole owner set.
pub open spec fn search_owners(owners: Seq<Address>, owner: Seq<u8>) -> Result<int, int> {
    search_range(owners, owner, 0, owners.len() as int)
}

/// The position the binary search finds `owner` at, if it does.
pub open spec fn owner_index(owners: Seq<Address>, owner: Seq<u8>) -> Option<int> {
    match search_owners(owners, owner) {
        Ok(i) => Some(i),
        Err(_) => None,
    }
}

/// The search's answer lies within the set, and a found index holds the
/// owner, whatever the order of the set.
pub proof fn lemma_search_bounds(owners: Seq<Address>, owner: Seq<u8>)
    ensures
        match search_owners(owners, owner) {
            Ok(i) => 0 <= i < owners.len() && owners[i]@ == owner,
            Err(p) => 0 <= p <= owners.len(),
        },
{
    lemma_search_range_bounds(owners, owner, 0, owners.len() as int);
}

/// What the search over a range answers, whatever the order of the set.
proof fn lemma_search_range_bounds(owners: Seq<Address>, owner: Seq<u8>, lo: int, hi: int)
    requires
        0 <= lo <= hi <= owners.len(),
    ensures
        match search_range(owners, owner, lo, hi) {
            Ok(i) => lo <= i < hi && owners[i]@ == owner,
            Err(p) => lo <= p <= hi,
        },
    decreases hi - lo,
{
    if lo < hi {
        let mid = lo + (hi - lo) / 2;
        if owners[mid]@ != owner {
            if lex_lt(owners[mid]@, owner) {
                lemma_search_range_bounds(owners, owner, mid + 1, hi);
            } else {
                lemma_search_range_bounds(owners, owner, lo, mid);
            }
        }
    }
}

/// On a strictly ascending set, a search that misses reports the one place
/// where `owner` keeps the set ascending.
proof fn lemma_search_range_sorted(owners: Seq<Address>, owner: Seq<u8>, lo: int, hi: int)
    requires
        0 <= lo <= hi <= owners.len(),
        strictly_ascending(owners),
        owner.len() == 32,
        forall|k: int| 0 <= k < owners.len() ==> (#[trigger] owners[k])@.len() == 32,
        forall|k: int| 0 <= k < lo ==> lex_lt((#[trigger] owners[k])@, owner),
        forall|k: int| hi <= k < owners.len() ==> lex_lt(owner, (#[trigger] owners[k])@),
    ensures
        search_range(owners, owner, lo, hi) matches Err(p) ==> {
            &&& forall|k: int| 0 <= k < p ==> lex_lt((#[trigger] owners[k])@, owner)
            &&& forall|k: int| p <= k < owners.len() ==> lex_lt(owner, (#[trigger] owners[k])@)
        },
    decreases hi - lo,
{
    if lo < hi {
        let mid = lo + (hi - lo) / 2;
        if owners[mid]@ != owner {
            if lex_lt(owners[mid]@, owner) {
                assert forall|k: int| 0 <= k < mid + 1 implies lex_lt((#[trigger] owners[k])@, owner) by {
                    if k < mid {
                        lemma_lex_lt_trans(owners[k]@, owners[mid]@, owner);
                    }
                }
                lemma_search_range_sorted(owners, owner, mid + 1, hi);
            } else {
                assert(lex_lt(owner, owners[mid]@)) by {
                    lemma_lex_total(owners[mid]@, owner);
                }
                assert forall|k: int| mid <= k < owners.len() implies lex_lt(
                    owner,
                    (#[trigger] owners[k])@,
                ) by {
                    if k > mid {
                        lemma_lex_lt_trans(owner, owners[mid]@, owners[k]@);
                    }
                }
                lemma_search_range_sorted(owners, owner, lo, mid);
            }
        }
    }
}

/// Two different sequences of one length are ordered one way or the other.
pub proof fn lemma_lex_total(a: Seq<u8>, b: Seq<u8>)
    requires
        a.len() == b.len(),
        a != b,
    ensures
        lex_lt(a, b) || lex_lt(b, a),
{
    assert(!(a =~= b));
    let i = choose|i: int| 0 <= i < a.len() && a[i] != b[i];
    let j = choose|j: int|
        0 <= j < a.len() && a[j] != b[j] && forall|k: int| 0 <= k < j ==> a[k] == b[k];
    if !(exists|j: int|
        0 <= j < a.len() && a[j] != b[j] && forall|k: int| 0 <= k < j ==> a[k] == b[k]) {
        lemma_first_difference(a, b, i);
    }
    assert(a.take(j) =~= b.take(j));
    if a[j] < b[j] {
        assert(lex_lt(a, b));
    } else {
        assert(lex_lt(b, a));
    }
}

/// Where two sequences differ somewhere, they differ first somewhere.
proof fn lemma_first_difference(a: Seq<u8>, b: Seq<u8>, i: int)
    requires
        a.len() == b.len(),
        0 <= i < a.len(),
        a[i] != b[i],
    ensures
        exists|j: int| 0 <= j < a.len() && a[j] != b[j] && forall|k: int| 0 <= k < j ==> a[k] == b[k],
    decreases i,
{
    if exists|k: int| 0 <= k < i && a[k] != b[k] {
        let k = choose|k: int| 0 <= k < i && a[k] != b[k];
        lemma_first_difference(a, b, k);
    } else {
        assert(forall|k: int| 0 <= k < i ==> a[k] == b[k]);
    }
}

/// On a strictly ascending set the binary search finds exactly the owner's
/// position, and a miss says where the owner would keep the set ascending.
pub proof fn lemma_search_sorted(owners: Seq<Address>, owner: Seq<u8>)
    requires
        strictly_ascending(owners),
        owner.len() == 32,
        forall|k: int| 0 <= k < owners.len() ==> (#[trigger] owners[k])@.len() == 32,
    ensures
        owner_index(owners, owner) == owner_position(owners, owner),
        search_owners(owners, owner) matches Err(p) ==> {
            &&& 0 <= p <= owners.len()
            &&& forall|k: int| 0 <= k < p ==> lex_lt((#[trigger] owners[k])@, owner)
            &&& forall|k: int| p <= k < owners.len() ==> lex_lt(owner, (#[trigger] owners[k])@)
        },
{
    lemma_search_range_bounds(owners, owner, 0, owners.len() as int);
    lemma_search_range_sorted(owners, owner, 0, owners.len() as int);
    lemma_lex_lt_irreflexive(owner);
    match search_owners(owners, owner) {
        Ok(i) => lemma_position_unique(owners, owner, i),
        Err(p) => {
            if exists|k: int| 0 <= k < owners.len() && owners[k]@ == owner {
                let k = choose|k: int| 0 <= k < owners.len() && owners[k]@ == owner;
                if k < p {
                    assert(lex_lt(owners[k]@, owner));
                } else {
                    assert(lex_lt(owner, owners[k]@));
                }
            }
        },
    }
}

impl Multisig {
    /// Binary search for `owner`: its index, or where it would be inserted.
    pub fn search(owners: &[Address], owner: &Address) -> (r: Result<usize, usize>)
        ensures
            match r {
                Ok(i) => search_owners(owners@, owner@) == Ok::<int, int>(i as int),
                Err(p) => search_owners(owners@, owner@) == Err::<int, int>(p as int),
            },
    {
        let mut lo: usize = 0;
        let mut hi: usize = owners.len();
        while lo < hi
            invariant
                lo <= hi <= owners@.len(),
                search_owners(owners@, owner@) == search_range(owners@, owner@, lo as int, hi as int),
            decreases hi - lo,
        {
            let mid = lo + (hi - lo) / 2;
            match owners[mid].compare(owner) {
                Order::Equal => {
                    return Ok(mid);
                },
                Order::Less => {
                    lo = mid + 1;
                },
                Order::Greater => {
                    proof {
                        lemma_lex_lt_asym(owner@, owners@[mid as int]@);
                    }
                    hi = mid;
                },
            }
        }
        Err(lo)
    }

    /// Index of `owner` in the owner set, or `None`.
    ///
    /// Relies on the ascending invariant, so it is a binary search: twelve
    /// comparisons at the maximum owner count.
    pub fn is_owner(owners: &[Address], owner: &Address) -> (r: Option<usize>)
        ensures
            match r {
                Some(i) => owner_index(owners@, owner@) == Some(i as int),
                None => owner_index(owners@, owner@) is None,
            },
            r matches Some(i) ==> i < owners@.len() && owners@[i as int]@ == owner@,
    {
        proof {
            lemma_search_range_bounds(owners@, owner@, 0, owners@.len() as int);
        }
        match Self::search(owners, owner) {
            Ok(i) => Some(i),
            Err(_) => None,
        }
    }

    /// Whether `owner` holds `permission`.
    ///
    /// A mask of zero is read as full permission, so a multisig that does not
    /// use permissions behaves as every owner being able to do everything.
    pub fn has_permission(owners: &[Address], permissions: &[u8], owner: &Address, permission: u8) -> (r:
        bool)
        requires
            permissions@.len() >= owners@.len(),
        ensures
            r == match owner_index(owners@, owner@) {
                Some(i) => mask_grants(permissions@[i], permission),
                None => false,
            },
    {
        match Self::is_owner(owners, owner) {
            Some(index) => {
                let mask = permissions[index];
                mask == 0 || mask & permission != 0
            },
            None => false,
        }
    }

    /// Whether a permission mask permits voting.
    pub fn mask_can_vote(mask: u8) -> (r: bool)
        ensures
            r == mask_grants(mask, Permission::VOTE),
    {
        mask == 0 || mask & Permission::VOTE != 0
    }

    /// Rejections that make approval unreachable.
    ///
    /// With `n` voters and threshold `t`, once `n - t + 1` have rejected, the
    /// voters left cannot reach `t`.
    pub fn cutoff(&self) -> (r: u32)
        requires
            !(self.threshold == 0 && self.voter_count == u32::MAX),
        ensures
            r == cutoff_of(*self),
    {
        self.voter_count.saturating_sub(self.threshold) + 1
    }

    /// Whether every proposal ever created has been closed.
    pub fn all_transactions_closed(&self) -> (r: bool)
        ensures
            r == (self.closed_transaction_count == self.transaction_index),
    {
        self.closed_transaction_count == self.transaction_index
    }

    /// Whether this multisig answers to a config authority.
    pub fn is_controlled(&self) -> (r: bool)
        ensures
            r == (self.config_authority@ != zero_address()),
    {
        !self.config_authority.is_zero()
    }

    /// Whether the only proposal still open is the one currently executing.
    pub fn only_executing_transaction_open(&self) -> (r: bool)
        ensures
            r == (self.closed_transaction_count + 1 == self.transaction_index),
    {
        match self.closed_transaction_count.checked_add(1) {
            Some(n) => n == self.transaction_index,
            None => false,
        }
    }

    /// Marks every existing transaction stale.
    ///
    /// Must be called by anything that changes the owner set, the permissions
    /// or the threshold: votes are recorded by owner position.
    pub fn invalidate_prior_transactions(&mut self)
        ensures
            *final(self) == (Multisig {
                stale_transaction_index: old(self).transaction_index,
                ..*old(self)
            }),
    {
        self.stale_transaction_index = self.transaction_index;
    }

    /// Asserts every rule the header must satisfy: the first one broken is
    /// the error.
    pub fn check_invariant(&self) -> (r: Result<(), MultisigError>)
        ensures
            r == match multisig_violation(*self) {
                Some(e) => Err(e),
                None => Ok(()),
            },
    {
        if self.owners_count == 0 || self.owners_count as usize > MAX_OWNER {
            return Err(MultisigError::InvalidOwnerCount);
        }
        if self.voter_count == 0 {
            return Err(MultisigError::NoVoters);
        }
        if self.voter_count > self.owners_count {
            return Err(MultisigError::InvalidAccountData);
        }
        if self.threshold == 0 || self.threshold > self.voter_count {
            return Err(MultisigError::InvalidThreshold);
        }
        if self.stale_transaction_index > self.transaction_index || self.closed_transaction_count
            > self.transaction_index {
            return Err(MultisigError::InvalidAccountData);
        }
        if self.time_lock > MAX_TIME_LOCK {
            return Err(MultisigError::InvalidTimeLock);
        }
        Ok(())
    }
}

/// Splits `bytes` into `count` consecutive addresses.
pub fn read_owners(bytes: &[u8], count: usize) -> (r: Vec<Address>)
    requires
        bytes@.len() == 32 * count,
    ensures
        r@ == owners_of(bytes@, count as nat),
{
    let owners = read_keys(bytes, count);
    proof {
        assert forall|i: int| 0 <= i < count implies owners@[i] == owners_of(bytes@, count as nat)[i] by {
            assert(address_models(owners@)[i] == owners@[i]@);
            lemma_address_of(owners@[i]);
        }
        assert(owners@ =~= owners_of(bytes@, count as nat));
    }
    owners
}

/// Each owner sorts strictly before the next one.
pub open spec fn adjacent_ascending(s: Seq<Address>) -> bool {
    forall|i: int| 1 <= i < s.len() ==> lex_lt(s[i - 1]@, (#[trigger] s[i])@)
}

/// Whether the owners are strictly ascending, checked one neighbour pair at a
/// time: one pass proves the set sorted and free of duplicates.
pub fn owners_ascending(owners: &[Address]) -> (r: bool)
    ensures
        r == strictly_ascending(owners@),
{
    let n = owners.len();
    let mut i: usize = 1;
    if n == 0 {
        return true;
    }
    while i < n
        invariant
            1 <= i <= n,
            n == owners@.len(),
            strictly_ascending(owners@.take(i as int)),
        decreases n - i,
    {
        match owners[i - 1].compare(&owners[i]) {
            Order::Less => {},
            _ => {
                proof {
                    assert(!lex_lt(owners@[i - 1]@, owners@[i as int]@));
                    if strictly_ascending(owners@) {
                        assert(lex_lt(owners@[i - 1]@, owners@[i as int]@));
                    }
                }
                return false;
            },
        }
        proof {
            let t = owners@.take(i + 1);
            assert forall|a: int, b: int| 0 <= a < b < t.len() implies lex_lt(
                #[trigger] t[a]@,
                #[trigger] t[b]@,
            ) by {
                if b < i {
                    assert(owners@.take(i as int)[a] == t[a]);
                    assert(owners@.take(i as int)[b] == t[b]);
                } else if a < i - 1 {
                    assert(owners@.take(i as int)[a] == t[a]);
                    assert(owners@.take(i as int)[i - 1] == t[i - 1]);
                    assert(lex_lt(t[a]@, t[i - 1]@));
                    lemma_lex_lt_trans(t[a]@, t[i - 1]@, t[b]@);
                }
            }
        }
        i = i + 1;
    }
    assert(owners@.take(n as int) =~= owners@);
    true
}

/// Rejections that make approval unreachable: voters beyond the threshold,
/// plus one.
pub open spec fn cutoff_of(h: Multisig) -> int {
    (if h.voter_count > h.threshold {
        h.voter_count - h.threshold
    } else {
        0
    }) + 1
}

/// In a strictly ascending set an address occurs at most once.
pub proof fn lemma_position_unique(owners: Seq<Address>, owner: Seq<u8>, i: int)
    requires
        strictly_ascending(owners),
        0 <= i < owners.len(),
        owners[i]@ == owner,
    ensures
        owner_position(owners, owner) == Some(i),
{
    let j = choose|j: int| 0 <= j < owners.len() && owners[j]@ == owner;
    if j != i {
        if j < i {
            assert(lex_lt(owners[j]@, owners[i]@));
        } else {
            assert(lex_lt(owners[i]@, owners[j]@));
        }
        lemma_lex_lt_irreflexive(owner);
    }
}

/// Decoding a header's encoding gives the header back.
pub proof fn lemma_parse_multisig_header(h: Multisig)
    ensures
        parse_multisig_header(multisig_header_bytes(h)) == h,
{
    lemma_auto_spec_u64_to_from_le_bytes();
    lemma_auto_spec_u32_to_from_le_bytes();
    let b = multisig_header_bytes(h);
    assert(b.subrange(0, 32) =~= h.create_key@);
    assert(b.subrange(32, 64) =~= h.config_authority@);
    assert(b.subrange(64, 96) =~= h.rent_collector@);
    assert(b.subrange(96, 104) =~= spec_u64_to_le_bytes(h.transaction_index));
    assert(b.subrange(104, 112) =~= spec_u64_to_le_bytes(h.stale_transaction_index));
    assert(b.subrange(112, 120) =~= spec_u64_to_le_bytes(h.closed_transaction_count));
    assert(b.subrange(120, 124) =~= spec_u32_to_le_bytes(h.time_lock));
    assert(b.subrange(124, 128) =~= spec_u32_to_le_bytes(h.owners_count));
    assert(b.subrange(128, 132) =~= spec_u32_to_le_bytes(h.voter_count));
    assert(b.subrange(132, 136) =~= spec_u32_to_le_bytes(h.threshold));
    assert(b.subrange(137, 144) =~= h._pad@);
    lemma_address_of(h.create_key);
    lemma_address_of(h.config_authority);
    lemma_address_of(h.rent_collector);
    lemma_array_of::<7>(h._pad);
}

/// Writing a header, its owners and their permissions, then reading the
/// account back, gives exactly what was written.
pub proof fn lemma_parse_multisig_account(h: Multisig, owners: Seq<Address>, permissions: Seq<u8>)
    requires
        owners.len() == h.owners_count,
        permissions.len() == h.owners_count,
    ensures
        parse_multisig_account(multisig_account_bytes(h, owners, permissions)) == Some(
            (h, owners, permissions),
        ),
{
    let data = multisig_account_bytes(h, owners, permissions);
    let keys = address_models(owners);
    lemma_header_layout(h);
    assert forall|i: int| 0 <= i < keys.len() implies (#[trigger] keys[i]).len() == 32 by {
        assert(keys[i] == owners[i]@);
    }
    lemma_keys_of_encode(keys);
    lemma_auto_spec_u32_to_from_le_bytes();
    let c = h.owners_count as int;
    assert(data.subrange(0, 144) =~= multisig_header_bytes(h));
    assert(data.subrange(124, 128) =~= multisig_header_bytes(h).subrange(124, 128));
    assert(recorded_owners_count(data) == c);
    lemma_parse_multisig_header(h);
    assert(data.subrange(144, 144 + 32 * c) =~= encode_keys(keys));
    assert forall|i: int| 0 <= i < c implies owners_of(data.subrange(144, 144 + 32 * c), c as nat)[i]
        == owners[i] by {
        assert(keys_of(encode_keys(keys), keys.len())[i] == keys[i]);
        lemma_address_of(owners[i]);
    }
    assert(owners_of(data.subrange(144, 144 + 32 * c), c as nat) =~= owners);
    assert(data.subrange(144 + 32 * c, data.len() as int) =~= permissions);
}

/// What a multisig account holds is sized as its header says.
pub proof fn lemma_parsed_multisig_sizes(data: Seq<u8>)
    requires
        parse_multisig_account(data) is Some,
    ensures
        ({
            let (h, o, p) = parse_multisig_account(data)->Some_0;
            &&& o.len() == h.owners_count
            &&& p.len() == h.owners_count
        }),
{
    assert(data.subrange(0, 144).subrange(124, 128) =~= data.subrange(124, 128));
}

/// Length of a header's encoding, and where its owner count sits.
pub proof fn lemma_header_layout(h: Multisig)
    ensures
        multisig_header_bytes(h).len() == 144,
        multisig_header_bytes(h).subrange(124, 128) == spec_u32_to_le_bytes(h.owners_count),
{
    lemma_auto_spec_u64_to_from_le_bytes();
    lemma_auto_spec_u32_to_from_le_bytes();
    assert(multisig_header_bytes(h).subrange(124, 128) =~= spec_u32_to_le_bytes(h.owners_count));
}

} // verus!
