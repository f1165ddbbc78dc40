//! Transaction proposal account.
//!
//! A fixed header, three vote bitmaps sized to the owner count at creation,
//! then the compiled message.
//!
//! # Layout
//!
//! ```text
//! header       112 bytes
//! approved     ceil(owners_count / 8)
//! rejected     ceil(owners_count / 8)
//! cancelled    ceil(owners_count / 8)
//! message      message_len
//! ```
//!
//! A vote is a bit at the owner's position. That names a voter safely because
//! a proposal only accepts votes while the owner set it was created against is
//! still current: any change to that set moves `stale_transaction_index` past
//! the proposal. `owners_count` is the snapshot the bitmaps are sized to.

use vstd::bytes::*;
use vstd::prelude::*;
use vstd::slice::*;

use crate::address::{address_of, lemma_address_of, Address};
use crate::constants::{MAX_EPHEMERAL_SIGNERS, MAX_MESSAGE_SIZE, MAX_OWNER};
use crate::encoding::{
    append_bytes, append_i64, append_u32, append_u64, array3, array4, array_of, lemma_array_of,
    read_i64, read_u32, read_u64,
};
use crate::error::MultisigError;
use crate::state::bitmap::{self, bit_at};

verus! {

/// Lifecycle of a proposal.
///
/// `Approved` is latched by the vote that crosses the threshold; execution
/// never recounts. Only `Active -> Approved | Rejected | Cancelled` and
/// `Approved -> Executed | Cancelled` are legal.
#[derive(Clone, Copy, Debug, PartialEq, Eq, Structural)]
pub enum TransactionStatus {
    /// Collecting votes.
    Active,
    /// Threshold met; awaiting execution.
    Approved,
    /// Enough rejections that approval is unreachable.
    Rejected,
    /// Executed exactly once.
    Executed,
    /// Abandoned before execution.
    Cancelled,
}

/// The byte a status is stored as.
pub open spec fn status_byte(s: TransactionStatus) -> u8 {
    match s {
        TransactionStatus::Active => 0,
        TransactionStatus::Approved => 1,
        TransactionStatus::Rejected => 2,
        TransactionStatus::Executed => 3,
        TransactionStatus::Cancelled => 4,
    }
}

/// The status a stored byte decodes to.
pub open spec fn status_of_byte(v: u8) -> Result<TransactionStatus, MultisigError> {
    if v == 0 {
        Ok(TransactionStatus::Active)
    } else if v == 1 {
        Ok(TransactionStatus::Approved)
    } else if v == 2 {
        Ok(TransactionStatus::Rejected)
    } else if v == 3 {
        Ok(TransactionStatus::Executed)
    } else if v == 4 {
        Ok(TransactionStatus::Cancelled)
    } else {
        Err(MultisigError::UnknownStatus)
    }
}

impl TransactionStatus {
    /// Decodes a stored status byte, rejecting unknown values.
    pub fn from_u8(v: u8) -> (r: Result<TransactionStatus, MultisigError>)
        ensures
            r == status_of_byte(v),
    {
        match v {
            0 => Ok(TransactionStatus::Active),
            1 => Ok(TransactionStatus::Approved),
            2 => Ok(TransactionStatus::Rejected),
            3 => Ok(TransactionStatus::Executed),
            4 => Ok(TransactionStatus::Cancelled),
            _ => Err(MultisigError::UnknownStatus),
        }
    }

    /// The byte this status is stored as.
    pub fn to_u8(self) -> (r: u8)
        ensures
            r == status_byte(self),
    {
        match self {
            TransactionStatus::Active => 0,
            TransactionStatus::Approved => 1,
            TransactionStatus::Rejected => 2,
            TransactionStatus::Executed => 3,
            TransactionStatus::Cancelled => 4,
        }
    }
}

/// Storing a status and reading it back gives the status.
pub proof fn lemma_status_round_trip(s: TransactionStatus)
    ensures
        status_of_byte(status_byte(s)) == Ok::<TransactionStatus, MultisigError>(s),
{
}

/// The three vote bitmaps of a proposal.
pub struct Votes<'a> {
    /// Owners who approved.
    pub approved: &'a [u8],
    /// Owners who rejected.
    pub rejected: &'a [u8],
    /// Owners who voted to cancel after approval.
    pub cancelled: &'a [u8],
}

impl Votes<'_> {
    /// Whether the owner at `index` has voted any way.
    pub fn has_voted(&self, index: usize) -> (r: bool)
        ensures
            r == (bit_at(self.approved@, index as int) || bit_at(self.rejected@, index as int)
                || bit_at(self.cancelled@, index as int)),
    {
        bitmap::get(self.approved, index) || bitmap::get(self.rejected, index) || bitmap::get(
            self.cancelled,
            index,
        )
    }
}

/// The three vote bitmaps of a proposal, held for updating.
pub struct VotesMut {
    /// Owners who approved.
    pub approved: Vec<u8>,
    /// Owners who rejected.
    pub rejected: Vec<u8>,
    /// Owners who voted to cancel after approval.
    pub cancelled: Vec<u8>,
}

impl VotesMut {
    /// Whether the owner at `index` has voted any way.
    pub fn has_voted(&self, index: usize) -> (r: bool)
        ensures
            r == (bit_at(self.approved@, index as int) || bit_at(self.rejected@, index as int)
                || bit_at(self.cancelled@, index as int)),
    {
        bitmap::get(self.approved.as_slice(), index) || bitmap::get(
            self.rejected.as_slice(),
            index,
        ) || bitmap::get(self.cancelled.as_slice(), index)
    }
}

/// Fixed header of a proposal account.
///
/// Stored at the PDA `["transaction", multisig, index]`.
#[derive(Clone, Copy, Debug)]
pub struct Transaction {
    /// Multisig this proposal belongs to. Checked on every vote and execution.
    pub multisig: Address,
    /// Owner who proposed it.
    pub creator: Address,
    /// Position in the multisig's transaction sequence, and its PDA seed.
    pub index: u64,
    /// Unix time the proposal latched to `Approved`, or zero while `Active`.
    pub approved_at: i64,
    /// Owner count when this proposal was created, which sizes the bitmaps.
    pub owners_count: u32,
    /// Bits set in `approved`.
    pub approved_count: u32,
    /// Bits set in `rejected`.
    pub rejected_count: u32,
    /// Bits set in `cancelled`.
    pub cancelled_count: u32,
    /// Length of the compiled message.
    pub message_len: u32,
    /// Current [`TransactionStatus`], decoded via `from_u8`.
    pub status: u8,
    /// Cached PDA bump for this account.
    pub bump: u8,
    /// Which vault signs the CPIs.
    pub vault_index: u8,
    /// Cached bump for that vault PDA.
    pub vault_bump: u8,
    /// Ephemeral signer PDAs this proposal may sign with.
    pub ephemeral_count: u8,
    /// Cached bumps for those PDAs, positionally by index.
    pub ephemeral_bumps: [u8; 4],
    /// Pads the header to a multiple of 8 bytes.
    pub _pad: [u8; 3],
}

/// The 112 bytes of a proposal header.
pub open spec fn transaction_header_bytes(t: Transaction) -> Seq<u8> {
    t.multisig@ + t.creator@ + spec_u64_to_le_bytes(t.index) + spec_u64_to_le_bytes(
        t.approved_at as u64,
    ) + spec_u32_to_le_bytes(t.owners_count) + spec_u32_to_le_bytes(t.approved_count)
        + spec_u32_to_le_bytes(t.rejected_count) + spec_u32_to_le_bytes(t.cancelled_count)
        + spec_u32_to_le_bytes(t.message_len) + seq![
        t.status,
        t.bump,
        t.vault_index,
        t.vault_bump,
        t.ephemeral_count,
    ] + t.ephemeral_bumps@ + t._pad@
}

/// Bytes in one vote bitmap for `owners` owners.
pub open spec fn bitmap_len(owners: int) -> int {
    (owners + 7) / 8
}

/// The bytes of a whole proposal account.
pub open spec fn transaction_account_bytes(
    t: Transaction,
    approved: Seq<u8>,
    rejected: Seq<u8>,
    cancelled: Seq<u8>,
    message: Seq<u8>,
) -> Seq<u8> {
    transaction_header_bytes(t) + approved + rejected + cancelled + message
}

/// The owner count a proposal header's bytes record.
pub open spec fn recorded_tx_owners_count(data: Seq<u8>) -> int {
    spec_u32_from_le_bytes(data.subrange(80, 84)) as int
}

/// The message length a proposal header's bytes record.
pub open spec fn recorded_message_len(data: Seq<u8>) -> int {
    spec_u32_from_le_bytes(data.subrange(96, 100)) as int
}

/// The header that 112 bytes encode.
pub open spec fn parse_transaction_header(b: Seq<u8>) -> Transaction {
    Transaction {
        multisig: address_of(b.subrange(0, 32)),
        creator: address_of(b.subrange(32, 64)),
        index: spec_u64_from_le_bytes(b.subrange(64, 72)),
        approved_at: spec_u64_from_le_bytes(b.subrange(72, 80)) as i64,
        owners_count: spec_u32_from_le_bytes(b.subrange(80, 84)),
        approved_count: spec_u32_from_le_bytes(b.subrange(84, 88)),
        rejected_count: spec_u32_from_le_bytes(b.subrange(88, 92)),
        cancelled_count: spec_u32_from_le_bytes(b.subrange(92, 96)),
        message_len: spec_u32_from_le_bytes(b.subrange(96, 100)),
        status: b[100],
        bump: b[101],
        vault_index: b[102],
        vault_bump: b[103],
        ephemeral_count: b[104],
        ephemeral_bumps: array_of::<4>(b.subrange(105, 109)),
        _pad: array_of::<3>(b.subrange(109, 112)),
    }
}

/// What a proposal account holds: header, the approved, rejected and
/// cancelled bitmaps, and the message, when it is laid out as the header says.
pub open spec fn parse_transaction_account(data: Seq<u8>) -> Option<
    (Transaction, Seq<u8>, Seq<u8>, Seq<u8>, Seq<u8>),
> {
    let bits = bitmap_len(recorded_tx_owners_count(data));
    if data.len() >= 112 && data.len() == 112 + 3 * bits + recorded_message_len(data) {
        Some(
            (
                parse_transaction_header(data.subrange(0, 112)),
                data.subrange(112, 112 + bits),
                data.subrange(112 + bits, 112 + 2 * bits),
                data.subrange(112 + 2 * bits, 112 + 3 * bits),
                data.subrange(112 + 3 * bits, data.len() as int),
            ),
        )
    } else {
        None
    }
}

/// The first rule a proposal header breaks, checked in order, or `None`.
pub open spec fn transaction_violation(t: Transaction) -> Option<MultisigError> {
    if status_of_byte(t.status) is Err {
        Some(MultisigError::UnknownStatus)
    } else if t.owners_count == 0 || t.owners_count > MAX_OWNER {
        Some(MultisigError::InvalidOwnerCount)
    } else if t.approved_count + t.rejected_count > t.owners_count || t.cancelled_count
        > t.owners_count {
        Some(MultisigError::InvalidAccountData)
    } else if t.message_len > MAX_MESSAGE_SIZE {
        Some(MultisigError::InvalidMessage)
    } else if t.ephemeral_count > MAX_EPHEMERAL_SIGNERS {
        Some(MultisigError::InvalidAccountData)
    } else {
        None
    }
}

impl Transaction {
    /// Size of the header in bytes.
    pub const LEN: usize = 112;

    /// Account size for `owners` owners and a message of `message_len` bytes.
    pub fn space(owners: usize, message_len: usize) -> (r: usize)
        requires
            112 + 3 * bitmap_len(owners as int) + message_len <= usize::MAX,
        ensures
            r == 112 + 3 * bitmap_len(owners as int) + message_len,
    {
        Self::LEN + 3 * bitmap::len_for(owners) + message_len
    }

    /// Decodes a header from exactly 112 bytes. Every byte pattern decodes.
    pub fn from_header_bytes(b: &[u8]) -> (r: Transaction)
        requires
            b@.len() == 112,
        ensures
            transaction_header_bytes(r) == b@,
    {
        let t = Transaction {
            multisig: Address::from_slice(slice_subrange(b, 0, 32)),
            creator: Address::from_slice(slice_subrange(b, 32, 64)),
            index: read_u64(b, 64),
            approved_at: read_i64(b, 72),
            owners_count: read_u32(b, 80),
            approved_count: read_u32(b, 84),
            rejected_count: read_u32(b, 88),
            cancelled_count: read_u32(b, 92),
            message_len: read_u32(b, 96),
            status: b[100],
            bump: b[101],
            vault_index: b[102],
            vault_bump: b[103],
            ephemeral_count: b[104],
            ephemeral_bumps: array4(slice_subrange(b, 105, 109)),
            _pad: array3(slice_subrange(b, 109, 112)),
        };
        proof {
            lemma_auto_spec_u64_to_from_le_bytes();
            lemma_auto_spec_u32_to_from_le_bytes();
            assert(spec_u64_to_le_bytes(t.index) == b@.subrange(64, 72));
            assert(spec_u64_to_le_bytes(t.approved_at as u64) == b@.subrange(72, 80));
            assert(spec_u32_to_le_bytes(t.owners_count) == b@.subrange(80, 84));
            assert(spec_u32_to_le_bytes(t.approved_count) == b@.subrange(84, 88));
            assert(spec_u32_to_le_bytes(t.rejected_count) == b@.subrange(88, 92));
            assert(spec_u32_to_le_bytes(t.cancelled_count) == b@.subrange(92, 96));
            assert(spec_u32_to_le_bytes(t.message_len) == b@.subrange(96, 100));
            assert(transaction_header_bytes(t) =~= b@);
        }
        t
    }

    /// Encodes the header as its 112 bytes.
    pub fn to_header_bytes(&self) -> (r: Vec<u8>)
        ensures
            r@ == transaction_header_bytes(*self),
            r@.len() == 112,
    {
        proof {
            lemma_auto_spec_u64_to_from_le_bytes();
            lemma_auto_spec_u32_to_from_le_bytes();
        }
        let mut v: Vec<u8> = Vec::new();
        append_bytes(&mut v, self.multisig.as_array().as_slice());
        append_bytes(&mut v, self.creator.as_array().as_slice());
        append_u64(&mut v, self.index);
        append_i64(&mut v, self.approved_at);
        append_u32(&mut v, self.owners_count);
        append_u32(&mut v, self.approved_count);
        append_u32(&mut v, self.rejected_count);
        append_u32(&mut v, self.cancelled_count);
        append_u32(&mut v, self.message_len);
        v.push(self.status);
        v.push(self.bump);
        v.push(self.vault_index);
        v.push(self.vault_bump);
        v.push(self.ephemeral_count);
        append_bytes(&mut v, self.ephemeral_bumps.as_slice());
        append_bytes(&mut v, self._pad.as_slice());
        assert(v@ =~= transaction_header_bytes(*self));
        v
    }

    /// Splits account data into the header, the vote bitmaps, and the message.
    ///
    /// Refused unless the data is a header followed by exactly three bitmaps
    /// sized to its owner count and a message of its recorded length.
    pub fn load(data: &[u8]) -> (r: Result<(Transaction, Votes<'_>, &[u8]), MultisigError>)
        ensures
            r is Ok <==> data@.len() >= 112 && data@.len() == 112 + 3 * bitmap_len(
                recorded_tx_owners_count(data@),
            ) + recorded_message_len(data@),
            r is Ok <==> parse_transaction_account(data@) is Some,
            match r {
                Ok((t, votes, message)) => {
                    &&& parse_transaction_account(data@) == Some(
                        (t, votes.approved@, votes.rejected@, votes.cancelled@, message@),
                    )
                    &&& transaction_account_bytes(
                        t,
                        votes.approved@,
                        votes.rejected@,
                        votes.cancelled@,
                        message@,
                    ) == data@
                    &&& votes.approved@.len() == bitmap_len(t.owners_count as int)
                    &&& votes.rejected@.len() == bitmap_len(t.owners_count as int)
                    &&& votes.cancelled@.len() == bitmap_len(t.owners_count as int)
                    &&& message@.len() == t.message_len
                },
                Err(e) => e == MultisigError::InvalidAccountData,
            },
    {
        let n = data.len();
        if n < Self::LEN {
            return Err(MultisigError::InvalidAccountData);
        }
        let header = Self::from_header_bytes(slice_subrange(data, 0, 112));
        proof {
            lemma_tx_header_layout(header);
            assert(data@.subrange(80, 84) =~= data@.subrange(0, 112).subrange(80, 84));
            assert(data@.subrange(96, 100) =~= data@.subrange(0, 112).subrange(96, 100));
            lemma_auto_spec_u32_to_from_le_bytes();
        }
        let bits = bitmap::len_for(header.owners_count as usize);
        let tail_len: u64 = (n - 112) as u64;
        if tail_len != 3 * (bits as u64) + header.message_len as u64 {
            return Err(MultisigError::InvalidAccountData);
        }
        let approved = slice_subrange(data, 112, 112 + bits);
        let rejected = slice_subrange(data, 112 + bits, 112 + 2 * bits);
        let cancelled = slice_subrange(data, 112 + 2 * bits, 112 + 3 * bits);
        let message = slice_subrange(data, 112 + 3 * bits, n);
        let votes = Votes { approved, rejected, cancelled };
        proof {
            lemma_parse_transaction_header(header);
        }
        assert(transaction_account_bytes(header, approved@, rejected@, cancelled@, message@)
            =~= data@);
        Ok((header, votes, message))
    }

    /// Counterpart of [`Self::load`] whose bitmaps and message are owned, for
    /// updating and writing back with [`Self::to_account_bytes`].
    pub fn load_mut(data: &[u8]) -> (r: Result<(Transaction, VotesMut, Vec<u8>), MultisigError>)
        ensures
            r is Ok <==> data@.len() >= 112 && data@.len() == 112 + 3 * bitmap_len(
                recorded_tx_owners_count(data@),
            ) + recorded_message_len(data@),
            r is Ok <==> parse_transaction_account(data@) is Some,
            match r {
                Ok((t, votes, message)) => {
                    &&& parse_transaction_account(data@) == Some(
                        (t, votes.approved@, votes.rejected@, votes.cancelled@, message@),
                    )
                    &&& transaction_account_bytes(
                        t,
                        votes.approved@,
                        votes.rejected@,
                        votes.cancelled@,
                        message@,
                    ) == data@
                    &&& votes.approved@.len() == bitmap_len(t.owners_count as int)
                    &&& votes.rejected@.len() == bitmap_len(t.owners_count as int)
                    &&& votes.cancelled@.len() == bitmap_len(t.owners_count as int)
                    &&& message@.len() == t.message_len
                },
                Err(e) => e == MultisigError::InvalidAccountData,
            },
    {
        match Self::load(data) {
            Ok((t, votes, message)) => {
                let owned = VotesMut {
                    approved: slice_to_vec(votes.approved),
                    rejected: slice_to_vec(votes.rejected),
                    cancelled: slice_to_vec(votes.cancelled),
                };
                Ok((t, owned, slice_to_vec(message)))
            },
            Err(e) => Err(e),
        }
    }

    /// The bytes of a whole account holding this header, these bitmaps and
    /// this message.
    pub fn to_account_bytes(&self, votes: &VotesMut, message: &[u8]) -> (r: Vec<u8>)
        ensures
            r@ == transaction_account_bytes(
                *self,
                votes.approved@,
                votes.rejected@,
                votes.cancelled@,
                message@,
            ),
    {
        let mut v = self.to_header_bytes();
        append_bytes(&mut v, votes.approved.as_slice());
        append_bytes(&mut v, votes.rejected.as_slice());
        append_bytes(&mut v, votes.cancelled.as_slice());
        append_bytes(&mut v, message);
        v
    }

    /// Splits data whose header has not been written yet.
    pub fn split_uninitialized(data: &[u8]) -> (r: Result<(Transaction, Vec<u8>), MultisigError>)
        ensures
            r is Ok <==> data@.len() >= 112,
            match r {
                Ok((t, tail)) => transaction_header_bytes(t) + tail@ == data@,
                Err(e) => e == MultisigError::InvalidAccountData,
            },
    {
        let n = data.len();
        if n < Self::LEN {
            return Err(MultisigError::InvalidAccountData);
        }
        let header = Self::from_header_bytes(slice_subrange(data, 0, 112));
        let tail = slice_to_vec(slice_subrange(data, 112, n));
        assert(transaction_header_bytes(header) + tail@ =~= data@);
        Ok((header, tail))
    }

    /// Decoded status.
    pub fn status(&self) -> (r: Result<TransactionStatus, MultisigError>)
        ensures
            r == status_of_byte(self.status),
    {
        TransactionStatus::from_u8(self.status)
    }

    /// Cached bumps for this proposal's ephemeral signers.
    pub fn ephemeral_bumps(&self) -> (r: &[u8])
        requires
            self.ephemeral_count <= MAX_EPHEMERAL_SIGNERS,
        ensures
            r@ == self.ephemeral_bumps@.take(self.ephemeral_count as int),
    {
        let s = self.ephemeral_bumps.as_slice();
        let r = slice_subrange(s, 0, self.ephemeral_count as usize);
        assert(r@ =~= self.ephemeral_bumps@.take(self.ephemeral_count as int));
        r
    }

    /// Asserts every rule the header must satisfy: the first one broken is
    /// the error. Constant time.
    pub fn check_invariant(&self) -> (r: Result<(), MultisigError>)
        ensures
            r == match transaction_violation(*self) {
                Some(e) => Err(e),
                None => Ok(()),
            },
    {
        if let Err(e) = self.status() {
            return Err(e);
        }
        let owners = self.owners_count as usize;
        if owners == 0 || owners > MAX_OWNER {
            return Err(MultisigError::InvalidOwnerCount);
        }
        // Approving and rejecting are exclusive, so those two together cannot
        // exceed the owner count. Cancelling is counted apart, because an owner
        // who approved may later vote to cancel what they approved.
        let votes: u64 = self.approved_count as u64 + self.rejected_count as u64;
        if votes > owners as u64 || self.cancelled_count as usize > owners {
            return Err(MultisigError::InvalidAccountData);
        }
        if self.message_len as usize > MAX_MESSAGE_SIZE {
            return Err(MultisigError::InvalidMessage);
        }
        if self.ephemeral_count as usize > MAX_EPHEMERAL_SIGNERS {
            return Err(MultisigError::InvalidAccountData);
        }
        Ok(())
    }
}

/// Decoding a proposal header's encoding gives the header back.
pub proof fn lemma_parse_transaction_header(t: Transaction)
    ensures
        parse_transaction_header(transaction_header_bytes(t)) == t,
{
    lemma_auto_spec_u64_to_from_le_bytes();
    lemma_auto_spec_u32_to_from_le_bytes();
    let b = transaction_header_bytes(t);
    assert(b.subrange(0, 32) =~= t.multisig@);
    assert(b.subrange(32, 64) =~= t.creator@);
    assert(b.subrange(64, 72) =~= spec_u64_to_le_bytes(t.index));
    assert(b.subrange(72, 80) =~= spec_u64_to_le_bytes(t.approved_at as u64));
    assert(b.subrange(80, 84) =~= spec_u32_to_le_bytes(t.owners_count));
    assert(b.subrange(84, 88) =~= spec_u32_to_le_bytes(t.approved_count));
    assert(b.subrange(88, 92) =~= spec_u32_to_le_bytes(t.rejected_count));
    assert(b.subrange(92, 96) =~= spec_u32_to_le_bytes(t.cancelled_count));
    assert(b.subrange(96, 100) =~= spec_u32_to_le_bytes(t.message_len));
    assert(b.subrange(105, 109) =~= t.ephemeral_bumps@);
    assert(b.subrange(109, 112) =~= t._pad@);
    let x = t.approved_at;
    assert((x as u64) as i64 == x) by (bit_vector);
    lemma_address_of(t.multisig);
    lemma_address_of(t.creator);
    lemma_array_of::<4>(t.ephemeral_bumps);
    lemma_array_of::<3>(t._pad);
}

/// Writing a header, its bitmaps and its message, then reading the account
/// back, gives exactly what was written.
pub proof fn lemma_parse_transaction_account(
    t: Transaction,
    approved: Seq<u8>,
    rejected: Seq<u8>,
    cancelled: Seq<u8>,
    message: Seq<u8>,
)
    requires
        approved.len() == bitmap_len(t.owners_count as int),
        rejected.len() == bitmap_len(t.owners_count as int),
        cancelled.len() == bitmap_len(t.owners_count as int),
        message.len() == t.message_len,
    ensures
        parse_transaction_account(transaction_account_bytes(t, approved, rejected, cancelled, message))
            == Some((t, approved, rejected, cancelled, message)),
{
    let data = transaction_account_bytes(t, approved, rejected, cancelled, message);
    lemma_tx_header_layout(t);
    lemma_parse_transaction_header(t);
    lemma_auto_spec_u32_to_from_le_bytes();
    let bits = bitmap_len(t.owners_count as int);
    assert(data.subrange(0, 112) =~= transaction_header_bytes(t));
    assert(data.subrange(80, 84) =~= transaction_header_bytes(t).subrange(80, 84));
    assert(data.subrange(96, 100) =~= transaction_header_bytes(t).subrange(96, 100));
    assert(data.subrange(112, 112 + bits) =~= approved);
    assert(data.subrange(112 + bits, 112 + 2 * bits) =~= rejected);
    assert(data.subrange(112 + 2 * bits, 112 + 3 * bits) =~= cancelled);
    assert(data.subrange(112 + 3 * bits, data.len() as int) =~= message);
}

/// What a proposal account holds is sized as its header says.
pub proof fn lemma_parsed_transaction_sizes(data: Seq<u8>)
    requires
        parse_transaction_account(data) is Some,
    ensures
        ({
            let (t, a, r, c, m) = parse_transaction_account(data)->Some_0;
            &&& a.len() == bitmap_len(t.owners_count as int)
            &&& r.len() == bitmap_len(t.owners_count as int)
            &&& c.len() == bitmap_len(t.owners_count as int)
            &&& m.len() == t.message_len
        }),
{
    assert(data.subrange(0, 112).subrange(80, 84) =~= data.subrange(80, 84));
    assert(data.subrange(0, 112).subrange(96, 100) =~= data.subrange(96, 100));
}

/// Length of a proposal header's encoding, and where its owner count and
/// message length sit.
pub proof fn lemma_tx_header_layout(t: Transaction)
    ensures
        transaction_header_bytes(t).len() == 112,
        transaction_header_bytes(t).subrange(80, 84) == spec_u32_to_le_bytes(t.owners_count),
        transaction_header_bytes(t).subrange(96, 100) == spec_u32_to_le_bytes(t.message_len),
{
    lemma_auto_spec_u64_to_from_le_bytes();
    lemma_auto_spec_u32_to_from_le_bytes();
    assert(transaction_header_bytes(t).subrange(80, 84) =~= spec_u32_to_le_bytes(t.owners_count));
    assert(transaction_header_bytes(t).subrange(96, 100) =~= spec_u32_to_le_bytes(t.message_len));
}

} // verus!
