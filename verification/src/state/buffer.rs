//! Transaction buffer account.
//!
//! A compiled message larger than one Solana transaction is uploaded in chunks
//! into a buffer, then turned into a proposal in a final step. The buffer
//! commits up front to the message's length and hash, so the content that
//! becomes a proposal is the content the creator intended.

use vstd::bytes::*;
use vstd::prelude::*;
use vstd::slice::*;

use crate::address::{address_of, lemma_address_of, Address};
use crate::constants::MAX_MESSAGE_SIZE;
use crate::encoding::{append_bytes, append_u32, array5, array_of, lemma_array_of, read_u32};
use crate::error::MultisigError;

verus! {

/// Fixed header of a buffer account. The partial message follows it.
///
/// Stored at the PDA `["buffer", multisig, creator, buffer_index]`.
#[derive(Clone, Copy, Debug)]
pub struct TransactionBuffer {
    /// Multisig the eventual proposal will belong to.
    pub multisig: Address,
    /// Owner uploading the message, and the only account that may extend or
    /// close this buffer.
    pub creator: Address,
    /// SHA-256 of the completed message, committed at creation.
    pub final_hash: [u8; 32],
    /// Length the completed message will have.
    pub final_size: u32,
    /// Bytes written so far.
    pub written: u32,
    /// Distinguishes concurrent buffers from the same creator.
    pub buffer_index: u8,
    /// Which vault the eventual proposal will spend from.
    pub vault_index: u8,
    /// Cached PDA bump for this account.
    pub bump: u8,
    /// Pads the header to a 4-byte boundary.
    pub _pad: [u8; 5],
}

/// The 112 bytes of a buffer header.
pub open spec fn buffer_header_bytes(b: TransactionBuffer) -> Seq<u8> {
    b.multisig@ + b.creator@ + b.final_hash@ + spec_u32_to_le_bytes(b.final_size)
        + spec_u32_to_le_bytes(b.written) + seq![b.buffer_index, b.vault_index, b.bump] + b._pad@
}

/// The final size a buffer header's bytes record.
pub open spec fn recorded_final_size(data: Seq<u8>) -> int {
    spec_u32_from_le_bytes(data.subrange(96, 100)) as int
}

/// The header that 112 bytes encode.
pub open spec fn parse_buffer_header(b: Seq<u8>) -> TransactionBuffer {
    TransactionBuffer {
        multisig: address_of(b.subrange(0, 32)),
        creator: address_of(b.subrange(32, 64)),
        final_hash: array_of::<32>(b.subrange(64, 96)),
        final_size: spec_u32_from_le_bytes(b.subrange(96, 100)),
        written: spec_u32_from_le_bytes(b.subrange(100, 104)),
        buffer_index: b[104],
        vault_index: b[105],
        bump: b[106],
        _pad: array_of::<5>(b.subrange(107, 112)),
    }
}

/// What a buffer account holds: header and message region, when the region
/// is exactly the committed final size.
pub open spec fn parse_buffer_account(data: Seq<u8>) -> Option<(TransactionBuffer, Seq<u8>)> {
    if data.len() >= 112 && data.len() == 112 + recorded_final_size(data) {
        Some((parse_buffer_header(data.subrange(0, 112)), data.subrange(112, data.len() as int)))
    } else {
        None
    }
}

/// The first rule a buffer header breaks, or `None`.
pub open spec fn buffer_violation(b: TransactionBuffer) -> Option<MultisigError> {
    if b.final_size > MAX_MESSAGE_SIZE || b.written > b.final_size {
        Some(MultisigError::InvalidMessage)
    } else {
        None
    }
}

impl TransactionBuffer {
    /// Size of the header in bytes. The account is this plus `final_size`.
    pub const LEN: usize = 112;

    /// Account size needed to hold a message of `final_size` bytes.
    pub fn space(final_size: usize) -> (r: usize)
        requires
            112 + final_size <= usize::MAX,
        ensures
            r == 112 + final_size,
    {
        Self::LEN + final_size
    }

    /// Decodes a header from exactly 112 bytes. Every byte pattern decodes.
    pub fn from_header_bytes(b: &[u8]) -> (r: TransactionBuffer)
        requires
            b@.len() == 112,
        ensures
            buffer_header_bytes(r) == b@,
    {
        let hash = Address::from_slice(slice_subrange(b, 64, 96));
        let h = TransactionBuffer {
            multisig: Address::from_slice(slice_subrange(b, 0, 32)),
            creator: Address::from_slice(slice_subrange(b, 32, 64)),
            final_hash: hash.bytes,
            final_size: read_u32(b, 96),
            written: read_u32(b, 100),
            buffer_index: b[104],
            vault_index: b[105],
            bump: b[106],
            _pad: array5(slice_subrange(b, 107, 112)),
        };
        proof {
            lemma_auto_spec_u32_to_from_le_bytes();
            assert(spec_u32_to_le_bytes(h.final_size) == b@.subrange(96, 100));
            assert(spec_u32_to_le_bytes(h.written) == b@.subrange(100, 104));
            assert(buffer_header_bytes(h) =~= b@);
        }
        h
    }

    /// Encodes the header as its 112 bytes.
    pub fn to_header_bytes(&self) -> (r: Vec<u8>)
        ensures
            r@ == buffer_header_bytes(*self),
            r@.len() == 112,
    {
        proof {
            lemma_auto_spec_u32_to_from_le_bytes();
        }
        let mut v: Vec<u8> = Vec::new();
        append_bytes(&mut v, self.multisig.as_array().as_slice());
        append_bytes(&mut v, self.creator.as_array().as_slice());
        append_bytes(&mut v, self.final_hash.as_slice());
        append_u32(&mut v, self.final_size);
        append_u32(&mut v, self.written);
        v.push(self.buffer_index);
        v.push(self.vault_index);
        v.push(self.bump);
        append_bytes(&mut v, self._pad.as_slice());
        assert(v@ =~= buffer_header_bytes(*self));
        v
    }

    /// Splits account data into the header and the message region.
    ///
    /// Refused unless the region is exactly the committed final size.
    pub fn load(data: &[u8]) -> (r: Result<(TransactionBuffer, &[u8]), MultisigError>)
        ensures
            r is Ok <==> data@.len() >= 112 && data@.len() == 112 + recorded_final_size(data@),
            r is Ok <==> parse_buffer_account(data@) is Some,
            match r {
                Ok((h, region)) => buffer_header_bytes(h) + region@ == data@ && region@.len()
                    == h.final_size && parse_buffer_account(data@) == Some((h, region@)),
                Err(e) => e == MultisigError::InvalidAccountData,
            },
    {
        let n = data.len();
        if n < Self::LEN {
            return Err(MultisigError::InvalidAccountData);
        }
        let header = Self::from_header_bytes(slice_subrange(data, 0, 112));
        proof {
            lemma_buffer_header_layout(header);
            assert(data@.subrange(96, 100) =~= data@.subrange(0, 112).subrange(96, 100));
            lemma_auto_spec_u32_to_from_le_bytes();
        }
        if header.final_size as u64 != (n - 112) as u64 {
            return Err(MultisigError::InvalidAccountData);
        }
        let region = slice_subrange(data, 112, n);
        assert(buffer_header_bytes(header) + region@ =~= data@);
        proof {
            lemma_parse_buffer_header(header);
        }
        Ok((header, region))
    }

    /// Counterpart of [`Self::load`] whose region is owned, for updating and
    /// writing back with [`Self::to_account_bytes`].
    pub fn load_mut(data: &[u8]) -> (r: Result<(TransactionBuffer, Vec<u8>), MultisigError>)
        ensures
            r is Ok <==> data@.len() >= 112 && data@.len() == 112 + recorded_final_size(data@),
            r is Ok <==> parse_buffer_account(data@) is Some,
            match r {
                Ok((h, region)) => buffer_header_bytes(h) + region@ == data@ && region@.len()
                    == h.final_size && parse_buffer_account(data@) == Some((h, region@)),
                Err(e) => e == MultisigError::InvalidAccountData,
            },
    {
        match Self::load(data) {
            Ok((h, region)) => Ok((h, slice_to_vec(region))),
            Err(e) => Err(e),
        }
    }

    /// The bytes of a whole account holding this header and `region`.
    pub fn to_account_bytes(&self, region: &[u8]) -> (r: Vec<u8>)
        ensures
            r@ == buffer_header_bytes(*self) + region@,
    {
        let mut v = self.to_header_bytes();
        append_bytes(&mut v, region);
        v
    }

    /// Splits data whose header has not been written yet.
    pub fn split_uninitialized(data: &[u8]) -> (r: Result<(TransactionBuffer, Vec<u8>), MultisigError>)
        ensures
            r is Ok <==> data@.len() >= 112,
            match r {
                Ok((h, region)) => buffer_header_bytes(h) + region@ == data@,
                Err(e) => e == MultisigError::InvalidAccountData,
            },
    {
        let n = data.len();
        if n < Self::LEN {
            return Err(MultisigError::InvalidAccountData);
        }
        let header = Self::from_header_bytes(slice_subrange(data, 0, 112));
        let region = slice_to_vec(slice_subrange(data, 112, n));
        assert(buffer_header_bytes(header) + region@ =~= data@);
        Ok((header, region))
    }

    /// Whether every byte the buffer promised has been written.
    pub fn is_complete(&self) -> (r: bool)
        ensures
            r == (self.written == self.final_size),
    {
        self.written == self.final_size
    }

    /// Asserts every rule the header must satisfy. Call after any mutation.
    pub fn check_invariant(&self) -> (r: Result<(), MultisigError>)
        ensures
            r == match buffer_violation(*self) {
                Some(e) => Err(e),
                None => Ok(()),
            },
    {
        if self.final_size as usize > MAX_MESSAGE_SIZE || self.written > self.final_size {
            return Err(MultisigError::InvalidMessage);
        }
        Ok(())
    }
}

/// Decoding a buffer header's encoding gives the header back.
pub proof fn lemma_parse_buffer_header(b: TransactionBuffer)
    ensures
        parse_buffer_header(buffer_header_bytes(b)) == b,
{
    lemma_auto_spec_u32_to_from_le_bytes();
    let s = buffer_header_bytes(b);
    assert(s.subrange(0, 32) =~= b.multisig@);
    assert(s.subrange(32, 64) =~= b.creator@);
    assert(s.subrange(64, 96) =~= b.final_hash@);
    assert(s.subrange(96, 100) =~= spec_u32_to_le_bytes(b.final_size));
    assert(s.subrange(100, 104) =~= spec_u32_to_le_bytes(b.written));
    assert(s.subrange(107, 112) =~= b._pad@);
    lemma_address_of(b.multisig);
    lemma_address_of(b.creator);
    lemma_array_of::<32>(b.final_hash);
    lemma_array_of::<5>(b._pad);
}

/// Writing a header and a region of its final size, then reading the account
/// back, gives exactly what was written.
pub proof fn lemma_parse_buffer_account(b: TransactionBuffer, region: Seq<u8>)
    requires
        region.len() == b.final_size,
    ensures
        parse_buffer_account(buffer_header_bytes(b) + region) == Some((b, region)),
{
    let data = buffer_header_bytes(b) + region;
    lemma_buffer_header_layout(b);
    lemma_parse_buffer_header(b);
    lemma_auto_spec_u32_to_from_le_bytes();
    assert(data.subrange(0, 112) =~= buffer_header_bytes(b));
    assert(data.subrange(96, 100) =~= buffer_header_bytes(b).subrange(96, 100));
    assert(data.subrange(112, data.len() as int) =~= region);
}

/// Length of a buffer header's encoding, and where its final size sits.
pub proof fn lemma_buffer_header_layout(b: TransactionBuffer)
    ensures
        buffer_header_bytes(b).len() == 112,
        buffer_header_bytes(b).subrange(96, 100) == spec_u32_to_le_bytes(b.final_size),
{
    lemma_auto_spec_u32_to_from_le_bytes();
    assert(buffer_header_bytes(b).subrange(96, 100) =~= spec_u32_to_le_bytes(b.final_size));
}

} // verus!
