//! Compiled transaction message.
//!
//! Mirrors Solana's own wire format: a deduplicated list of account keys
//! ordered by privilege, followed by instructions that reference those keys by
//! one-byte index rather than repeating 32-byte addresses, followed by address
//! lookup table references. The layout is stated in [`message_format`].
//!
//! Account keys are ordered writable signers, readonly signers, writable
//! non-signers, readonly non-signers, so an index alone determines an account's
//! privileges.
//!
//! [`message_format`]: crate::state::message_format

use vstd::bytes::*;
use vstd::prelude::*;
use vstd::slice::*;

use crate::address::Address;
use crate::error::MultisigError;
use crate::state::message_format::{
    InstructionModel, LookupModel, MessageModel, encode_message, lookup_key_total,
    lookup_writable_total, message_valid, num_all_keys, parse_instruction, parse_instructions,
    parse_lookup, parse_lookups, parse_message,
};

verus! {

/// Fixed prefix of a compiled message.
#[derive(Clone, Copy, Debug)]
pub struct MessageHeader {
    /// Signer keys, which come first in `account_keys`.
    pub num_signers: u8,
    /// Of the signers, how many are writable.
    pub num_writable_signers: u8,
    /// Of the non-signers, how many are writable.
    pub num_writable_non_signers: u8,
    /// Entries in `account_keys`.
    pub num_account_keys: u8,
    /// Instructions making up this message.
    pub num_instructions: u8,
    /// Address lookup tables this message loads accounts from.
    pub num_lookups: u8,
}

impl MessageHeader {
    /// Size of the header in bytes.
    pub const LEN: usize = 6;
}

/// One instruction within a message.
#[derive(Clone, Debug)]
pub struct CompiledInstruction {
    /// Index into the message's account keys naming the program to invoke.
    pub program_id_index: u8,
    /// Indexes into the message's account keys, in the order the program expects.
    pub account_indexes: Vec<u8>,
    /// Instruction payload.
    pub data: Vec<u8>,
}

impl View for CompiledInstruction {
    type V = InstructionModel;

    open spec fn view(&self) -> InstructionModel {
        InstructionModel {
            program_id_index: self.program_id_index,
            account_indexes: self.account_indexes@,
            data: self.data@,
        }
    }
}

/// One address lookup table reference.
#[derive(Clone, Debug)]
pub struct MessageLookup {
    /// The lookup table account.
    pub account_key: Address,
    /// Indexes into the table naming accounts to load as writable.
    pub writable_indexes: Vec<u8>,
    /// Indexes into the table naming accounts to load as readonly.
    pub readonly_indexes: Vec<u8>,
}

impl View for MessageLookup {
    type V = LookupModel;

    open spec fn view(&self) -> LookupModel {
        LookupModel {
            account_key: self.account_key@,
            writable_indexes: self.writable_indexes@,
            readonly_indexes: self.readonly_indexes@,
        }
    }
}

/// Reads little-endian values out of a byte blob.
struct Cursor<'a> {
    data: &'a [u8],
    pos: usize,
}

impl<'a> Cursor<'a> {
    spec fn wf(&self) -> bool {
        self.pos <= self.data@.len()
    }

    spec fn rest(&self) -> Seq<u8> {
        self.data@.skip(self.pos as int)
    }

    fn new(data: &'a [u8]) -> (c: Self)
        ensures
            c.data@ == data@,
            c.pos == 0,
            c.wf(),
    {
        Cursor { data, pos: 0 }
    }

    fn remaining(&self) -> (r: usize)
        requires
            self.wf(),
        ensures
            r == self.data@.len() - self.pos,
    {
        self.data.len() - self.pos
    }

    fn take(&mut self, len: usize) -> (r: Result<&'a [u8], MultisigError>)
        requires
            old(self).wf(),
        ensures
            final(self).wf(),
            final(self).data@ == old(self).data@,
            match r {
                Ok(out) => {
                    &&& len <= old(self).rest().len()
                    &&& out@ == old(self).rest().take(len as int)
                    &&& final(self).pos == old(self).pos + len
                },
                Err(e) => {
                    &&& e == MultisigError::InvalidMessage
                    &&& old(self).rest().len() < len
                    &&& final(self).pos == old(self).pos
                },
            },
    {
        let total = self.data.len();
        if total - self.pos < len {
            return Err(MultisigError::InvalidMessage);
        }
        let end = self.pos + len;
        let out = slice_subrange(self.data, self.pos, end);
        assert(out@ =~= self.rest().take(len as int));
        self.pos = self.pos + len;
        Ok(out)
    }

    fn u8(&mut self) -> (r: Result<u8, MultisigError>)
        requires
            old(self).wf(),
        ensures
            final(self).wf(),
            final(self).data@ == old(self).data@,
            match r {
                Ok(v) => {
                    &&& 1 <= old(self).rest().len()
                    &&& v == old(self).rest()[0]
                    &&& final(self).pos == old(self).pos + 1
                },
                Err(e) => e == MultisigError::InvalidMessage && old(self).rest().len() < 1,
            },
    {
        let bytes = self.take(1)?;
        Ok(bytes[0])
    }

    fn u16(&mut self) -> (r: Result<u16, MultisigError>)
        requires
            old(self).wf(),
        ensures
            final(self).wf(),
            final(self).data@ == old(self).data@,
            match r {
                Ok(v) => {
                    &&& 2 <= old(self).rest().len()
                    &&& v == spec_u16_from_le_bytes(old(self).rest().take(2))
                    &&& final(self).pos == old(self).pos + 2
                },
                Err(e) => e == MultisigError::InvalidMessage && old(self).rest().len() < 2,
            },
    {
        let bytes = self.take(2)?;
        Ok(u16_from_le_bytes(bytes))
    }
}

/// Reads a message's instructions one after another.
pub struct InstructionIter<'a> {
    cursor: Cursor<'a>,
}

impl<'a> InstructionIter<'a> {
    /// The bytes being read.
    pub closed spec fn source(&self) -> Seq<u8> {
        self.cursor.data@
    }

    /// How many bytes have been read.
    pub closed spec fn position(&self) -> int {
        self.cursor.pos as int
    }

    /// The reader is positioned within its bytes.
    pub closed spec fn wf(&self) -> bool {
        self.cursor.wf()
    }

    /// A reader at the start of `bytes`.
    pub fn new(bytes: &'a [u8]) -> (r: Self)
        ensures
            r.wf(),
            r.source() == bytes@,
            r.position() == 0,
    {
        InstructionIter { cursor: Cursor::new(bytes) }
    }

    /// How many bytes have been read.
    pub fn offset(&self) -> (r: usize)
        requires
            self.wf(),
        ensures
            r == self.position(),
            r <= self.source().len(),
    {
        self.cursor.pos
    }

    /// The next instruction, or `None` once every byte has been read.
    pub fn next(&mut self) -> (r: Option<Result<CompiledInstruction, MultisigError>>)
        requires
            old(self).wf(),
        ensures
            final(self).wf(),
            final(self).source() == old(self).source(),
            old(self).position() == old(self).source().len() <==> r is None,
            r matches Some(res) ==> match parse_instruction(
                old(self).source().skip(old(self).position()),
            ) {
                Some((ix, n)) => res matches Ok(c) && c@ == ix && final(self).position()
                    == old(self).position() + n,
                None => res == Err::<CompiledInstruction, MultisigError>(
                    MultisigError::InvalidMessage,
                ),
            },
    {
        if self.cursor.remaining() == 0 {
            return None;
        }
        Some(self.read())
    }

    /// Reads the instruction at the current position.
    pub fn read(&mut self) -> (r: Result<CompiledInstruction, MultisigError>)
        requires
            old(self).wf(),
        ensures
            final(self).wf(),
            final(self).source() == old(self).source(),
            match parse_instruction(old(self).source().skip(old(self).position())) {
                Some((ix, n)) => r matches Ok(c) && c@ == ix && final(self).position()
                    == old(self).position() + n,
                None => r == Err::<CompiledInstruction, MultisigError>(
                    MultisigError::InvalidMessage,
                ),
            },
    {
        let ghost s = self.cursor.rest();
        let ghost p0 = self.cursor.pos;
        let program_id_index = self.cursor.u8()?;
        let indexes_len = self.cursor.u8()?;
        assert(indexes_len == s[1]);
        let account_indexes = self.cursor.take(indexes_len as usize)?;
        assert(account_indexes@ =~= s.subrange(2, 2 + indexes_len as int));
        assert(self.cursor.rest() =~= s.skip(2 + indexes_len as int));
        let data_len = self.cursor.u16()?;
        assert(s.skip(2 + indexes_len as int).take(2) =~= s.subrange(
            2 + indexes_len as int,
            4 + indexes_len as int,
        ));
        assert(self.cursor.rest() =~= s.skip(4 + indexes_len as int));
        let data = self.cursor.take(data_len as usize)?;
        assert(data@ =~= s.subrange(
            4 + indexes_len as int,
            4 + indexes_len as int + data_len as int,
        ));
        assert(self.cursor.pos == p0 + 4 + indexes_len as int + data_len as int);
        Ok(
            CompiledInstruction {
                program_id_index,
                account_indexes: slice_to_vec(account_indexes),
                data: slice_to_vec(data),
            },
        )
    }
}

/// Reads a message's address lookup table references one after another.
pub struct LookupIter<'a> {
    cursor: Cursor<'a>,
}

impl<'a> LookupIter<'a> {
    /// The bytes being read.
    pub closed spec fn source(&self) -> Seq<u8> {
        self.cursor.data@
    }

    /// How many bytes have been read.
    pub closed spec fn position(&self) -> int {
        self.cursor.pos as int
    }

    /// The reader is positioned within its bytes.
    pub closed spec fn wf(&self) -> bool {
        self.cursor.wf()
    }

    /// A reader at the start of `bytes`.
    pub fn new(bytes: &'a [u8]) -> (r: Self)
        ensures
            r.wf(),
            r.source() == bytes@,
            r.position() == 0,
    {
        LookupIter { cursor: Cursor::new(bytes) }
    }

    /// How many bytes have been read.
    pub fn offset(&self) -> (r: usize)
        requires
            self.wf(),
        ensures
            r == self.position(),
            r <= self.source().len(),
    {
        self.cursor.pos
    }

    /// The next lookup, or `None` once every byte has been read.
    pub fn next(&mut self) -> (r: Option<Result<MessageLookup, MultisigError>>)
        requires
            old(self).wf(),
        ensures
            final(self).wf(),
            final(self).source() == old(self).source(),
            old(self).position() == old(self).source().len() <==> r is None,
            r matches Some(res) ==> match parse_lookup(
                old(self).source().skip(old(self).position()),
            ) {
                Some((lk, n)) => res matches Ok(c) && c@ == lk && final(self).position()
                    == old(self).position() + n,
                None => res == Err::<MessageLookup, MultisigError>(MultisigError::InvalidMessage),
            },
    {
        if self.cursor.remaining() == 0 {
            return None;
        }
        Some(self.read())
    }

    /// Reads the lookup at the current position.
    pub fn read(&mut self) -> (r: Result<MessageLookup, MultisigError>)
        requires
            old(self).wf(),
        ensures
            final(self).wf(),
            final(self).source() == old(self).source(),
            match parse_lookup(old(self).source().skip(old(self).position())) {
                Some((lk, n)) => r matches Ok(c) && c@ == lk && final(self).position()
                    == old(self).position() + n,
                None => r == Err::<MessageLookup, MultisigError>(MultisigError::InvalidMessage),
            },
    {
        let ghost s = self.cursor.rest();
        let ghost p0 = self.cursor.pos;
        let key_bytes = self.cursor.take(32)?;
        let account_key = Address::from_slice(key_bytes);
        assert(account_key@ =~= s.subrange(0, 32));
        assert(self.cursor.rest() =~= s.skip(32));
        let writable_len = self.cursor.u8()?;
        assert(writable_len == s[32]);
        let writable = self.cursor.take(writable_len as usize)?;
        assert(writable@ =~= s.subrange(33, 33 + writable_len as int));
        assert(self.cursor.rest() =~= s.skip(33 + writable_len as int));
        let readonly_len = self.cursor.u8()?;
        assert(readonly_len == s[33 + writable_len as int]);
        assert(self.cursor.rest() =~= s.skip(34 + writable_len as int));
        let readonly = self.cursor.take(readonly_len as usize)?;
        assert(readonly@ =~= s.subrange(
            34 + writable_len as int,
            34 + writable_len as int + readonly_len as int,
        ));
        Ok(
            MessageLookup {
                account_key,
                writable_indexes: slice_to_vec(writable),
                readonly_indexes: slice_to_vec(readonly),
            },
        )
    }
}

/// Once a list runs out of bytes, asking for more entries fails too.
proof fn lemma_parse_instructions_none(s: Seq<u8>, k: nat, count: nat)
    requires
        k <= count,
        parse_instructions(s, k) is None,
    ensures
        parse_instructions(s, count) is None,
    decreases count - k,
{
    if k < count {
        lemma_parse_instructions_none(s, k + 1, count);
    }
}

/// Once a list runs out of bytes, asking for more entries fails too.
proof fn lemma_parse_lookups_none(s: Seq<u8>, k: nat, count: nat)
    requires
        k <= count,
        parse_lookups(s, k) is None,
    ensures
        parse_lookups(s, count) is None,
    decreases count - k,
{
    if k < count {
        lemma_parse_lookups_none(s, k + 1, count);
    }
}

/// The values of a list of instructions.
pub open spec fn instruction_models(v: Seq<CompiledInstruction>) -> Seq<InstructionModel> {
    v.map_values(|c: CompiledInstruction| c@)
}

/// The values of a list of lookups.
pub open spec fn lookup_models(v: Seq<MessageLookup>) -> Seq<LookupModel> {
    v.map_values(|c: MessageLookup| c@)
}

/// The values of a list of addresses.
pub open spec fn address_models(v: Seq<Address>) -> Seq<Seq<u8>> {
    v.map_values(|a: Address| a@)
}

/// Reads `count` instructions from the front of `bytes`.
fn read_instructions(bytes: &[u8], count: u8) -> (r: Result<
    (Vec<CompiledInstruction>, usize),
    MultisigError,
>)
    ensures
        match parse_instructions(bytes@, count as nat) {
            Some((xs, n)) => r matches Ok((v, m)) && instruction_models(v@) == xs && m == n,
            None => r == Err::<(Vec<CompiledInstruction>, usize), MultisigError>(
                MultisigError::InvalidMessage,
            ),
        },
{
    let mut iter = InstructionIter::new(bytes);
    let mut out: Vec<CompiledInstruction> = Vec::new();
    let mut k: u8 = 0;
    while k < count
        invariant
            k <= count,
            iter.wf(),
            iter.source() == bytes@,
            parse_instructions(bytes@, k as nat) == Some(
                (instruction_models(out@), iter.position()),
            ),
        decreases count - k,
    {
        let ghost before = out@;
        match iter.read() {
            Ok(c) => {
                out.push(c);
                assert(instruction_models(out@) =~= instruction_models(before).push(c@));
            },
            Err(e) => {
                proof {
                    lemma_parse_instructions_none(bytes@, (k + 1) as nat, count as nat);
                }
                return Err(e);
            },
        }
        k = k + 1;
    }
    let n = iter.offset();
    Ok((out, n))
}

/// Reads `count` lookups from the front of `bytes`.
fn read_lookups(bytes: &[u8], count: u8) -> (r: Result<(Vec<MessageLookup>, usize), MultisigError>)
    ensures
        match parse_lookups(bytes@, count as nat) {
            Some((xs, n)) => r matches Ok((v, m)) && lookup_models(v@) == xs && m == n,
            None => r == Err::<(Vec<MessageLookup>, usize), MultisigError>(
                MultisigError::InvalidMessage,
            ),
        },
{
    let mut iter = LookupIter::new(bytes);
    let mut out: Vec<MessageLookup> = Vec::new();
    let mut k: u8 = 0;
    while k < count
        invariant
            k <= count,
            iter.wf(),
            iter.source() == bytes@,
            parse_lookups(bytes@, k as nat) == Some((lookup_models(out@), iter.position())),
        decreases count - k,
    {
        let ghost before = out@;
        match iter.read() {
            Ok(c) => {
                out.push(c);
                assert(lookup_models(out@) =~= lookup_models(before).push(c@));
            },
            Err(e) => {
                proof {
                    lemma_parse_lookups_none(bytes@, (k + 1) as nat, count as nat);
                }
                return Err(e);
            },
        }
        k = k + 1;
    }
    let n = iter.offset();
    Ok((out, n))
}

/// Splits `bytes` into `count` consecutive addresses.
pub(crate) fn read_keys(bytes: &[u8], count: usize) -> (r: Vec<Address>)
    requires
        bytes@.len() == 32 * count,
    ensures
        address_models(r@) == crate::state::message_format::keys_of(bytes@, count as nat),
        r@.len() == count,
{
    let total = bytes.len();
    let mut out: Vec<Address> = Vec::new();
    let mut i: usize = 0;
    while i < count
        invariant
            i <= count,
            total == bytes@.len(),
            bytes@.len() == 32 * count,
            out@.len() == i,
            forall|j: int| 0 <= j < i ==> (#[trigger] out@[j])@ == bytes@.subrange(32 * j, 32 * j + 32),
        decreases count - i,
    {
        let key = Address::from_slice(slice_subrange(bytes, 32 * i, 32 * i + 32));
        out.push(key);
        i = i + 1;
    }
    assert(address_models(out@) =~= crate::state::message_format::keys_of(bytes@, count as nat));
    out
}

/// Accounts the lookups supply in total, and as writable.
fn lookup_totals(lookups: &Vec<MessageLookup>) -> (r: (usize, usize))
    requires
        lookups@.len() <= 255,
        forall|i: int|
            0 <= i < lookups@.len() ==> crate::state::message_format::lookup_wf(
                #[trigger] lookups@[i]@,
            ),
    ensures
        r.0 == lookup_key_total(lookup_models(lookups@)),
        r.1 == lookup_writable_total(lookup_models(lookups@)),
        r.0 <= 510 * 255,
{
    let mut total: usize = 0;
    let mut writable: usize = 0;
    let mut i: usize = 0;
    while i < lookups.len()
        invariant
            i <= lookups@.len(),
            lookups@.len() <= 255,
            forall|k: int|
                0 <= k < lookups@.len() ==> crate::state::message_format::lookup_wf(
                    #[trigger] lookups@[k]@,
                ),
            total == lookup_key_total(lookup_models(lookups@.take(i as int))),
            writable == lookup_writable_total(lookup_models(lookups@.take(i as int))),
            total <= 510 * i,
            writable <= total,
        decreases lookups@.len() - i,
    {
        let lk = &lookups[i];
        proof {
            assert(crate::state::message_format::lookup_wf(lookups@[i as int]@));
            let a = lookup_models(lookups@.take(i + 1));
            assert(a.drop_last() =~= lookup_models(lookups@.take(i as int)));
            assert(a.last() == lk@);
        }
        total = total + lk.writable_indexes.len() + lk.readonly_indexes.len();
        writable = writable + lk.writable_indexes.len();
        i = i + 1;
    }
    assert(lookups@.take(lookups@.len() as int) =~= lookups@);
    (total, writable)
}

/// Whether every instruction references only accounts below `total`.
fn indexes_fit(ins: &Vec<CompiledInstruction>, total: usize) -> (r: bool)
    ensures
        r == crate::state::message_format::indexes_in_range(instruction_models(ins@), total as int),
{
    let ghost m = instruction_models(ins@);
    let mut i: usize = 0;
    while i < ins.len()
        invariant
            i <= ins@.len(),
            m == instruction_models(ins@),
            forall|k: int|
                0 <= k < i ==> {
                    &&& (#[trigger] m[k]).program_id_index < total
                    &&& forall|j: int|
                        0 <= j < m[k].account_indexes.len() ==> #[trigger] m[k].account_indexes[j]
                            < total
                },
        decreases ins@.len() - i,
    {
        let ix = &ins[i];
        assert(m[i as int] == ix@);
        if ix.program_id_index as usize >= total {
            return false;
        }
        let mut j: usize = 0;
        while j < ix.account_indexes.len()
            invariant
                j <= ix.account_indexes@.len(),
                i < ins@.len(),
                m == instruction_models(ins@),
                m[i as int] == ix@,
                forall|t: int| 0 <= t < j ==> #[trigger] ix.account_indexes@[t] < total,
            decreases ix.account_indexes@.len() - j,
        {
            if ix.account_indexes[j] as usize >= total {
                assert(m[i as int].account_indexes[j as int] >= total);
                return false;
            }
            j = j + 1;
        }
        i = i + 1;
    }
    true
}

/// Whether the key at `index` was requested writable.
pub open spec fn key_is_writable(m: MessageModel, index: int) -> bool {
    let num_static = m.account_keys.len();
    if index >= num_static {
        index - num_static < lookup_writable_total(m.lookups)
    } else if index < m.num_writable_signers {
        true
    } else if index < m.num_signers {
        false
    } else {
        index - m.num_signers < m.num_writable_non_signers
    }
}

/// A parsed, validated compiled message.
pub struct TransactionMessage {
    header: MessageHeader,
    account_keys: Vec<Address>,
    instructions: Vec<CompiledInstruction>,
    lookups: Vec<MessageLookup>,
    num_all_keys: usize,
    num_writable_lookup_keys: usize,
}

impl View for TransactionMessage {
    type V = MessageModel;

    closed spec fn view(&self) -> MessageModel {
        MessageModel {
            num_signers: self.header.num_signers,
            num_writable_signers: self.header.num_writable_signers,
            num_writable_non_signers: self.header.num_writable_non_signers,
            account_keys: address_models(self.account_keys@),
            instructions: instruction_models(self.instructions@),
            lookups: lookup_models(self.lookups@),
        }
    }
}

impl TransactionMessage {
    #[verifier::type_invariant]
    spec fn inv(&self) -> bool {
        &&& self.header.num_account_keys == self.account_keys@.len()
        &&& self.header.num_instructions == self.instructions@.len()
        &&& self.header.num_lookups == self.lookups@.len()
        &&& message_valid(self@)
        &&& self.num_all_keys == num_all_keys(self@)
        &&& self.num_writable_lookup_keys == lookup_writable_total(self@.lookups)
    }

    /// Parses and validates a message blob.
    ///
    /// Validation is total: every index is checked against the account count,
    /// every length against the bytes actually present, and the blob must be
    /// consumed exactly. The blob is accepted exactly when it is the encoding
    /// of a valid message, and that message is what comes back.
    pub fn parse(blob: &[u8]) -> (r: Result<TransactionMessage, MultisigError>)
        ensures
            match r {
                Ok(m) => {
                    &&& parse_message(blob@) == Some(m@)
                    &&& message_valid(m@)
                    &&& encode_message(m@) == blob@
                },
                Err(e) => {
                    &&& e == MultisigError::InvalidMessage
                    &&& parse_message(blob@) is None
                    &&& forall|m: MessageModel| message_valid(m) ==> encode_message(m) != blob@
                },
            },
    {
        let r = Self::parse_blob(blob);
        proof {
            match &r {
                Ok(_) => {
                    crate::state::message_format::lemma_encode_parse_message(blob@);
                },
                Err(_) => {
                    assert forall|m: MessageModel| message_valid(m) implies encode_message(m)
                        != blob@ by {
                        crate::state::message_format::lemma_parse_encode_message(m);
                    }
                },
            }
        }
        r
    }

    fn parse_blob(blob: &[u8]) -> (r: Result<TransactionMessage, MultisigError>)
        ensures
            match r {
                Ok(m) => parse_message(blob@) == Some(m@),
                Err(e) => e == MultisigError::InvalidMessage && parse_message(blob@) is None,
            },
    {
        let mut cursor = Cursor::new(blob);
        let num_signers = cursor.u8()?;
        let num_writable_signers = cursor.u8()?;
        let num_writable_non_signers = cursor.u8()?;
        let num_account_keys = cursor.u8()?;
        let num_instructions = cursor.u8()?;
        let num_lookups = cursor.u8()?;
        let header = MessageHeader {
            num_signers,
            num_writable_signers,
            num_writable_non_signers,
            num_account_keys,
            num_instructions,
            num_lookups,
        };
        let nk = num_account_keys as usize;
        if num_signers as usize > nk || num_writable_signers > num_signers {
            return Err(MultisigError::InvalidMessage);
        }
        let num_non_signers = nk - num_signers as usize;
        if num_writable_non_signers as usize > num_non_signers {
            return Err(MultisigError::InvalidMessage);
        }
        assert(cursor.pos == 6);
        let keys_bytes = cursor.take(nk * 32)?;
        assert(keys_bytes@ =~= blob@.subrange(6, 6 + 32 * nk));
        let account_keys = read_keys(keys_bytes, nk);
        let start = cursor.pos;
        let region = slice_subrange(blob, start, blob.len());
        assert(region@ =~= blob@.skip(6 + 32 * nk));
        let (instructions, n1) = read_instructions(region, num_instructions)?;
        proof {
            crate::state::message_format::lemma_encode_parse_instructions(
                region@,
                num_instructions as nat,
            );
        }
        let region2 = slice_subrange(region, n1, region.len());
        assert(region2@ =~= region@.skip(n1 as int));
        let (lookups, n2) = read_lookups(region2, num_lookups)?;
        proof {
            crate::state::message_format::lemma_encode_parse_lookups(
                region2@,
                num_lookups as nat,
            );
        }
        if n1 + n2 != region.len() {
            return Err(MultisigError::InvalidMessage);
        }
        assert forall|i: int| 0 <= i < lookups@.len() implies crate::state::message_format::lookup_wf(
            #[trigger] lookups@[i]@,
        ) by {
            assert(lookup_models(lookups@)[i] == lookups@[i]@);
        }
        let (num_lookup_keys, num_writable_lookup_keys) = lookup_totals(&lookups);
        let num_all_keys = nk + num_lookup_keys;
        let ghost model = MessageModel {
            num_signers,
            num_writable_signers,
            num_writable_non_signers,
            account_keys: address_models(account_keys@),
            instructions: instruction_models(instructions@),
            lookups: lookup_models(lookups@),
        };
        if !indexes_fit(&instructions, num_all_keys) {
            return Err(MultisigError::InvalidMessage);
        }
        assert(parse_message(blob@) == Some(model));
        proof {
            crate::state::message_format::lemma_encode_parse_message(blob@);
        }
        Ok(
            TransactionMessage {
                header,
                account_keys,
                instructions,
                lookups,
                num_all_keys,
                num_writable_lookup_keys,
            },
        )
    }

    /// Counts and privilege boundaries.
    pub fn header(&self) -> (r: MessageHeader)
        ensures
            r.num_signers == self@.num_signers,
            r.num_writable_signers == self@.num_writable_signers,
            r.num_writable_non_signers == self@.num_writable_non_signers,
            r.num_account_keys == self@.account_keys.len(),
            r.num_instructions == self@.instructions.len(),
            r.num_lookups == self@.lookups.len(),
    {
        proof {
            use_type_invariant(self);
        }
        self.header
    }

    /// Deduplicated account keys, ordered by privilege.
    pub fn account_keys(&self) -> (r: &Vec<Address>)
        ensures
            address_models(r@) == self@.account_keys,
    {
        &self.account_keys
    }

    /// The message's instructions, in order.
    pub fn instructions(&self) -> (r: &Vec<CompiledInstruction>)
        ensures
            instruction_models(r@) == self@.instructions,
    {
        &self.instructions
    }

    /// The message's address lookup table references, in order.
    pub fn lookups(&self) -> (r: &Vec<MessageLookup>)
        ensures
            lookup_models(r@) == self@.lookups,
    {
        &self.lookups
    }

    /// Total accounts the message references, static keys plus any loaded from
    /// lookup tables.
    pub fn num_all_keys(&self) -> (r: usize)
        ensures
            r == num_all_keys(self@),
    {
        proof {
            use_type_invariant(self);
        }
        self.num_all_keys
    }

    /// Accounts the lookup tables supply as writable.
    ///
    /// The runtime orders resolved keys as all writables across every table,
    /// then all readonlys, so this is the boundary between the two.
    pub fn num_writable_lookup_keys(&self) -> (r: usize)
        ensures
            r == lookup_writable_total(self@.lookups),
    {
        proof {
            use_type_invariant(self);
        }
        self.num_writable_lookup_keys
    }

    /// Whether the key at `index` was requested writable.
    ///
    /// Static keys are grouped writable signers, readonly signers, writable
    /// non-signers, readonly non-signers, so position alone decides them. Keys
    /// past the static ones come from lookup tables, where the runtime puts
    /// every table's writables before every table's readonlys.
    pub fn is_writable(&self, index: usize) -> (r: bool)
        ensures
            r == key_is_writable(self@, index as int),
    {
        proof {
            use_type_invariant(self);
        }
        let num_static = self.header.num_account_keys as usize;
        if index >= num_static {
            return index - num_static < self.num_writable_lookup_keys;
        }
        let num_signers = self.header.num_signers as usize;
        if index < self.header.num_writable_signers as usize {
            return true;
        }
        if index < num_signers {
            return false;
        }
        index - num_signers < self.header.num_writable_non_signers as usize
    }

    /// Whether the key at `index` was requested as a signer.
    ///
    /// Only static keys can sign: a lookup table cannot confer signing.
    pub fn is_signer(&self, index: usize) -> (r: bool)
        ensures
            r == (index < self@.num_signers),
    {
        index < self.header.num_signers as usize
    }
}

} // verus!
