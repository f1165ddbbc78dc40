//! Off-chain instruction builders.
//!
//! Every byte layout the program parses is produced here, so a consumer never
//! hand-rolls one and the two cannot drift apart.

use vstd::bytes::*;
use vstd::prelude::*;
use vstd::slice::*;

use crate::address::{address_of, Address};
use crate::constants::{
    buffer_seed, ephemeral_seed, id, multisig_seed, program_id_bytes, transaction_seed, vault_seed,
    MAX_OWNER,
};
use crate::encoding::{append_bytes, append_u16, append_u32, append_u64};
use crate::instruction::system::{byte_strings, seed_of};
use crate::state::message::key_is_writable;
use crate::state::message_format::{
    encode_instruction, encode_instructions, encode_keys, encode_lookup, encode_lookups,
    encode_message, lookup_writable_total, InstructionModel, LookupModel, MessageModel,
};

verus! {

/// This program's address.
pub fn program_id() -> (r: Address)
    ensures
        r@ == program_id_bytes(),
{
    id()
}

/// Encodes a `u32` payload for `change_threshold` and `change_time_lock`.
pub fn u32_payload(value: u32) -> (r: [u8; 4])
    ensures
        r@ == spec_u32_to_le_bytes(value),
{
    let v = u32_to_le_bytes(value);
    proof {
        lemma_auto_spec_u32_to_from_le_bytes();
    }
    let r = [v[0], v[1], v[2], v[3]];
    assert(r@ =~= v@);
    r
}

/// Names the program derived address, with its bump, that the first bump
/// from 255 down gives for `seeds` under `program_id`, if any does.
pub uninterp spec fn program_address(seeds: Seq<Seq<u8>>, program_id: Seq<u8>) -> Option<
    (Seq<u8>, u8),
>;

/// Calls `solana_pubkey::Pubkey::try_find_program_address`: the program
/// derived address for `seeds` and `program_id` with the largest bump that
/// gives one, or `None` where no bump does or the seeds are too many or too
/// long.
///
/// The contract claims only that the answer is a function of the seeds and
/// the program, named [`program_address`]; what that function computes (a
/// SHA-256 search off the ed25519 curve) is not stated.
#[verifier::external_body]
fn find_program_address(seeds: &Vec<Vec<u8>>, program_id: &Address) -> (r: Option<(Address, u8)>)
    ensures
        match r {
            Some((a, b)) => program_address(byte_strings(seeds@), program_id@) == Some((a@, b)),
            None => program_address(byte_strings(seeds@), program_id@) is None,
        },
{
    let refs: Vec<&[u8]> = seeds.iter().map(|s| s.as_slice()).collect();
    let program = solana_pubkey::Pubkey::new_from_array(program_id.bytes);
    solana_pubkey::Pubkey::try_find_program_address(&refs, &program).map(
        |(a, b)| (Address::new_from_array(a.to_bytes()), b),
    )
}

/// The multisig account for a create key.
pub fn multisig_address(create_key: &Address) -> (r: Option<(Address, u8)>)
    ensures
        match r {
            Some((a, b)) => program_address(
                seq![crate::constants::multisig_seed_bytes(), create_key@],
                program_id_bytes(),
            ) == Some((a@, b)),
            None => program_address(
                seq![crate::constants::multisig_seed_bytes(), create_key@],
                program_id_bytes(),
            ) is None,
        },
{
    let mut seeds: Vec<Vec<u8>> = Vec::new();
    seeds.push(multisig_seed());
    seeds.push(seed_of(create_key.as_array().as_slice()));
    assert(byte_strings(seeds@) =~= seq![crate::constants::multisig_seed_bytes(), create_key@]);
    find_program_address(&seeds, &program_id())
}

/// The proposal account for a multisig and index.
pub fn transaction_address(multisig: &Address, index: u64) -> (r: Option<(Address, u8)>)
    ensures
        match r {
            Some((a, b)) => program_address(
                seq![
                    crate::constants::transaction_seed_bytes(),
                    multisig@,
                    spec_u64_to_le_bytes(index),
                ],
                program_id_bytes(),
            ) == Some((a@, b)),
            None => program_address(
                seq![
                    crate::constants::transaction_seed_bytes(),
                    multisig@,
                    spec_u64_to_le_bytes(index),
                ],
                program_id_bytes(),
            ) is None,
        },
{
    let mut seeds: Vec<Vec<u8>> = Vec::new();
    seeds.push(transaction_seed());
    seeds.push(seed_of(multisig.as_array().as_slice()));
    seeds.push(u64_to_le_bytes(index));
    assert(byte_strings(seeds@) =~= seq![
        crate::constants::transaction_seed_bytes(),
        multisig@,
        spec_u64_to_le_bytes(index),
    ]);
    find_program_address(&seeds, &program_id())
}

/// The vault a proposal spends from.
pub fn vault_address(multisig: &Address, vault_index: u8) -> (r: Option<(Address, u8)>)
    ensures
        match r {
            Some((a, b)) => program_address(
                seq![crate::constants::vault_seed_bytes(), multisig@, seq![vault_index]],
                program_id_bytes(),
            ) == Some((a@, b)),
            None => program_address(
                seq![crate::constants::vault_seed_bytes(), multisig@, seq![vault_index]],
                program_id_bytes(),
            ) is None,
        },
{
    let mut seeds: Vec<Vec<u8>> = Vec::new();
    seeds.push(vault_seed());
    seeds.push(seed_of(multisig.as_array().as_slice()));
    seeds.push(crate::instruction::system::byte_seed(vault_index));
    assert(byte_strings(seeds@) =~= seq![
        crate::constants::vault_seed_bytes(),
        multisig@,
        seq![vault_index],
    ]);
    find_program_address(&seeds, &program_id())
}

/// The buffer account for a creator's upload.
pub fn buffer_address(multisig: &Address, creator: &Address, buffer_index: u8) -> (r: Option<
    (Address, u8),
>)
    ensures
        match r {
            Some((a, b)) => program_address(
                seq![
                    crate::constants::buffer_seed_bytes(),
                    multisig@,
                    creator@,
                    seq![buffer_index],
                ],
                program_id_bytes(),
            ) == Some((a@, b)),
            None => program_address(
                seq![
                    crate::constants::buffer_seed_bytes(),
                    multisig@,
                    creator@,
                    seq![buffer_index],
                ],
                program_id_bytes(),
            ) is None,
        },
{
    let mut seeds: Vec<Vec<u8>> = Vec::new();
    seeds.push(buffer_seed());
    seeds.push(seed_of(multisig.as_array().as_slice()));
    seeds.push(seed_of(creator.as_array().as_slice()));
    seeds.push(crate::instruction::system::byte_seed(buffer_index));
    assert(byte_strings(seeds@) =~= seq![
        crate::constants::buffer_seed_bytes(),
        multisig@,
        creator@,
        seq![buffer_index],
    ]);
    find_program_address(&seeds, &program_id())
}

/// An ephemeral signer belonging to a proposal.
pub fn ephemeral_address(transaction: &Address, index: u8) -> (r: Option<(Address, u8)>)
    ensures
        match r {
            Some((a, b)) => program_address(
                seq![crate::constants::ephemeral_seed_bytes(), transaction@, seq![index]],
                program_id_bytes(),
            ) == Some((a@, b)),
            None => program_address(
                seq![crate::constants::ephemeral_seed_bytes(), transaction@, seq![index]],
                program_id_bytes(),
            ) is None,
        },
{
    let mut seeds: Vec<Vec<u8>> = Vec::new();
    seeds.push(ephemeral_seed());
    seeds.push(seed_of(transaction.as_array().as_slice()));
    seeds.push(crate::instruction::system::byte_seed(index));
    assert(byte_strings(seeds@) =~= seq![
        crate::constants::ephemeral_seed_bytes(),
        transaction@,
        seq![index],
    ]);
    find_program_address(&seeds, &program_id())
}

/// One instruction inside a compiled message.
#[derive(Clone, Debug)]
pub struct MessageInstruction {
    /// Index into `account_keys` naming the program to invoke.
    pub program_id_index: u8,
    /// Indexes into `account_keys`, in the order the program expects.
    pub account_indexes: Vec<u8>,
    /// Instruction payload.
    pub data: Vec<u8>,
}

impl View for MessageInstruction {
    type V = InstructionModel;

    open spec fn view(&self) -> InstructionModel {
        InstructionModel {
            program_id_index: self.program_id_index,
            account_indexes: self.account_indexes@,
            data: self.data@,
        }
    }
}

/// One address lookup table a message loads accounts from.
#[derive(Clone, Debug)]
pub struct MessageLookup {
    /// The lookup table account.
    pub account_key: Address,
    /// Table indexes to load as writable.
    pub writable_indexes: Vec<u8>,
    /// Table indexes to load as readonly.
    pub readonly_indexes: Vec<u8>,
}

impl View for MessageLookup {
    type V = LookupModel;

    open spec fn view(&self) -> LookupModel {
        LookupModel {
            account_key: self.account_key@,
            writable_indexes: self.writable_indexes@,
            readonly_indexes: self.readonly_indexes@,
        }
    }
}

/// A compiled message, before serialization.
///
/// `account_keys` must be ordered writable signers, readonly signers, writable
/// non-signers, readonly non-signers: an index alone determines an account's
/// privileges, so the order is the encoding.
#[derive(Clone, Debug)]
pub struct Message {
    /// Signer keys, which come first in `account_keys`.
    pub num_signers: u8,
    /// Of the signers, how many are writable.
    pub num_writable_signers: u8,
    /// Of the non-signers, how many are writable.
    pub num_writable_non_signers: u8,
    /// Deduplicated account keys, including program ids.
    pub account_keys: Vec<Address>,
    /// Instructions to invoke, in order.
    pub instructions: Vec<MessageInstruction>,
    /// Lookup tables supplying further accounts.
    pub lookups: Vec<MessageLookup>,
}

impl View for Message {
    type V = MessageModel;

    open spec fn view(&self) -> MessageModel {
        MessageModel {
            num_signers: self.num_signers,
            num_writable_signers: self.num_writable_signers,
            num_writable_non_signers: self.num_writable_non_signers,
            account_keys: self.account_keys@.map_values(|a: Address| a@),
            instructions: self.instructions@.map_values(|i: MessageInstruction| i@),
            lookups: self.lookups@.map_values(|l: MessageLookup| l@),
        }
    }
}

/// One account of an instruction: its address, whether it signs, whether it
/// is written.
#[derive(Clone, Copy, Debug)]
pub struct AccountMeta {
    /// The account.
    pub pubkey: Address,
    /// Whether it signs the transaction.
    pub is_signer: bool,
    /// Whether the instruction writes it.
    pub is_writable: bool,
}

/// The value of an account entry: address, signer, writable.
pub open spec fn meta_model(m: AccountMeta) -> (Seq<u8>, bool, bool) {
    (m.pubkey@, m.is_signer, m.is_writable)
}

impl AccountMeta {
    /// A writable account.
    pub fn new(pubkey: Address, is_signer: bool) -> (r: AccountMeta)
        ensures
            r == (AccountMeta { pubkey, is_signer, is_writable: true }),
    {
        AccountMeta { pubkey, is_signer, is_writable: true }
    }

    /// A readonly account.
    pub fn new_readonly(pubkey: Address, is_signer: bool) -> (r: AccountMeta)
        ensures
            r == (AccountMeta { pubkey, is_signer, is_writable: false }),
    {
        AccountMeta { pubkey, is_signer, is_writable: false }
    }
}

/// An instruction for this program: its accounts and payload.
#[derive(Clone, Debug)]
pub struct Instruction {
    /// The program to call.
    pub program_id: Address,
    /// The accounts, in order.
    pub accounts: Vec<AccountMeta>,
    /// The payload.
    pub data: Vec<u8>,
}

/// The account entries of an instruction, as values.
pub open spec fn metas_of(v: Seq<AccountMeta>) -> Seq<(Seq<u8>, bool, bool)> {
    v.map_values(|m: AccountMeta| meta_model(m))
}

impl Message {
    /// Serializes the message into the layout the program parses.
    ///
    /// Counts are written as single bytes and lengths as their prefixes, so a
    /// list longer than its prefix allows is cut to its low bits in the count.
    pub fn encode(&self) -> (r: Vec<u8>)
        ensures
            r@ == encode_message(self@),
    {
        let mut blob: Vec<u8> = Vec::new();
        blob.push(self.num_signers);
        blob.push(self.num_writable_signers);
        blob.push(self.num_writable_non_signers);
        blob.push(self.account_keys.len() as u8);
        blob.push(self.instructions.len() as u8);
        blob.push(self.lookups.len() as u8);
        let ghost m = self@;
        assert(blob@ =~= crate::state::message_format::encode_header(m));
        let mut i: usize = 0;
        while i < self.account_keys.len()
            invariant
                i <= self.account_keys@.len(),
                m == self@,
                blob@ == crate::state::message_format::encode_header(m) + encode_keys(
                    m.account_keys.take(i as int),
                ),
            decreases self.account_keys@.len() - i,
        {
            append_bytes(&mut blob, self.account_keys[i].as_array().as_slice());
            proof {
                assert(m.account_keys.take(i + 1).drop_last() =~= m.account_keys.take(i as int));
            }
            i = i + 1;
        }
        assert(m.account_keys.take(i as int) =~= m.account_keys);
        let ghost so_far = blob@;
        let mut i: usize = 0;
        while i < self.instructions.len()
            invariant
                i <= self.instructions@.len(),
                m == self@,
                blob@ == so_far + encode_instructions(m.instructions.take(i as int)),
            decreases self.instructions@.len() - i,
        {
            let ix = &self.instructions[i];
            let ghost before = blob@;
            blob.push(ix.program_id_index);
            blob.push(ix.account_indexes.len() as u8);
            append_bytes(&mut blob, ix.account_indexes.as_slice());
            append_u16(&mut blob, ix.data.len() as u16);
            append_bytes(&mut blob, ix.data.as_slice());
            proof {
                assert(blob@ =~= before + encode_instruction(ix@));
                assert(m.instructions.take(i + 1).drop_last() =~= m.instructions.take(i as int));
            }
            i = i + 1;
        }
        assert(m.instructions.take(i as int) =~= m.instructions);
        let ghost so_far = blob@;
        let mut i: usize = 0;
        while i < self.lookups.len()
            invariant
                i <= self.lookups@.len(),
                m == self@,
                blob@ == so_far + encode_lookups(m.lookups.take(i as int)),
            decreases self.lookups@.len() - i,
        {
            let lk = &self.lookups[i];
            let ghost before = blob@;
            append_bytes(&mut blob, lk.account_key.as_array().as_slice());
            blob.push(lk.writable_indexes.len() as u8);
            append_bytes(&mut blob, lk.writable_indexes.as_slice());
            blob.push(lk.readonly_indexes.len() as u8);
            append_bytes(&mut blob, lk.readonly_indexes.as_slice());
            proof {
                assert(blob@ =~= before + encode_lookup(lk@));
                assert(m.lookups.take(i + 1).drop_last() =~= m.lookups.take(i as int));
            }
            i = i + 1;
        }
        assert(m.lookups.take(i as int) =~= m.lookups);
        assert(blob@ =~= encode_message(m));
        blob
    }

    /// Whether the static key at `index` was requested writable.
    fn is_writable(&self, index: usize) -> (r: bool)
        requires
            index < self.account_keys@.len(),
        ensures
            r == key_is_writable(self@, index as int),
    {
        let num_signers = self.num_signers as usize;
        if index < self.num_writable_signers as usize {
            return true;
        }
        if index < num_signers {
            return false;
        }
        index - num_signers < self.num_writable_non_signers as usize
    }

    /// The accounts `execute` expects for this message, in order: the static
    /// keys, then each table's writable addresses, then each table's readonly
    /// addresses, then the tables themselves. None of them signs: a signer
    /// here signs as a PDA.
    ///
    /// `resolved` supplies the addresses the tables will yield, in that same
    /// order.
    pub fn execute_accounts(&self, resolved: &[Address]) -> (r: Vec<AccountMeta>)
        requires
            lookup_writable_total(self@.lookups) <= usize::MAX,
            self.account_keys@.len() + resolved@.len() + self.lookups@.len() <= usize::MAX,
        ensures
            r@.len() == self.account_keys@.len() + resolved@.len() + self.lookups@.len(),
            forall|i: int|
                0 <= i < self.account_keys@.len() ==> meta_model(#[trigger] r@[i]) == (
                    self.account_keys@[i]@,
                    false,
                    key_is_writable(self@, i),
                ),
            forall|i: int|
                0 <= i < resolved@.len() ==> meta_model(
                    #[trigger] r@[self.account_keys@.len() + i],
                ) == (resolved@[i]@, false, i < lookup_writable_total(self@.lookups)),
            forall|j: int|
                0 <= j < self.lookups@.len() ==> meta_model(
                    #[trigger] r@[self.account_keys@.len() + resolved@.len() + j],
                ) == (self.lookups@[j].account_key@, false, false),
    {
        let ghost m = self@;
        let mut metas: Vec<AccountMeta> = Vec::new();
        let mut i: usize = 0;
        while i < self.account_keys.len()
            invariant
                i <= self.account_keys@.len(),
                m == self@,
                metas@.len() == i,
                forall|q: int|
                    0 <= q < i ==> meta_model(#[trigger] metas@[q]) == (
                        self.account_keys@[q]@,
                        false,
                        key_is_writable(m, q),
                    ),
            decreases self.account_keys@.len() - i,
        {
            if self.is_writable(i) {
                metas.push(AccountMeta::new(self.account_keys[i], false));
            } else {
                metas.push(AccountMeta::new_readonly(self.account_keys[i], false));
            }
            i = i + 1;
        }
        let mut writable_from_lookups: usize = 0;
        let mut j: usize = 0;
        while j < self.lookups.len()
            invariant
                j <= self.lookups@.len(),
                m == self@,
                lookup_writable_total(m.lookups) <= usize::MAX,
                writable_from_lookups == lookup_writable_total(m.lookups.take(j as int)),
            decreases self.lookups@.len() - j,
        {
            proof {
                assert(m.lookups.take(j + 1).drop_last() =~= m.lookups.take(j as int));
                lemma_writable_total_prefix(m.lookups, j as int + 1);
            }
            writable_from_lookups = writable_from_lookups + self.lookups[j].writable_indexes.len();
            j = j + 1;
        }
        assert(m.lookups.take(j as int) =~= m.lookups);
        let k = self.account_keys.len();
        let mut i: usize = 0;
        while i < resolved.len()
            invariant
                i <= resolved@.len(),
                k == self.account_keys@.len(),
                m == self@,
                writable_from_lookups == lookup_writable_total(m.lookups),
                metas@.len() == k + i,
                forall|q: int|
                    0 <= q < k ==> meta_model(#[trigger] metas@[q]) == (
                        self.account_keys@[q]@,
                        false,
                        key_is_writable(m, q),
                    ),
                forall|q: int|
                    0 <= q < i ==> meta_model(#[trigger] metas@[k + q]) == (
                        resolved@[q]@,
                        false,
                        q < lookup_writable_total(m.lookups),
                    ),
            decreases resolved@.len() - i,
        {
            if i < writable_from_lookups {
                metas.push(AccountMeta::new(resolved[i], false));
            } else {
                metas.push(AccountMeta::new_readonly(resolved[i], false));
            }
            proof {
                assert(metas@[k + i as int] == metas@.last());
            }
            i = i + 1;
        }
        let kr = k + resolved.len();
        let mut j: usize = 0;
        while j < self.lookups.len()
            invariant
                j <= self.lookups@.len(),
                k == self.account_keys@.len(),
                kr == k + resolved@.len(),
                m == self@,
                metas@.len() == kr + j,
                forall|q: int|
                    0 <= q < k ==> meta_model(#[trigger] metas@[q]) == (
                        self.account_keys@[q]@,
                        false,
                        key_is_writable(m, q),
                    ),
                forall|q: int|
                    0 <= q < resolved@.len() ==> meta_model(#[trigger] metas@[k + q]) == (
                        resolved@[q]@,
                        false,
                        q < lookup_writable_total(m.lookups),
                    ),
                forall|q: int|
                    0 <= q < j ==> meta_model(#[trigger] metas@[kr + q]) == (
                        self.lookups@[q].account_key@,
                        false,
                        false,
                    ),
            decreases self.lookups@.len() - j,
        {
            metas.push(AccountMeta::new_readonly(self.lookups[j].account_key, false));
            proof {
                assert(metas@[kr + j as int] == metas@.last());
            }
            j = j + 1;
        }
        metas
    }
}

/// Instruction discriminators.
pub struct Tag;

impl Tag {
    /// `init_multisig`.
    pub const INIT_MULTISIG: u8 = 0;
    /// `create_transaction`.
    pub const CREATE_TRANSACTION: u8 = 1;
    /// `approve`.
    pub const APPROVE: u8 = 2;
    /// `reject`.
    pub const REJECT: u8 = 3;
    /// `execute`.
    pub const EXECUTE: u8 = 4;
    /// `cancel`.
    pub const CANCEL: u8 = 5;
    /// `close_transaction`.
    pub const CLOSE_TRANSACTION: u8 = 6;
    /// `buffer_create`.
    pub const BUFFER_CREATE: u8 = 7;
    /// `buffer_extend`.
    pub const BUFFER_EXTEND: u8 = 8;
    /// `buffer_close`.
    pub const BUFFER_CLOSE: u8 = 9;
    /// `create_from_buffer`.
    pub const CREATE_FROM_BUFFER: u8 = 10;
    /// `set_config`.
    pub const SET_CONFIG: u8 = 11;
}

/// Config action discriminators, the first byte of a config payload.
pub struct Action;

impl Action {
    /// Add an owner.
    pub const ADD_OWNER: u8 = 0;
    /// Remove an owner.
    pub const REMOVE_OWNER: u8 = 1;
    /// Change the approval threshold.
    pub const CHANGE_THRESHOLD: u8 = 2;
    /// Change the execution delay.
    pub const CHANGE_TIME_LOCK: u8 = 3;
    /// Set where reclaimed rent goes.
    pub const SET_RENT_COLLECTOR: u8 = 4;
    /// Set one owner's permission mask.
    pub const SET_PERMISSION: u8 = 5;
    /// Close the multisig.
    pub const CLOSE_MULTISIG: u8 = 6;
    /// Hand configuration control to a key, or return it to the owners.
    pub const SET_CONFIG_AUTHORITY: u8 = 7;
}

/// The all-zero address, which is the system program.
pub open spec fn system_program_bytes() -> Seq<u8> {
    Seq::new(32, |i: int| 0u8)
}

/// A message transferring lamports from `vault` to `destination`.
pub fn transfer(vault: &Address, destination: &Address, lamports: u64) -> (r: Message)
    ensures
        r@ == (MessageModel {
            num_signers: 1,
            num_writable_signers: 1,
            num_writable_non_signers: 1,
            account_keys: seq![vault@, destination@, system_program_bytes()],
            instructions: seq![
                InstructionModel {
                    program_id_index: 2,
                    account_indexes: seq![0u8, 1u8],
                    data: spec_u32_to_le_bytes(2) + spec_u64_to_le_bytes(lamports),
                },
            ],
            lookups: Seq::empty(),
        }),
{
    let mut data: Vec<u8> = Vec::new();
    append_u32(&mut data, 2);
    append_u64(&mut data, lamports);
    let mut keys: Vec<Address> = Vec::new();
    keys.push(*vault);
    keys.push(*destination);
    keys.push(Address::zero());
    let mut instructions: Vec<MessageInstruction> = Vec::new();
    let account_indexes: Vec<u8> = vec![0u8, 1u8];
    let ix = MessageInstruction { program_id_index: 2, account_indexes, data };
    instructions.push(ix);
    let lookups: Vec<MessageLookup> = Vec::new();
    let r = Message {
        num_signers: 1,
        num_writable_signers: 1,
        num_writable_non_signers: 1,
        account_keys: keys,
        instructions,
        lookups,
    };
    proof {
        assert(ix@.account_indexes =~= seq![0u8, 1u8]);
        assert(r@.account_keys =~= seq![vault@, destination@, system_program_bytes()]);
        assert(r@.instructions =~= seq![ix@]);
        assert(r@.lookups =~= Seq::<LookupModel>::empty());
    }
    r
}

/// A message carrying a config action, which targets this program and so
/// carries no accounts of its own. The system program is named so a resize
/// can pay rent through it.
pub fn config_action(action: u8, payload: &[u8]) -> (r: Message)
    ensures
        r@ == (MessageModel {
            num_signers: 0,
            num_writable_signers: 0,
            num_writable_non_signers: 0,
            account_keys: seq![program_id_bytes(), system_program_bytes()],
            instructions: seq![
                InstructionModel {
                    program_id_index: 0,
                    account_indexes: Seq::empty(),
                    data: seq![action] + payload@,
                },
            ],
            lookups: Seq::empty(),
        }),
{
    let mut data: Vec<u8> = vec![action];
    append_bytes(&mut data, payload);
    let mut keys: Vec<Address> = Vec::new();
    keys.push(program_id());
    keys.push(Address::zero());
    let mut instructions: Vec<MessageInstruction> = Vec::new();
    let ix = MessageInstruction { program_id_index: 0, account_indexes: Vec::new(), data };
    instructions.push(ix);
    let r = Message {
        num_signers: 0,
        num_writable_signers: 0,
        num_writable_non_signers: 0,
        account_keys: keys,
        instructions,
        lookups: Vec::new(),
    };
    proof {
        assert(ix@.data =~= seq![action] + payload@);
        assert(ix@.account_indexes =~= Seq::<u8>::empty());
        assert(r@.account_keys =~= seq![program_id_bytes(), system_program_bytes()]);
        assert(r@.instructions =~= seq![ix@]);
        assert(r@.lookups =~= Seq::<LookupModel>::empty());
    }
    r
}

/// An instruction for this program with these accounts and payload.
pub open spec fn program_instruction(
    ix: Instruction,
    accounts: Seq<(Seq<u8>, bool, bool)>,
    data: Seq<u8>,
) -> bool {
    &&& ix.program_id@ == program_id_bytes()
    &&& metas_of(ix.accounts@) == accounts
    &&& ix.data@ == data
}

/// The bytes of `init_multisig`'s payload after its tag: threshold, owner
/// count, bump, three reserved bytes, the authority, then at most
/// `MAX_OWNER` owner addresses.
pub open spec fn init_multisig_payload(
    owners: Seq<Address>,
    threshold: u32,
    bump: u8,
    config_authority: Seq<u8>,
) -> Seq<u8> {
    spec_u32_to_le_bytes(threshold) + spec_u32_to_le_bytes(owners.len() as u32) + seq![
        bump,
        0u8,
        0u8,
        0u8,
    ] + config_authority + encode_keys(
        owners.take(if owners.len() > MAX_OWNER {
            MAX_OWNER as int
        } else {
            owners.len() as int
        }).map_values(|a: Address| a@),
    )
}

/// Creates a multisig. `owners` must be sorted ascending and free of
/// duplicates.
///
/// `None` when no program address can be derived for the create key.
pub fn init_multisig(creator: &Address, create_key: &Address, owners: &[Address], threshold: u32) -> (r:
    Option<Instruction>)
    ensures
        match program_address(
            seq![crate::constants::multisig_seed_bytes(), create_key@],
            program_id_bytes(),
        ) {
            None => r is None,
            Some((multisig, bump)) => r matches Some(ix) && program_instruction(
                ix,
                seq![
                    (creator@, true, true),
                    (create_key@, true, false),
                    (multisig, false, true),
                    (system_program_bytes(), false, false),
                ],
                seq![Tag::INIT_MULTISIG] + init_multisig_payload(
                    owners@,
                    threshold,
                    bump,
                    Seq::new(32, |i: int| 0u8),
                ),
            ),
        },
{
    init_multisig_controlled(creator, create_key, owners, threshold, &Address::zero())
}

/// Creates a multisig controlled by `config_authority`, which may change its
/// configuration without a vote. The all-zero address leaves it autonomous.
pub fn init_multisig_controlled(
    creator: &Address,
    create_key: &Address,
    owners: &[Address],
    threshold: u32,
    config_authority: &Address,
) -> (r: Option<Instruction>)
    ensures
        match program_address(
            seq![crate::constants::multisig_seed_bytes(), create_key@],
            program_id_bytes(),
        ) {
            None => r is None,
            Some((multisig, bump)) => r matches Some(ix) && program_instruction(
                ix,
                seq![
                    (creator@, true, true),
                    (create_key@, true, false),
                    (multisig, false, true),
                    (system_program_bytes(), false, false),
                ],
                seq![Tag::INIT_MULTISIG] + init_multisig_payload(
                    owners@,
                    threshold,
                    bump,
                    config_authority@,
                ),
            ),
        },
{
    let (multisig, bump) = match multisig_address(create_key) {
        Some(found) => found,
        None => {
            return None;
        },
    };
    let mut data: Vec<u8> = vec![Tag::INIT_MULTISIG];
    append_u32(&mut data, threshold);
    append_u32(&mut data, owners.len() as u32);
    data.push(bump);
    data.push(0u8);
    data.push(0u8);
    data.push(0u8);
    append_bytes(&mut data, config_authority.as_array().as_slice());
    let ghost head = data@;
    let limit = if owners.len() > MAX_OWNER {
        MAX_OWNER
    } else {
        owners.len()
    };
    let ghost kept = owners@.take(limit as int).map_values(|a: Address| a@);
    let mut i: usize = 0;
    while i < limit
        invariant
            i <= limit <= owners@.len(),
            kept == owners@.take(limit as int).map_values(|a: Address| a@),
            data@ == head + encode_keys(kept.take(i as int)),
        decreases limit - i,
    {
        append_bytes(&mut data, owners[i].as_array().as_slice());
        proof {
            assert(kept.take(i + 1).drop_last() =~= kept.take(i as int));
            assert(kept.take(i + 1).last() == owners@[i as int]@);
        }
        i = i + 1;
    }
    assert(kept.take(i as int) =~= kept);
    let mut accounts: Vec<AccountMeta> = Vec::new();
    accounts.push(AccountMeta::new(*creator, true));
    accounts.push(AccountMeta::new_readonly(*create_key, true));
    accounts.push(AccountMeta::new(multisig, false));
    accounts.push(AccountMeta::new_readonly(Address::zero(), false));
    let ix = Instruction { program_id: program_id(), accounts, data };
    proof {
        assert(metas_of(ix.accounts@) =~= seq![
            (creator@, true, true),
            (create_key@, true, false),
            (multisig@, false, true),
            (system_program_bytes(), false, false),
        ]);
        assert(ix.data@ =~= seq![Tag::INIT_MULTISIG] + init_multisig_payload(
            owners@,
            threshold,
            bump,
            config_authority@,
        ));
    }
    Some(ix)
}

/// Ephemeral bumps padded with zeros to the four the payload holds.
pub open spec fn bumps4(bumps: Seq<u8>) -> Seq<u8> {
    bumps + Seq::new((4 - bumps.len()) as nat, |i: int| 0u8)
}

/// Appends the bumps, padded with zeros to four.
fn append_bumps(data: &mut Vec<u8>, bumps: &[u8])
    requires
        bumps@.len() <= 4,
    ensures
        final(data)@ == old(data)@ + bumps4(bumps@),
{
    append_bytes(data, bumps);
    let mut n: usize = bumps.len();
    while n < 4
        invariant
            bumps@.len() <= n <= 4,
            data@ == old(data)@ + bumps@ + Seq::new((n - bumps@.len()) as nat, |i: int| 0u8),
        decreases 4 - n,
    {
        data.push(0u8);
        assert(data@ =~= old(data)@ + bumps@ + Seq::new((n + 1 - bumps@.len()) as nat, |i: int| 0u8));
        n = n + 1;
    }
    assert(data@ =~= old(data)@ + bumps4(bumps@));
}

/// The accounts of a one-byte-tagged vote instruction.
pub open spec fn vote_accounts(signer: Seq<u8>, multisig: Seq<u8>, transaction: Seq<u8>) -> Seq<
    (Seq<u8>, bool, bool),
> {
    seq![(signer, true, false), (multisig, false, true), (transaction, false, true)]
}

/// Proposes a message.
///
/// `None` when no program address can be derived for the proposal or the
/// vault.
pub fn create_transaction(
    creator: &Address,
    multisig: &Address,
    index: u64,
    message: &Message,
    vault_index: u8,
    ephemeral_bumps: &[u8],
) -> (r: Option<Instruction>)
    requires
        ephemeral_bumps@.len() <= 4,
    ensures
        match (
            program_address(
                seq![
                    crate::constants::transaction_seed_bytes(),
                    multisig@,
                    spec_u64_to_le_bytes(index),
                ],
                program_id_bytes(),
            ),
            program_address(
                seq![crate::constants::vault_seed_bytes(), multisig@, seq![vault_index]],
                program_id_bytes(),
            ),
        ) {
            (Some((transaction, bump)), Some((_, vault_bump))) => r matches Some(ix)
                && program_instruction(
                ix,
                seq![
                    (creator@, true, true),
                    (multisig@, false, true),
                    (transaction, false, true),
                    (system_program_bytes(), false, false),
                ],
                seq![
                    Tag::CREATE_TRANSACTION,
                    vault_index,
                    vault_bump,
                    bump,
                    ephemeral_bumps@.len() as u8,
                ] + bumps4(ephemeral_bumps@) + encode_message(message@),
            ),
            _ => r is None,
        },
{
    let (transaction, bump) = match transaction_address(multisig, index) {
        Some(found) => found,
        None => {
            return None;
        },
    };
    let (_, vault_bump) = match vault_address(multisig, vault_index) {
        Some(found) => found,
        None => {
            return None;
        },
    };
    let mut data: Vec<u8> = vec![
        Tag::CREATE_TRANSACTION,
        vault_index,
        vault_bump,
        bump,
        ephemeral_bumps.len() as u8,
    ];
    append_bumps(&mut data, ephemeral_bumps);
    let encoded = message.encode();
    append_bytes(&mut data, encoded.as_slice());
    let mut accounts: Vec<AccountMeta> = Vec::new();
    accounts.push(AccountMeta::new(*creator, true));
    accounts.push(AccountMeta::new(*multisig, false));
    accounts.push(AccountMeta::new(transaction, false));
    accounts.push(AccountMeta::new_readonly(Address::zero(), false));
    let ix = Instruction { program_id: program_id(), accounts, data };
    proof {
        assert(metas_of(ix.accounts@) =~= seq![
            (creator@, true, true),
            (multisig@, false, true),
            (transaction@, false, true),
            (system_program_bytes(), false, false),
        ]);
    }
    Some(ix)
}

/// A one-byte-tagged vote instruction.
fn vote(tag: u8, signer: &Address, multisig: &Address, transaction: &Address) -> (r: Instruction)
    ensures
        program_instruction(r, vote_accounts(signer@, multisig@, transaction@), seq![tag]),
{
    let mut accounts: Vec<AccountMeta> = Vec::new();
    accounts.push(AccountMeta::new_readonly(*signer, true));
    accounts.push(AccountMeta::new(*multisig, false));
    accounts.push(AccountMeta::new(*transaction, false));
    let data: Vec<u8> = vec![tag];
    let ix = Instruction { program_id: program_id(), accounts, data };
    proof {
        assert(metas_of(ix.accounts@) =~= vote_accounts(signer@, multisig@, transaction@));
        assert(ix.data@ =~= seq![tag]);
    }
    ix
}

/// Approves a proposal.
pub fn approve(owner: &Address, multisig: &Address, transaction: &Address) -> (r: Instruction)
    ensures
        program_instruction(r, vote_accounts(owner@, multisig@, transaction@), seq![Tag::APPROVE]),
{
    vote(Tag::APPROVE, owner, multisig, transaction)
}

/// Rejects a proposal.
pub fn reject(owner: &Address, multisig: &Address, transaction: &Address) -> (r: Instruction)
    ensures
        program_instruction(r, vote_accounts(owner@, multisig@, transaction@), seq![Tag::REJECT]),
{
    vote(Tag::REJECT, owner, multisig, transaction)
}

/// Cancels a proposal, or votes to cancel an approved one.
pub fn cancel(signer: &Address, multisig: &Address, transaction: &Address) -> (r: Instruction)
    ensures
        program_instruction(r, vote_accounts(signer@, multisig@, transaction@), seq![Tag::CANCEL]),
{
    vote(Tag::CANCEL, signer, multisig, transaction)
}

/// Executes an approved proposal. `message_accounts` comes from
/// [`Message::execute_accounts`].
pub fn execute(
    executor: &Address,
    multisig: &Address,
    transaction: &Address,
    message_accounts: &[AccountMeta],
) -> (r: Instruction)
    ensures
        program_instruction(
            r,
            seq![(executor@, true, true), (multisig@, false, true), (transaction@, false, true)]
                + metas_of(message_accounts@),
            seq![Tag::EXECUTE],
        ),
{
    let mut accounts: Vec<AccountMeta> = Vec::new();
    accounts.push(AccountMeta::new(*executor, true));
    accounts.push(AccountMeta::new(*multisig, false));
    accounts.push(AccountMeta::new(*transaction, false));
    let mut i: usize = 0;
    while i < message_accounts.len()
        invariant
            i <= message_accounts@.len(),
            metas_of(accounts@) == seq![
                (executor@, true, true),
                (multisig@, false, true),
                (transaction@, false, true),
            ] + metas_of(message_accounts@.take(i as int)),
        decreases message_accounts@.len() - i,
    {
        let ghost prev = accounts@;
        accounts.push(message_accounts[i]);
        proof {
            assert(message_accounts@.take(i + 1) =~= message_accounts@.take(i as int).push(
                message_accounts@[i as int],
            ));
            assert(accounts@ == prev.push(message_accounts@[i as int]));
            assert(metas_of(accounts@) =~= metas_of(prev).push(meta_model(message_accounts@[i as int])));
            assert(metas_of(message_accounts@.take(i + 1)) =~= metas_of(message_accounts@.take(i as int)).push(meta_model(message_accounts@[i as int])));
            assert(metas_of(accounts@) =~= seq![
                (executor@, true, true),
                (multisig@, false, true),
                (transaction@, false, true),
            ] + metas_of(message_accounts@.take(i + 1)));
        }
        i = i + 1;
    }
    assert(message_accounts@.take(i as int) =~= message_accounts@);
    let data: Vec<u8> = vec![Tag::EXECUTE];
    let ix = Instruction { program_id: program_id(), accounts, data };
    assert(ix.data@ =~= seq![Tag::EXECUTE]);
    ix
}

/// Closes a finished proposal, refunding rent to `destination`.
pub fn close_transaction(transaction: &Address, multisig: &Address, destination: &Address) -> (r:
    Instruction)
    ensures
        program_instruction(
            r,
            seq![(transaction@, false, true), (multisig@, false, true), (destination@, false, true)],
            seq![Tag::CLOSE_TRANSACTION],
        ),
{
    let mut accounts: Vec<AccountMeta> = Vec::new();
    accounts.push(AccountMeta::new(*transaction, false));
    accounts.push(AccountMeta::new(*multisig, false));
    accounts.push(AccountMeta::new(*destination, false));
    let data: Vec<u8> = vec![Tag::CLOSE_TRANSACTION];
    let ix = Instruction { program_id: program_id(), accounts, data };
    proof {
        assert(metas_of(ix.accounts@) =~= seq![
            (transaction@, false, true),
            (multisig@, false, true),
            (destination@, false, true),
        ]);
        assert(ix.data@ =~= seq![Tag::CLOSE_TRANSACTION]);
    }
    ix
}

/// Opens a buffer, committing to the message's length and hash.
///
/// `None` when no program address can be derived for the buffer.
pub fn buffer_create(
    creator: &Address,
    multisig: &Address,
    buffer_index: u8,
    vault_index: u8,
    final_hash: [u8; 32],
    final_size: u32,
    chunk: &[u8],
) -> (r: Option<Instruction>)
    ensures
        match program_address(
            seq![crate::constants::buffer_seed_bytes(), multisig@, creator@, seq![buffer_index]],
            program_id_bytes(),
        ) {
            None => r is None,
            Some((buffer, bump)) => r matches Some(ix) && program_instruction(
                ix,
                seq![
                    (creator@, true, true),
                    (multisig@, false, false),
                    (buffer, false, true),
                    (system_program_bytes(), false, false),
                ],
                seq![Tag::BUFFER_CREATE] + final_hash@ + spec_u32_to_le_bytes(final_size) + seq![
                    buffer_index,
                    vault_index,
                    bump,
                    0u8,
                ] + chunk@,
            ),
        },
{
    let (buffer, bump) = match buffer_address(multisig, creator, buffer_index) {
        Some(found) => found,
        None => {
            return None;
        },
    };
    let mut data: Vec<u8> = vec![Tag::BUFFER_CREATE];
    append_bytes(&mut data, final_hash.as_slice());
    append_u32(&mut data, final_size);
    data.push(buffer_index);
    data.push(vault_index);
    data.push(bump);
    data.push(0u8);
    append_bytes(&mut data, chunk);
    let mut accounts: Vec<AccountMeta> = Vec::new();
    accounts.push(AccountMeta::new(*creator, true));
    accounts.push(AccountMeta::new_readonly(*multisig, false));
    accounts.push(AccountMeta::new(buffer, false));
    accounts.push(AccountMeta::new_readonly(Address::zero(), false));
    let ix = Instruction { program_id: program_id(), accounts, data };
    proof {
        assert(metas_of(ix.accounts@) =~= seq![
            (creator@, true, true),
            (multisig@, false, false),
            (buffer@, false, true),
            (system_program_bytes(), false, false),
        ]);
        assert(ix.data@ =~= seq![Tag::BUFFER_CREATE] + final_hash@ + spec_u32_to_le_bytes(final_size)
            + seq![buffer_index, vault_index, bump, 0u8] + chunk@);
    }
    Some(ix)
}

/// Appends a chunk to a buffer.
pub fn buffer_extend(creator: &Address, buffer: &Address, chunk: &[u8]) -> (r: Instruction)
    ensures
        program_instruction(
            r,
            seq![(creator@, true, false), (buffer@, false, true)],
            seq![Tag::BUFFER_EXTEND] + chunk@,
        ),
{
    let mut data: Vec<u8> = vec![Tag::BUFFER_EXTEND];
    assert(data@ =~= seq![Tag::BUFFER_EXTEND]);
    append_bytes(&mut data, chunk);
    let mut accounts: Vec<AccountMeta> = Vec::new();
    accounts.push(AccountMeta::new_readonly(*creator, true));
    accounts.push(AccountMeta::new(*buffer, false));
    let ix = Instruction { program_id: program_id(), accounts, data };
    proof {
        assert(metas_of(ix.accounts@) =~= seq![(creator@, true, false), (buffer@, false, true)]);
    }
    ix
}

/// Abandons a buffer, refunding its rent.
pub fn buffer_close(creator: &Address, buffer: &Address) -> (r: Instruction)
    ensures
        program_instruction(
            r,
            seq![(creator@, true, true), (buffer@, false, true)],
            seq![Tag::BUFFER_CLOSE],
        ),
{
    let data: Vec<u8> = vec![Tag::BUFFER_CLOSE];
    let mut accounts: Vec<AccountMeta> = Vec::new();
    accounts.push(AccountMeta::new(*creator, true));
    accounts.push(AccountMeta::new(*buffer, false));
    let ix = Instruction { program_id: program_id(), accounts, data };
    proof {
        assert(metas_of(ix.accounts@) =~= seq![(creator@, true, true), (buffer@, false, true)]);
        assert(ix.data@ =~= seq![Tag::BUFFER_CLOSE]);
    }
    ix
}

/// Turns a completed buffer into a proposal.
///
/// `None` when no program address can be derived for the proposal or the
/// vault.
pub fn create_from_buffer(
    creator: &Address,
    multisig: &Address,
    index: u64,
    buffer: &Address,
    vault_index: u8,
    ephemeral_bumps: &[u8],
) -> (r: Option<Instruction>)
    requires
        ephemeral_bumps@.len() <= 4,
    ensures
        match (
            program_address(
                seq![
                    crate::constants::transaction_seed_bytes(),
                    multisig@,
                    spec_u64_to_le_bytes(index),
                ],
                program_id_bytes(),
            ),
            program_address(
                seq![crate::constants::vault_seed_bytes(), multisig@, seq![vault_index]],
                program_id_bytes(),
            ),
        ) {
            (Some((transaction, bump)), Some((_, vault_bump))) => r matches Some(ix)
                && program_instruction(
                ix,
                seq![
                    (creator@, true, true),
                    (multisig@, false, true),
                    (transaction, false, true),
                    (buffer@, false, true),
                    (system_program_bytes(), false, false),
                ],
                seq![Tag::CREATE_FROM_BUFFER, bump, vault_bump, ephemeral_bumps@.len() as u8]
                    + bumps4(ephemeral_bumps@),
            ),
            _ => r is None,
        },
{
    let (transaction, bump) = match transaction_address(multisig, index) {
        Some(found) => found,
        None => {
            return None;
        },
    };
    let (_, vault_bump) = match vault_address(multisig, vault_index) {
        Some(found) => found,
        None => {
            return None;
        },
    };
    let mut data: Vec<u8> = vec![
        Tag::CREATE_FROM_BUFFER,
        bump,
        vault_bump,
        ephemeral_bumps.len() as u8,
    ];
    append_bumps(&mut data, ephemeral_bumps);
    let mut accounts: Vec<AccountMeta> = Vec::new();
    accounts.push(AccountMeta::new(*creator, true));
    accounts.push(AccountMeta::new(*multisig, false));
    accounts.push(AccountMeta::new(transaction, false));
    accounts.push(AccountMeta::new(*buffer, false));
    accounts.push(AccountMeta::new_readonly(Address::zero(), false));
    let ix = Instruction { program_id: program_id(), accounts, data };
    proof {
        assert(metas_of(ix.accounts@) =~= seq![
            (creator@, true, true),
            (multisig@, false, true),
            (transaction@, false, true),
            (buffer@, false, true),
            (system_program_bytes(), false, false),
        ]);
    }
    Some(ix)
}

/// Applies a config action directly, on a controlled multisig.
pub fn set_config(authority: &Address, multisig: &Address, action: u8, payload: &[u8]) -> (r:
    Instruction)
    ensures
        program_instruction(
            r,
            seq![
                (authority@, true, true),
                (multisig@, false, true),
                (system_program_bytes(), false, false),
            ],
            seq![Tag::SET_CONFIG, action] + payload@,
        ),
{
    let mut data: Vec<u8> = vec![Tag::SET_CONFIG, action];
    append_bytes(&mut data, payload);
    let mut accounts: Vec<AccountMeta> = Vec::new();
    accounts.push(AccountMeta::new(*authority, true));
    accounts.push(AccountMeta::new(*multisig, false));
    accounts.push(AccountMeta::new_readonly(Address::zero(), false));
    let ix = Instruction { program_id: program_id(), accounts, data };
    proof {
        assert(metas_of(ix.accounts@) =~= seq![
            (authority@, true, true),
            (multisig@, false, true),
            (system_program_bytes(), false, false),
        ]);
        assert(seq![Tag::SET_CONFIG, action] + payload@ =~= ix.data@);
    }
    ix
}

/// The writable count of a prefix of lookups never exceeds the whole.
proof fn lemma_writable_total_prefix(lookups: Seq<LookupModel>, n: int)
    requires
        0 <= n <= lookups.len(),
    ensures
        lookup_writable_total(lookups.take(n)) <= lookup_writable_total(lookups),
    decreases lookups.len() - n,
{
    if n < lookups.len() {
        assert(lookups.take(n + 1).drop_last() =~= lookups.take(n));
        lemma_writable_total_prefix(lookups, n + 1);
    } else {
        assert(lookups.take(n) =~= lookups);
    }
}

} // verus!
