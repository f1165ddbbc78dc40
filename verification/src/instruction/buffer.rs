//! Chunked upload of a compiled message.
//!
//! A message larger than one Solana transaction cannot reach
//! `create_transaction` in a single call. It is uploaded here across several
//! transactions and then turned into a proposal by `create_from_buffer`.
//!
//! The buffer commits to the message's length and SHA-256 up front, so a
//! partially written or tampered buffer cannot become a proposal.

use vstd::bytes::*;
use vstd::prelude::*;
use vstd::slice::*;

use crate::account::{
    account_models, check_owner, check_signer, closed, validate_eq, with_data, with_lamports,
    AccountModel, AccountView,
};
use crate::address::{address_of, Address};
use crate::constants::{buffer_seed, buffer_seed_bytes, MAX_MESSAGE_SIZE};
use crate::encoding::{array_of, read_u32};
use crate::error::MultisigError;
use crate::instruction::system::{byte_seed, seed_of, CreateAccount, CreateAccountModel};
use crate::rent::{rent_exempt_minimum, Rent, MAX_LAMPORTS_PER_BYTE};
use crate::state::buffer::{buffer_header_bytes, buffer_violation, parse_buffer_account, TransactionBuffer};
use crate::state::multisig::{owner_index, parse_multisig_account, Multisig};
use crate::state::permission::{mask_grants, Permission};

verus! {

/// Payload for [`process_buffer_create`], optionally followed by a first chunk.
#[derive(Clone, Copy, Debug)]
pub struct BufferCreateData {
    /// SHA-256 the completed message must hash to.
    pub final_hash: [u8; 32],
    /// Length the completed message will have.
    pub final_size: u32,
    /// Distinguishes concurrent buffers from the same creator.
    pub buffer_index: u8,
    /// Which vault the eventual proposal will spend from.
    pub vault_index: u8,
    /// Bump for this buffer PDA. Unvalidated: the runtime rejects a wrong one.
    pub bump: u8,
    /// Reserved.
    pub _pad: u8,
}

/// The payload header that the first 40 bytes of `b` encode.
pub open spec fn buffer_create_data_of(b: Seq<u8>) -> BufferCreateData {
    BufferCreateData {
        final_hash: array_of::<32>(b.subrange(0, 32)),
        final_size: spec_u32_from_le_bytes(b.subrange(32, 36)),
        buffer_index: b[36],
        vault_index: b[37],
        bump: b[38],
        _pad: b[39],
    }
}

impl BufferCreateData {
    /// Size of the payload header in bytes.
    pub const LEN: usize = 40;

    /// Reads the payload header from the front of `b`.
    pub fn from_bytes(b: &[u8]) -> (r: BufferCreateData)
        requires
            b@.len() >= 40,
        ensures
            r == buffer_create_data_of(b@),
    {
        let hash = Address::from_slice(slice_subrange(b, 0, 32));
        proof {
            crate::encoding::lemma_array_of::<32>(hash.bytes);
        }
        BufferCreateData {
            final_hash: hash.bytes,
            final_size: read_u32(b, 32),
            buffer_index: b[36],
            vault_index: b[37],
            bump: b[38],
            _pad: b[39],
        }
    }
}

/// A region of `size` bytes that begins with `chunk` and is zero after it.
pub open spec fn padded(chunk: Seq<u8>, size: int) -> Seq<u8> {
    chunk + Seq::new((size - chunk.len()) as nat, |i: int| 0u8)
}

/// The buffer to create, and the data to write into it, or why creating it
/// is refused.
pub open spec fn buffer_create_outcome(
    program_id: Seq<u8>,
    accounts: Seq<AccountModel>,
    instruction: Seq<u8>,
    rent: Rent,
) -> Result<(CreateAccountModel, Seq<u8>), MultisigError> {
    if accounts.len() < 4 {
        Err(MultisigError::NotEnoughAccounts)
    } else if !accounts[0].is_signer {
        Err(MultisigError::MissingSignature)
    } else if accounts[3].address != Seq::new(32, |i: int| 0u8) {
        Err(MultisigError::InvalidProgramId)
    } else if accounts[1].owner != program_id {
        Err(MultisigError::IllegalOwner)
    } else if accounts[2].data.len() != 0 || accounts[2].lamports != 0 {
        Err(MultisigError::AlreadyInitialized)
    } else if instruction.len() < 40 {
        Err(MultisigError::InvalidInstructionData)
    } else {
        let d = buffer_create_data_of(instruction);
        let chunk = instruction.subrange(40, instruction.len() as int);
        if d.final_size > MAX_MESSAGE_SIZE || chunk.len() > d.final_size {
            Err(MultisigError::InvalidMessage)
        } else {
            match parse_multisig_account(accounts[1].data) {
                None => Err(MultisigError::InvalidAccountData),
                Some((_, owners, permissions)) => match owner_index(owners, accounts[0].address) {
                    None => Err(MultisigError::NotAnOwner),
                    Some(i) => if !mask_grants(permissions[i], Permission::INITIATE) {
                        Err(MultisigError::Unauthorized)
                    } else {
                        let space = 112 + d.final_size;
                        let header = TransactionBuffer {
                            multisig: address_of(accounts[1].address),
                            creator: address_of(accounts[0].address),
                            final_hash: d.final_hash,
                            final_size: d.final_size,
                            written: chunk.len() as u32,
                            buffer_index: d.buffer_index,
                            vault_index: d.vault_index,
                            bump: d.bump,
                            _pad: array_of::<5>(Seq::new(5, |i: int| 0u8)),
                        };
                        Ok(
                            (
                                CreateAccountModel {
                                    from: accounts[0].address,
                                    to: accounts[2].address,
                                    lamports: rent_exempt_minimum(rent, space) as u64,
                                    space: space as u64,
                                    owner: program_id,
                                    seeds: seq![
                                        buffer_seed_bytes(),
                                        accounts[1].address,
                                        accounts[0].address,
                                        seq![d.buffer_index],
                                        seq![d.bump],
                                    ],
                                },
                                buffer_header_bytes(header) + padded(chunk, d.final_size as int),
                            ),
                        )
                    },
                },
            }
        }
    }
}

/// Decides a buffer creation: the account to create through the system
/// program, and the data to write into it once it exists. The accounts are
/// read, not changed.
///
/// # Accounts
///
/// 0. `creator`        - signer, must be an owner, pays rent
/// 1. `multisig`       - the configuration the eventual proposal belongs to
/// 2. `buffer`         - PDA `["buffer", multisig, creator, buffer_index]`, created here
/// 3. `system_program`
pub fn process_buffer_create(
    program_id: &Address,
    accounts: &Vec<AccountView>,
    instruction: &[u8],
    rent: &Rent,
) -> (r: Result<(CreateAccount, Vec<u8>), MultisigError>)
    requires
        rent.lamports_per_byte <= MAX_LAMPORTS_PER_BYTE,
    ensures
        match buffer_create_outcome(program_id@, account_models(accounts@), instruction@, *rent) {
            Ok((plan, data)) => r matches Ok((p, d)) && p@ == plan && d@ == data,
            Err(e) => r matches Err(e2) && e2 == e,
        },
{
    if accounts.len() < 4 {
        return Err(MultisigError::NotEnoughAccounts);
    }
    let creator = &accounts[0];
    let multisig = &accounts[1];
    let buffer = &accounts[2];
    check_signer(creator, MultisigError::MissingSignature)?;
    if !accounts[3].address().is_zero() {
        return Err(MultisigError::InvalidProgramId);
    }
    check_owner(multisig, program_id, MultisigError::IllegalOwner)?;
    if !buffer.is_data_empty() || buffer.lamports() != 0 {
        return Err(MultisigError::AlreadyInitialized);
    }
    if instruction.len() < BufferCreateData::LEN {
        return Err(MultisigError::InvalidInstructionData);
    }
    let data = BufferCreateData::from_bytes(instruction);
    let chunk = slice_subrange(instruction, 40, instruction.len());
    let final_size = data.final_size as usize;
    if final_size > MAX_MESSAGE_SIZE || chunk.len() > final_size {
        return Err(MultisigError::InvalidMessage);
    }
    let (_, owners, permissions) = Multisig::load(multisig.data.as_slice())?;
    if Multisig::is_owner(owners.as_slice(), creator.address()).is_none() {
        return Err(MultisigError::NotAnOwner);
    }
    if !Multisig::has_permission(
        owners.as_slice(),
        permissions.as_slice(),
        creator.address(),
        Permission::INITIATE,
    ) {
        return Err(MultisigError::Unauthorized);
    }
    let space = TransactionBuffer::space(final_size);
    let mut seeds: Vec<Vec<u8>> = Vec::new();
    seeds.push(buffer_seed());
    seeds.push(seed_of(multisig.address().as_array().as_slice()));
    seeds.push(seed_of(creator.address().as_array().as_slice()));
    seeds.push(byte_seed(data.buffer_index));
    seeds.push(byte_seed(data.bump));
    let plan = CreateAccount {
        from: creator.address,
        to: buffer.address,
        space: space as u64,
        lamports: rent.minimum_balance_unchecked(space),
        owner: *program_id,
        seeds,
    };
    let state = TransactionBuffer {
        multisig: multisig.address,
        creator: creator.address,
        final_hash: data.final_hash,
        final_size: data.final_size,
        written: chunk.len() as u32,
        buffer_index: data.buffer_index,
        vault_index: data.vault_index,
        bump: data.bump,
        _pad: [0u8; 5],
    };
    state.check_invariant()?;
    let mut region = slice_to_vec(chunk);
    while region.len() < final_size
        invariant
            region@.len() <= final_size,
            chunk@.len() <= final_size,
            region@ == padded(chunk@, region@.len() as int),
        decreases final_size - region@.len(),
    {
        region.push(0u8);
        assert(region@ =~= padded(chunk@, region@.len() as int));
    }
    proof {
        crate::address::lemma_address_of(multisig.address);
        crate::address::lemma_address_of(creator.address);
        crate::encoding::lemma_array_of::<5>(state._pad);
        assert(state._pad@ =~= Seq::new(5, |i: int| 0u8));
        assert(plan@.seeds =~= seq![
            buffer_seed_bytes(),
            multisig.address@,
            creator.address@,
            seq![data.buffer_index],
            seq![data.bump],
        ]);
    }
    let bytes = state.to_account_bytes(region.as_slice());
    Ok((plan, bytes))
}

/// The accounts after a chunk is appended, or why it is refused.
pub open spec fn buffer_extend_outcome(
    program_id: Seq<u8>,
    accounts: Seq<AccountModel>,
    instruction: Seq<u8>,
) -> Result<Seq<AccountModel>, MultisigError> {
    if accounts.len() < 2 {
        Err(MultisigError::NotEnoughAccounts)
    } else if !accounts[0].is_signer {
        Err(MultisigError::MissingSignature)
    } else if accounts[1].owner != program_id {
        Err(MultisigError::IllegalOwner)
    } else if instruction.len() == 0 {
        Err(MultisigError::InvalidInstructionData)
    } else {
        match parse_buffer_account(accounts[1].data) {
            None => Err(MultisigError::InvalidAccountData),
            Some((h, region)) => {
                let end = h.written + instruction.len();
                if h.creator@ != accounts[0].address {
                    Err(MultisigError::InvalidAccount)
                } else if end > usize::MAX {
                    Err(MultisigError::Overflow)
                } else if end > h.final_size {
                    // Writing past the committed length would mean the buffer
                    // no longer matches the hash it promised.
                    Err(MultisigError::InvalidMessage)
                } else {
                    let h1 = TransactionBuffer { written: end as u32, ..h };
                    match buffer_violation(h1) {
                        Some(e) => Err(e),
                        None => Ok(
                            accounts.update(
                                1,
                                with_data(
                                    accounts[1],
                                    buffer_header_bytes(h1) + region.take(h.written as int)
                                        + instruction + region.skip(end),
                                ),
                            ),
                        ),
                    }
                }
            },
        }
    }
}

/// Appends a chunk to a buffer.
///
/// # Accounts
///
/// 0. `creator` - signer, must be the account that created the buffer
/// 1. `buffer`  - writable
pub fn process_buffer_extend(
    program_id: &Address,
    accounts: &mut Vec<AccountView>,
    instruction: &[u8],
) -> (r: Result<(), MultisigError>)
    ensures
        match buffer_extend_outcome(program_id@, account_models(old(accounts)@), instruction@) {
            Ok(after) => r is Ok && account_models(final(accounts)@) == after,
            Err(e) => r == Err::<(), MultisigError>(e) && final(accounts)@ == old(accounts)@,
        },
{
    if accounts.len() < 2 {
        return Err(MultisigError::NotEnoughAccounts);
    }
    check_signer(&accounts[0], MultisigError::MissingSignature)?;
    check_owner(&accounts[1], program_id, MultisigError::IllegalOwner)?;
    if instruction.len() == 0 {
        return Err(MultisigError::InvalidInstructionData);
    }
    let (mut state, region) = TransactionBuffer::load_mut(accounts[1].data.as_slice())?;
    validate_eq(&state.creator, accounts[0].address(), MultisigError::InvalidAccount)?;
    let written = state.written as usize;
    let end = match written.checked_add(instruction.len()) {
        Some(e) => e,
        None => {
            return Err(MultisigError::Overflow);
        },
    };
    if end > state.final_size as usize {
        return Err(MultisigError::InvalidMessage);
    }
    state.written = end as u32;
    state.check_invariant()?;
    let mut updated = slice_to_vec(slice_subrange(region.as_slice(), 0, written));
    crate::encoding::append_bytes(&mut updated, instruction);
    crate::encoding::append_bytes(&mut updated, slice_subrange(region.as_slice(), end, region.len()));
    let bytes = state.to_account_bytes(updated.as_slice());
    accounts[1].set_data(bytes);
    proof {
        assert(updated@ =~= region@.take(written as int) + instruction@ + region@.skip(end as int));
        assert(account_models(accounts@) =~= account_models(old(accounts)@).update(
            1,
            with_data(old(accounts)@[1]@, bytes@),
        ));
        assert(bytes@ =~= buffer_header_bytes(state) + region@.take(written as int) + instruction@
            + region@.skip(end as int));
        assert(account_models(accounts@) =~= buffer_extend_outcome(
            program_id@,
            account_models(old(accounts)@),
            instruction@,
        )->Ok_0);
    }
    Ok(())
}

/// The accounts after a buffer is abandoned, or why it is refused.
pub open spec fn buffer_close_outcome(
    program_id: Seq<u8>,
    accounts: Seq<AccountModel>,
    instruction: Seq<u8>,
) -> Result<Seq<AccountModel>, MultisigError> {
    if accounts.len() < 2 {
        Err(MultisigError::NotEnoughAccounts)
    } else if instruction.len() != 0 {
        Err(MultisigError::InvalidInstructionData)
    } else if !accounts[0].is_signer {
        Err(MultisigError::MissingSignature)
    } else if accounts[1].owner != program_id {
        Err(MultisigError::IllegalOwner)
    } else {
        match parse_buffer_account(accounts[1].data) {
            None => Err(MultisigError::InvalidAccountData),
            Some((h, _)) => if h.creator@ != accounts[0].address {
                Err(MultisigError::InvalidAccount)
            } else {
                match close_buffer_of(accounts[1], accounts[0]) {
                    Err(e) => Err(e),
                    Ok((b, d)) => Ok(accounts.update(0, d).update(1, b)),
                }
            },
        }
    }
}

/// Closes a buffer and refunds its rent to the creator.
///
/// # Accounts
///
/// 0. `creator` - signer and rent destination, must be the buffer's creator
/// 1. `buffer`  - writable, closed here
pub fn process_buffer_close(
    program_id: &Address,
    accounts: &mut Vec<AccountView>,
    instruction: &[u8],
) -> (r: Result<(), MultisigError>)
    ensures
        match buffer_close_outcome(program_id@, account_models(old(accounts)@), instruction@) {
            Ok(after) => r is Ok && account_models(final(accounts)@) == after,
            Err(e) => r == Err::<(), MultisigError>(e) && final(accounts)@ == old(accounts)@,
        },
{
    if accounts.len() < 2 {
        return Err(MultisigError::NotEnoughAccounts);
    }
    if instruction.len() != 0 {
        return Err(MultisigError::InvalidInstructionData);
    }
    check_signer(&accounts[0], MultisigError::MissingSignature)?;
    check_owner(&accounts[1], program_id, MultisigError::IllegalOwner)?;
    {
        let (state, _) = TransactionBuffer::load(accounts[1].data.as_slice())?;
        validate_eq(&state.creator, accounts[0].address(), MultisigError::InvalidAccount)?;
    }
    let mut buffer = accounts[1].duplicate();
    let mut creator = accounts[0].duplicate();
    close_buffer(&mut buffer, &mut creator)?;
    accounts.set(0, creator);
    accounts.set(1, buffer);
    proof {
        assert(account_models(accounts@) =~= account_models(old(accounts)@).update(0, creator@).update(
            1,
            buffer@,
        ));
    }
    Ok(())
}

/// A buffer closed with its lamports moved to `destination`, or why the move
/// overflows.
pub open spec fn close_buffer_of(buffer: AccountModel, destination: AccountModel) -> Result<
    (AccountModel, AccountModel),
    MultisigError,
> {
    if destination.lamports + buffer.lamports > u64::MAX {
        Err(MultisigError::Overflow)
    } else {
        Ok(
            (
                closed(buffer),
                with_lamports(destination, (destination.lamports + buffer.lamports) as u64),
            ),
        )
    }
}

/// Moves a buffer's lamports to `destination` and closes it.
///
/// Lamports must leave before the close, or the instruction ends unbalanced
/// and the runtime rejects it.
pub fn close_buffer(buffer: &mut AccountView, destination: &mut AccountView) -> (r: Result<
    (),
    MultisigError,
>)
    ensures
        match close_buffer_of(old(buffer)@, old(destination)@) {
            Ok((b, d)) => r is Ok && final(buffer)@ == b && final(destination)@ == d,
            Err(e) => r == Err::<(), MultisigError>(e) && final(buffer)@ == old(buffer)@
                && final(destination)@ == old(destination)@,
        },
{
    let refund = buffer.lamports();
    let credited = match destination.lamports().checked_add(refund) {
        Some(c) => c,
        None => {
            return Err(MultisigError::Overflow);
        },
    };
    destination.set_lamports(credited);
    buffer.set_lamports(0);
    buffer.close();
    Ok(())
}

} // verus!
