//! Turns a completed buffer into a proposal.
//!
//! The buffer's contents must match the length and SHA-256 committed when it
//! was created, so a half-uploaded or tampered buffer cannot become a proposal.
//! The buffer is closed and its rent returned in the same instruction.
//!
//! # Accounts
//!
//! 0. `creator`        - signer, must be the buffer's creator, pays proposal rent
//! 1. `multisig`       - writable, supplies and bumps the transaction counter
//! 2. `transaction`    - PDA `["transaction", multisig, index]`, created here
//! 3. `buffer`         - writable, closed here
//! 4. `system_program`

use vstd::prelude::*;
use vstd::slice::*;

use crate::account::{account_models, check_owner, check_signer, validate_eq, AccountModel, AccountView};
use crate::address::Address;
use crate::encoding::{array4, array_of, lemma_array_of};
use crate::error::MultisigError;
use crate::instruction::buffer::{close_buffer, close_buffer_of};
use crate::instruction::create_transaction::{init_proposal, init_proposal_outcome};
use crate::instruction::system::{CreateAccount, CreateAccountModel};
use crate::rent::{Rent, MAX_LAMPORTS_PER_BYTE};
use crate::state::buffer::{parse_buffer_account, TransactionBuffer};

verus! {

/// Payload for [`process_create_from_buffer`].
#[derive(Clone, Copy, Debug)]
pub struct CreateFromBufferData {
    /// Bump for the transaction PDA.
    pub bump: u8,
    /// Bump for the vault the proposal will spend from.
    pub vault_bump: u8,
    /// Ephemeral signer PDAs the proposal may sign with.
    pub ephemeral_count: u8,
    /// Cached bumps for those PDAs.
    pub ephemeral_bumps: [u8; 4],
}

/// The payload that 7 bytes encode.
pub open spec fn create_from_buffer_data_of(b: Seq<u8>) -> CreateFromBufferData {
    CreateFromBufferData {
        bump: b[0],
        vault_bump: b[1],
        ephemeral_count: b[2],
        ephemeral_bumps: array_of::<4>(b.subrange(3, 7)),
    }
}

impl CreateFromBufferData {
    /// Size of the payload in bytes.
    pub const LEN: usize = 7;

    /// Reads the payload.
    pub fn from_bytes(b: &[u8]) -> (r: CreateFromBufferData)
        requires
            b@.len() >= 7,
        ensures
            r == create_from_buffer_data_of(b@),
    {
        let bumps = array4(slice_subrange(b, 3, 7));
        proof {
            lemma_array_of::<4>(bumps);
        }
        CreateFromBufferData { bump: b[0], vault_bump: b[1], ephemeral_count: b[2], ephemeral_bumps: bumps }
    }
}

/// Names the SHA-256 digest of `data`.
pub uninterp spec fn sha256(data: Seq<u8>) -> Seq<u8>;

/// The SHA-256 digest of `data`, from `solana_sha256_hasher::hashv` applied
/// to the single slice `data`.
///
/// The contract claims only that the digest is a function of `data`, named
/// [`sha256`]; nothing here states what SHA-256 computes.
#[verifier::external_body]
fn hash_bytes(data: &[u8]) -> (r: [u8; 32])
    ensures
        r@ == sha256(data@),
{
    solana_sha256_hasher::hashv(&[data]).to_bytes()
}

/// The accounts after a completed buffer becomes a proposal, with the
/// proposal account to create and the data to write into it, or why it is
/// refused, given `digest`, the SHA-256 of the buffer's contents.
pub open spec fn create_from_buffer_outcome(
    program_id: Seq<u8>,
    accounts: Seq<AccountModel>,
    instruction: Seq<u8>,
    rent: Rent,
    digest: Seq<u8>,
) -> Result<(Seq<AccountModel>, CreateAccountModel, Seq<u8>), MultisigError> {
    if accounts.len() < 5 {
        Err(MultisigError::NotEnoughAccounts)
    } else if instruction.len() != 7 {
        Err(MultisigError::InvalidInstructionData)
    } else if !accounts[0].is_signer {
        Err(MultisigError::MissingSignature)
    } else if accounts[4].address != Seq::new(32, |i: int| 0u8) {
        Err(MultisigError::InvalidProgramId)
    } else if accounts[1].owner != program_id || accounts[3].owner != program_id {
        Err(MultisigError::IllegalOwner)
    } else if accounts[2].data.len() != 0 || accounts[2].lamports != 0 {
        Err(MultisigError::AlreadyInitialized)
    } else {
        let d = create_from_buffer_data_of(instruction);
        match parse_buffer_account(accounts[3].data) {
            None => Err(MultisigError::InvalidAccountData),
            Some((b, region)) => if b.creator@ != accounts[0].address {
                Err(MultisigError::InvalidAccount)
            } else if b.multisig@ != accounts[1].address {
                Err(MultisigError::MultisigMismatch)
            } else if b.written != b.final_size {
                Err(MultisigError::BufferIncomplete)
            } else if digest != b.final_hash@ {
                // The creator committed to this content before uploading it.
                Err(MultisigError::BufferHashMismatch)
            } else {
                match init_proposal_outcome(
                    program_id,
                    accounts[0],
                    accounts[1],
                    accounts[2],
                    region,
                    b.vault_index,
                    d.vault_bump,
                    d.bump,
                    d.ephemeral_count,
                    d.ephemeral_bumps,
                    rent,
                ) {
                    Err(e) => Err(e),
                    Ok((m, plan, data)) => match close_buffer_of(accounts[3], accounts[0]) {
                        Err(e) => Err(e),
                        Ok((buf, creator)) => Ok(
                            (accounts.update(0, creator).update(1, m).update(3, buf), plan, data),
                        ),
                    },
                }
            },
        }
    }
}

/// The digest the buffer account's contents hash to, where it holds a
/// well-formed buffer.
pub open spec fn buffer_digest(accounts: Seq<AccountModel>) -> Seq<u8> {
    match parse_buffer_account(accounts[3].data) {
        Some((_, region)) => sha256(region),
        None => Seq::empty(),
    }
}

/// Creates a proposal from a completed buffer whose contents hash to
/// `digest`, and closes the buffer. The proposal account to create through the
/// system program and the data to write into it come back.
pub fn create_from_buffer_with_digest(
    program_id: &Address,
    accounts: &mut Vec<AccountView>,
    instruction: &[u8],
    rent: &Rent,
    digest: &[u8; 32],
) -> (r: Result<(CreateAccount, Vec<u8>), MultisigError>)
    requires
        rent.lamports_per_byte <= MAX_LAMPORTS_PER_BYTE,
    ensures
        match create_from_buffer_outcome(
            program_id@,
            account_models(old(accounts)@),
            instruction@,
            *rent,
            digest@,
        ) {
            Ok((after, plan, data)) => r matches Ok((p, d)) && p@ == plan && d@ == data
                && account_models(final(accounts)@) == after,
            Err(e) => r matches Err(e2) && e2 == e && account_models(final(accounts)@)
                == account_models(old(accounts)@),
        },
{
    if accounts.len() < 5 {
        return Err(MultisigError::NotEnoughAccounts);
    }
    if instruction.len() != CreateFromBufferData::LEN {
        return Err(MultisigError::InvalidInstructionData);
    }
    let data = CreateFromBufferData::from_bytes(instruction);
    check_signer(&accounts[0], MultisigError::MissingSignature)?;
    if !accounts[4].address().is_zero() {
        return Err(MultisigError::InvalidProgramId);
    }
    check_owner(&accounts[1], program_id, MultisigError::IllegalOwner)?;
    check_owner(&accounts[3], program_id, MultisigError::IllegalOwner)?;
    if !accounts[2].is_data_empty() || accounts[2].lamports() != 0 {
        return Err(MultisigError::AlreadyInitialized);
    }
    let mut multisig = accounts[1].duplicate();
    let (plan, bytes) = {
        let (state, region) = TransactionBuffer::load(accounts[3].data.as_slice())?;
        validate_eq(&state.creator, accounts[0].address(), MultisigError::InvalidAccount)?;
        validate_eq(&state.multisig, accounts[1].address(), MultisigError::MultisigMismatch)?;
        if !state.is_complete() {
            return Err(MultisigError::BufferIncomplete);
        }
        if !Address::new_from_array(*digest).is_eq(&Address::new_from_array(state.final_hash)) {
            return Err(MultisigError::BufferHashMismatch);
        }
        init_proposal(
            program_id,
            &accounts[0],
            &mut multisig,
            &accounts[2],
            region,
            state.vault_index,
            data.vault_bump,
            data.bump,
            data.ephemeral_count,
            data.ephemeral_bumps,
            rent,
        )?
    };
    let mut buffer = accounts[3].duplicate();
    let mut creator = accounts[0].duplicate();
    close_buffer(&mut buffer, &mut creator)?;
    accounts.set(0, creator);
    accounts.set(1, multisig);
    accounts.set(3, buffer);
    proof {
        assert(account_models(accounts@) =~= account_models(old(accounts)@).update(0, creator@).update(
            1,
            multisig@,
        ).update(3, buffer@));
    }
    Ok((plan, bytes))
}

/// Creates a proposal from a completed buffer, after hashing the buffer's
/// contents, and closes the buffer.
pub fn process_create_from_buffer(
    program_id: &Address,
    accounts: &mut Vec<AccountView>,
    instruction: &[u8],
    rent: &Rent,
) -> (r: Result<(CreateAccount, Vec<u8>), MultisigError>)
    requires
        rent.lamports_per_byte <= MAX_LAMPORTS_PER_BYTE,
    ensures
        old(accounts)@.len() >= 5 ==> match create_from_buffer_outcome(
            program_id@,
            account_models(old(accounts)@),
            instruction@,
            *rent,
            buffer_digest(account_models(old(accounts)@)),
        ) {
            Ok((after, plan, data)) => r matches Ok((p, d)) && p@ == plan && d@ == data
                && account_models(final(accounts)@) == after,
            Err(e) => r matches Err(e2) && e2 == e && account_models(final(accounts)@)
                == account_models(old(accounts)@),
        },
        old(accounts)@.len() < 5 ==> (r matches Err(e) && e == MultisigError::NotEnoughAccounts),
        old(accounts)@.len() < 5 ==> final(accounts)@ == old(accounts)@,
{
    if accounts.len() < 5 {
        return Err(MultisigError::NotEnoughAccounts);
    }
    let digest = match TransactionBuffer::load(accounts[3].data.as_slice()) {
        Ok((_, region)) => hash_bytes(region),
        Err(_) => [0u8; 32],
    };
    proof {
        let olds = account_models(old(accounts)@);
        assert(olds[3] == old(accounts)@[3]@);
        if parse_buffer_account(olds[3].data) is None {
            assert(create_from_buffer_outcome(program_id@, olds, instruction@, *rent, digest@)
                == create_from_buffer_outcome(
                program_id@,
                olds,
                instruction@,
                *rent,
                buffer_digest(olds),
            ));
        }
    }
    create_from_buffer_with_digest(program_id, accounts, instruction, rent, &digest)
}

} // verus!
