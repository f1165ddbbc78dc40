//! Multisig initialization.
//!
//! Authorized by a plain wallet signature, since there is no owner set yet to
//! ask. Later changes go through propose, approve and execute, or through the
//! config authority named here if one is.
//!
//! The payload is a fixed header followed by the owner addresses, so a
//! multisig is created at exactly the size it needs. A transaction caps the
//! owners that fit here at roughly thirty; beyond that, create a small multisig
//! and grow it with `add_owner`.
//!
//! # Accounts
//!
//! 0. `creator`        - signer, pays rent
//! 1. `create_key`     - signer, ephemeral keypair seeding the PDA
//! 2. `multisig`       - PDA `["multisig", create_key]`, created here
//! 3. `system_program`

use vstd::bytes::*;
use vstd::prelude::*;
use vstd::slice::*;

use crate::account::{account_models, check_signer, AccountModel, AccountView};
use crate::address::{address_of, strictly_ascending, Address};
use crate::constants::{multisig_seed, multisig_seed_bytes, MAX_OWNER};
use crate::encoding::{array_of, lemma_array_of, read_u32};
use crate::error::MultisigError;
use crate::instruction::system::{byte_seed, seed_of, CreateAccount, CreateAccountModel};
use crate::rent::{rent_exempt_minimum, Rent, MAX_LAMPORTS_PER_BYTE};
use crate::state::multisig::{
    multisig_account_bytes, multisig_violation, owners_ascending, owners_of, read_owners, Multisig,
};

verus! {

/// Fixed header of the [`process_init_multisig`] payload, followed by the
/// owner addresses.
#[derive(Clone, Copy, Debug)]
pub struct InitMultisigData {
    /// Approvals needed to execute, in `1..=owners_count`.
    pub threshold: u32,
    /// Owners to install, in `1..=MAX_OWNER`.
    pub owners_count: u32,
    /// PDA bump. Unvalidated: the runtime rejects a wrong one.
    pub bump: u8,
    /// Reserved.
    pub _pad: [u8; 3],
    /// Key permitted to change the configuration without a vote. The all-zero
    /// address leaves the multisig autonomous.
    pub config_authority: [u8; 32],
}

/// The payload header that the first 44 bytes of `b` encode.
pub open spec fn init_multisig_data_of(b: Seq<u8>) -> InitMultisigData {
    InitMultisigData {
        threshold: spec_u32_from_le_bytes(b.subrange(0, 4)),
        owners_count: spec_u32_from_le_bytes(b.subrange(4, 8)),
        bump: b[8],
        _pad: array_of::<3>(b.subrange(9, 12)),
        config_authority: array_of::<32>(b.subrange(12, 44)),
    }
}

impl InitMultisigData {
    /// Size of the payload header in bytes.
    pub const LEN: usize = 44;

    /// Reads the payload header from the front of `b`.
    pub fn from_bytes(b: &[u8]) -> (r: InitMultisigData)
        requires
            b@.len() >= 44,
        ensures
            r == init_multisig_data_of(b@),
    {
        let pad = crate::encoding::array3(slice_subrange(b, 9, 12));
        let authority = Address::from_slice(slice_subrange(b, 12, 44));
        proof {
            lemma_array_of::<3>(pad);
            lemma_array_of::<32>(authority.bytes);
        }
        InitMultisigData {
            threshold: read_u32(b, 0),
            owners_count: read_u32(b, 4),
            bump: b[8],
            _pad: pad,
            config_authority: authority.bytes,
        }
    }
}

/// The header a new multisig starts with.
pub open spec fn initial_header(create_key: Seq<u8>, d: InitMultisigData) -> Multisig {
    Multisig {
        create_key: address_of(create_key),
        config_authority: Address { bytes: d.config_authority },
        rent_collector: address_of(Seq::new(32, |i: int| 0u8)),
        transaction_index: 0,
        stale_transaction_index: 0,
        closed_transaction_count: 0,
        time_lock: 0,
        owners_count: d.owners_count,
        // Zero means every permission, so every owner starts able to vote.
        voter_count: d.owners_count,
        threshold: d.threshold,
        bump: d.bump,
        _pad: array_of::<7>(Seq::new(7, |i: int| 0u8)),
    }
}

/// The multisig account to create, and the data to write into it, or why
/// creating it is refused.
pub open spec fn init_multisig_outcome(
    program_id: Seq<u8>,
    accounts: Seq<AccountModel>,
    instruction: Seq<u8>,
    rent: Rent,
) -> Result<(CreateAccountModel, Seq<u8>), MultisigError> {
    if accounts.len() < 4 {
        Err(MultisigError::NotEnoughAccounts)
    } else if !accounts[0].is_signer || !accounts[1].is_signer {
        // The create_key must sign so nobody can squat a PDA on someone
        // else's key.
        Err(MultisigError::MissingSignature)
    } else if accounts[3].address != Seq::new(32, |i: int| 0u8) {
        Err(MultisigError::InvalidProgramId)
    } else if accounts[2].data.len() != 0 || accounts[2].lamports != 0 {
        // Pre-funded alone is enough to mean the address is already in use.
        Err(MultisigError::AlreadyInitialized)
    } else if instruction.len() < 44 {
        Err(MultisigError::InvalidInstructionData)
    } else {
        let d = init_multisig_data_of(instruction);
        let owner_bytes = instruction.subrange(44, instruction.len() as int);
        let count = d.owners_count as int;
        if count == 0 || count > MAX_OWNER {
            Err(MultisigError::InvalidOwnerCount)
        } else if owner_bytes.len() != count * 32 {
            Err(MultisigError::InvalidInstructionData)
        } else if !strictly_ascending(owners_of(owner_bytes, count as nat)) {
            // Strictly ascending proves sorted and duplicate-free in one pass.
            Err(MultisigError::OwnersNotSorted)
        } else {
            let h = initial_header(accounts[1].address, d);
            let space = 144 + 33 * count;
            match multisig_violation(h) {
                Some(e) => Err(e),
                None => Ok(
                    (
                        CreateAccountModel {
                            from: accounts[0].address,
                            to: accounts[2].address,
                            lamports: rent_exempt_minimum(rent, space) as u64,
                            space: space as u64,
                            owner: program_id,
                            seeds: seq![multisig_seed_bytes(), accounts[1].address, seq![d.bump]],
                        },
                        multisig_account_bytes(
                            h,
                            owners_of(owner_bytes, count as nat),
                            Seq::new(count as nat, |i: int| 0u8),
                        ),
                    ),
                ),
            }
        }
    }
}

/// Decides a multisig's creation: the account to create through the system
/// program, and the data to write into it once it exists. The accounts are
/// read, not changed.
pub fn process_init_multisig(
    program_id: &Address,
    accounts: &Vec<AccountView>,
    instruction: &[u8],
    rent: &Rent,
) -> (r: Result<(CreateAccount, Vec<u8>), MultisigError>)
    requires
        rent.lamports_per_byte <= MAX_LAMPORTS_PER_BYTE,
    ensures
        match init_multisig_outcome(program_id@, account_models(accounts@), instruction@, *rent) {
            Ok((plan, data)) => r matches Ok((p, d)) && p@ == plan && d@ == data,
            Err(e) => r matches Err(e2) && e2 == e,
        },
{
    if accounts.len() < 4 {
        return Err(MultisigError::NotEnoughAccounts);
    }
    let creator = &accounts[0];
    let create_key = &accounts[1];
    let multisig = &accounts[2];
    check_signer(creator, MultisigError::MissingSignature)?;
    check_signer(create_key, MultisigError::MissingSignature)?;
    if !accounts[3].address().is_zero() {
        return Err(MultisigError::InvalidProgramId);
    }
    if !multisig.is_data_empty() || multisig.lamports() != 0 {
        return Err(MultisigError::AlreadyInitialized);
    }
    if instruction.len() < InitMultisigData::LEN {
        return Err(MultisigError::InvalidInstructionData);
    }
    let data = InitMultisigData::from_bytes(instruction);
    let owner_bytes = slice_subrange(instruction, 44, instruction.len());
    let owners_count = data.owners_count as usize;
    if owners_count == 0 || owners_count > MAX_OWNER {
        return Err(MultisigError::InvalidOwnerCount);
    }
    if owner_bytes.len() != owners_count * 32 {
        return Err(MultisigError::InvalidInstructionData);
    }
    let owners = read_owners(owner_bytes, owners_count);
    // This is the only place the whole set is scanned; later changes check
    // locally.
    if !owners_ascending(owners.as_slice()) {
        return Err(MultisigError::OwnersNotSorted);
    }
    let state = Multisig {
        create_key: create_key.address,
        config_authority: Address::new_from_array(data.config_authority),
        rent_collector: Address::zero(),
        transaction_index: 0,
        stale_transaction_index: 0,
        closed_transaction_count: 0,
        time_lock: 0,
        owners_count: data.owners_count,
        voter_count: data.owners_count,
        threshold: data.threshold,
        bump: data.bump,
        _pad: [0u8; 7],
    };
    proof {
        crate::address::lemma_address_of(create_key.address);
        crate::address::lemma_address_of(state.rent_collector);
        lemma_array_of::<7>(state._pad);
        assert(state._pad@ =~= Seq::new(7, |i: int| 0u8));
        assert(state == initial_header(create_key.address@, data));
    }
    state.check_invariant()?;
    let space = Multisig::space(owners_count);
    let mut seeds: Vec<Vec<u8>> = Vec::new();
    seeds.push(multisig_seed());
    seeds.push(seed_of(create_key.address().as_array().as_slice()));
    seeds.push(byte_seed(data.bump));
    let plan = CreateAccount {
        from: creator.address,
        to: multisig.address,
        space: space as u64,
        lamports: rent.minimum_balance_unchecked(space),
        owner: *program_id,
        seeds,
    };
    let mut permissions: Vec<u8> = Vec::new();
    while permissions.len() < owners_count
        invariant
            permissions@.len() <= owners_count,
            permissions@ == Seq::new(permissions@.len(), |i: int| 0u8),
        decreases owners_count - permissions@.len(),
    {
        permissions.push(0u8);
        assert(permissions@ =~= Seq::new(permissions@.len(), |i: int| 0u8));
    }
    let bytes = state.to_account_bytes(owners.as_slice(), permissions.as_slice());
    proof {
        assert(plan@.seeds =~= seq![multisig_seed_bytes(), create_key.address@, seq![data.bump]]);
    }
    Ok((plan, bytes))
}

} // verus!
