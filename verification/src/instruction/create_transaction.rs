//! Transaction proposal creation.
//!
//! Any owner may propose. The proposal starts with no votes; the proposer
//! approves separately if they want to.
//!
//! The payload is an eight-byte header followed by a compiled message, and the
//! account is sized to exactly that message. A proposal therefore costs rent
//! for what it carries rather than for a worst case.
//!
//! # Accounts
//!
//! 0. `creator`        - signer, must be an owner, pays rent
//! 1. `multisig`       - writable, supplies and bumps the transaction counter
//! 2. `transaction`    - PDA `["transaction", multisig, index]`, created here
//! 3. `system_program`

use vstd::bytes::*;
use vstd::prelude::*;
use vstd::slice::*;

use crate::account::{account_models, check_owner, check_signer, with_data, AccountModel, AccountView};
use crate::address::{address_of, Address};
use crate::constants::{transaction_seed, transaction_seed_bytes, MAX_EPHEMERAL_SIGNERS, MAX_MESSAGE_SIZE};
use crate::encoding::{array4, array_of, lemma_array_of};
use crate::error::MultisigError;
use crate::instruction::system::{byte_seed, seed_of, CreateAccount, CreateAccountModel};
use crate::rent::{rent_exempt_minimum, Rent, MAX_LAMPORTS_PER_BYTE};
use crate::state::bitmap;
use crate::state::message::TransactionMessage;
use crate::state::message_format::parse_message;
use crate::state::multisig::{multisig_account_bytes, owner_index, parse_multisig_account, Multisig};
use crate::state::permission::{mask_grants, Permission};
use crate::state::transaction::{
    bitmap_len, status_byte, transaction_account_bytes, transaction_violation, Transaction,
    TransactionStatus,
};

verus! {

/// Fixed header of the [`process_create_transaction`] payload, followed by the
/// compiled message.
#[derive(Clone, Copy, Debug)]
pub struct CreateTransactionHeader {
    /// Which vault signs the CPIs at execution.
    pub vault_index: u8,
    /// Bump for that vault PDA. Verified at execution, not here.
    pub vault_bump: u8,
    /// Bump for this transaction PDA. Unvalidated: the runtime rejects a wrong one.
    pub bump: u8,
    /// Ephemeral signer PDAs this proposal may sign with.
    pub ephemeral_count: u8,
    /// Cached bumps for those PDAs.
    pub ephemeral_bumps: [u8; 4],
}

/// The payload header that the first 8 bytes of `b` encode.
pub open spec fn create_transaction_header_of(b: Seq<u8>) -> CreateTransactionHeader {
    CreateTransactionHeader {
        vault_index: b[0],
        vault_bump: b[1],
        bump: b[2],
        ephemeral_count: b[3],
        ephemeral_bumps: array_of::<4>(b.subrange(4, 8)),
    }
}

impl CreateTransactionHeader {
    /// Size of the header in bytes.
    pub const LEN: usize = 8;

    /// Reads the header from the front of `b`.
    pub fn from_bytes(b: &[u8]) -> (r: CreateTransactionHeader)
        requires
            b@.len() >= 8,
        ensures
            r == create_transaction_header_of(b@),
    {
        let bumps = array4(slice_subrange(b, 4, 8));
        proof {
            lemma_array_of::<4>(bumps);
        }
        CreateTransactionHeader {
            vault_index: b[0],
            vault_bump: b[1],
            bump: b[2],
            ephemeral_count: b[3],
            ephemeral_bumps: bumps,
        }
    }
}

/// The header a new proposal starts with: no votes, `Active`.
pub open spec fn initial_transaction(
    multisig: Seq<u8>,
    creator: Seq<u8>,
    index: u64,
    owners_count: u32,
    message_len: u32,
    vault_index: u8,
    vault_bump: u8,
    bump: u8,
    ephemeral_count: u8,
    ephemeral_bumps: [u8; 4],
) -> Transaction {
    Transaction {
        multisig: address_of(multisig),
        creator: address_of(creator),
        index,
        approved_at: 0,
        owners_count,
        approved_count: 0,
        rejected_count: 0,
        cancelled_count: 0,
        message_len,
        status: status_byte(TransactionStatus::Active),
        bump,
        vault_index,
        vault_bump,
        ephemeral_count,
        ephemeral_bumps,
        _pad: array_of::<3>(Seq::new(3, |i: int| 0u8)),
    }
}

/// What reserving the next index and proposing `message` gives: the multisig
/// with its counter bumped, the proposal account to create, and the data to
/// write into it; or why it is refused.
pub open spec fn init_proposal_outcome(
    program_id: Seq<u8>,
    creator: AccountModel,
    multisig: AccountModel,
    transaction: AccountModel,
    message: Seq<u8>,
    vault_index: u8,
    vault_bump: u8,
    bump: u8,
    ephemeral_count: u8,
    ephemeral_bumps: [u8; 4],
    rent: Rent,
) -> Result<(AccountModel, CreateAccountModel, Seq<u8>), MultisigError> {
    if ephemeral_count > MAX_EPHEMERAL_SIGNERS {
        Err(MultisigError::InvalidInstructionData)
    } else if message.len() > MAX_MESSAGE_SIZE {
        Err(MultisigError::InvalidMessage)
    } else if parse_message(message) is None {
        // Reject a malformed message now rather than mid-CPI at execution,
        // when some of its instructions may already have run.
        Err(MultisigError::InvalidMessage)
    } else {
        match parse_multisig_account(multisig.data) {
            None => Err(MultisigError::InvalidAccountData),
            Some((h, o, p)) => match owner_index(o, creator.address) {
                None => Err(MultisigError::NotAnOwner),
                Some(i) => if !mask_grants(p[i], Permission::INITIATE) {
                    Err(MultisigError::Unauthorized)
                } else if h.transaction_index == u64::MAX {
                    Err(MultisigError::Overflow)
                } else {
                    // Index 0 means "no transactions yet", so the first
                    // proposal is 1.
                    let index = (h.transaction_index + 1) as u64;
                    let h1 = Multisig { transaction_index: index, ..h };
                    let bits = bitmap_len(h.owners_count as int);
                    let space = 112 + 3 * bits + message.len();
                    let t = initial_transaction(
                        multisig.address,
                        creator.address,
                        index,
                        h.owners_count,
                        message.len() as u32,
                        vault_index,
                        vault_bump,
                        bump,
                        ephemeral_count,
                        ephemeral_bumps,
                    );
                    let clear = Seq::new(bits as nat, |k: int| 0u8);
                    match transaction_violation(t) {
                        Some(e) => Err(e),
                        None => Ok(
                            (
                                with_data(multisig, multisig_account_bytes(h1, o, p)),
                                CreateAccountModel {
                                    from: creator.address,
                                    to: transaction.address,
                                    lamports: rent_exempt_minimum(rent, space) as u64,
                                    space: space as u64,
                                    owner: program_id,
                                    seeds: seq![
                                        transaction_seed_bytes(),
                                        multisig.address,
                                        spec_u64_to_le_bytes(index),
                                        seq![bump],
                                    ],
                                },
                                transaction_account_bytes(t, clear, clear, clear, message),
                            ),
                        ),
                    }
                },
            },
        }
    }
}

/// Reserves the next transaction index and decides the proposal for
/// `message`: the multisig is updated, and the account to create and the data
/// to write into it come back. On an error the multisig does not change.
///
/// Shared with `create_from_buffer`, which supplies a message assembled across
/// several transactions rather than one carried in the instruction.
pub fn init_proposal(
    program_id: &Address,
    creator: &AccountView,
    multisig: &mut AccountView,
    transaction: &AccountView,
    message: &[u8],
    vault_index: u8,
    vault_bump: u8,
    bump: u8,
    ephemeral_count: u8,
    ephemeral_bumps: [u8; 4],
    rent: &Rent,
) -> (r: Result<(CreateAccount, Vec<u8>), MultisigError>)
    requires
        rent.lamports_per_byte <= MAX_LAMPORTS_PER_BYTE,
    ensures
        match init_proposal_outcome(
            program_id@,
            creator@,
            old(multisig)@,
            transaction@,
            message@,
            vault_index,
            vault_bump,
            bump,
            ephemeral_count,
            ephemeral_bumps,
            *rent,
        ) {
            Ok((m, plan, data)) => {
                &&& r matches Ok((p, d)) && p@ == plan && d@ == data
                &&& final(multisig)@ == m
            },
            Err(e) => r matches Err(e2) && e2 == e && final(multisig)@ == old(multisig)@,
        },
{
    if ephemeral_count as usize > MAX_EPHEMERAL_SIGNERS {
        return Err(MultisigError::InvalidInstructionData);
    }
    if message.len() > MAX_MESSAGE_SIZE {
        return Err(MultisigError::InvalidMessage);
    }
    TransactionMessage::parse(message)?;
    let (mut ms, owners, permissions) = Multisig::load(multisig.data.as_slice())?;
    let position = match Multisig::is_owner(owners.as_slice(), creator.address()) {
        Some(i) => i,
        None => {
            return Err(MultisigError::NotAnOwner);
        },
    };
    let mask = permissions[position];
    if mask != 0 && mask & Permission::INITIATE == 0 {
        return Err(MultisigError::Unauthorized);
    }
    let index = match ms.transaction_index.checked_add(1) {
        Some(i) => i,
        None => {
            return Err(MultisigError::Overflow);
        },
    };
    ms.transaction_index = index;
    let owners_count = ms.owners_count;
    let bits = bitmap::len_for(owners_count as usize);
    let state = Transaction {
        multisig: multisig.address,
        creator: creator.address,
        index,
        approved_at: 0,
        owners_count,
        approved_count: 0,
        rejected_count: 0,
        cancelled_count: 0,
        message_len: message.len() as u32,
        status: TransactionStatus::Active.to_u8(),
        bump,
        vault_index,
        vault_bump,
        ephemeral_count,
        ephemeral_bumps,
        _pad: [0u8; 3],
    };
    proof {
        crate::address::lemma_address_of(multisig.address);
        crate::address::lemma_address_of(creator.address);
        lemma_array_of::<3>(state._pad);
        assert(state._pad@ =~= Seq::new(3, |i: int| 0u8));
    }
    state.check_invariant()?;
    let space = Transaction::space(owners_count as usize, message.len());
    let index_bytes = u64_to_le_bytes(index);
    let mut seeds: Vec<Vec<u8>> = Vec::new();
    seeds.push(transaction_seed());
    seeds.push(seed_of(multisig.address().as_array().as_slice()));
    seeds.push(index_bytes);
    seeds.push(byte_seed(bump));
    let plan = CreateAccount {
        from: creator.address,
        to: transaction.address,
        space: space as u64,
        lamports: rent.minimum_balance_unchecked(space),
        owner: *program_id,
        seeds,
    };
    let mut clear: Vec<u8> = Vec::new();
    while clear.len() < bits
        invariant
            clear@.len() <= bits,
            clear@ == Seq::new(clear@.len(), |i: int| 0u8),
        decreases bits - clear@.len(),
    {
        clear.push(0u8);
        assert(clear@ =~= Seq::new(clear@.len(), |i: int| 0u8));
    }
    let votes = crate::state::transaction::VotesMut {
        approved: slice_to_vec(clear.as_slice()),
        rejected: slice_to_vec(clear.as_slice()),
        cancelled: clear,
    };
    let bytes = state.to_account_bytes(&votes, message);
    let ms_bytes = ms.to_account_bytes(owners.as_slice(), permissions.as_slice());
    multisig.set_data(ms_bytes);
    proof {
        assert(plan@.seeds =~= seq![
            transaction_seed_bytes(),
            multisig.address@,
            spec_u64_to_le_bytes(index),
            seq![bump],
        ]);
    }
    Ok((plan, bytes))
}

/// The accounts after a proposal is reserved, with the proposal account to
/// create and the data to write into it, or why it is refused.
pub open spec fn create_transaction_outcome(
    program_id: Seq<u8>,
    accounts: Seq<AccountModel>,
    instruction: Seq<u8>,
    rent: Rent,
) -> Result<(Seq<AccountModel>, CreateAccountModel, Seq<u8>), MultisigError> {
    if accounts.len() < 4 {
        Err(MultisigError::NotEnoughAccounts)
    } else if !accounts[0].is_signer {
        Err(MultisigError::MissingSignature)
    } else if accounts[3].address != Seq::new(32, |i: int| 0u8) {
        Err(MultisigError::InvalidProgramId)
    } else if accounts[1].owner != program_id {
        // First instruction to take a caller-supplied multisig, so this is
        // where a forged account would otherwise get in.
        Err(MultisigError::IllegalOwner)
    } else if accounts[2].data.len() != 0 || accounts[2].lamports != 0 {
        Err(MultisigError::AlreadyInitialized)
    } else if instruction.len() < 8 {
        Err(MultisigError::InvalidInstructionData)
    } else {
        let h = create_transaction_header_of(instruction);
        match init_proposal_outcome(
            program_id,
            accounts[0],
            accounts[1],
            accounts[2],
            instruction.subrange(8, instruction.len() as int),
            h.vault_index,
            h.vault_bump,
            h.bump,
            h.ephemeral_count,
            h.ephemeral_bumps,
            rent,
        ) {
            Err(e) => Err(e),
            Ok((m, plan, data)) => Ok((accounts.update(1, m), plan, data)),
        }
    }
}

/// Creates a proposal against `multisig`: the multisig's counter is bumped,
/// and the proposal account to create through the system program and the data
/// to write into it come back.
pub fn process_create_transaction(
    program_id: &Address,
    accounts: &mut Vec<AccountView>,
    instruction: &[u8],
    rent: &Rent,
) -> (r: Result<(CreateAccount, Vec<u8>), MultisigError>)
    requires
        rent.lamports_per_byte <= MAX_LAMPORTS_PER_BYTE,
    ensures
        match create_transaction_outcome(program_id@, account_models(old(accounts)@), instruction@, *rent) {
            Ok((after, plan, data)) => r matches Ok((p, d)) && p@ == plan && d@ == data
                && account_models(final(accounts)@) == after,
            Err(e) => r matches Err(e2) && e2 == e && account_models(final(accounts)@)
                == account_models(old(accounts)@),
        },
{
    if accounts.len() < 4 {
        return Err(MultisigError::NotEnoughAccounts);
    }
    check_signer(&accounts[0], MultisigError::MissingSignature)?;
    if !accounts[3].address().is_zero() {
        return Err(MultisigError::InvalidProgramId);
    }
    check_owner(&accounts[1], program_id, MultisigError::IllegalOwner)?;
    if !accounts[2].is_data_empty() || accounts[2].lamports() != 0 {
        return Err(MultisigError::AlreadyInitialized);
    }
    if instruction.len() < CreateTransactionHeader::LEN {
        return Err(MultisigError::InvalidInstructionData);
    }
    let header = CreateTransactionHeader::from_bytes(instruction);
    let message = slice_subrange(instruction, 8, instruction.len());
    let mut multisig = accounts[1].duplicate();
    let (plan, data) = init_proposal(
        program_id,
        &accounts[0],
        &mut multisig,
        &accounts[2],
        message,
        header.vault_index,
        header.vault_bump,
        header.bump,
        header.ephemeral_count,
        header.ephemeral_bumps,
        rent,
    )?;
    accounts.set(1, multisig);
    proof {
        assert(account_models(accounts@) =~= account_models(old(accounts)@).update(1, multisig@));
    }
    Ok((plan, data))
}

} // verus!
