//! Shared vote plumbing.
//!
//! `approve`, `reject` and `cancel` differ only in which bitmap they set and
//! what latches the status, so the accounts, the guards and the lookup of the
//! voter's position live here.

use vstd::prelude::*;

use crate::account::{check_owner, check_signer, validate_eq, AccountModel, AccountView};
use crate::address::Address;
use crate::error::MultisigError;
use crate::state::multisig::{cutoff_of, owner_index, parse_multisig_account, Multisig};
use crate::state::permission::{mask_grants, Permission};
use crate::state::transaction::{status_byte, status_of_byte, Transaction, TransactionStatus};

verus! {

/// What a vote handler needs from the multisig.
#[derive(Clone, Copy, Debug, PartialEq, Eq, Structural)]
pub struct Voter {
    /// The voter's position in the owner set, which is its bit index.
    pub index: usize,
    /// Approvals needed to execute.
    pub threshold: u32,
    /// Rejections that make approval unreachable.
    pub cutoff: u32,
    /// Owner count, which must match the proposal's snapshot.
    pub owners_count: u32,
    /// Proposals at or below this index may no longer be voted on.
    pub stale_index: u64,
    /// Whether this owner holds the vote permission.
    pub can_vote: bool,
}

/// The voter `signer` is in a multisig, or why it cannot vote.
///
/// A header whose threshold is zero while every one of `u32::MAX` owners
/// votes has no representable cutoff; such a header breaks the invariant
/// every write enforces, and is refused as an overflow.
pub open spec fn voter_of(
    h: Multisig,
    owners: Seq<Address>,
    permissions: Seq<u8>,
    signer: Seq<u8>,
    require_vote_permission: bool,
) -> Result<Voter, MultisigError> {
    match owner_index(owners, signer) {
        None => Err(MultisigError::NotAnOwner),
        Some(i) => {
            if require_vote_permission && !mask_grants(permissions[i], Permission::VOTE) {
                Err(MultisigError::Unauthorized)
            } else if h.threshold == 0 && h.voter_count == u32::MAX {
                Err(MultisigError::Overflow)
            } else {
                Ok(
                    Voter {
                        index: i as usize,
                        threshold: h.threshold,
                        cutoff: cutoff_of(h) as u32,
                        owners_count: h.owners_count,
                        stale_index: h.stale_transaction_index,
                        can_vote: mask_grants(permissions[i], Permission::VOTE),
                    },
                )
            }
        },
    }
}

/// What [`prepare`] answers for these accounts.
pub open spec fn prepare_result(
    program_id: Seq<u8>,
    signer: AccountModel,
    multisig: AccountModel,
    transaction: AccountModel,
    instruction: Seq<u8>,
    require_vote_permission: bool,
) -> Result<Voter, MultisigError> {
    if instruction.len() != 0 {
        Err(MultisigError::InvalidInstructionData)
    } else if !signer.is_signer {
        Err(MultisigError::MissingSignature)
    } else if multisig.owner != program_id || transaction.owner != program_id {
        Err(MultisigError::IllegalOwner)
    } else {
        match parse_multisig_account(multisig.data) {
            None => Err(MultisigError::InvalidAccountData),
            Some((h, owners, permissions)) => voter_of(
                h,
                owners,
                permissions,
                signer.address,
                require_vote_permission,
            ),
        }
    }
}

/// What [`check_votable`] answers.
pub open spec fn votable_result(
    state: Transaction,
    multisig: Seq<u8>,
    voter: Voter,
    expected: TransactionStatus,
) -> Result<(), MultisigError> {
    if state.multisig@ != multisig {
        Err(MultisigError::MultisigMismatch)
    } else if status_of_byte(state.status) is Err {
        Err(MultisigError::UnknownStatus)
    } else if status_of_byte(state.status) != Ok::<TransactionStatus, MultisigError>(expected) {
        Err(MultisigError::InvalidStatus)
    } else if state.index <= voter.stale_index || state.owners_count != voter.owners_count {
        Err(MultisigError::StaleTransaction)
    } else {
        Ok(())
    }
}

/// Validates the accounts common to every vote and locates the voter.
///
/// `require_vote_permission` is false for the creator-cancel path, which is
/// authorized by having created the proposal rather than by holding the vote
/// permission.
pub fn prepare(
    program_id: &Address,
    signer: &AccountView,
    multisig: &AccountView,
    transaction: &AccountView,
    instruction: &[u8],
    require_vote_permission: bool,
) -> (r: Result<Voter, MultisigError>)
    ensures
        r == prepare_result(
            program_id@,
            signer@,
            multisig@,
            transaction@,
            instruction@,
            require_vote_permission,
        ),
        r matches Ok(v) ==> v.index < v.owners_count,
{
    if instruction.len() != 0 {
        return Err(MultisigError::InvalidInstructionData);
    }
    check_signer(signer, MultisigError::MissingSignature)?;
    check_owner(multisig, program_id, MultisigError::IllegalOwner)?;
    check_owner(transaction, program_id, MultisigError::IllegalOwner)?;
    let (ms, owners, permissions) = Multisig::load(multisig.data.as_slice())?;
    let index = match Multisig::is_owner(owners.as_slice(), signer.address()) {
        Some(i) => i,
        None => {
            return Err(MultisigError::NotAnOwner);
        },
    };
    let can_vote = Multisig::mask_can_vote(permissions[index]);
    if require_vote_permission && !can_vote {
        return Err(MultisigError::Unauthorized);
    }
    if ms.threshold == 0 && ms.voter_count == u32::MAX {
        return Err(MultisigError::Overflow);
    }
    Ok(
        Voter {
            index,
            can_vote,
            threshold: ms.threshold,
            cutoff: ms.cutoff(),
            owners_count: ms.owners_count,
            stale_index: ms.stale_transaction_index,
        },
    )
}

/// Checks a proposal belongs to this multisig, is still votable, and was
/// created against the same owner set the voter was found in.
pub fn check_votable(
    state: &Transaction,
    multisig: &AccountView,
    voter: &Voter,
    expected: TransactionStatus,
) -> (r: Result<(), MultisigError>)
    ensures
        r == votable_result(*state, multisig.address@, *voter, expected),
{
    validate_eq(&state.multisig, multisig.address(), MultisigError::MultisigMismatch)?;
    let status = state.status()?;
    if status != expected {
        return Err(MultisigError::InvalidStatus);
    }
    // Votes are bits at an owner's position, so a proposal gathered against a
    // different owner set must not accept more.
    if state.index <= voter.stale_index {
        return Err(MultisigError::StaleTransaction);
    }
    if state.owners_count != voter.owners_count {
        return Err(MultisigError::StaleTransaction);
    }
    Ok(())
}

/// A proposal marked `Approved`, its time lock starting at `now`.
pub open spec fn latched(state: Transaction, now: i64) -> Transaction {
    Transaction {
        status: status_byte(TransactionStatus::Approved),
        approved_at: now,
        ..state
    }
}

/// Marks a proposal `Approved` and stamps when the time lock starts running.
pub fn latch_approved(state: &mut Transaction, now: i64)
    ensures
        *final(state) == latched(*old(state), now),
{
    state.status = TransactionStatus::Approved.to_u8();
    state.approved_at = now;
}

/// Convenience for the permission a vote handler requires.
pub const VOTE: u8 = 2;

} // verus!
