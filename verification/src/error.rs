//! Program error codes.

use vstd::prelude::*;

verus! {

/// Errors returned by the multisig program.
///
/// Each variant is reported to the runtime as a custom error whose code is
/// [`MultisigError::code`].
#[derive(Clone, Copy, Debug, PartialEq, Eq, Structural)]
pub enum MultisigError {
    /// Fewer accounts were passed than the instruction requires.
    NotEnoughAccounts,
    /// Account data has the wrong length or alignment for its layout.
    InvalidAccountData,
    /// An account is not owned by this program.
    IllegalOwner,
    /// A required signature is missing.
    MissingSignature,
    /// An account is not the one the instruction expected.
    InvalidAccount,
    /// A program account is not the program it should be.
    InvalidProgramId,
    /// The account already holds data or lamports.
    AlreadyInitialized,
    /// The instruction payload is malformed.
    InvalidInstructionData,
    /// Owner count is zero or above `MAX_OWNER`.
    InvalidOwnerCount,
    /// Threshold is zero or exceeds the number of owners permitted to vote.
    InvalidThreshold,
    /// The owner list is not strictly ascending, so it is unsorted or has a duplicate.
    OwnersNotSorted,
    /// The signer is not an owner of this multisig.
    NotAnOwner,
    /// This owner has already voted on the transaction.
    AlreadyVoted,
    /// The transaction predates the last change to the owner set, the
    /// permissions or the threshold.
    StaleTransaction,
    /// The transaction's status does not permit this action.
    InvalidStatus,
    /// A stored status byte does not decode to a known variant.
    UnknownStatus,
    /// The transaction does not belong to the given multisig.
    MultisigMismatch,
    /// The accounts passed do not match those recorded in the transaction.
    AccountMismatch,
    /// An arithmetic operation overflowed.
    Overflow,
    /// The address is already an owner of this multisig.
    OwnerAlreadyExists,
    /// A self-targeted proposal carries an unknown config action byte.
    UnknownConfigAction,
    /// The time lock exceeds `MAX_TIME_LOCK`.
    InvalidTimeLock,
    /// The multisig's time lock has not elapsed since approval.
    TimeLockNotReleased,
    /// The compiled transaction message is malformed or references an
    /// out-of-range account index.
    InvalidMessage,
    /// An inner instruction references more accounts than a CPI may carry.
    TooManyAccounts,
    /// The buffer has not received every byte it committed to.
    BufferIncomplete,
    /// The buffer's contents do not match the hash committed at creation.
    BufferHashMismatch,
    /// A lookup table account is malformed or an index runs past its addresses.
    InvalidLookupTable,
    /// An owner carries a permission bit this program does not define.
    UnknownPermission,
    /// No owner is permitted to vote, which would brick the multisig.
    NoVoters,
    /// The signer lacks the permission this instruction requires.
    Unauthorized,
    /// Proposals remain unclosed, so closing the multisig would strand them.
    TransactionsOutstanding,
    /// The multisig is autonomous, so it has no config authority to act on.
    NotControlled,
}

/// The custom error code of each variant, in declaration order.
pub open spec fn error_code(e: MultisigError) -> u32 {
    match e {
        MultisigError::NotEnoughAccounts => 0,
        MultisigError::InvalidAccountData => 1,
        MultisigError::IllegalOwner => 2,
        MultisigError::MissingSignature => 3,
        MultisigError::InvalidAccount => 4,
        MultisigError::InvalidProgramId => 5,
        MultisigError::AlreadyInitialized => 6,
        MultisigError::InvalidInstructionData => 7,
        MultisigError::InvalidOwnerCount => 8,
        MultisigError::InvalidThreshold => 9,
        MultisigError::OwnersNotSorted => 10,
        MultisigError::NotAnOwner => 11,
        MultisigError::AlreadyVoted => 12,
        MultisigError::StaleTransaction => 13,
        MultisigError::InvalidStatus => 14,
        MultisigError::UnknownStatus => 15,
        MultisigError::MultisigMismatch => 16,
        MultisigError::AccountMismatch => 17,
        MultisigError::Overflow => 18,
        MultisigError::OwnerAlreadyExists => 19,
        MultisigError::UnknownConfigAction => 20,
        MultisigError::InvalidTimeLock => 21,
        MultisigError::TimeLockNotReleased => 22,
        MultisigError::InvalidMessage => 23,
        MultisigError::TooManyAccounts => 24,
        MultisigError::BufferIncomplete => 25,
        MultisigError::BufferHashMismatch => 26,
        MultisigError::InvalidLookupTable => 27,
        MultisigError::UnknownPermission => 28,
        MultisigError::NoVoters => 29,
        MultisigError::Unauthorized => 30,
        MultisigError::TransactionsOutstanding => 31,
        MultisigError::NotControlled => 32,
    }
}

impl MultisigError {
    /// The custom error code the runtime reports for this error.
    pub fn code(&self) -> (r: u32)
        ensures
            r == error_code(*self),
    {
        match self {
            MultisigError::NotEnoughAccounts => 0,
            MultisigError::InvalidAccountData => 1,
            MultisigError::IllegalOwner => 2,
            MultisigError::MissingSignature => 3,
            MultisigError::InvalidAccount => 4,
            MultisigError::InvalidProgramId => 5,
            MultisigError::AlreadyInitialized => 6,
            MultisigError::InvalidInstructionData => 7,
            MultisigError::InvalidOwnerCount => 8,
            MultisigError::InvalidThreshold => 9,
            MultisigError::OwnersNotSorted => 10,
            MultisigError::NotAnOwner => 11,
            MultisigError::AlreadyVoted => 12,
            MultisigError::StaleTransaction => 13,
            MultisigError::InvalidStatus => 14,
            MultisigError::UnknownStatus => 15,
            MultisigError::MultisigMismatch => 16,
            MultisigError::AccountMismatch => 17,
            MultisigError::Overflow => 18,
            MultisigError::OwnerAlreadyExists => 19,
            MultisigError::UnknownConfigAction => 20,
            MultisigError::InvalidTimeLock => 21,
            MultisigError::TimeLockNotReleased => 22,
            MultisigError::InvalidMessage => 23,
            MultisigError::TooManyAccounts => 24,
            MultisigError::BufferIncomplete => 25,
            MultisigError::BufferHashMismatch => 26,
            MultisigError::InvalidLookupTable => 27,
            MultisigError::UnknownPermission => 28,
            MultisigError::NoVoters => 29,
            MultisigError::Unauthorized => 30,
            MultisigError::TransactionsOutstanding => 31,
            MultisigError::NotControlled => 32,
        }
    }
}

/// Distinct errors carry distinct codes.
pub proof fn lemma_error_code_injective(a: MultisigError, b: MultisigError)
    requires
        error_code(a) == error_code(b),
    ensures
        a == b,
{
}

/// An error as the runtime reports it: the runtime's own invalid-instruction
/// error, or one of this program's custom codes.
#[derive(Clone, Copy, Debug, PartialEq, Eq, Structural)]
pub enum ProgramError {
    /// The instruction data names no instruction.
    InvalidInstructionData,
    /// A program error, by its code.
    Custom(u32),
}

impl From<MultisigError> for ProgramError {
    fn from(e: MultisigError) -> (r: ProgramError) {
        ProgramError::Custom(e.code())
    }
}

impl vstd::std_specs::convert::FromSpecImpl<MultisigError> for ProgramError {
    open spec fn obeys_from_spec() -> bool {
        true
    }

    open spec fn from_spec(e: MultisigError) -> ProgramError {
        ProgramError::Custom(error_code(e))
    }
}

} // verus!
