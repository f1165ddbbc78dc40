//! Cancel a proposal.
//!
//! Two paths, because the two situations are not the same decision.
//!
//! While a proposal is `Active` nobody has committed to it, so its creator may
//! withdraw it alone. Once it is `Approved` the owners have collectively agreed,
//! and undoing that takes the same threshold that made it. Without the second
//! path a time lock would be half a feature, giving owners a window to notice a
//! bad proposal but no way to stop it.
//!
//! # Accounts
//!
//! 0. `signer`      - the creator while `Active`, or a voting owner while `Approved`
//! 1. `multisig`    - supplies the threshold and the owner set
//! 2. `transaction` - writable, the proposal being cancelled

use vstd::prelude::*;

use crate::account::{account_models, validate_eq, with_data, AccountModel, AccountView};
use crate::address::Address;
use crate::error::MultisigError;
use crate::instruction::vote::{check_votable, prepare, prepare_result, votable_result, Voter};
use crate::state::bitmap::{self, bit_at, with_bit};
use crate::state::transaction::{
    parse_transaction_account, status_byte, status_of_byte, transaction_account_bytes,
    transaction_violation, Transaction, TransactionStatus,
};

verus! {

/// What a cancel by `signer`, found in the owner set as `voter`, does to a
/// proposal's header and cancelled bitmap, or why it is refused.
pub open spec fn cancel_transition(
    t: Transaction,
    cancelled: Seq<u8>,
    voter: Voter,
    multisig: Seq<u8>,
    signer: Seq<u8>,
) -> Result<(Transaction, Seq<u8>), MultisigError> {
    let i = voter.index as int;
    let cancelled_status = status_byte(TransactionStatus::Cancelled);
    let step: Result<(Transaction, Seq<u8>), MultisigError> = match status_of_byte(t.status) {
        Err(e) => Err(e),
        Ok(TransactionStatus::Active) => match votable_result(
            t,
            multisig,
            voter,
            TransactionStatus::Active,
        ) {
            Err(e) => Err(e),
            Ok(_) => if t.creator@ != signer {
                Err(MultisigError::InvalidAccount)
            } else {
                Ok((Transaction { status: cancelled_status, ..t }, cancelled))
            },
        },
        Ok(TransactionStatus::Approved) => match votable_result(
            t,
            multisig,
            voter,
            TransactionStatus::Approved,
        ) {
            Err(e) => Err(e),
            Ok(_) => if !voter.can_vote {
                Err(MultisigError::Unauthorized)
            } else if bit_at(cancelled, i) || i / 8 >= cancelled.len() {
                Err(MultisigError::AlreadyVoted)
            } else if t.cancelled_count == u32::MAX {
                Err(MultisigError::Overflow)
            } else {
                let counted = Transaction { cancelled_count: (t.cancelled_count + 1) as u32, ..t };
                let next = if counted.cancelled_count >= voter.threshold {
                    Transaction { status: cancelled_status, ..counted }
                } else {
                    counted
                };
                Ok((next, with_bit(cancelled, i)))
            },
        },
        Ok(_) => Err(MultisigError::InvalidStatus),
    };
    match step {
        Err(e) => Err(e),
        Ok((next, bits)) => match transaction_violation(next) {
            Some(e) => Err(e),
            None => Ok((next, bits)),
        },
    }
}

/// The accounts after a cancel, or why it is refused.
pub open spec fn cancel_outcome(
    program_id: Seq<u8>,
    accounts: Seq<AccountModel>,
    instruction: Seq<u8>,
) -> Result<Seq<AccountModel>, MultisigError> {
    if accounts.len() < 3 {
        Err(MultisigError::NotEnoughAccounts)
    } else {
        match prepare_result(program_id, accounts[0], accounts[1], accounts[2], instruction, false) {
            Err(e) => Err(e),
            Ok(voter) => match parse_transaction_account(accounts[2].data) {
                None => Err(MultisigError::InvalidAccountData),
                Some((t, a, rj, c, m)) => match cancel_transition(
                    t,
                    c,
                    voter,
                    accounts[1].address,
                    accounts[0].address,
                ) {
                    Err(e) => Err(e),
                    Ok((t1, c1)) => Ok(
                        accounts.update(
                            2,
                            with_data(accounts[2], transaction_account_bytes(t1, a, rj, c1, m)),
                        ),
                    ),
                },
            },
        }
    }
}

/// Cancels an active proposal, or records a vote to cancel an approved one.
pub fn process_cancel(program_id: &Address, accounts: &mut Vec<AccountView>, instruction: &[u8]) -> (r:
    Result<(), MultisigError>)
    ensures
        match cancel_outcome(program_id@, account_models(old(accounts)@), instruction@) {
            Ok(after) => r is Ok && account_models(final(accounts)@) == after,
            Err(e) => r == Err::<(), MultisigError>(e) && final(accounts)@ == old(accounts)@,
        },
{
    if accounts.len() < 3 {
        return Err(MultisigError::NotEnoughAccounts);
    }
    // The creator path does not require the vote permission, so it is checked
    // only on the branch that needs it.
    let voter = prepare(program_id, &accounts[0], &accounts[1], &accounts[2], instruction, false)?;
    let (mut state, mut votes, message) = Transaction::load_mut(accounts[2].data.as_slice())?;
    match state.status()? {
        TransactionStatus::Active => {
            check_votable(&state, &accounts[1], &voter, TransactionStatus::Active)?;
            validate_eq(&state.creator, accounts[0].address(), MultisigError::InvalidAccount)?;
            state.status = TransactionStatus::Cancelled.to_u8();
        },
        TransactionStatus::Approved => {
            check_votable(&state, &accounts[1], &voter, TransactionStatus::Approved)?;
            if !voter.can_vote {
                return Err(MultisigError::Unauthorized);
            }
            if bitmap::get(votes.cancelled.as_slice(), voter.index) {
                return Err(MultisigError::AlreadyVoted);
            }
            if !bitmap::set(votes.cancelled.as_mut_slice(), voter.index) {
                return Err(MultisigError::AlreadyVoted);
            }
            if state.cancelled_count == u32::MAX {
                return Err(MultisigError::Overflow);
            }
            state.cancelled_count = state.cancelled_count + 1;
            if state.cancelled_count >= voter.threshold {
                state.status = TransactionStatus::Cancelled.to_u8();
            }
        },
        _ => {
            return Err(MultisigError::InvalidStatus);
        },
    }
    state.check_invariant()?;
    let data = state.to_account_bytes(&votes, message.as_slice());
    accounts[2].set_data(data);
    proof {
        assert(account_models(accounts@) =~= account_models(old(accounts)@).update(
            2,
            with_data(old(accounts)@[2]@, data@),
        ));
    }
    Ok(())
}

} // verus!
