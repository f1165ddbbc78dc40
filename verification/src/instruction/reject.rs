//! Reject a proposal.
//!
//! Once enough owners reject that the threshold can no longer be reached, the
//! proposal latches to `Rejected` rather than sitting `Active` forever.
//!
//! # Accounts
//!
//! 0. `owner`       - signer, must be an owner permitted to vote
//! 1. `multisig`    - supplies the cutoff and the staleness marker
//! 2. `transaction` - writable, the proposal being voted on

use vstd::prelude::*;

use crate::account::{account_models, with_data, AccountModel, AccountView};
use crate::address::Address;
use crate::error::MultisigError;
use crate::instruction::vote::{check_votable, prepare, prepare_result, votable_result, Voter};
use crate::state::bitmap::{self, bit_at, with_bit};
use crate::state::transaction::{
    parse_transaction_account, status_byte, transaction_account_bytes, transaction_violation,
    Transaction, TransactionStatus,
};

verus! {

/// What a rejection by `voter` does to a proposal's header and rejected
/// bitmap, or why it is refused.
pub open spec fn reject_transition(
    t: Transaction,
    approved: Seq<u8>,
    rejected: Seq<u8>,
    cancelled: Seq<u8>,
    voter: Voter,
) -> Result<(Transaction, Seq<u8>), MultisigError> {
    let i = voter.index as int;
    if bit_at(approved, i) || bit_at(rejected, i) || bit_at(cancelled, i) || i / 8 >= rejected.len() {
        Err(MultisigError::AlreadyVoted)
    } else if t.rejected_count == u32::MAX {
        Err(MultisigError::Overflow)
    } else {
        let counted = Transaction { rejected_count: (t.rejected_count + 1) as u32, ..t };
        let next = if counted.rejected_count >= voter.cutoff {
            Transaction { status: status_byte(TransactionStatus::Rejected), ..counted }
        } else {
            counted
        };
        match transaction_violation(next) {
            Some(e) => Err(e),
            None => Ok((next, with_bit(rejected, i))),
        }
    }
}

/// The accounts after a rejection, or why it is refused.
pub open spec fn reject_outcome(
    program_id: Seq<u8>,
    accounts: Seq<AccountModel>,
    instruction: Seq<u8>,
) -> Result<Seq<AccountModel>, MultisigError> {
    if accounts.len() < 3 {
        Err(MultisigError::NotEnoughAccounts)
    } else {
        match prepare_result(program_id, accounts[0], accounts[1], accounts[2], instruction, true) {
            Err(e) => Err(e),
            Ok(voter) => match parse_transaction_account(accounts[2].data) {
                None => Err(MultisigError::InvalidAccountData),
                Some((t, a, rj, c, m)) => match votable_result(
                    t,
                    accounts[1].address,
                    voter,
                    TransactionStatus::Active,
                ) {
                    Err(e) => Err(e),
                    Ok(_) => match reject_transition(t, a, rj, c, voter) {
                        Err(e) => Err(e),
                        Ok((t1, rj1)) => Ok(
                            accounts.update(
                                2,
                                with_data(accounts[2], transaction_account_bytes(t1, a, rj1, c, m)),
                            ),
                        ),
                    },
                },
            },
        }
    }
}

/// Records a rejection from `owner`.
pub fn process_reject(program_id: &Address, accounts: &mut Vec<AccountView>, instruction: &[u8]) -> (r:
    Result<(), MultisigError>)
    ensures
        match reject_outcome(program_id@, account_models(old(accounts)@), instruction@) {
            Ok(after) => r is Ok && account_models(final(accounts)@) == after,
            Err(e) => r == Err::<(), MultisigError>(e) && final(accounts)@ == old(accounts)@,
        },
{
    if accounts.len() < 3 {
        return Err(MultisigError::NotEnoughAccounts);
    }
    let voter = prepare(program_id, &accounts[0], &accounts[1], &accounts[2], instruction, true)?;
    let (mut state, mut votes, message) = Transaction::load_mut(accounts[2].data.as_slice())?;
    check_votable(&state, &accounts[1], &voter, TransactionStatus::Active)?;
    if votes.has_voted(voter.index) {
        return Err(MultisigError::AlreadyVoted);
    }
    if !bitmap::set(votes.rejected.as_mut_slice(), voter.index) {
        return Err(MultisigError::AlreadyVoted);
    }
    if state.rejected_count == u32::MAX {
        return Err(MultisigError::Overflow);
    }
    state.rejected_count = state.rejected_count + 1;
    // Latch once approval has become arithmetically impossible.
    if state.rejected_count >= voter.cutoff {
        state.status = TransactionStatus::Rejected.to_u8();
    }
    state.check_invariant()?;
    let data = state.to_account_bytes(&votes, message.as_slice());
    accounts[2].set_data(data);
    proof {
        assert(account_models(accounts@) =~= account_models(old(accounts)@).update(
            2,
            with_data(old(accounts)@[2]@, data@),
        ));
    }
    Ok(())
}

} // verus!
