//! Approve a proposal.
//!
//! The vote is a bit at the owner's position. The proposal latches to
//! `Approved` the moment the count reaches the threshold, and execution never
//! recounts.
//!
//! # Accounts
//!
//! 0. `owner`       - signer, must be an owner permitted to vote
//! 1. `multisig`    - supplies the threshold and the staleness marker
//! 2. `transaction` - writable, the proposal being voted on

use vstd::prelude::*;

use crate::account::{account_models, with_data, AccountModel, AccountView};
use crate::address::Address;
use crate::error::MultisigError;
use crate::instruction::vote::{
    check_votable, latch_approved, latched, prepare, prepare_result, votable_result, Voter,
};
use crate::state::bitmap::{self, bit_at, with_bit};
use crate::state::transaction::{
    parse_transaction_account, transaction_account_bytes, transaction_violation, Transaction,
    TransactionStatus,
};

verus! {

/// What an approval by `voter` does to a proposal's header and approved
/// bitmap, or why it is refused.
pub open spec fn approve_transition(
    t: Transaction,
    approved: Seq<u8>,
    rejected: Seq<u8>,
    cancelled: Seq<u8>,
    voter: Voter,
    now: i64,
) -> Result<(Transaction, Seq<u8>), MultisigError> {
    let i = voter.index as int;
    if bit_at(approved, i) || bit_at(rejected, i) || bit_at(cancelled, i) || i / 8 >= approved.len() {
        Err(MultisigError::AlreadyVoted)
    } else if t.approved_count == u32::MAX {
        Err(MultisigError::Overflow)
    } else {
        let counted = Transaction { approved_count: (t.approved_count + 1) as u32, ..t };
        let next = if counted.approved_count >= voter.threshold {
            latched(counted, now)
        } else {
            counted
        };
        match transaction_violation(next) {
            Some(e) => Err(e),
            None => Ok((next, with_bit(approved, i))),
        }
    }
}

/// The accounts after an approval, or why it is refused.
pub open spec fn approve_outcome(
    program_id: Seq<u8>,
    accounts: Seq<AccountModel>,
    instruction: Seq<u8>,
    now: i64,
) -> Result<Seq<AccountModel>, MultisigError> {
    if accounts.len() < 3 {
        Err(MultisigError::NotEnoughAccounts)
    } else {
        match prepare_result(program_id, accounts[0], accounts[1], accounts[2], instruction, true) {
            Err(e) => Err(e),
            Ok(voter) => match parse_transaction_account(accounts[2].data) {
                None => Err(MultisigError::InvalidAccountData),
                Some((t, a, rj, c, m)) => match votable_result(
                    t,
                    accounts[1].address,
                    voter,
                    TransactionStatus::Active,
                ) {
                    Err(e) => Err(e),
                    Ok(_) => match approve_transition(t, a, rj, c, voter, now) {
                        Err(e) => Err(e),
                        Ok((t1, a1)) => Ok(
                            accounts.update(
                                2,
                                with_data(accounts[2], transaction_account_bytes(t1, a1, rj, c, m)),
                            ),
                        ),
                    },
                },
            },
        }
    }
}

/// Records an approval from `owner`, at time `now`.
pub fn process_approve(
    program_id: &Address,
    accounts: &mut Vec<AccountView>,
    instruction: &[u8],
    now: i64,
) -> (r: Result<(), MultisigError>)
    ensures
        match approve_outcome(program_id@, account_models(old(accounts)@), instruction@, now) {
            Ok(after) => r is Ok && account_models(final(accounts)@) == after,
            Err(e) => r == Err::<(), MultisigError>(e) && final(accounts)@ == old(accounts)@,
        },
{
    if accounts.len() < 3 {
        return Err(MultisigError::NotEnoughAccounts);
    }
    let voter = prepare(program_id, &accounts[0], &accounts[1], &accounts[2], instruction, true)?;
    let (mut state, mut votes, message) = Transaction::load_mut(accounts[2].data.as_slice())?;
    check_votable(&state, &accounts[1], &voter, TransactionStatus::Active)?;
    if votes.has_voted(voter.index) {
        return Err(MultisigError::AlreadyVoted);
    }
    if !bitmap::set(votes.approved.as_mut_slice(), voter.index) {
        return Err(MultisigError::AlreadyVoted);
    }
    if state.approved_count == u32::MAX {
        return Err(MultisigError::Overflow);
    }
    state.approved_count = state.approved_count + 1;
    if state.approved_count >= voter.threshold {
        latch_approved(&mut state, now);
    }
    state.check_invariant()?;
    let data = state.to_account_bytes(&votes, message.as_slice());
    accounts[2].set_data(data);
    proof {
        assert(account_models(accounts@) =~= account_models(old(accounts)@).update(
            2,
            with_data(old(accounts)@[2]@, data@),
        ));
    }
    Ok(())
}

} // verus!
