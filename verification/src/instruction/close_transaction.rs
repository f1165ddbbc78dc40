//! Close a finished proposal and reclaim its rent.
//!
//! Permitted for any caller, because the outcome is fixed by stored state:
//! the account is closed and its lamports go to the multisig's rent collector,
//! or to whoever paid when none is set. Leaving finished proposals open would
//! strand their rent forever.
//!
//! # Accounts
//!
//! 0. `transaction` - writable, the proposal being closed
//! 1. `multisig`    - writable; names the rent collector and counts closures
//! 2. `destination` - writable, receives the rent

use vstd::prelude::*;

use crate::account::{
    account_models, check_owner, closed, validate_eq, with_data, with_lamports, AccountModel,
    AccountView,
};
use crate::address::Address;
use crate::error::MultisigError;
use crate::state::multisig::{
    multisig_account_bytes, multisig_violation, parse_multisig_account, zero_address, Multisig,
};
use crate::state::transaction::{parse_transaction_account, status_of_byte, Transaction, TransactionStatus};

verus! {

/// The accounts after a proposal is closed, or why it is refused.
pub open spec fn close_transaction_outcome(
    program_id: Seq<u8>,
    accounts: Seq<AccountModel>,
    instruction: Seq<u8>,
) -> Result<Seq<AccountModel>, MultisigError> {
    if accounts.len() < 3 {
        Err(MultisigError::NotEnoughAccounts)
    } else if instruction.len() != 0 {
        Err(MultisigError::InvalidInstructionData)
    } else if accounts[0].owner != program_id || accounts[1].owner != program_id {
        Err(MultisigError::IllegalOwner)
    } else {
        match parse_multisig_account(accounts[1].data) {
            None => Err(MultisigError::InvalidAccountData),
            Some((h, o, p)) => if h.closed_transaction_count == u64::MAX {
                Err(MultisigError::Overflow)
            } else {
                // Counting closures is what lets `close_multisig` know later
                // that nothing is left outstanding.
                let h1 = Multisig {
                    closed_transaction_count: (h.closed_transaction_count + 1) as u64,
                    ..h
                };
                match multisig_violation(h1) {
                    Some(e) => Err(e),
                    None => match parse_transaction_account(accounts[0].data) {
                        None => Err(MultisigError::InvalidAccountData),
                        Some((t, _, _, _, _)) => {
                            let expected = if h.rent_collector@ == zero_address() {
                                t.creator@
                            } else {
                                h.rent_collector@
                            };
                            if t.multisig@ != accounts[1].address {
                                Err(MultisigError::MultisigMismatch)
                            } else if expected != accounts[2].address {
                                Err(MultisigError::InvalidAccount)
                            } else if status_of_byte(t.status) is Err {
                                Err(MultisigError::UnknownStatus)
                            } else if !(status_of_byte(t.status) == Ok::<
                                TransactionStatus,
                                MultisigError,
                            >(TransactionStatus::Executed) || status_of_byte(t.status) == Ok::<
                                TransactionStatus,
                                MultisigError,
                            >(TransactionStatus::Rejected) || status_of_byte(t.status) == Ok::<
                                TransactionStatus,
                                MultisigError,
                            >(TransactionStatus::Cancelled)) {
                                Err(MultisigError::InvalidStatus)
                            } else if accounts[2].lamports + accounts[0].lamports > u64::MAX {
                                Err(MultisigError::Overflow)
                            } else {
                                Ok(
                                    accounts.update(0, closed(accounts[0])).update(
                                        1,
                                        with_data(accounts[1], multisig_account_bytes(h1, o, p)),
                                    ).update(
                                        2,
                                        with_lamports(
                                            accounts[2],
                                            (accounts[2].lamports + accounts[0].lamports) as u64,
                                        ),
                                    ),
                                )
                            }
                        },
                    },
                }
            },
        }
    }
}

/// Closes a terminal proposal, refunding its rent to `destination`.
pub fn process_close_transaction(
    program_id: &Address,
    accounts: &mut Vec<AccountView>,
    instruction: &[u8],
) -> (r: Result<(), MultisigError>)
    ensures
        match close_transaction_outcome(program_id@, account_models(old(accounts)@), instruction@) {
            Ok(after) => r is Ok && account_models(final(accounts)@) == after,
            Err(e) => r == Err::<(), MultisigError>(e) && final(accounts)@ == old(accounts)@,
        },
{
    if accounts.len() < 3 {
        return Err(MultisigError::NotEnoughAccounts);
    }
    if instruction.len() != 0 {
        return Err(MultisigError::InvalidInstructionData);
    }
    check_owner(&accounts[0], program_id, MultisigError::IllegalOwner)?;
    check_owner(&accounts[1], program_id, MultisigError::IllegalOwner)?;
    let (mut ms, owners, permissions) = Multisig::load(accounts[1].data.as_slice())?;
    let rent_collector = ms.rent_collector;
    ms.closed_transaction_count = match ms.closed_transaction_count.checked_add(1) {
        Some(n) => n,
        None => {
            return Err(MultisigError::Overflow);
        },
    };
    ms.check_invariant()?;
    let (state, _, _) = Transaction::load(accounts[0].data.as_slice())?;
    validate_eq(&state.multisig, accounts[1].address(), MultisigError::MultisigMismatch)?;
    // Rent goes where the multisig says, and to whoever paid when it says
    // nothing. Either way the destination is fixed by stored state, which is
    // why this instruction needs no signer.
    let expected = if rent_collector.is_zero() {
        state.creator
    } else {
        rent_collector
    };
    validate_eq(&expected, accounts[2].address(), MultisigError::InvalidAccount)?;
    // Only a proposal that can never run again.
    match state.status()? {
        TransactionStatus::Executed | TransactionStatus::Rejected | TransactionStatus::Cancelled => {},
        _ => {
            return Err(MultisigError::InvalidStatus);
        },
    }
    // Lamports must leave the account before it is closed, or the instruction
    // ends unbalanced and the runtime rejects it.
    let refund = accounts[0].lamports();
    let credited = match accounts[2].lamports().checked_add(refund) {
        Some(c) => c,
        None => {
            return Err(MultisigError::Overflow);
        },
    };
    let bytes = ms.to_account_bytes(owners.as_slice(), permissions.as_slice());
    accounts[1].set_data(bytes);
    accounts[2].set_lamports(credited);
    accounts[0].set_lamports(0);
    accounts[0].close();
    proof {
        assert(account_models(accounts@) =~= close_transaction_outcome(
            program_id@,
            account_models(old(accounts)@),
            instruction@,
        )->Ok_0);
    }
    Ok(())
}

} // verus!
