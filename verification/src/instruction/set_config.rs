//! Configuration changes made by a config authority, without a vote.
//!
//! A multisig whose `config_authority` is the all-zero address is autonomous:
//! this instruction is refused and every change goes through propose, approve,
//! execute. Set to anything else, that key alone decides the configuration.
//!
//! The action payload is identical to the one a proposal carries, so both paths
//! run the same code and cannot drift apart.
//!
//! # Accounts
//!
//! 0. `authority`      - signer, must match `config_authority`; pays or
//!    receives rent when the owner set resizes
//! 1. `multisig`       - writable
//! 2. `system_program` - required when adding an owner grows the account

use vstd::prelude::*;

use crate::account::{account_models, check_owner, check_signer, validate_eq, AccountModel, AccountView};
use crate::address::Address;
use crate::error::MultisigError;
use crate::instruction::config_action::{apply_config_action, config_outcome};
use crate::rent::{Rent, MAX_LAMPORTS_PER_BYTE};
use crate::state::multisig::{parse_multisig_account, zero_address, Multisig};

verus! {

/// The accounts after the authority's config action, with what the authority
/// must transfer into the multisig, or why it is refused.
pub open spec fn set_config_outcome(
    program_id: Seq<u8>,
    accounts: Seq<AccountModel>,
    instruction: Seq<u8>,
    rent: Rent,
) -> Result<(Seq<AccountModel>, u64), MultisigError> {
    if accounts.len() < 2 {
        Err(MultisigError::NotEnoughAccounts)
    } else if !accounts[0].is_signer {
        Err(MultisigError::MissingSignature)
    } else if accounts[1].owner != program_id {
        Err(MultisigError::IllegalOwner)
    } else {
        match parse_multisig_account(accounts[1].data) {
            None => Err(MultisigError::InvalidAccountData),
            Some((h, _, _)) => if h.config_authority@ == zero_address() {
                // An autonomous multisig has no authority to appeal to, and
                // treating the all-zero address as one would let anybody who
                // can produce it take control.
                Err(MultisigError::NotControlled)
            } else if h.config_authority@ != accounts[0].address {
                Err(MultisigError::Unauthorized)
            } else {
                match config_outcome(accounts[1], accounts[0], instruction, false, rent) {
                    Err(e) => Err(e),
                    Ok((m, a, transfer)) => Ok((accounts.update(0, a).update(1, m), transfer)),
                }
            },
        }
    }
}

/// Applies a config action on the authority's say-so. The result is what the
/// authority must still transfer into the multisig through the system program.
pub fn process_set_config(
    program_id: &Address,
    accounts: &mut Vec<AccountView>,
    instruction: &[u8],
    rent: &Rent,
) -> (r: Result<u64, MultisigError>)
    requires
        rent.lamports_per_byte <= MAX_LAMPORTS_PER_BYTE,
    ensures
        match set_config_outcome(program_id@, account_models(old(accounts)@), instruction@, *rent) {
            Ok((after, transfer)) => r == Ok::<u64, MultisigError>(transfer) && account_models(
                final(accounts)@,
            ) == after,
            Err(e) => r == Err::<u64, MultisigError>(e) && account_models(final(accounts)@)
                == account_models(old(accounts)@),
        },
{
    if accounts.len() < 2 {
        return Err(MultisigError::NotEnoughAccounts);
    }
    check_signer(&accounts[0], MultisigError::MissingSignature)?;
    check_owner(&accounts[1], program_id, MultisigError::IllegalOwner)?;
    {
        let (ms, _, _) = Multisig::load(accounts[1].data.as_slice())?;
        if !ms.is_controlled() {
            return Err(MultisigError::NotControlled);
        }
        validate_eq(&ms.config_authority, accounts[0].address(), MultisigError::Unauthorized)?;
    }
    let mut authority = accounts[0].duplicate();
    let mut multisig = accounts[1].duplicate();
    let transfer = apply_config_action(&mut multisig, &mut authority, instruction, false, rent)?;
    accounts.set(0, authority);
    accounts.set(1, multisig);
    proof {
        assert(account_models(accounts@) =~= account_models(old(accounts)@).update(0, authority@).update(1, multisig@));
    }
    Ok(transfer)
}

} // verus!
