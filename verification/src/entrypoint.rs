//! Instruction routing.
//!
//! The leading byte of the instruction data names the instruction; the rest
//! is its payload.
//!
//! | Byte | Instruction |
//! |------|-------------|
//! | `0`  | `init_multisig` |
//! | `1`  | `create_transaction` |
//! | `2`  | `approve` |
//! | `3`  | `reject` |
//! | `4`  | `execute` |
//! | `5`  | `cancel` |
//! | `6`  | `close_transaction` |
//! | `7`  | `buffer_create` |
//! | `8`  | `buffer_extend` |
//! | `9`  | `buffer_close` |
//! | `10` | `create_from_buffer` |
//! | `11` | `set_config` |

use vstd::prelude::*;
use vstd::slice::*;

use crate::account::{account_models, AccountModel, AccountView};
use crate::address::Address;
use crate::error::{error_code, MultisigError, ProgramError};
use crate::instruction::approve::{approve_outcome, process_approve};
use crate::instruction::buffer::{
    buffer_close_outcome, buffer_create_outcome, buffer_extend_outcome, process_buffer_close,
    process_buffer_create, process_buffer_extend,
};
use crate::instruction::cancel::{cancel_outcome, process_cancel};
use crate::instruction::close_transaction::{close_transaction_outcome, process_close_transaction};
use crate::instruction::create_from_buffer::{
    buffer_digest, create_from_buffer_outcome, process_create_from_buffer,
};
use crate::instruction::create_transaction::{create_transaction_outcome, process_create_transaction};
use crate::instruction::execute::{execute_outcome, process_execute, ExecutePlan};
use crate::instruction::lifecycle::{
    accounts_after, after_approve, after_buffer_close, after_buffer_create, after_buffer_extend,
    after_cancel, after_close_transaction, after_create_from_buffer, after_create_transaction,
    after_execute, after_init_multisig, after_reject, after_set_config,
};
use crate::instruction::init_multisig::{init_multisig_outcome, process_init_multisig};
use crate::instruction::reject::{process_reject, reject_outcome};
use crate::instruction::set_config::{process_set_config, set_config_outcome};
use crate::instruction::system::CreateAccount;
use crate::rent::{Rent, MAX_LAMPORTS_PER_BYTE};

verus! {

/// What an instruction that went through leaves for the runtime to do.
pub enum Outcome {
    /// Nothing: the accounts hold the result.
    Done,
    /// Create this account through the system program, then write this data
    /// into it.
    Create(CreateAccount, Vec<u8>),
    /// Transfer this many lamports from the first account into the second
    /// through the system program.
    Transfer(u64),
    /// Make these invocations, signed by the proposal's PDAs.
    Execute(ExecutePlan),
}

/// The error the runtime reports for a program error.
pub open spec fn custom(e: MultisigError) -> ProgramError {
    ProgramError::Custom(error_code(e))
}

/// Routes an instruction by its leading byte, at time `now` and with the rent
/// sysvar's rate `rent`. On an error no account changes.
pub fn process_instruction(
    program_id: &Address,
    accounts: &mut Vec<AccountView>,
    instruction_data: &[u8],
    now: i64,
    rent: &Rent,
) -> (r: Result<Outcome, ProgramError>)
    requires
        rent.lamports_per_byte <= MAX_LAMPORTS_PER_BYTE,
    ensures
        r is Err ==> account_models(final(accounts)@) == account_models(old(accounts)@),
        r is Ok ==> accounts_after(program_id@, account_models(old(accounts)@), instruction_data@, now, *rent)
            == Some(account_models(final(accounts)@)),
        instruction_data@.len() == 0 || instruction_data@[0] > 11 ==> r == Err::<
            Outcome,
            ProgramError,
        >(ProgramError::InvalidInstructionData),
        instruction_data@.len() > 0 ==> ({
            let tag = instruction_data@[0];
            let rest = instruction_data@.subrange(1, instruction_data@.len() as int);
            let before = account_models(old(accounts)@);
            let after = account_models(final(accounts)@);
            &&& tag == 0 ==> match init_multisig_outcome(program_id@, before, rest, *rent) {
                Ok((plan, data)) => r matches Ok(Outcome::Create(p, d)) && p@ == plan && d@
                    == data && after == before,
                Err(e) => r == Err::<Outcome, ProgramError>(custom(e)),
            }
            &&& tag == 1 ==> match create_transaction_outcome(program_id@, before, rest, *rent) {
                Ok((accts, plan, data)) => r matches Ok(Outcome::Create(p, d)) && p@ == plan && d@
                    == data && after == accts,
                Err(e) => r == Err::<Outcome, ProgramError>(custom(e)),
            }
            &&& tag == 2 ==> match approve_outcome(program_id@, before, rest, now) {
                Ok(accts) => r matches Ok(Outcome::Done) && after == accts,
                Err(e) => r == Err::<Outcome, ProgramError>(custom(e)),
            }
            &&& tag == 3 ==> match reject_outcome(program_id@, before, rest) {
                Ok(accts) => r matches Ok(Outcome::Done) && after == accts,
                Err(e) => r == Err::<Outcome, ProgramError>(custom(e)),
            }
            &&& tag == 4 ==> match execute_outcome(program_id@, before, rest, now, *rent) {
                Ok((accts, plan)) => r matches Ok(Outcome::Execute(p)) && p@ == plan && after
                    == accts,
                Err(e) => r == Err::<Outcome, ProgramError>(custom(e)),
            }
            &&& tag == 5 ==> match cancel_outcome(program_id@, before, rest) {
                Ok(accts) => r matches Ok(Outcome::Done) && after == accts,
                Err(e) => r == Err::<Outcome, ProgramError>(custom(e)),
            }
            &&& tag == 6 ==> match close_transaction_outcome(program_id@, before, rest) {
                Ok(accts) => r matches Ok(Outcome::Done) && after == accts,
                Err(e) => r == Err::<Outcome, ProgramError>(custom(e)),
            }
            &&& tag == 7 ==> match buffer_create_outcome(program_id@, before, rest, *rent) {
                Ok((plan, data)) => r matches Ok(Outcome::Create(p, d)) && p@ == plan && d@
                    == data && after == before,
                Err(e) => r == Err::<Outcome, ProgramError>(custom(e)),
            }
            &&& tag == 8 ==> match buffer_extend_outcome(program_id@, before, rest) {
                Ok(accts) => r matches Ok(Outcome::Done) && after == accts,
                Err(e) => r == Err::<Outcome, ProgramError>(custom(e)),
            }
            &&& tag == 9 ==> match buffer_close_outcome(program_id@, before, rest) {
                Ok(accts) => r matches Ok(Outcome::Done) && after == accts,
                Err(e) => r == Err::<Outcome, ProgramError>(custom(e)),
            }
            &&& tag == 10 && before.len() >= 5 ==> match create_from_buffer_outcome(
                program_id@,
                before,
                rest,
                *rent,
                buffer_digest(before),
            ) {
                Ok((accts, plan, data)) => r matches Ok(Outcome::Create(p, d)) && p@ == plan && d@
                    == data && after == accts,
                Err(e) => r == Err::<Outcome, ProgramError>(custom(e)),
            }
            &&& tag == 10 && before.len() < 5 ==> r == Err::<Outcome, ProgramError>(
                custom(MultisigError::NotEnoughAccounts),
            )
            &&& tag == 11 ==> match set_config_outcome(program_id@, before, rest, *rent) {
                Ok((accts, transfer)) => r matches Ok(Outcome::Transfer(t)) && t == transfer && after
                    == accts,
                Err(e) => r == Err::<Outcome, ProgramError>(custom(e)),
            }
        }),
{
    if instruction_data.len() == 0 {
        return Err(ProgramError::InvalidInstructionData);
    }
    let tag = instruction_data[0];
    let rest = slice_subrange(instruction_data, 1, instruction_data.len());
    let routed: Result<Outcome, MultisigError> = if tag == 0 {
        proof {
            reveal(after_init_multisig);
        }
        match process_init_multisig(program_id, accounts, rest, rent) {
            Ok((plan, data)) => Ok(Outcome::Create(plan, data)),
            Err(e) => Err(e),
        }
    } else if tag == 1 {
        proof {
            reveal(after_create_transaction);
        }
        match process_create_transaction(program_id, accounts, rest, rent) {
            Ok((plan, data)) => Ok(Outcome::Create(plan, data)),
            Err(e) => Err(e),
        }
    } else if tag == 2 {
        proof {
            reveal(after_approve);
        }
        match process_approve(program_id, accounts, rest, now) {
            Ok(()) => Ok(Outcome::Done),
            Err(e) => Err(e),
        }
    } else if tag == 3 {
        proof {
            reveal(after_reject);
        }
        match process_reject(program_id, accounts, rest) {
            Ok(()) => Ok(Outcome::Done),
            Err(e) => Err(e),
        }
    } else if tag == 4 {
        proof {
            reveal(after_execute);
        }
        match process_execute(program_id, accounts, rest, now, rent) {
            Ok(plan) => Ok(Outcome::Execute(plan)),
            Err(e) => Err(e),
        }
    } else if tag == 5 {
        proof {
            reveal(after_cancel);
        }
        match process_cancel(program_id, accounts, rest) {
            Ok(()) => Ok(Outcome::Done),
            Err(e) => Err(e),
        }
    } else if tag == 6 {
        proof {
            reveal(after_close_transaction);
        }
        match process_close_transaction(program_id, accounts, rest) {
            Ok(()) => Ok(Outcome::Done),
            Err(e) => Err(e),
        }
    } else if tag == 7 {
        proof {
            reveal(after_buffer_create);
        }
        match process_buffer_create(program_id, accounts, rest, rent) {
            Ok((plan, data)) => Ok(Outcome::Create(plan, data)),
            Err(e) => Err(e),
        }
    } else if tag == 8 {
        proof {
            reveal(after_buffer_extend);
        }
        match process_buffer_extend(program_id, accounts, rest) {
            Ok(()) => Ok(Outcome::Done),
            Err(e) => Err(e),
        }
    } else if tag == 9 {
        proof {
            reveal(after_buffer_close);
        }
        match process_buffer_close(program_id, accounts, rest) {
            Ok(()) => Ok(Outcome::Done),
            Err(e) => Err(e),
        }
    } else if tag == 10 {
        proof {
            reveal(after_create_from_buffer);
        }
        match process_create_from_buffer(program_id, accounts, rest, rent) {
            Ok((plan, data)) => Ok(Outcome::Create(plan, data)),
            Err(e) => Err(e),
        }
    } else if tag == 11 {
        proof {
            reveal(after_set_config);
        }
        match process_set_config(program_id, accounts, rest, rent) {
            Ok(transfer) => Ok(Outcome::Transfer(transfer)),
            Err(e) => Err(e),
        }
    } else {
        return Err(ProgramError::InvalidInstructionData);
    };
    match routed {
        Ok(o) => Ok(o),
        Err(e) => Err(ProgramError::Custom(e.code())),
    }
}

} // verus!
