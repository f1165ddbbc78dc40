//! Execute an approved proposal.
//!
//! The stored message's instructions are invoked with the vault PDA, and the
//! proposal's ephemeral PDAs, as signers. Staleness is deliberately not
//! checked: a proposal that reached `Approved` before the owner set changed
//! stays executable, because it was approved under the rules in force at the
//! time. Execution never recounts the votes.
//!
//! An instruction that targets this program and carries no accounts of its
//! own is a config action, applied here rather than invoked.
//!
//! # Accounts
//!
//! 0. `executor`    - signer, an owner permitted to execute; pays or receives
//!    rent when a config action resizes the multisig
//! 1. `multisig`    - the configuration this proposal belongs to
//! 2. `transaction` - writable, the proposal being executed
//! 3. `remaining`   - and onward: the message's static keys, then the
//!    accounts its lookups load (every writable, then every readonly), then
//!    the lookup tables themselves

use vstd::bytes::*;
use vstd::prelude::*;
use vstd::slice::*;

use crate::account::{
    account_models, check_owner, check_signer, validate_eq, with_data, with_lamports, AccountModel,
    AccountView,
};
use crate::address::{address_of, Address};
use crate::constants::{ephemeral_seed, ephemeral_seed_bytes, vault_seed, vault_seed_bytes, MAX_CPI_ACCOUNTS};
use crate::error::MultisigError;
use crate::instruction::config_action::{apply_config_action, config_outcome, lemma_config_lamports};
use crate::instruction::lookup::{
    check_refs, check_tables, collect_refs, lemma_refs_len, lemma_refs_tables, lookup_refs,
    resolve_check, tables_check,
};
use crate::instruction::system::{byte_seed, byte_strings, seed_of};
use crate::rent::{Rent, MAX_LAMPORTS_PER_BYTE};
use crate::state::message::{
    instruction_models, key_is_writable, lookup_models, CompiledInstruction, TransactionMessage,
};
use crate::state::message_format::{
    lookup_key_total, parse_message, InstructionModel, MessageModel,
};
use crate::state::multisig::{owner_index, parse_multisig_account, Multisig};
use crate::state::permission::{mask_grants, Permission};
use crate::state::transaction::{
    parse_transaction_account, status_byte, status_of_byte, transaction_account_bytes,
    transaction_violation, Transaction, TransactionStatus,
};

verus! {

/// One account of an instruction to invoke.
#[derive(Clone, Copy, Debug)]
pub struct InstructionAccount {
    /// The account.
    pub address: Address,
    /// Whether the callee may write it.
    pub is_writable: bool,
    /// Whether it signs the call.
    pub is_signer: bool,
}

/// An instruction for the runtime to invoke on the program's behalf.
pub struct Invocation {
    /// The program to call.
    pub program_id: Address,
    /// Its accounts, in the order the callee expects.
    pub accounts: Vec<InstructionAccount>,
    /// Its payload.
    pub data: Vec<u8>,
}

/// The value of an invocation.
pub struct InvocationModel {
    /// The program to call.
    pub program_id: Seq<u8>,
    /// Address, writable and signer for each account.
    pub accounts: Seq<(Seq<u8>, bool, bool)>,
    /// Its payload.
    pub data: Seq<u8>,
}

impl View for Invocation {
    type V = InvocationModel;

    open spec fn view(&self) -> InvocationModel {
        InvocationModel {
            program_id: self.program_id@,
            accounts: self.accounts@.map_values(
                |a: InstructionAccount| (a.address@, a.is_writable, a.is_signer),
            ),
            data: self.data@,
        }
    }
}

/// What an execution asks the runtime to do: the invocations in order, each
/// signed for by every seed list in `signers`.
pub struct ExecutePlan {
    /// Instructions to invoke, in order.
    pub invocations: Vec<Invocation>,
    /// Seed lists, bump last, of the PDAs that sign: the vault, then each
    /// ephemeral signer.
    pub signers: Vec<Vec<Vec<u8>>>,
}

/// The value of an execution plan.
pub struct ExecutePlanModel {
    /// Instructions to invoke, in order.
    pub invocations: Seq<InvocationModel>,
    /// Seed lists of the PDAs that sign.
    pub signers: Seq<Seq<Seq<u8>>>,
}

impl View for ExecutePlan {
    type V = ExecutePlanModel;

    open spec fn view(&self) -> ExecutePlanModel {
        ExecutePlanModel {
            invocations: self.invocations@.map_values(|i: Invocation| i@),
            signers: self.signers@.map_values(|s: Vec<Vec<u8>>| byte_strings(s@)),
        }
    }
}

/// The system program's transfer of `lamports` from `from` to `to`.
pub open spec fn system_transfer(from: Seq<u8>, to: Seq<u8>, lamports: u64) -> InvocationModel {
    InvocationModel {
        program_id: Seq::new(32, |i: int| 0u8),
        accounts: seq![(from, true, true), (to, true, false)],
        data: seq![2u8, 0u8, 0u8, 0u8] + spec_u64_to_le_bytes(lamports),
    }
}

/// The system program's transfer of what the executor still owes the
/// multisig once every config action has settled, if it owes anything.
pub open spec fn pending_transfer(from: Seq<u8>, to: Seq<u8>, owed: u64) -> Seq<InvocationModel> {
    if owed == 0 {
        Seq::empty()
    } else {
        seq![system_transfer(from, to, owed)]
    }
}

/// What one instruction of the message does: a config action applied to the
/// multisig and executor, or an invocation. `passed` are the message's
/// accounts as passed, which the caller has checked against the message.
///
/// `owed` is what earlier config actions asked the executor to transfer into
/// the multisig and has not been transferred yet. A config action settles
/// rent against the multisig's balance with `owed` counted in, as if those
/// transfers had been made; what it asks the executor to transfer is added to
/// `owed`, and what it refunds to the executor first cancels `owed`, the rest
/// moving directly. The executor transfers what it still owes once, after
/// the last instruction.
#[verifier::opaque]
pub open spec fn run_instruction(
    ix: InstructionModel,
    m: MessageModel,
    passed: Seq<AccountModel>,
    program_id: Seq<u8>,
    multisig: AccountModel,
    executor: AccountModel,
    owed: u64,
    rent: Rent,
) -> Result<(AccountModel, AccountModel, u64, Seq<InvocationModel>), MultisigError> {
    let target = passed[ix.program_id_index as int].address;
    if target == program_id && ix.account_indexes.len() == 0 {
        if multisig.lamports + owed > u64::MAX {
            Err(MultisigError::Overflow)
        } else {
            match config_outcome(
                with_lamports(multisig, (multisig.lamports + owed) as u64),
                executor,
                ix.data,
                true,
                rent,
            ) {
                Err(e) => Err(e),
                Ok((ms, ex, transfer)) => if owed + transfer > u64::MAX {
                    Err(MultisigError::Overflow)
                } else {
                    let refund = ex.lamports - executor.lamports;
                    let total = owed + transfer;
                    let netted = if refund < total {
                        refund
                    } else {
                        total
                    };
                    Ok(
                        (
                            with_lamports(ms, (ms.lamports + netted - owed) as u64),
                            with_lamports(ex, (ex.lamports - netted) as u64),
                            (total - netted) as u64,
                            Seq::empty(),
                        ),
                    )
                },
            }
        }
    } else if ix.account_indexes.len() > MAX_CPI_ACCOUNTS {
        Err(MultisigError::TooManyAccounts)
    } else {
        Ok(
            (
                multisig,
                executor,
                owed,
                seq![
                    InvocationModel {
                        program_id: target,
                        accounts: ix.account_indexes.map_values(
                            |a: u8|
                                (
                                    passed[a as int].address,
                                    key_is_writable(m, a as int),
                                    a < m.num_signers,
                                ),
                        ),
                        data: ix.data,
                    },
                ],
            ),
        )
    }
}

/// What the instructions do in order, with what the executor still owes the
/// multisig after them; the first refused decides the error.
pub open spec fn run_instructions(
    ins: Seq<InstructionModel>,
    m: MessageModel,
    passed: Seq<AccountModel>,
    program_id: Seq<u8>,
    multisig: AccountModel,
    executor: AccountModel,
    rent: Rent,
) -> Result<(AccountModel, AccountModel, u64, Seq<InvocationModel>), MultisigError>
    decreases ins.len(),
{
    if ins.len() == 0 {
        Ok((multisig, executor, 0, Seq::empty()))
    } else {
        match run_instructions(ins.drop_last(), m, passed, program_id, multisig, executor, rent) {
            Err(e) => Err(e),
            Ok((ms, ex, owed, invs)) => match run_instruction(
                ins.last(),
                m,
                passed,
                program_id,
                ms,
                ex,
                owed,
                rent,
            ) {
                Err(e) => Err(e),
                Ok((ms2, ex2, owed2, more)) => Ok((ms2, ex2, owed2, invs + more)),
            },
        }
    }
}

/// The seed lists of the PDAs that sign a proposal's invocations: its vault,
/// then each of its ephemeral signers.
pub open spec fn signer_seeds(multisig: Seq<u8>, transaction: Seq<u8>, t: Transaction) -> Seq<
    Seq<Seq<u8>>,
> {
    seq![seq![vault_seed_bytes(), multisig, seq![t.vault_index], seq![t.vault_bump]]] + Seq::new(
        t.ephemeral_count as nat,
        |i: int| seq![ephemeral_seed_bytes(), transaction, seq![i as u8], seq![t.ephemeral_bumps[i]]],
    )
}

/// Whether each static key was passed as itself.
pub open spec fn static_keys_match(keys: Seq<Seq<u8>>, passed: Seq<AccountModel>) -> bool {
    forall|k: int| 0 <= k < keys.len() ==> (#[trigger] passed[k]).address == keys[k]
}

/// The accounts after a proposal executes, with what the runtime must invoke,
/// or why execution is refused.
pub open spec fn execute_outcome(
    program_id: Seq<u8>,
    accounts: Seq<AccountModel>,
    instruction: Seq<u8>,
    now: i64,
    rent: Rent,
) -> Result<(Seq<AccountModel>, ExecutePlanModel), MultisigError> {
    if accounts.len() < 3 {
        Err(MultisigError::NotEnoughAccounts)
    } else if instruction.len() != 0 {
        Err(MultisigError::InvalidInstructionData)
    } else if !accounts[0].is_signer {
        Err(MultisigError::MissingSignature)
    } else if accounts[1].owner != program_id || accounts[2].owner != program_id {
        Err(MultisigError::IllegalOwner)
    } else {
        match parse_multisig_account(accounts[1].data) {
            None => Err(MultisigError::InvalidAccountData),
            Some((h, o, p)) => match owner_index(o, accounts[0].address) {
                None => Err(MultisigError::NotAnOwner),
                Some(i) => if !mask_grants(p[i], Permission::EXECUTE) {
                    Err(MultisigError::Unauthorized)
                } else {
                    match parse_transaction_account(accounts[2].data) {
                        None => Err(MultisigError::InvalidAccountData),
                        Some((t, a, r, c, msg)) => if t.multisig@ != accounts[1].address {
                            Err(MultisigError::MultisigMismatch)
                        } else if status_of_byte(t.status) is Err {
                            Err(MultisigError::UnknownStatus)
                        } else if status_of_byte(t.status) != Ok::<
                            TransactionStatus,
                            MultisigError,
                        >(TransactionStatus::Approved) {
                            Err(MultisigError::InvalidStatus)
                        } else if now < t.approved_at + h.time_lock {
                            Err(MultisigError::TimeLockNotReleased)
                        } else {
                            match parse_message(msg) {
                                None => Err(MultisigError::InvalidMessage),
                                Some(m) => execute_message(program_id, accounts, rent, t, a, r, c, msg, m),
                            }
                        },
                    }
                },
            },
        }
    }
}

/// The part of [`execute_outcome`] that follows the parsed message `m`.
pub open spec fn execute_message(
    program_id: Seq<u8>,
    accounts: Seq<AccountModel>,
    rent: Rent,
    t: Transaction,
    a: Seq<u8>,
    r: Seq<u8>,
    c: Seq<u8>,
    msg: Seq<u8>,
    m: MessageModel,
) -> Result<(Seq<AccountModel>, ExecutePlanModel), MultisigError> {
    let passed = accounts.skip(3);
    let k = m.account_keys.len() as int;
    let l = lookup_key_total(m.lookups);
    if passed.len() < k + l + m.lookups.len() {
        Err(MultisigError::NotEnoughAccounts)
    } else if !static_keys_match(m.account_keys, passed) {
        // The owners approved these accounts in this order. Without this
        // check an executor could swap a destination and spend the approvals
        // on a different instruction than the one that was voted for.
        Err(MultisigError::AccountMismatch)
    } else {
        match tables_check(m.lookups, passed.skip(k + l)) {
            Err(e) => Err(e),
            Ok(_) => match resolve_check(lookup_refs(m.lookups), passed.skip(k + l), passed.skip(k)) {
                Err(e) => Err(e),
                Ok(_) => {
                    // Effects before interactions: a callee can invoke this
                    // program again, and a proposal still marked `Approved`
                    // would execute twice.
                    let t1 = Transaction { status: status_byte(TransactionStatus::Executed), ..t };
                    match transaction_violation(t1) {
                        Some(e) => Err(e),
                        None => {
                            let accounts1 = accounts.update(
                                2,
                                with_data(accounts[2], transaction_account_bytes(t1, a, r, c, msg)),
                            );
                            match run_instructions(
                                m.instructions,
                                m,
                                passed,
                                program_id,
                                accounts1[1],
                                accounts1[0],
                                rent,
                            ) {
                                Err(e) => Err(e),
                                Ok((ms, ex, owed, invs)) => Ok(
                                    (
                                        accounts1.update(0, ex).update(1, ms),
                                        ExecutePlanModel {
                                            invocations: invs + pending_transfer(
                                                accounts[0].address,
                                                accounts[1].address,
                                                owed,
                                            ),
                                            signers: signer_seeds(
                                                accounts[1].address,
                                                accounts[2].address,
                                                t,
                                            ),
                                        },
                                    ),
                                ),
                            }
                        },
                    }
                },
            },
        }
    }
}

/// Whether each static key was passed as itself.
fn check_static_keys(keys: &Vec<Address>, passed: &[AccountView]) -> (r: bool)
    requires
        passed@.len() >= keys@.len(),
    ensures
        r == static_keys_match(
            keys@.map_values(|a: Address| a@),
            passed@.map_values(|a: AccountView| a@),
        ),
{
    let ghost ks = keys@.map_values(|a: Address| a@);
    let ghost ps = passed@.map_values(|a: AccountView| a@);
    let mut k: usize = 0;
    while k < keys.len()
        invariant
            k <= keys@.len(),
            passed@.len() >= keys@.len(),
            ks == keys@.map_values(|a: Address| a@),
            ps == passed@.map_values(|a: AccountView| a@),
            forall|q: int| 0 <= q < k ==> (#[trigger] ps[q]).address == ks[q],
        decreases keys@.len() - k,
    {
        if !passed[k].address().is_eq(&keys[k]) {
            proof {
                assert(ps[k as int].address != ks[k as int]);
            }
            return false;
        }
        k = k + 1;
    }
    true
}

/// The system program's transfer of `lamports` from `from` to `to`.
fn transfer_invocation(from: &Address, to: &Address, lamports: u64) -> (r: Invocation)
    ensures
        r@ == system_transfer(from@, to@, lamports),
{
    let mut accounts: Vec<InstructionAccount> = Vec::new();
    accounts.push(InstructionAccount { address: *from, is_writable: true, is_signer: true });
    accounts.push(InstructionAccount { address: *to, is_writable: true, is_signer: false });
    let mut data: Vec<u8> = vec![2u8, 0u8, 0u8, 0u8];
    let amount = u64_to_le_bytes(lamports);
    crate::encoding::append_bytes(&mut data, amount.as_slice());
    let r = Invocation { program_id: Address::zero(), accounts, data };
    assert(r@.accounts =~= seq![(from@, true, true), (to@, true, false)]);
    assert(r@.data =~= seq![2u8, 0u8, 0u8, 0u8] + spec_u64_to_le_bytes(lamports));
    r
}

/// Runs one instruction of the message: a config action is applied to
/// `multisig` and `executor`, settling rent with `owed` counted in, anything
/// else is queued as an invocation.
fn run_one(
    ix: &CompiledInstruction,
    msg: &TransactionMessage,
    passed: &[AccountView],
    program_id: &Address,
    multisig: &mut AccountView,
    executor: &mut AccountView,
    owed: &mut u64,
    rent: &Rent,
    invocations: &mut Vec<Invocation>,
) -> (r: Result<(), MultisigError>)
    requires
        rent.lamports_per_byte <= MAX_LAMPORTS_PER_BYTE,
        (ix.program_id_index as int) < passed@.len(),
        forall|j: int|
            0 <= j < ix.account_indexes@.len() ==> (#[trigger] ix.account_indexes@[j] as int)
                < passed@.len(),
    ensures
        match run_instruction(
            ix@,
            msg@,
            passed@.map_values(|a: AccountView| a@),
            program_id@,
            old(multisig)@,
            old(executor)@,
            *old(owed),
            *rent,
        ) {
            Ok((ms, ex, still_owed, more)) => {
                &&& r is Ok
                &&& final(multisig)@ == ms
                &&& final(executor)@ == ex
                &&& *final(owed) == still_owed
                &&& final(invocations)@.map_values(|i: Invocation| i@) == old(invocations)@.map_values(
                    |i: Invocation| i@,
                ) + more
            },
            Err(e) => r == Err::<(), MultisigError>(e),
        },
{
    reveal(run_instruction);
    let ghost ps = passed@.map_values(|a: AccountView| a@);
    let ghost before = invocations@.map_values(|i: Invocation| i@);
    let target = passed[ix.program_id_index as usize].address;
    if target.is_eq(program_id) && ix.account_indexes.len() == 0 {
        let already = *owed;
        let effective = match multisig.lamports.checked_add(already) {
            Some(v) => v,
            None => {
                return Err(MultisigError::Overflow);
            },
        };
        let paid_before = executor.lamports;
        multisig.set_lamports(effective);
        let ghost ms_in = multisig@;
        let ghost ex_in = executor@;
        let transfer = apply_config_action(multisig, executor, ix.data.as_slice(), true, rent)?;
        proof {
            lemma_config_lamports(ms_in, ex_in, ix.data@, true, *rent);
        }
        let total = match already.checked_add(transfer) {
            Some(v) => v,
            None => {
                return Err(MultisigError::Overflow);
            },
        };
        let refund = executor.lamports - paid_before;
        let netted = if refund < total {
            refund
        } else {
            total
        };
        multisig.set_lamports(multisig.lamports - (already - netted));
        executor.set_lamports(executor.lamports - netted);
        *owed = total - netted;
        assert(invocations@.map_values(|i: Invocation| i@) =~= before + Seq::empty());
        return Ok(());
    }
    if ix.account_indexes.len() > MAX_CPI_ACCOUNTS {
        return Err(MultisigError::TooManyAccounts);
    }
    let ghost m = msg@;
    let ghost want = ix.account_indexes@.map_values(
        |a: u8| (ps[a as int].address, key_is_writable(m, a as int), a < m.num_signers),
    );
    let mut metas: Vec<InstructionAccount> = Vec::new();
    let mut k: usize = 0;
    while k < ix.account_indexes.len()
        invariant
            k <= ix.account_indexes@.len(),
            forall|j: int|
                0 <= j < ix.account_indexes@.len() ==> (#[trigger] ix.account_indexes@[j] as int)
                    < passed@.len(),
            ps == passed@.map_values(|a: AccountView| a@),
            m == msg@,
            want == ix.account_indexes@.map_values(
                |a: u8| (ps[a as int].address, key_is_writable(m, a as int), a < m.num_signers),
            ),
            metas@.len() == k,
            metas@.map_values(|a: InstructionAccount| (a.address@, a.is_writable, a.is_signer))
                == want.take(k as int),
        decreases ix.account_indexes@.len() - k,
    {
        let a = ix.account_indexes[k];
        let meta = InstructionAccount {
            address: passed[a as usize].address,
            is_writable: msg.is_writable(a as usize),
            is_signer: msg.is_signer(a as usize),
        };
        let ghost prev = metas@;
        metas.push(meta);
        proof {
            let view = metas@.map_values(
                |a: InstructionAccount| (a.address@, a.is_writable, a.is_signer),
            );
            let pview = prev.map_values(
                |a: InstructionAccount| (a.address@, a.is_writable, a.is_signer),
            );
            assert(metas@ == prev.push(meta));
            assert forall|j: int| 0 <= j < k + 1 implies view[j] == want.take(k + 1)[j] by {
                if j < k {
                    assert(metas@[j] == prev[j]);
                    assert(view[j] == pview[j]);
                    assert(pview[j] == want.take(k as int)[j]);
                } else {
                    assert(metas@[j] == meta);
                    assert(want[j] == (ps[a as int].address, key_is_writable(m, a as int), a
                        < m.num_signers));
                }
            }
            assert(view =~= want.take(k + 1));
        }
        k = k + 1;
    }
    assert(want.take(k as int) =~= want);
    let inv = Invocation { program_id: target, accounts: metas, data: slice_to_vec(ix.data.as_slice()) };
    invocations.push(inv);
    proof {
        assert(invocations@.map_values(|i: Invocation| i@) =~= before + seq![inv@]);
    }
    Ok(())
}

/// The seed lists of the PDAs that sign a proposal's invocations.
fn signers_for(multisig: &Address, transaction: &Address, t: &Transaction) -> (r: Vec<Vec<Vec<u8>>>)
    requires
        t.ephemeral_count <= 4,
    ensures
        r@.map_values(|s: Vec<Vec<u8>>| byte_strings(s@)) == signer_seeds(multisig@, transaction@, *t),
{
    let ghost want = signer_seeds(multisig@, transaction@, *t);
    let mut signers: Vec<Vec<Vec<u8>>> = Vec::new();
    let mut vault: Vec<Vec<u8>> = Vec::new();
    vault.push(vault_seed());
    vault.push(seed_of(multisig.as_array().as_slice()));
    vault.push(byte_seed(t.vault_index));
    vault.push(byte_seed(t.vault_bump));
    assert(byte_strings(vault@) =~= want[0]);
    signers.push(vault);
    let mut i: u8 = 0;
    while i < t.ephemeral_count
        invariant
            i <= t.ephemeral_count <= 4,
            want == signer_seeds(multisig@, transaction@, *t),
            signers@.len() == i + 1,
            signers@.map_values(|s: Vec<Vec<u8>>| byte_strings(s@)) == want.take(i + 1),
        decreases t.ephemeral_count - i,
    {
        let mut seeds: Vec<Vec<u8>> = Vec::new();
        seeds.push(ephemeral_seed());
        seeds.push(seed_of(transaction.as_array().as_slice()));
        seeds.push(byte_seed(i));
        seeds.push(byte_seed(t.ephemeral_bumps[i as usize]));
        assert(byte_strings(seeds@) =~= want[i + 1]);
        let ghost prev = signers@;
        signers.push(seeds);
        proof {
            let view = signers@.map_values(|s: Vec<Vec<u8>>| byte_strings(s@));
            let pview = prev.map_values(|s: Vec<Vec<u8>>| byte_strings(s@));
            assert(signers@ == prev.push(seeds));
            assert forall|j: int| 0 <= j < i + 2 implies view[j] == want.take(i + 2)[j] by {
                if j < i + 1 {
                    assert(signers@[j] == prev[j]);
                    assert(view[j] == pview[j]);
                    assert(pview[j] == want.take(i + 1)[j]);
                } else {
                    assert(signers@[j] == seeds);
                }
            }
            assert(view =~= want.take(i + 2));
        }
        i = i + 1;
    }
    assert(want.take(i + 1) =~= want);
    signers
}

/// Executes an approved proposal at time `now`: the proposal is marked
/// `Executed`, config actions are applied to the multisig, and the
/// invocations the runtime must make, signed by the proposal's PDAs, come
/// back. On an error no account changes.
#[verifier::rlimit(50)]
pub fn process_execute(
    program_id: &Address,
    accounts: &mut Vec<AccountView>,
    instruction: &[u8],
    now: i64,
    rent: &Rent,
) -> (r: Result<ExecutePlan, MultisigError>)
    requires
        rent.lamports_per_byte <= MAX_LAMPORTS_PER_BYTE,
    ensures
        match execute_outcome(program_id@, account_models(old(accounts)@), instruction@, now, *rent) {
            Ok((after, plan)) => r matches Ok(p) && p@ == plan && account_models(final(accounts)@)
                == after,
            Err(e) => r matches Err(e2) && e2 == e && account_models(final(accounts)@)
                == account_models(old(accounts)@),
        },
{
    if accounts.len() < 3 {
        return Err(MultisigError::NotEnoughAccounts);
    }
    if instruction.len() != 0 {
        return Err(MultisigError::InvalidInstructionData);
    }
    check_signer(&accounts[0], MultisigError::MissingSignature)?;
    check_owner(&accounts[1], program_id, MultisigError::IllegalOwner)?;
    check_owner(&accounts[2], program_id, MultisigError::IllegalOwner)?;
    let (ms, owners, permissions) = Multisig::load(accounts[1].data.as_slice())?;
    let position = match Multisig::is_owner(owners.as_slice(), accounts[0].address()) {
        Some(i) => i,
        None => {
            return Err(MultisigError::NotAnOwner);
        },
    };
    let mask = permissions[position];
    if mask != 0 && mask & Permission::EXECUTE == 0 {
        return Err(MultisigError::Unauthorized);
    }
    let (mut state, votes, message) = Transaction::load_mut(accounts[2].data.as_slice())?;
    validate_eq(&state.multisig, accounts[1].address(), MultisigError::MultisigMismatch)?;
    match state.status()? {
        TransactionStatus::Approved => {},
        _ => {
            return Err(MultisigError::InvalidStatus);
        },
    }
    if (now as i128) < (state.approved_at as i128) + (ms.time_lock as i128) {
        return Err(MultisigError::TimeLockNotReleased);
    }
    let msg = TransactionMessage::parse(message.as_slice())?;
    let ghost t0 = state;
    proof {
        assert(parse_transaction_account(accounts@[2]@.data) == Some(
            (state, votes.approved@, votes.rejected@, votes.cancelled@, message@),
        ));
    }
    execute_parsed(program_id, accounts, rent, state, votes, message, msg)
}

/// Executes a proposal whose guards have passed and whose message parsed:
/// the part of [`process_execute`] that [`execute_message`] describes.
fn execute_parsed(
    program_id: &Address,
    accounts: &mut Vec<AccountView>,
    rent: &Rent,
    state: Transaction,
    votes: crate::state::transaction::VotesMut,
    message: Vec<u8>,
    msg: TransactionMessage,
) -> (r: Result<ExecutePlan, MultisigError>)
    requires
        rent.lamports_per_byte <= MAX_LAMPORTS_PER_BYTE,
        old(accounts)@.len() >= 3,
        parse_message(message@) == Some(msg@),
        crate::state::message_format::message_valid(msg@),
    ensures
        match execute_message(
            program_id@,
            account_models(old(accounts)@),
            *rent,
            state,
            votes.approved@,
            votes.rejected@,
            votes.cancelled@,
            message@,
            msg@,
        ) {
            Ok((after, plan)) => r matches Ok(p) && p@ == plan && account_models(final(accounts)@)
                == after,
            Err(e) => r matches Err(e2) && e2 == e && account_models(final(accounts)@)
                == account_models(old(accounts)@),
        },
{
    let mut state = state;
    let n = accounts.len();
    let passed = slice_subrange(accounts.as_slice(), 3, n);
    let ghost olds = account_models(old(accounts)@);
    let ghost ps = passed@.map_values(|a: AccountView| a@);
    proof {
        assert(ps =~= olds.skip(3));
        lemma_refs_len(msg@.lookups);
        lemma_refs_tables(msg@.lookups);
    }
    let keys = msg.account_keys();
    let lookups = msg.lookups();
    let k = keys.len();
    let l = msg.num_all_keys() - k;
    let t = lookups.len();
    proof {
        assert(keys@.map_values(|a: Address| a@) =~= msg@.account_keys);
        assert(lookups@.map_values(|x: crate::state::message::MessageLookup| x@) =~= msg@.lookups);
    }
    let enough = match k.checked_add(l) {
        Some(kl) => match kl.checked_add(t) {
            Some(needed) => passed.len() >= needed,
            None => false,
        },
        None => false,
    };
    if !enough {
        return Err(MultisigError::NotEnoughAccounts);
    }
    if !check_static_keys(keys, passed) {
        return Err(MultisigError::AccountMismatch);
    }
    let tables = slice_subrange(passed, k + l, passed.len());
    let loaded = slice_subrange(passed, k, passed.len());
    proof {
        assert(tables@.map_values(|a: AccountView| a@) =~= ps.skip(k + l));
        assert(loaded@.map_values(|a: AccountView| a@) =~= ps.skip(k as int));
    }
    check_tables(lookups, tables)?;
    let refs = collect_refs(lookups);
    check_refs(&refs, tables, loaded)?;
    state.status = TransactionStatus::Executed.to_u8();
    state.check_invariant()?;
    let tx_bytes = state.to_account_bytes(&votes, message.as_slice());
    let mut multisig = accounts[1].duplicate();
    let mut executor = accounts[0].duplicate();
    let invocations = run_message(&msg, passed, program_id, &mut multisig, &mut executor, rent)?;
    let signers = signers_for(accounts[1].address(), accounts[2].address(), &state);
    accounts[2].set_data(tx_bytes);
    accounts.set(0, executor);
    accounts.set(1, multisig);
    Ok(ExecutePlan { invocations, signers })
}

/// Runs the message's instructions in order.
fn run_message(
    msg: &TransactionMessage,
    passed: &[AccountView],
    program_id: &Address,
    multisig: &mut AccountView,
    executor: &mut AccountView,
    rent: &Rent,
) -> (r: Result<Vec<Invocation>, MultisigError>)
    requires
        rent.lamports_per_byte <= MAX_LAMPORTS_PER_BYTE,
        passed@.len() >= crate::state::message_format::num_all_keys(msg@),
        crate::state::message_format::message_valid(msg@),
    ensures
        match run_instructions(
            msg@.instructions,
            msg@,
            passed@.map_values(|a: AccountView| a@),
            program_id@,
            old(multisig)@,
            old(executor)@,
            *rent,
        ) {
            Ok((ms, ex, owed, invs)) => r matches Ok(v) && v@.map_values(|x: Invocation| x@) == invs
                + pending_transfer(old(executor)@.address, old(multisig)@.address, owed)
                && final(multisig)@ == ms && final(executor)@ == ex,
            Err(e) => r matches Err(e2) && e2 == e,
        },
{
    let ghost ps = passed@.map_values(|a: AccountView| a@);
    let mut invocations: Vec<Invocation> = Vec::new();
    let ins = msg.instructions();
    let ghost m = msg@;
    let ghost ms0 = multisig@;
    let ghost ex0 = executor@;
    let from = executor.address;
    let to = multisig.address;
    let mut owed: u64 = 0;
    assert(m.instructions.take(0) =~= Seq::<InstructionModel>::empty());
    assert(invocations@.map_values(|x: Invocation| x@) =~= Seq::<InvocationModel>::empty());
    let mut i: usize = 0;
    while i < ins.len()
        invariant
            i <= ins@.len(),
            rent.lamports_per_byte <= MAX_LAMPORTS_PER_BYTE,
            instruction_models(ins@) == m.instructions,
            m == msg@,
            crate::state::message_format::message_valid(m),
            passed@.len() >= crate::state::message_format::num_all_keys(m),
            ps == passed@.map_values(|a: AccountView| a@),
            ms0 == old(multisig)@,
            ex0 == old(executor)@,
            from@ == ex0.address,
            to@ == ms0.address,
            run_instructions(m.instructions.take(i as int), m, ps, program_id@, ms0, ex0, *rent)
                == Ok::<(AccountModel, AccountModel, u64, Seq<InvocationModel>), MultisigError>(
                (multisig@, executor@, owed, invocations@.map_values(|x: Invocation| x@)),
            ),
        decreases ins@.len() - i,
    {
        proof {
            assert(m.instructions.take(i + 1).drop_last() =~= m.instructions.take(i as int));
            assert(m.instructions[i as int] == ins@[i as int]@);
            lemma_instruction_in_range(m, i as int, passed@.len() as int);
        }
        let ghost ms_before = multisig@;
        let ghost ex_before = executor@;
        let ghost owed_before = owed;
        let r = run_one(&ins[i], msg, passed, program_id, multisig, executor, &mut owed, rent, &mut invocations);
        if let Err(e) = r {
            proof {
                assert(run_instruction(m.instructions[i as int], m, ps, program_id@, ms_before, ex_before, owed_before, *rent) == Err::<(AccountModel, AccountModel, u64, Seq<InvocationModel>), MultisigError>(e));
                assert(m.instructions.take(i + 1).last() == m.instructions[i as int]);
                assert(run_instructions(m.instructions.take(i + 1), m, ps, program_id@, ms0, ex0, *rent) == Err::<(AccountModel, AccountModel, u64, Seq<InvocationModel>), MultisigError>(e));
                lemma_run_prefix(m.instructions, m, ps, program_id@, ms0, ex0, *rent, i as int + 1);
            }
            return Err(e);
        }
        i = i + 1;
    }
    assert(m.instructions.take(i as int) =~= m.instructions);
    let ghost done = invocations@.map_values(|x: Invocation| x@);
    if owed != 0 {
        invocations.push(transfer_invocation(&from, &to, owed));
        assert(invocations@.map_values(|x: Invocation| x@) =~= done + seq![
            system_transfer(from@, to@, owed),
        ]);
    } else {
        assert(invocations@.map_values(|x: Invocation| x@) =~= done + Seq::empty());
    }
    Ok(invocations)
}

/// Every index an instruction of a valid message holds names an account
/// that was passed.
proof fn lemma_instruction_in_range(m: MessageModel, i: int, passed: int)
    requires
        crate::state::message_format::message_valid(m),
        0 <= i < m.instructions.len(),
        passed >= crate::state::message_format::num_all_keys(m),
    ensures
        (m.instructions[i].program_id_index as int) < passed,
        forall|j: int|
            0 <= j < m.instructions[i].account_indexes.len() ==> (
            #[trigger] m.instructions[i].account_indexes[j] as int) < passed,
{
    assert(crate::state::message_format::indexes_in_range(
        m.instructions,
        crate::state::message_format::num_all_keys(m),
    ));
    let ix = m.instructions[i];
    assert forall|j: int| 0 <= j < ix.account_indexes.len() implies (
    #[trigger] ix.account_indexes[j] as int) < passed by {
        assert(ix.account_indexes[j] < crate::state::message_format::num_all_keys(m));
    }
}

/// A failure among the first instructions is the failure of the whole run.
proof fn lemma_run_prefix(
    ins: Seq<InstructionModel>,
    m: MessageModel,
    passed: Seq<AccountModel>,
    program_id: Seq<u8>,
    multisig: AccountModel,
    executor: AccountModel,
    rent: Rent,
    n: int,
)
    requires
        0 <= n <= ins.len(),
        run_instructions(ins.take(n), m, passed, program_id, multisig, executor, rent) is Err,
    ensures
        run_instructions(ins, m, passed, program_id, multisig, executor, rent) == run_instructions(
            ins.take(n),
            m,
            passed,
            program_id,
            multisig,
            executor,
            rent,
        ),
    decreases ins.len() - n,
{
    if n < ins.len() {
        assert(ins.take(n + 1).drop_last() =~= ins.take(n));
        lemma_run_prefix(ins, m, passed, program_id, multisig, executor, rent, n + 1);
    } else {
        assert(ins.take(n) =~= ins);
    }
}

} // verus!
