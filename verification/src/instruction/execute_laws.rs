//! What every execution keeps true.
//!
//! Only an approved proposal executes, only once the time lock has run, only
//! for an owner permitted to execute, and only against exactly the accounts
//! the owners approved: the static keys as named, and every account loaded
//! from a lookup table as the table holds it.

use vstd::prelude::*;

use crate::account::{with_lamports, AccountModel};
use crate::instruction::config_action::{config_outcome, lemma_config_lamports};
use crate::error::MultisigError;
use crate::instruction::execute::{
    execute_message, execute_outcome, run_instruction, static_keys_match, ExecutePlanModel,
};
use crate::instruction::lookup::{
    lemma_refs_len, lookup_refs, resolve_check, table_entry, table_len, tables_check,
};
use crate::rent::Rent;
use crate::state::message_format::{lookup_key_total, parse_message, InstructionModel, MessageModel};
use crate::state::multisig::{owner_index, parse_multisig_account};
use crate::state::permission::{mask_grants, Permission};
use crate::state::transaction::{
    lemma_parse_transaction_account, parse_transaction_account, status_byte, status_of_byte,
    transaction_account_bytes, Transaction, TransactionStatus,
};

verus! {

/// Every reference that passes the check names an index inside its table,
/// and the account passed for it is the table's entry there.
pub proof fn lemma_resolved_accounts(
    refs: Seq<(usize, u8)>,
    tables: Seq<AccountModel>,
    passed: Seq<AccountModel>,
)
    requires
        resolve_check(refs, tables, passed) is Ok,
        passed.len() >= refs.len(),
    ensures
        forall|p: int|
            0 <= p < refs.len() ==> {
                &&& (#[trigger] refs[p]).1 < table_len(tables[refs[p].0 as int].data)
                &&& passed[p].address == table_entry(tables[refs[p].0 as int].data, refs[p].1 as int)
            },
    decreases refs.len(),
{
    if refs.len() > 0 {
        lemma_resolved_accounts(refs.skip(1), tables, passed.skip(1));
        assert forall|p: int| 0 <= p < refs.len() implies {
            &&& (#[trigger] refs[p]).1 < table_len(tables[refs[p].0 as int].data)
            &&& passed[p].address == table_entry(tables[refs[p].0 as int].data, refs[p].1 as int)
        } by {
            if p > 0 {
                assert(refs.skip(1)[p - 1] == refs[p]);
                assert(passed.skip(1)[p - 1] == passed[p]);
            }
        }
    }
}

/// An execution that goes through was of an approved proposal of this
/// multisig, by an owner permitted to execute, after the time lock had run,
/// with every account as the owners approved it; and it leaves the proposal
/// `Executed`.
pub proof fn lemma_execute_guards(
    program_id: Seq<u8>,
    accounts: Seq<AccountModel>,
    instruction: Seq<u8>,
    now: i64,
    rent: Rent,
)
    requires
        execute_outcome(program_id, accounts, instruction, now, rent) is Ok,
    ensures
        accounts.len() >= 3,
        accounts[0].is_signer,
        parse_multisig_account(accounts[1].data) matches Some((h, o, p)) && (owner_index(
            o,
            accounts[0].address,
        ) matches Some(i) && mask_grants(p[i], Permission::EXECUTE)),
        parse_transaction_account(accounts[2].data) matches Some((t, a, r, c, msg)) && {
            &&& t.multisig@ == accounts[1].address
            &&& status_of_byte(t.status) == Ok::<TransactionStatus, MultisigError>(
                TransactionStatus::Approved,
            )
            &&& parse_multisig_account(accounts[1].data) matches Some((h, _, _)) && now
                >= t.approved_at + h.time_lock
            &&& parse_message(msg) matches Some(m) && {
                let passed = accounts.skip(3);
                let k = m.account_keys.len() as int;
                let l = lookup_key_total(m.lookups);
                let refs = lookup_refs(m.lookups);
                let tables = passed.skip(k + l);
                &&& static_keys_match(m.account_keys, passed)
                &&& forall|j: int|
                    0 <= j < m.lookups.len() ==> (#[trigger] tables[j]).address
                        == m.lookups[j].account_key
                &&& forall|q: int|
                    0 <= q < refs.len() ==> passed[k + q].address == table_entry(
                        tables[(#[trigger] refs[q]).0 as int].data,
                        refs[q].1 as int,
                    )
            }
            &&& execute_outcome(program_id, accounts, instruction, now, rent)->Ok_0.0[2].data
                == transaction_account_bytes(
                Transaction { status: status_byte(TransactionStatus::Executed), ..t },
                a,
                r,
                c,
                msg,
            )
        },
{
    let (h, o, p) = parse_multisig_account(accounts[1].data)->Some_0;
    let (t, a, r, c, msg) = parse_transaction_account(accounts[2].data)->Some_0;
    let m = parse_message(msg)->Some_0;
    let passed = accounts.skip(3);
    let k = m.account_keys.len() as int;
    let l = lookup_key_total(m.lookups);
    let refs = lookup_refs(m.lookups);
    let tables = passed.skip(k + l);
    lemma_tables_named(m.lookups, tables);
    lemma_refs_len(m.lookups);
    lemma_resolved_accounts(refs, tables, passed.skip(k));
    assert forall|q: int| 0 <= q < refs.len() implies passed[k + q].address == table_entry(
        tables[(#[trigger] refs[q]).0 as int].data,
        refs[q].1 as int,
    ) by {
        assert(passed.skip(k)[q] == passed[k + q]);
    }
}

/// A table list that passes the check has each table at the address the
/// message names.
proof fn lemma_tables_named(lookups: Seq<crate::state::message_format::LookupModel>, tables: Seq<AccountModel>)
    requires
        tables_check(lookups, tables) is Ok,
    ensures
        forall|j: int| 0 <= j < lookups.len() ==> (#[trigger] tables[j]).address == lookups[j].account_key,
    decreases lookups.len(),
{
    if lookups.len() > 0 {
        lemma_tables_named(lookups.drop_last(), tables);
        assert forall|j: int| 0 <= j < lookups.len() implies (#[trigger] tables[j]).address
            == lookups[j].account_key by {
            if j < lookups.len() - 1 {
                assert(lookups.drop_last()[j] == lookups[j]);
            }
        }
    }
}

/// A proposal executes only once: once an execution has gone through, the
/// same proposal cannot be executed again, at any time.
pub proof fn lemma_execute_once(
    program_id: Seq<u8>,
    accounts: Seq<AccountModel>,
    instruction: Seq<u8>,
    now: i64,
    later: i64,
    rent: Rent,
)
    requires
        execute_outcome(program_id, accounts, instruction, now, rent) is Ok,
    ensures
        execute_outcome(
            program_id,
            execute_outcome(program_id, accounts, instruction, now, rent)->Ok_0.0,
            instruction,
            later,
            rent,
        ) is Err,
{
    lemma_execute_guards(program_id, accounts, instruction, now, rent);
    let after = execute_outcome(program_id, accounts, instruction, now, rent)->Ok_0.0;
    let (t, a, r, c, msg) = parse_transaction_account(accounts[2].data)->Some_0;
    let t1 = Transaction { status: status_byte(TransactionStatus::Executed), ..t };
    assert(after.len() >= 3);
    crate::state::transaction::lemma_parsed_transaction_sizes(accounts[2].data);
    lemma_parse_transaction_account(t1, a, r, c, msg);
}

/// Config actions in one proposal settle rent as if each transfer the
/// executor owes had been made at once: after a config action, the
/// multisig's balance plus what is still owed, and the executor's balance
/// less what it still owes, are the balances that action settled to, counted
/// from the balances the earlier actions left with their transfers made.
pub proof fn lemma_config_settles_against_owed(
    ix: InstructionModel,
    m: MessageModel,
    passed: Seq<AccountModel>,
    program_id: Seq<u8>,
    multisig: AccountModel,
    executor: AccountModel,
    owed: u64,
    rent: Rent,
)
    requires
        passed[ix.program_id_index as int].address == program_id,
        ix.account_indexes.len() == 0,
        run_instruction(ix, m, passed, program_id, multisig, executor, owed, rent) is Ok,
    ensures
        ({
            let (ms2, ex2, owed2, more) = run_instruction(
                ix,
                m,
                passed,
                program_id,
                multisig,
                executor,
                owed,
                rent,
            )->Ok_0;
            let (ms1, ex1, transfer) = config_outcome(
                with_lamports(multisig, (multisig.lamports + owed) as u64),
                executor,
                ix.data,
                true,
                rent,
            )->Ok_0;
            &&& multisig.lamports + owed <= u64::MAX
            &&& ms2.lamports + owed2 == ms1.lamports + transfer
            &&& ex2.lamports - owed2 == ex1.lamports - owed - transfer
            &&& ms2.data == ms1.data
            &&& ex2.data == ex1.data
            &&& more.len() == 0
        }),
{
    reveal(run_instruction);
    lemma_config_lamports(
        with_lamports(multisig, (multisig.lamports + owed) as u64),
        executor,
        ix.data,
        true,
        rent,
    );
}

} // verus!
