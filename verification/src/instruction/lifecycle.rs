//! A proposal's lifecycle across every instruction.
//!
//! Whatever instruction goes through, an account that held a proposal either
//! still holds one whose status made a permitted move, or was closed:
//! `Active` may become `Approved`, `Rejected` or `Cancelled`, `Approved` may
//! become `Executed` or `Cancelled`, and the last three are terminal.

use vstd::prelude::*;

use crate::account::AccountModel;
use crate::instruction::approve::approve_outcome;
use crate::instruction::buffer::{
    buffer_close_outcome, buffer_create_outcome, buffer_extend_outcome,
};
use crate::instruction::cancel::cancel_outcome;
use crate::instruction::close_transaction::close_transaction_outcome;
use crate::instruction::config_action::config_outcome;
use crate::instruction::create_from_buffer::{buffer_digest, create_from_buffer_outcome};
use crate::instruction::create_transaction::create_transaction_outcome;
use crate::account::{with_data, with_lamports};
use crate::instruction::execute::{execute_message, execute_outcome, run_instruction, run_instructions};
use crate::instruction::init_multisig::init_multisig_outcome;
use crate::instruction::reject::reject_outcome;
use crate::instruction::set_config::set_config_outcome;
use crate::instruction::approve::approve_transition;
use crate::instruction::cancel::cancel_transition;
use crate::instruction::reject::reject_transition;
use crate::instruction::vote::prepare_result;
use crate::instruction::vote_laws::{legal_transition, lemma_approve_latches, lemma_reject_latches};
use crate::rent::Rent;
use crate::state::buffer::parse_buffer_account;
use crate::state::message_format::{parse_message, InstructionModel, MessageModel};
use crate::state::multisig::parse_multisig_account;
use crate::state::transaction::{
    lemma_parse_transaction_account, lemma_parsed_transaction_sizes, parse_transaction_account,
    status_byte, status_of_byte, transaction_account_bytes, Transaction, TransactionStatus,
};

verus! {

/// The accounts after an account creation goes through.
#[verifier::opaque]
pub open spec fn after_init_multisig(
    program_id: Seq<u8>,
    before: Seq<AccountModel>,
    rest: Seq<u8>,
    now: i64,
    rent: Rent,
) -> Option<Seq<AccountModel>> {
    match init_multisig_outcome(program_id, before, rest, rent) {
        Ok(_) => Some(before),
        Err(_) => None,
    }
}

/// The accounts after a proposal reservation goes through.
#[verifier::opaque]
pub open spec fn after_create_transaction(
    program_id: Seq<u8>,
    before: Seq<AccountModel>,
    rest: Seq<u8>,
    now: i64,
    rent: Rent,
) -> Option<Seq<AccountModel>> {
    match create_transaction_outcome(program_id, before, rest, rent) {
        Ok((after, _, _)) => Some(after),
        Err(_) => None,
    }
}

/// The accounts after an approval goes through.
#[verifier::opaque]
pub open spec fn after_approve(
    program_id: Seq<u8>,
    before: Seq<AccountModel>,
    rest: Seq<u8>,
    now: i64,
    rent: Rent,
) -> Option<Seq<AccountModel>> {
    match approve_outcome(program_id, before, rest, now) {
        Ok(after) => Some(after),
        Err(_) => None,
    }
}

/// The accounts after a rejection goes through.
#[verifier::opaque]
pub open spec fn after_reject(
    program_id: Seq<u8>,
    before: Seq<AccountModel>,
    rest: Seq<u8>,
    now: i64,
    rent: Rent,
) -> Option<Seq<AccountModel>> {
    match reject_outcome(program_id, before, rest) {
        Ok(after) => Some(after),
        Err(_) => None,
    }
}

/// The accounts after an execution goes through.
#[verifier::opaque]
pub open spec fn after_execute(
    program_id: Seq<u8>,
    before: Seq<AccountModel>,
    rest: Seq<u8>,
    now: i64,
    rent: Rent,
) -> Option<Seq<AccountModel>> {
    match execute_outcome(program_id, before, rest, now, rent) {
        Ok((after, _)) => Some(after),
        Err(_) => None,
    }
}

/// The accounts after a cancellation goes through.
#[verifier::opaque]
pub open spec fn after_cancel(
    program_id: Seq<u8>,
    before: Seq<AccountModel>,
    rest: Seq<u8>,
    now: i64,
    rent: Rent,
) -> Option<Seq<AccountModel>> {
    match cancel_outcome(program_id, before, rest) {
        Ok(after) => Some(after),
        Err(_) => None,
    }
}

/// The accounts after a proposal close goes through.
#[verifier::opaque]
pub open spec fn after_close_transaction(
    program_id: Seq<u8>,
    before: Seq<AccountModel>,
    rest: Seq<u8>,
    now: i64,
    rent: Rent,
) -> Option<Seq<AccountModel>> {
    match close_transaction_outcome(program_id, before, rest) {
        Ok(after) => Some(after),
        Err(_) => None,
    }
}

/// The accounts after a buffer creation goes through.
#[verifier::opaque]
pub open spec fn after_buffer_create(
    program_id: Seq<u8>,
    before: Seq<AccountModel>,
    rest: Seq<u8>,
    now: i64,
    rent: Rent,
) -> Option<Seq<AccountModel>> {
    match buffer_create_outcome(program_id, before, rest, rent) {
        Ok(_) => Some(before),
        Err(_) => None,
    }
}

/// The accounts after a buffer upload goes through.
#[verifier::opaque]
pub open spec fn after_buffer_extend(
    program_id: Seq<u8>,
    before: Seq<AccountModel>,
    rest: Seq<u8>,
    now: i64,
    rent: Rent,
) -> Option<Seq<AccountModel>> {
    match buffer_extend_outcome(program_id, before, rest) {
        Ok(after) => Some(after),
        Err(_) => None,
    }
}

/// The accounts after a buffer close goes through.
#[verifier::opaque]
pub open spec fn after_buffer_close(
    program_id: Seq<u8>,
    before: Seq<AccountModel>,
    rest: Seq<u8>,
    now: i64,
    rent: Rent,
) -> Option<Seq<AccountModel>> {
    match buffer_close_outcome(program_id, before, rest) {
        Ok(after) => Some(after),
        Err(_) => None,
    }
}

/// The accounts after a config authority change goes through.
#[verifier::opaque]
pub open spec fn after_set_config(
    program_id: Seq<u8>,
    before: Seq<AccountModel>,
    rest: Seq<u8>,
    now: i64,
    rent: Rent,
) -> Option<Seq<AccountModel>> {
    match set_config_outcome(program_id, before, rest, rent) {
        Ok((after, _)) => Some(after),
        Err(_) => None,
    }
}

/// The accounts after a buffer becomes a proposal.
#[verifier::opaque]
pub open spec fn after_create_from_buffer(
    program_id: Seq<u8>,
    before: Seq<AccountModel>,
    rest: Seq<u8>,
    now: i64,
    rent: Rent,
) -> Option<Seq<AccountModel>> {
    if before.len() < 5 {
        None
    } else {
        match create_from_buffer_outcome(program_id, before, rest, rent, buffer_digest(before)) {
            Ok((after, _, _)) => Some(after),
            Err(_) => None,
        }
    }
}

/// The accounts after an instruction goes through, as the instruction
/// router's contract gives them, or `None` where it is refused.
pub open spec fn accounts_after(
    program_id: Seq<u8>,
    before: Seq<AccountModel>,
    data: Seq<u8>,
    now: i64,
    rent: Rent,
) -> Option<Seq<AccountModel>> {
    if data.len() == 0 {
        None
    } else {
        let tag = data[0];
        let rest = data.subrange(1, data.len() as int);
        if tag == 0 {
            after_init_multisig(program_id, before, rest, now, rent)
        } else if tag == 1 {
            after_create_transaction(program_id, before, rest, now, rent)
        } else if tag == 2 {
            after_approve(program_id, before, rest, now, rent)
        } else if tag == 3 {
            after_reject(program_id, before, rest, now, rent)
        } else if tag == 4 {
            after_execute(program_id, before, rest, now, rent)
        } else if tag == 5 {
            after_cancel(program_id, before, rest, now, rent)
        } else if tag == 6 {
            after_close_transaction(program_id, before, rest, now, rent)
        } else if tag == 7 {
            after_buffer_create(program_id, before, rest, now, rent)
        } else if tag == 8 {
            after_buffer_extend(program_id, before, rest, now, rent)
        } else if tag == 9 {
            after_buffer_close(program_id, before, rest, now, rent)
        } else if tag == 10 {
            after_create_from_buffer(program_id, before, rest, now, rent)
        } else if tag == 11 {
            after_set_config(program_id, before, rest, now, rent)
        } else {
            None
        }
    }
}

/// The status of the proposal an account of this program holds, where its
/// data is a proposal with a known status.
pub open spec fn proposal_status(program_id: Seq<u8>, a: AccountModel) -> Option<TransactionStatus> {
    if a.owner != program_id {
        None
    } else {
        match parse_transaction_account(a.data) {
            Some((t, _, _, _, _)) => match status_of_byte(t.status) {
                Ok(s) => Some(s),
                Err(_) => None,
            },
            None => None,
        }
    }
}

/// An account that held a proposal before still holds one whose status made
/// a permitted move, or has been emptied by a close.
pub open spec fn status_moved_legally(
    program_id: Seq<u8>,
    before: AccountModel,
    after: AccountModel,
) -> bool {
    match proposal_status(program_id, before) {
        None => true,
        Some(s) => match proposal_status(program_id, after) {
            Some(s2) => legal_transition(s, s2),
            None => after.data.len() == 0,
        },
    }
}

/// A config action changes the payer's balance at most: its data and owner
/// stay as they were.
proof fn lemma_config_keeps_payer(
    multisig: AccountModel,
    payer: AccountModel,
    data: Seq<u8>,
    via_proposal: bool,
    rent: Rent,
)
    requires
        config_outcome(multisig, payer, data, via_proposal, rent) is Ok,
    ensures
        ({
            let p = config_outcome(multisig, payer, data, via_proposal, rent)->Ok_0.1;
            p.data == payer.data && p.owner == payer.owner
        }),
{
}

/// Running a message's instructions changes the executor's balance at most.
proof fn lemma_run_keeps_executor(
    ins: Seq<InstructionModel>,
    m: MessageModel,
    passed: Seq<AccountModel>,
    program_id: Seq<u8>,
    multisig: AccountModel,
    executor: AccountModel,
    rent: Rent,
)
    requires
        run_instructions(ins, m, passed, program_id, multisig, executor, rent) is Ok,
    ensures
        ({
            let ex = run_instructions(ins, m, passed, program_id, multisig, executor, rent)->Ok_0.1;
            ex.data == executor.data && ex.owner == executor.owner
        }),
    decreases ins.len(),
{
    if ins.len() > 0 {
        lemma_run_keeps_executor(ins.drop_last(), m, passed, program_id, multisig, executor, rent);
        let (ms, ex, owed, _) = run_instructions(
            ins.drop_last(),
            m,
            passed,
            program_id,
            multisig,
            executor,
            rent,
        )->Ok_0;
        reveal(run_instruction);
        let ix = ins.last();
        let target = passed[ix.program_id_index as int].address;
        if target == program_id && ix.account_indexes.len() == 0 && ms.lamports + owed <= u64::MAX {
            lemma_config_keeps_payer(
                with_lamports(ms, (ms.lamports + owed) as u64),
                ex,
                ix.data,
                true,
                rent,
            );
        }
    }
}

/// An account whose data and owner are unchanged keeps its proposal status.
proof fn lemma_unchanged_status(program_id: Seq<u8>, before: AccountModel, after: AccountModel)
    requires
        after.data == before.data,
        after.owner == before.owner,
    ensures
        status_moved_legally(program_id, before, after),
{
}

/// Writing back a proposal whose header moved along its lifecycle, keeping
/// its counts of owners and message bytes, leaves an account whose status
/// moved legally.
proof fn lemma_rewritten_proposal(
    program_id: Seq<u8>,
    before: AccountModel,
    after: AccountModel,
    t1: Transaction,
    a1: Seq<u8>,
    r1: Seq<u8>,
    c1: Seq<u8>,
)
    requires
        parse_transaction_account(before.data) is Some,
        after.owner == before.owner,
        ({
            let (t, a, r, c, m) = parse_transaction_account(before.data)->Some_0;
            &&& t1.owners_count == t.owners_count
            &&& t1.message_len == t.message_len
            &&& a1.len() == a.len()
            &&& r1.len() == r.len()
            &&& c1.len() == c.len()
            &&& after.data == transaction_account_bytes(t1, a1, r1, c1, m)
            &&& status_of_byte(t.status) is Ok
            &&& status_of_byte(t1.status) is Ok
            &&& legal_transition(status_of_byte(t.status)->Ok_0, status_of_byte(t1.status)->Ok_0)
        }),
    ensures
        status_moved_legally(program_id, before, after),
{
    let (t, a, r, c, m) = parse_transaction_account(before.data)->Some_0;
    lemma_parsed_transaction_sizes(before.data);
    lemma_parse_transaction_account(t1, a1, r1, c1, m);
}

/// A proposal is only ever moved along its lifecycle: whatever instruction
/// goes through, an account that held a proposal of this program with a
/// known status either holds one afterwards whose status is the same or made
/// a permitted move (`Active` to `Approved`, `Rejected` or `Cancelled`;
/// `Approved` to `Executed` or `Cancelled`), or was closed. `Rejected`,
/// `Executed` and `Cancelled` are therefore terminal.
///
/// The one input left out is an account whose bytes read both as a proposal
/// and as a multisig or upload buffer: an instruction that rewrites it in its
/// other role may change whatever its bytes mean as a proposal.
pub proof fn lemma_status_lifecycle(
    program_id: Seq<u8>,
    before: Seq<AccountModel>,
    data: Seq<u8>,
    now: i64,
    rent: Rent,
    i: int,
)
    requires
        accounts_after(program_id, before, data, now, rent) is Some,
        0 <= i < before.len(),
        proposal_status(program_id, before[i]) is Some ==> parse_multisig_account(before[i].data)
            is None && parse_buffer_account(before[i].data) is None,
    ensures
        accounts_after(program_id, before, data, now, rent)->Some_0.len() == before.len(),
        status_moved_legally(
            program_id,
            before[i],
            accounts_after(program_id, before, data, now, rent)->Some_0[i],
        ),
{
    let tag = data[0];
    let rest = data.subrange(1, data.len() as int);
    if tag == 0 {
        lemma_init_multisig_lifecycle(program_id, before, rest, now, rent, i);
    } else if tag == 1 {
        lemma_create_transaction_lifecycle(program_id, before, rest, now, rent, i);
    } else if tag == 2 {
        lemma_approve_lifecycle(program_id, before, rest, now, rent, i);
    } else if tag == 3 {
        lemma_reject_lifecycle(program_id, before, rest, now, rent, i);
    } else if tag == 4 {
        lemma_execute_lifecycle(program_id, before, rest, now, rent, i);
    } else if tag == 5 {
        lemma_cancel_lifecycle(program_id, before, rest, now, rent, i);
    } else if tag == 6 {
        lemma_close_transaction_lifecycle(program_id, before, rest, now, rent, i);
    } else if tag == 7 {
        lemma_buffer_create_lifecycle(program_id, before, rest, now, rent, i);
    } else if tag == 8 {
        lemma_buffer_extend_lifecycle(program_id, before, rest, now, rent, i);
    } else if tag == 9 {
        lemma_buffer_close_lifecycle(program_id, before, rest, now, rent, i);
    } else if tag == 10 {
        lemma_create_from_buffer_lifecycle(program_id, before, rest, now, rent, i);
    } else if tag == 11 {
        lemma_set_config_lifecycle(program_id, before, rest, now, rent, i);
    }
}

/// [`lemma_status_lifecycle`] for `init_multisig`.
proof fn lemma_init_multisig_lifecycle(
    program_id: Seq<u8>,
    before: Seq<AccountModel>,
    rest: Seq<u8>,
    now: i64,
    rent: Rent,
    i: int,
)
    requires
        after_init_multisig(program_id, before, rest, now, rent) is Some,
        0 <= i < before.len(),
        proposal_status(program_id, before[i]) is Some ==> parse_multisig_account(before[i].data)
            is None && parse_buffer_account(before[i].data) is None,
    ensures
        after_init_multisig(program_id, before, rest, now, rent)->Some_0.len() == before.len(),
        status_moved_legally(program_id, before[i], after_init_multisig(program_id, before, rest, now, rent)->Some_0[i]),
{
    reveal(after_init_multisig);
    let after = after_init_multisig(program_id, before, rest, now, rent)->Some_0;
    lemma_unchanged_status(program_id, before[i], after[i]);
}

/// [`lemma_status_lifecycle`] for `create_transaction`.
proof fn lemma_create_transaction_lifecycle(
    program_id: Seq<u8>,
    before: Seq<AccountModel>,
    rest: Seq<u8>,
    now: i64,
    rent: Rent,
    i: int,
)
    requires
        after_create_transaction(program_id, before, rest, now, rent) is Some,
        0 <= i < before.len(),
        proposal_status(program_id, before[i]) is Some ==> parse_multisig_account(before[i].data)
            is None && parse_buffer_account(before[i].data) is None,
    ensures
        after_create_transaction(program_id, before, rest, now, rent)->Some_0.len() == before.len(),
        status_moved_legally(program_id, before[i], after_create_transaction(program_id, before, rest, now, rent)->Some_0[i]),
{
    reveal(after_create_transaction);
    let after = after_create_transaction(program_id, before, rest, now, rent)->Some_0;
    if i != 1 {
        lemma_unchanged_status(program_id, before[i], after[i]);
    }
}

/// [`lemma_status_lifecycle`] for `approve`.
proof fn lemma_approve_lifecycle(
    program_id: Seq<u8>,
    before: Seq<AccountModel>,
    rest: Seq<u8>,
    now: i64,
    rent: Rent,
    i: int,
)
    requires
        after_approve(program_id, before, rest, now, rent) is Some,
        0 <= i < before.len(),
        proposal_status(program_id, before[i]) is Some ==> parse_multisig_account(before[i].data)
            is None && parse_buffer_account(before[i].data) is None,
    ensures
        after_approve(program_id, before, rest, now, rent)->Some_0.len() == before.len(),
        status_moved_legally(program_id, before[i], after_approve(program_id, before, rest, now, rent)->Some_0[i]),
{
    reveal(after_approve);
    let after = after_approve(program_id, before, rest, now, rent)->Some_0;
    if i == 2 {
        let (t, a, rj, c, m) = parse_transaction_account(before[2].data)->Some_0;
        let voter = prepare_result(program_id, before[0], before[1], before[2], rest, true)->Ok_0;
        let (t1, a1) = approve_transition(t, a, rj, c, voter, now)->Ok_0;
        lemma_approve_latches(t, a, rj, c, voter, now);
        lemma_rewritten_proposal(program_id, before[2], after[2], t1, a1, rj, c);
    } else {
        lemma_unchanged_status(program_id, before[i], after[i]);
    }
}

/// [`lemma_status_lifecycle`] for `reject`.
proof fn lemma_reject_lifecycle(
    program_id: Seq<u8>,
    before: Seq<AccountModel>,
    rest: Seq<u8>,
    now: i64,
    rent: Rent,
    i: int,
)
    requires
        after_reject(program_id, before, rest, now, rent) is Some,
        0 <= i < before.len(),
        proposal_status(program_id, before[i]) is Some ==> parse_multisig_account(before[i].data)
            is None && parse_buffer_account(before[i].data) is None,
    ensures
        after_reject(program_id, before, rest, now, rent)->Some_0.len() == before.len(),
        status_moved_legally(program_id, before[i], after_reject(program_id, before, rest, now, rent)->Some_0[i]),
{
    reveal(after_reject);
    let after = after_reject(program_id, before, rest, now, rent)->Some_0;
    if i == 2 {
        let (t, a, rj, c, m) = parse_transaction_account(before[2].data)->Some_0;
        let voter = prepare_result(program_id, before[0], before[1], before[2], rest, true)->Ok_0;
        let (t1, rj1) = reject_transition(t, a, rj, c, voter)->Ok_0;
        lemma_reject_latches(t, a, rj, c, voter);
        lemma_rewritten_proposal(program_id, before[2], after[2], t1, a, rj1, c);
    } else {
        lemma_unchanged_status(program_id, before[i], after[i]);
    }
}

/// [`lemma_status_lifecycle`] for `execute`.
proof fn lemma_execute_lifecycle(
    program_id: Seq<u8>,
    before: Seq<AccountModel>,
    rest: Seq<u8>,
    now: i64,
    rent: Rent,
    i: int,
)
    requires
        after_execute(program_id, before, rest, now, rent) is Some,
        0 <= i < before.len(),
        proposal_status(program_id, before[i]) is Some ==> parse_multisig_account(before[i].data)
            is None && parse_buffer_account(before[i].data) is None,
    ensures
        after_execute(program_id, before, rest, now, rent)->Some_0.len() == before.len(),
        status_moved_legally(program_id, before[i], after_execute(program_id, before, rest, now, rent)->Some_0[i]),
{
    reveal(after_execute);
    let after = after_execute(program_id, before, rest, now, rent)->Some_0;
    let (t, a, r, c, msg) = parse_transaction_account(before[2].data)->Some_0;
    let m = parse_message(msg)->Some_0;
    let t1 = Transaction { status: status_byte(TransactionStatus::Executed), ..t };
    let accounts1 = before.update(2, with_data(before[2], transaction_account_bytes(t1, a, r, c, msg)));
    assert(execute_message(program_id, before, rent, t, a, r, c, msg, m) is Ok);
    assert(run_instructions(m.instructions, m, before.skip(3), program_id, accounts1[1], accounts1[0], rent) is Ok);
    if i == 2 {
        assert(after[2] == accounts1[2]);
        lemma_rewritten_proposal(program_id, before[2], after[2], t1, a, r, c);
    } else if i == 0 {
        lemma_run_keeps_executor(m.instructions, m, before.skip(3), program_id, accounts1[1], accounts1[0], rent);
        lemma_unchanged_status(program_id, before[i], after[i]);
    } else if i != 1 {
        lemma_unchanged_status(program_id, before[i], after[i]);
    }
}

/// [`lemma_status_lifecycle`] for `cancel`.
proof fn lemma_cancel_lifecycle(
    program_id: Seq<u8>,
    before: Seq<AccountModel>,
    rest: Seq<u8>,
    now: i64,
    rent: Rent,
    i: int,
)
    requires
        after_cancel(program_id, before, rest, now, rent) is Some,
        0 <= i < before.len(),
        proposal_status(program_id, before[i]) is Some ==> parse_multisig_account(before[i].data)
            is None && parse_buffer_account(before[i].data) is None,
    ensures
        after_cancel(program_id, before, rest, now, rent)->Some_0.len() == before.len(),
        status_moved_legally(program_id, before[i], after_cancel(program_id, before, rest, now, rent)->Some_0[i]),
{
    reveal(after_cancel);
    let after = after_cancel(program_id, before, rest, now, rent)->Some_0;
    if i == 2 {
        let (t, a, rj, c, m) = parse_transaction_account(before[2].data)->Some_0;
        let voter = prepare_result(program_id, before[0], before[1], before[2], rest, false)->Ok_0;
        let (t1, c1) = cancel_transition(t, c, voter, before[1].address, before[0].address)->Ok_0;
        lemma_rewritten_proposal(program_id, before[2], after[2], t1, a, rj, c1);
    } else {
        lemma_unchanged_status(program_id, before[i], after[i]);
    }
}

/// [`lemma_status_lifecycle`] for `close_transaction`.
proof fn lemma_close_transaction_lifecycle(
    program_id: Seq<u8>,
    before: Seq<AccountModel>,
    rest: Seq<u8>,
    now: i64,
    rent: Rent,
    i: int,
)
    requires
        after_close_transaction(program_id, before, rest, now, rent) is Some,
        0 <= i < before.len(),
        proposal_status(program_id, before[i]) is Some ==> parse_multisig_account(before[i].data)
            is None && parse_buffer_account(before[i].data) is None,
    ensures
        after_close_transaction(program_id, before, rest, now, rent)->Some_0.len() == before.len(),
        status_moved_legally(program_id, before[i], after_close_transaction(program_id, before, rest, now, rent)->Some_0[i]),
{
    reveal(after_close_transaction);
    let after = after_close_transaction(program_id, before, rest, now, rent)->Some_0;
    if i == 0 {
        assert(after[0].data.len() == 0);
    } else if i != 1 {
        lemma_unchanged_status(program_id, before[i], after[i]);
    }
}

/// [`lemma_status_lifecycle`] for `buffer_create`.
proof fn lemma_buffer_create_lifecycle(
    program_id: Seq<u8>,
    before: Seq<AccountModel>,
    rest: Seq<u8>,
    now: i64,
    rent: Rent,
    i: int,
)
    requires
        after_buffer_create(program_id, before, rest, now, rent) is Some,
        0 <= i < before.len(),
        proposal_status(program_id, before[i]) is Some ==> parse_multisig_account(before[i].data)
            is None && parse_buffer_account(before[i].data) is None,
    ensures
        after_buffer_create(program_id, before, rest, now, rent)->Some_0.len() == before.len(),
        status_moved_legally(program_id, before[i], after_buffer_create(program_id, before, rest, now, rent)->Some_0[i]),
{
    reveal(after_buffer_create);
    let after = after_buffer_create(program_id, before, rest, now, rent)->Some_0;
    lemma_unchanged_status(program_id, before[i], after[i]);
}

/// [`lemma_status_lifecycle`] for `buffer_extend`.
proof fn lemma_buffer_extend_lifecycle(
    program_id: Seq<u8>,
    before: Seq<AccountModel>,
    rest: Seq<u8>,
    now: i64,
    rent: Rent,
    i: int,
)
    requires
        after_buffer_extend(program_id, before, rest, now, rent) is Some,
        0 <= i < before.len(),
        proposal_status(program_id, before[i]) is Some ==> parse_multisig_account(before[i].data)
            is None && parse_buffer_account(before[i].data) is None,
    ensures
        after_buffer_extend(program_id, before, rest, now, rent)->Some_0.len() == before.len(),
        status_moved_legally(program_id, before[i], after_buffer_extend(program_id, before, rest, now, rent)->Some_0[i]),
{
    reveal(after_buffer_extend);
    let after = after_buffer_extend(program_id, before, rest, now, rent)->Some_0;
    if i != 1 {
        lemma_unchanged_status(program_id, before[i], after[i]);
    }
}

/// [`lemma_status_lifecycle`] for `buffer_close`.
proof fn lemma_buffer_close_lifecycle(
    program_id: Seq<u8>,
    before: Seq<AccountModel>,
    rest: Seq<u8>,
    now: i64,
    rent: Rent,
    i: int,
)
    requires
        after_buffer_close(program_id, before, rest, now, rent) is Some,
        0 <= i < before.len(),
        proposal_status(program_id, before[i]) is Some ==> parse_multisig_account(before[i].data)
            is None && parse_buffer_account(before[i].data) is None,
    ensures
        after_buffer_close(program_id, before, rest, now, rent)->Some_0.len() == before.len(),
        status_moved_legally(program_id, before[i], after_buffer_close(program_id, before, rest, now, rent)->Some_0[i]),
{
    reveal(after_buffer_close);
    let after = after_buffer_close(program_id, before, rest, now, rent)->Some_0;
    if i != 1 {
        lemma_unchanged_status(program_id, before[i], after[i]);
    }
}

/// [`lemma_status_lifecycle`] for `create_from_buffer`.
proof fn lemma_create_from_buffer_lifecycle(
    program_id: Seq<u8>,
    before: Seq<AccountModel>,
    rest: Seq<u8>,
    now: i64,
    rent: Rent,
    i: int,
)
    requires
        after_create_from_buffer(program_id, before, rest, now, rent) is Some,
        0 <= i < before.len(),
        proposal_status(program_id, before[i]) is Some ==> parse_multisig_account(before[i].data)
            is None && parse_buffer_account(before[i].data) is None,
    ensures
        after_create_from_buffer(program_id, before, rest, now, rent)->Some_0.len() == before.len(),
        status_moved_legally(program_id, before[i], after_create_from_buffer(program_id, before, rest, now, rent)->Some_0[i]),
{
    reveal(after_create_from_buffer);
    let after = after_create_from_buffer(program_id, before, rest, now, rent)->Some_0;
    if i != 1 && i != 3 {
        lemma_unchanged_status(program_id, before[i], after[i]);
    }
}

/// [`lemma_status_lifecycle`] for `set_config`.
proof fn lemma_set_config_lifecycle(
    program_id: Seq<u8>,
    before: Seq<AccountModel>,
    rest: Seq<u8>,
    now: i64,
    rent: Rent,
    i: int,
)
    requires
        after_set_config(program_id, before, rest, now, rent) is Some,
        0 <= i < before.len(),
        proposal_status(program_id, before[i]) is Some ==> parse_multisig_account(before[i].data)
            is None && parse_buffer_account(before[i].data) is None,
    ensures
        after_set_config(program_id, before, rest, now, rent)->Some_0.len() == before.len(),
        status_moved_legally(program_id, before[i], after_set_config(program_id, before, rest, now, rent)->Some_0[i]),
{
    reveal(after_set_config);
    let after = after_set_config(program_id, before, rest, now, rent)->Some_0;
    if i == 0 {
        lemma_config_keeps_payer(before[1], before[0], rest, false, rent);
        lemma_unchanged_status(program_id, before[i], after[i]);
    } else if i != 1 {
        lemma_unchanged_status(program_id, before[i], after[i]);
    }
}

} // verus!
