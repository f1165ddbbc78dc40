//! Who may do what, and where reclaimed rent goes.
//!
//! Starting a proposal or an upload takes the initiate permission; a finished
//! proposal's rent goes to the multisig's rent collector when one is set; and
//! the config authority closes a multisig only once every proposal is closed.

use vstd::prelude::*;

use crate::account::{with_data, with_lamports, AccountModel};
use crate::address::strictly_ascending;
use crate::error::MultisigError;
use crate::instruction::buffer::buffer_create_outcome;
use crate::instruction::approve::approve_outcome;
use crate::instruction::close_transaction::close_transaction_outcome;
use crate::instruction::config_action::{close_multisig_outcome, config_outcome};
use crate::instruction::execute::{
    execute_outcome, run_instruction, run_instructions, ExecutePlanModel, InvocationModel,
};
use crate::instruction::reject::reject_outcome;
use crate::instruction::create_transaction::create_transaction_outcome;
use crate::instruction::set_config::set_config_outcome;
use crate::instruction::system::CreateAccountModel;
use crate::rent::Rent;
use crate::state::multisig::{
    lemma_parsed_multisig_sizes, lemma_position_unique, lemma_search_bounds, lemma_search_sorted,
    owner_index, parse_multisig_account,
};
use crate::instruction::lookup::{lookup_refs, resolve_check, tables_check};
use crate::state::message_format::{
    lookup_key_total, parse_message, InstructionModel, LookupModel, MessageModel,
};
use crate::state::transaction::{
    parse_transaction_account, status_byte, transaction_account_bytes, Transaction,
    TransactionStatus,
};

verus! {

/// Whether `signer` is the owner at position `i` of the multisig that
/// `data` holds, and that owner's mask is empty (every permission) or carries
/// `bit`: 1 to initiate, 2 to vote, 4 to execute.
pub open spec fn holds_permission_at(data: Seq<u8>, signer: Seq<u8>, i: int, bit: u8) -> bool {
    match parse_multisig_account(data) {
        Some((_, owners, permissions)) => {
            &&& 0 <= i < owners.len()
            &&& owners[i]@ == signer
            &&& (permissions[i] == 0 || permissions[i] & bit != 0)
        },
        None => false,
    }
}

/// Where the owner set is sorted, the owner at position `i` is the one the
/// search finds.
proof fn lemma_found_at(owners: Seq<crate::address::Address>, signer: Seq<u8>, i: int)
    requires
        strictly_ascending(owners),
        0 <= i < owners.len(),
        owners[i]@ == signer,
    ensures
        owner_index(owners, signer) == Some(i),
{
    assert forall|k: int| 0 <= k < owners.len() implies (#[trigger] owners[k])@.len() == 32 by {}
    lemma_search_sorted(owners, signer);
    lemma_position_unique(owners, signer, i);
}

/// Only an owner holding the initiate permission creates a proposal: when
/// one is created, its creator is an owner whose mask is empty or carries
/// the initiate bit; and such an owner is never refused as unauthorized.
pub proof fn lemma_create_transaction_needs_initiate(
    program_id: Seq<u8>,
    accounts: Seq<AccountModel>,
    instruction: Seq<u8>,
    rent: Rent,
    i: int,
)
    requires
        accounts.len() >= 2,
    ensures
        create_transaction_outcome(program_id, accounts, instruction, rent) is Ok ==> exists|j: int|
            holds_permission_at(accounts[1].data, accounts[0].address, j, 1),
        holds_permission_at(accounts[1].data, accounts[0].address, i, 1) && strictly_ascending(
            parse_multisig_account(accounts[1].data)->Some_0.1,
        ) ==> create_transaction_outcome(program_id, accounts, instruction, rent)
            != Err::<(Seq<AccountModel>, CreateAccountModel, Seq<u8>), MultisigError>(
            MultisigError::Unauthorized,
        ),
{
    if let Some((h, o, p)) = parse_multisig_account(accounts[1].data) {
        lemma_parsed_multisig_sizes(accounts[1].data);
        lemma_search_bounds(o, accounts[0].address);
        if create_transaction_outcome(program_id, accounts, instruction, rent) is Ok {
            let j = owner_index(o, accounts[0].address)->Some_0;
            assert(holds_permission_at(accounts[1].data, accounts[0].address, j, 1));
        }
        if holds_permission_at(accounts[1].data, accounts[0].address, i, 1) && strictly_ascending(o) {
            lemma_found_at(o, accounts[0].address, i);
        }
    }
}

/// Only an owner holding the initiate permission starts an upload: when a
/// buffer is created, its creator is an owner whose mask is empty or carries
/// the initiate bit; and such an owner is never refused as unauthorized.
pub proof fn lemma_buffer_create_needs_initiate(
    program_id: Seq<u8>,
    accounts: Seq<AccountModel>,
    instruction: Seq<u8>,
    rent: Rent,
    i: int,
)
    requires
        accounts.len() >= 2,
    ensures
        buffer_create_outcome(program_id, accounts, instruction, rent) is Ok ==> exists|j: int|
            holds_permission_at(accounts[1].data, accounts[0].address, j, 1),
        holds_permission_at(accounts[1].data, accounts[0].address, i, 1) && strictly_ascending(
            parse_multisig_account(accounts[1].data)->Some_0.1,
        ) ==> buffer_create_outcome(program_id, accounts, instruction, rent)
            != Err::<(CreateAccountModel, Seq<u8>), MultisigError>(MultisigError::Unauthorized),
{
    if let Some((h, o, p)) = parse_multisig_account(accounts[1].data) {
        lemma_parsed_multisig_sizes(accounts[1].data);
        lemma_search_bounds(o, accounts[0].address);
        if buffer_create_outcome(program_id, accounts, instruction, rent) is Ok {
            let j = owner_index(o, accounts[0].address)->Some_0;
            assert(holds_permission_at(accounts[1].data, accounts[0].address, j, 1));
        }
        if holds_permission_at(accounts[1].data, accounts[0].address, i, 1) && strictly_ascending(o) {
            lemma_found_at(o, accounts[0].address, i);
        }
    }
}

/// A closed proposal's rent goes to the rent collector when the multisig
/// names one, and to the proposal's creator when it does not: a close that
/// goes through credits exactly that account with everything the proposal
/// held and empties the proposal; and passing that account as the
/// destination is never refused as the wrong account.
pub proof fn lemma_close_transaction_pays_collector(
    program_id: Seq<u8>,
    accounts: Seq<AccountModel>,
    instruction: Seq<u8>,
)
    requires
        accounts.len() >= 3,
        parse_multisig_account(accounts[1].data) is Some,
        parse_transaction_account(accounts[0].data) is Some,
    ensures
        ({
            let collector = parse_multisig_account(accounts[1].data)->Some_0.0.rent_collector@;
            let creator = parse_transaction_account(accounts[0].data)->Some_0.0.creator@;
            let payee = if collector != Seq::new(32, |k: int| 0u8) {
                collector
            } else {
                creator
            };
            &&& close_transaction_outcome(program_id, accounts, instruction) matches Ok(after)
                ==> {
                &&& accounts[2].address == payee
                &&& after[2].lamports == accounts[2].lamports + accounts[0].lamports
                &&& after[0].lamports == 0
                &&& after[0].data.len() == 0
            }
            &&& accounts[2].address == payee ==> close_transaction_outcome(
                program_id,
                accounts,
                instruction,
            ) != Err::<Seq<AccountModel>, MultisigError>(MultisigError::InvalidAccount)
        }),
{
    let h = parse_multisig_account(accounts[1].data)->Some_0.0;
    assert(crate::state::multisig::zero_address() =~= Seq::new(32, |k: int| 0u8));
}

/// The config authority closes a multisig only once every proposal ever
/// created has been closed: a close through the authority that goes through
/// had as many proposals closed as created, empties the multisig and pays
/// its lamports to the authority; and with every proposal closed it is never
/// refused for proposals outstanding.
pub proof fn lemma_authority_close_needs_all_closed(
    program_id: Seq<u8>,
    accounts: Seq<AccountModel>,
    rent: Rent,
)
    requires
        accounts.len() >= 2,
        parse_multisig_account(accounts[1].data) is Some,
    ensures
        ({
            let h = parse_multisig_account(accounts[1].data)->Some_0.0;
            &&& set_config_outcome(program_id, accounts, seq![6u8], rent) matches Ok((after, _))
                ==> {
                &&& h.closed_transaction_count == h.transaction_index
                &&& after[1].lamports == 0
                &&& after[1].data.len() == 0
                &&& after[0].lamports == accounts[0].lamports + accounts[1].lamports
            }
            &&& h.closed_transaction_count == h.transaction_index ==> set_config_outcome(
                program_id,
                accounts,
                seq![6u8],
                rent,
            ) != Err::<(Seq<AccountModel>, u64), MultisigError>(
                MultisigError::TransactionsOutstanding,
            )
        }),
{
    assert(seq![6u8].subrange(1, 1) =~= Seq::<u8>::empty());
}

/// No config action refuses a signer as unauthorized.
proof fn lemma_config_never_unauthorized(
    multisig: AccountModel,
    payer: AccountModel,
    data: Seq<u8>,
    via_proposal: bool,
    rent: Rent,
)
    ensures
        config_outcome(multisig, payer, data, via_proposal, rent) != Err::<
            (AccountModel, AccountModel, u64),
            MultisigError,
        >(MultisigError::Unauthorized),
{
}

/// Running a message's instructions refuses no one as unauthorized.
proof fn lemma_run_never_unauthorized(
    ins: Seq<InstructionModel>,
    m: MessageModel,
    passed: Seq<AccountModel>,
    program_id: Seq<u8>,
    multisig: AccountModel,
    executor: AccountModel,
    rent: Rent,
)
    ensures
        run_instructions(ins, m, passed, program_id, multisig, executor, rent) != Err::<
            (AccountModel, AccountModel, u64, Seq<InvocationModel>),
            MultisigError,
        >(MultisigError::Unauthorized),
    decreases ins.len(),
{
    if ins.len() > 0 {
        lemma_run_never_unauthorized(ins.drop_last(), m, passed, program_id, multisig, executor, rent);
        if let Ok((ms, ex, owed, _)) = run_instructions(
            ins.drop_last(),
            m,
            passed,
            program_id,
            multisig,
            executor,
            rent,
        ) {
            reveal(run_instruction);
            lemma_config_never_unauthorized(
                with_lamports(ms, (ms.lamports + owed) as u64),
                ex,
                ins.last().data,
                true,
                rent,
            );
        }
    }
}

/// Checking lookup tables refuses no one as unauthorized.
proof fn lemma_tables_never_unauthorized(lookups: Seq<LookupModel>, tables: Seq<AccountModel>)
    ensures
        tables_check(lookups, tables) != Err::<(), MultisigError>(MultisigError::Unauthorized),
    decreases lookups.len(),
{
    if lookups.len() > 0 {
        lemma_tables_never_unauthorized(lookups.drop_last(), tables);
    }
}

/// Resolving lookup references refuses no one as unauthorized.
proof fn lemma_resolve_never_unauthorized(
    refs: Seq<(usize, u8)>,
    tables: Seq<AccountModel>,
    passed: Seq<AccountModel>,
)
    ensures
        resolve_check(refs, tables, passed) != Err::<(), MultisigError>(MultisigError::Unauthorized),
    decreases refs.len(),
{
    if refs.len() > 0 {
        lemma_resolve_never_unauthorized(refs.skip(1), tables, passed.skip(1));
    }
}

/// Only an owner holding the execute permission executes a proposal: when
/// an execution goes through, the executor is an owner whose mask is empty or
/// carries the execute bit; and such an owner is never refused as
/// unauthorized.
pub proof fn lemma_execute_needs_execute_permission(
    program_id: Seq<u8>,
    accounts: Seq<AccountModel>,
    instruction: Seq<u8>,
    now: i64,
    rent: Rent,
    i: int,
)
    requires
        accounts.len() >= 3,
    ensures
        execute_outcome(program_id, accounts, instruction, now, rent) is Ok ==> exists|j: int|
            holds_permission_at(accounts[1].data, accounts[0].address, j, 4),
        holds_permission_at(accounts[1].data, accounts[0].address, i, 4) && strictly_ascending(
            parse_multisig_account(accounts[1].data)->Some_0.1,
        ) ==> execute_outcome(program_id, accounts, instruction, now, rent) != Err::<
            (Seq<AccountModel>, ExecutePlanModel),
            MultisigError,
        >(MultisigError::Unauthorized),
{
    if let Some((h, o, p)) = parse_multisig_account(accounts[1].data) {
        lemma_parsed_multisig_sizes(accounts[1].data);
        lemma_search_bounds(o, accounts[0].address);
        if execute_outcome(program_id, accounts, instruction, now, rent) is Ok {
            let j = owner_index(o, accounts[0].address)->Some_0;
            assert(holds_permission_at(accounts[1].data, accounts[0].address, j, 4));
        }
        if holds_permission_at(accounts[1].data, accounts[0].address, i, 4) && strictly_ascending(o) {
            lemma_found_at(o, accounts[0].address, i);
            if let Some((t, a, r, c, msg)) = parse_transaction_account(accounts[2].data) {
                if let Some(m) = parse_message(msg) {
                    let t1 = Transaction { status: status_byte(TransactionStatus::Executed), ..t };
                    let accounts1 = accounts.update(
                        2,
                        with_data(accounts[2], transaction_account_bytes(t1, a, r, c, msg)),
                    );
                    let k = m.account_keys.len() as int;
                    let l = lookup_key_total(m.lookups);
                    lemma_tables_never_unauthorized(m.lookups, accounts.skip(3).skip(k + l));
                    lemma_resolve_never_unauthorized(
                        lookup_refs(m.lookups),
                        accounts.skip(3).skip(k + l),
                        accounts.skip(3).skip(k),
                    );
                    lemma_run_never_unauthorized(
                        m.instructions,
                        m,
                        accounts.skip(3),
                        program_id,
                        accounts1[1],
                        accounts1[0],
                        rent,
                    );
                }
            }
        }
    }
}

/// Only an owner holding the vote permission approves or rejects: when a
/// vote goes through, the voter is an owner whose mask is empty or carries
/// the vote bit; and such an owner is never refused as unauthorized.
pub proof fn lemma_vote_needs_vote_permission(
    program_id: Seq<u8>,
    accounts: Seq<AccountModel>,
    instruction: Seq<u8>,
    now: i64,
    i: int,
)
    requires
        accounts.len() >= 3,
    ensures
        approve_outcome(program_id, accounts, instruction, now) is Ok ==> exists|j: int|
            holds_permission_at(accounts[1].data, accounts[0].address, j, 2),
        reject_outcome(program_id, accounts, instruction) is Ok ==> exists|j: int|
            holds_permission_at(accounts[1].data, accounts[0].address, j, 2),
        holds_permission_at(accounts[1].data, accounts[0].address, i, 2) && strictly_ascending(
            parse_multisig_account(accounts[1].data)->Some_0.1,
        ) ==> {
            &&& approve_outcome(program_id, accounts, instruction, now) != Err::<
                Seq<AccountModel>,
                MultisigError,
            >(MultisigError::Unauthorized)
            &&& reject_outcome(program_id, accounts, instruction) != Err::<
                Seq<AccountModel>,
                MultisigError,
            >(MultisigError::Unauthorized)
        },
{
    if let Some((h, o, p)) = parse_multisig_account(accounts[1].data) {
        lemma_parsed_multisig_sizes(accounts[1].data);
        lemma_search_bounds(o, accounts[0].address);
        if approve_outcome(program_id, accounts, instruction, now) is Ok || reject_outcome(
            program_id,
            accounts,
            instruction,
        ) is Ok {
            let j = owner_index(o, accounts[0].address)->Some_0;
            assert(holds_permission_at(accounts[1].data, accounts[0].address, j, 2));
        }
        if holds_permission_at(accounts[1].data, accounts[0].address, i, 2) && strictly_ascending(o) {
            lemma_found_at(o, accounts[0].address, i);
        }
    }
}

/// Only a multisig's config authority changes it directly: a config change
/// that goes through was signed by the authority the multisig names, and a
/// multisig that names none cannot be changed this way.
pub proof fn lemma_set_config_needs_authority(
    program_id: Seq<u8>,
    accounts: Seq<AccountModel>,
    instruction: Seq<u8>,
    rent: Rent,
)
    requires
        set_config_outcome(program_id, accounts, instruction, rent) is Ok,
    ensures
        accounts[0].is_signer,
        parse_multisig_account(accounts[1].data) is Some,
        parse_multisig_account(accounts[1].data)->Some_0.0.config_authority@ == accounts[0].address,
        accounts[0].address != Seq::new(32, |k: int| 0u8),
{
    assert(crate::state::multisig::zero_address() =~= Seq::new(32, |k: int| 0u8));
}

/// Closing a multisig never strands a proposal: through a proposal it goes
/// through only when the proposal carrying it is the one still open, and
/// through the config authority only when none is; either way its lamports
/// all go to the destination, which must be the rent collector when one is
/// named.
pub proof fn lemma_close_multisig_strands_nothing(
    multisig: AccountModel,
    destination: AccountModel,
    payload: Seq<u8>,
    via_proposal: bool,
)
    requires
        parse_multisig_account(multisig.data) is Some,
    ensures
        ({
            let h = parse_multisig_account(multisig.data)->Some_0.0;
            let open = h.transaction_index - h.closed_transaction_count;
            &&& close_multisig_outcome(multisig, destination, payload, via_proposal) matches Ok(
                (m, d, transfer),
            ) ==> {
                &&& open == if via_proposal {
                    1int
                } else {
                    0int
                }
                &&& m.lamports == 0
                &&& m.data.len() == 0
                &&& d.lamports == destination.lamports + multisig.lamports
                &&& d.address == destination.address
                &&& transfer == 0
                &&& (h.rent_collector@ == Seq::new(32, |k: int| 0u8) || h.rent_collector@
                    == destination.address)
            }
            &&& payload.len() == 0 && open == (if via_proposal {
                1int
            } else {
                0int
            }) ==> close_multisig_outcome(multisig, destination, payload, via_proposal) != Err::<
                (AccountModel, AccountModel, u64),
                MultisigError,
            >(MultisigError::TransactionsOutstanding)
        }),
{
    assert(crate::state::multisig::zero_address() =~= Seq::new(32, |k: int| 0u8));
}

} // verus!
