//! What every configuration change keeps true.
//!
//! The owner set stays strictly ascending, the voter count stays equal to the
//! owners permitted to vote, every change makes the proposals in flight stale,
//! and the header rules hold after every change that goes through.

use vstd::prelude::*;

use crate::address::{lex_lt, strictly_ascending, Address};
use crate::error::MultisigError;
use crate::account::AccountModel;
use crate::instruction::config_action::{
    add_owner_insert, add_owner_position, config_action_of, config_outcome, header_action,
    payload_address_of, remove_owner_of, set_permission_of, settled_header, ConfigAction,
};
use crate::rent::Rent;
use crate::instruction::vote::{votable_result, Voter};
use crate::state::multisig::{
    lemma_parse_multisig_account, lemma_parsed_multisig_sizes, lemma_search_bounds,
    lemma_search_sorted, multisig_violation, parse_multisig_account, search_owners, Multisig,
};
use crate::state::permission::{mask_grants, Permission};
use crate::state::transaction::{Transaction, TransactionStatus};

verus! {

/// Owners whose mask permits voting.
pub open spec fn voters(permissions: Seq<u8>) -> nat
    decreases permissions.len(),
{
    if permissions.len() == 0 {
        0
    } else {
        voters(permissions.drop_last()) + if mask_grants(permissions.last(), Permission::VOTE) {
            1nat
        } else {
            0nat
        }
    }
}

/// One if a mask permits voting, else zero.
pub open spec fn vote_weight(mask: u8) -> int {
    if mask_grants(mask, Permission::VOTE) {
        1
    } else {
        0
    }
}

proof fn lemma_voters_update(p: Seq<u8>, i: int, m: u8)
    requires
        0 <= i < p.len(),
    ensures
        voters(p.update(i, m)) == voters(p) - vote_weight(p[i]) + vote_weight(m),
    decreases p.len(),
{
    let q = p.update(i, m);
    if i == p.len() - 1 {
        assert(q.drop_last() =~= p.drop_last());
    } else {
        lemma_voters_update(p.drop_last(), i, m);
        assert(q.drop_last() =~= p.drop_last().update(i, m));
    }
}

proof fn lemma_voters_insert(p: Seq<u8>, pos: int, m: u8)
    requires
        0 <= pos <= p.len(),
    ensures
        voters(p.insert(pos, m)) == voters(p) + vote_weight(m),
    decreases p.len(),
{
    let q = p.insert(pos, m);
    if pos == p.len() {
        assert(q.drop_last() =~= p);
    } else {
        lemma_voters_insert(p.drop_last(), pos, m);
        assert(q.drop_last() =~= p.drop_last().insert(pos, m));
    }
}

proof fn lemma_voters_remove(p: Seq<u8>, i: int)
    requires
        0 <= i < p.len(),
    ensures
        voters(p.remove(i)) + vote_weight(p[i]) == voters(p),
    decreases p.len(),
{
    let q = p.remove(i);
    if i == p.len() - 1 {
        assert(q =~= p.drop_last());
    } else {
        lemma_voters_remove(p.drop_last(), i);
        assert(q.drop_last() =~= p.drop_last().remove(i));
    }
}

/// Adding an owner to a strictly ascending set keeps it strictly ascending,
/// and the new owner votes: the voter count stays the count of owners
/// permitted to vote.
pub proof fn lemma_add_owner_keeps_order(
    h: Multisig,
    owners: Seq<Address>,
    permissions: Seq<u8>,
    owner: Address,
)
    requires
        strictly_ascending(owners),
        add_owner_position(owners, owner@, h.owners_count) is Ok,
    ensures
        ({
            let pos = add_owner_position(owners, owner@, h.owners_count)->Ok_0;
            &&& add_owner_insert(h, owners, permissions, owner, pos) is Ok ==> {
                let (h2, o2, p2) = add_owner_insert(h, owners, permissions, owner, pos)->Ok_0;
                &&& strictly_ascending(o2)
                &&& o2.len() == owners.len() + 1
                &&& h2.stale_transaction_index == h2.transaction_index
                &&& multisig_violation(h2) is None
                &&& h.voter_count == voters(permissions) && 0 <= pos <= permissions.len()
                    ==> h2.voter_count == voters(p2)
            }
            &&& add_owner_insert(h, owners, permissions, owner, pos) != Err::<
                (Multisig, Seq<Address>, Seq<u8>),
                MultisigError,
            >(MultisigError::OwnersNotSorted)
        }),
{
    assert forall|k: int| 0 <= k < owners.len() implies (#[trigger] owners[k])@.len() == 32 by {}
    lemma_search_sorted(owners, owner@);
    let pos = add_owner_position(owners, owner@, h.owners_count)->Ok_0;
    let o2 = owners.insert(pos, owner);
    assert forall|i: int, j: int| 0 <= i < j < o2.len() implies lex_lt(
        #[trigger] o2[i]@,
        #[trigger] o2[j]@,
    ) by {
        if i < pos && j < pos {
            assert(lex_lt(owners[i]@, owners[j]@));
        } else if i < pos && j == pos {
        } else if i < pos {
            assert(lex_lt(owners[i]@, owners[j - 1]@));
        } else if i == pos {
            assert(lex_lt(owner@, owners[j - 1]@));
        } else {
            assert(lex_lt(owners[i - 1]@, owners[j - 1]@));
        }
    }
    if 0 <= pos <= permissions.len() {
        lemma_voters_insert(permissions, pos, 0u8);
    }
}

/// Removing an owner from a strictly ascending set keeps it strictly
/// ascending, and keeps the voter count the count of owners permitted to vote.
pub proof fn lemma_remove_owner_keeps_order(
    h: Multisig,
    owners: Seq<Address>,
    permissions: Seq<u8>,
    owner: Seq<u8>,
)
    requires
        strictly_ascending(owners),
        permissions.len() == owners.len(),
        remove_owner_of(h, owners, permissions, owner) is Ok,
    ensures
        ({
            let (h2, o2, p2) = remove_owner_of(h, owners, permissions, owner)->Ok_0;
            &&& strictly_ascending(o2)
            &&& o2.len() == owners.len() - 1
            &&& forall|k: int| 0 <= k < o2.len() ==> (#[trigger] o2[k])@ != owner
            &&& h2.stale_transaction_index == h2.transaction_index
            &&& multisig_violation(h2) is None
            &&& h.voter_count == voters(permissions) ==> h2.voter_count == voters(p2)
        }),
{
    lemma_search_bounds(owners, owner);
    let i = match search_owners(owners, owner) {
        Ok(i) => i,
        Err(_) => 0,
    };
    let o2 = owners.remove(i);
    assert forall|a: int, b: int| 0 <= a < b < o2.len() implies lex_lt(
        #[trigger] o2[a]@,
        #[trigger] o2[b]@,
    ) by {
        let a1 = if a < i {
            a
        } else {
            a + 1
        };
        let b1 = if b < i {
            b
        } else {
            b + 1
        };
        assert(lex_lt(owners[a1]@, owners[b1]@));
    }
    assert forall|k: int| 0 <= k < o2.len() implies (#[trigger] o2[k])@ != owner by {
        let k1 = if k < i {
            k
        } else {
            k + 1
        };
        assert(lex_lt(owners[k1]@, owners[i]@) || lex_lt(owners[i]@, owners[k1]@));
        crate::address::lemma_lex_lt_irreflexive(owner);
    }
    lemma_voters_remove(permissions, i);
}

/// Setting a permission keeps the voter count the count of owners permitted
/// to vote.
pub proof fn lemma_set_permission_keeps_voters(
    h: Multisig,
    owners: Seq<Address>,
    permissions: Seq<u8>,
    payload: Seq<u8>,
)
    requires
        permissions.len() == owners.len(),
        h.voter_count == voters(permissions),
        set_permission_of(h, owners, permissions, payload) is Ok,
    ensures
        ({
            let (h1, p1) = set_permission_of(h, owners, permissions, payload)->Ok_0;
            h1.voter_count == voters(p1)
        }),
{
    lemma_search_bounds(owners, payload.subrange(0, 32));
    let i = match search_owners(owners, payload.subrange(0, 32)) {
        Ok(i) => i,
        Err(_) => 0,
    };
    lemma_voters_update(permissions, i, payload[32]);
}

/// Every change that goes through makes the proposals in flight stale and
/// leaves a header that keeps every rule.
pub proof fn lemma_header_change_settles(
    h: Multisig,
    owners: Seq<Address>,
    permissions: Seq<u8>,
    action: ConfigAction,
    payload: Seq<u8>,
)
    requires
        header_action(h, owners, permissions, action, payload) is Ok,
        settled_header(header_action(h, owners, permissions, action, payload)->Ok_0.0) is Ok,
    ensures
        ({
            let h2 = settled_header(header_action(h, owners, permissions, action, payload)->Ok_0.0)->Ok_0;
            &&& h2.stale_transaction_index == h2.transaction_index
            &&& h2.transaction_index == h.transaction_index
            &&& multisig_violation(h2) is None
        }),
{
}

/// Every config change but closing leaves a multisig account that reads back
/// with its header rules met and every proposal in flight stale; a strictly
/// ascending owner set stays so, and a voter count that counted the owners
/// permitted to vote still does.
pub proof fn lemma_config_change_keeps_account(
    multisig: AccountModel,
    payer: AccountModel,
    data: Seq<u8>,
    via_proposal: bool,
    rent: Rent,
)
    requires
        config_outcome(multisig, payer, data, via_proposal, rent) is Ok,
        data.len() > 0,
        config_action_of(data[0]) != Ok::<ConfigAction, MultisigError>(ConfigAction::CloseMultisig),
    ensures
        ({
            let (m2, _, _) = config_outcome(multisig, payer, data, via_proposal, rent)->Ok_0;
            let (h, o, p) = parse_multisig_account(multisig.data)->Some_0;
            parse_multisig_account(m2.data) matches Some((h2, o2, p2)) && {
                &&& multisig_violation(h2) is None
                &&& h2.stale_transaction_index == h2.transaction_index
                &&& h2.transaction_index == h.transaction_index
                &&& strictly_ascending(o) ==> strictly_ascending(o2)
                &&& h.voter_count == voters(p) ==> h2.voter_count == voters(p2)
            }
        }),
{
    let payload = data.subrange(1, data.len() as int);
    let (h, o, p) = parse_multisig_account(multisig.data)->Some_0;
    lemma_parsed_multisig_sizes(multisig.data);
    let action = config_action_of(data[0])->Ok_0;
    if action == ConfigAction::AddOwner {
        let owner = payload_address_of(payload)->Ok_0;
        let pos = add_owner_position(o, owner@, h.owners_count)->Ok_0;
        let (h2, o2, p2) = add_owner_insert(h, o, p, owner, pos)->Ok_0;
        lemma_search_bounds(o, owner@);
        if strictly_ascending(o) {
            lemma_add_owner_keeps_order(h, o, p, owner);
        }
        if h.voter_count == voters(p) {
            lemma_voters_insert(p, pos, 0u8);
        }
        lemma_parse_multisig_account(h2, o2, p2);
    } else if action == ConfigAction::RemoveOwner {
        let owner = payload_address_of(payload)->Ok_0;
        let (h2, o2, p2) = remove_owner_of(h, o, p, owner@)->Ok_0;
        if strictly_ascending(o) {
            lemma_remove_owner_keeps_order(h, o, p, owner@);
        }
        lemma_search_bounds(o, owner@);
        let i = match search_owners(o, owner@) {
            Ok(i) => i,
            Err(_) => 0,
        };
        if h.voter_count == voters(p) {
            lemma_voters_remove(p, i);
        }
        lemma_parse_multisig_account(h2, o2, p2);
    } else {
        let (h1, p1) = header_action(h, o, p, action, payload)->Ok_0;
        let h2 = settled_header(h1)->Ok_0;
        lemma_search_bounds(o, payload.subrange(0, 32));
        if action == ConfigAction::SetPermission && h.voter_count == voters(p) {
            lemma_set_permission_keeps_voters(h, o, p, payload);
        }
        assert(p1.len() == p.len());
        lemma_parse_multisig_account(h2, o, p1);
    }
}

/// A configuration change makes older proposals stale: once the stale marker
/// has reached a proposal's index, no vote on it is accepted.
pub proof fn lemma_stale_proposal_refused(
    t: Transaction,
    multisig: Seq<u8>,
    voter: Voter,
    expected: TransactionStatus,
)
    requires
        t.index <= voter.stale_index,
    ensures
        votable_result(t, multisig, voter, expected) is Err,
{
}

} // verus!
