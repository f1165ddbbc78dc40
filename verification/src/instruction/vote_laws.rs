//! What every vote keeps true.
//!
//! Approval latches at the threshold and is never recounted; a rejection
//! latches once approval is out of reach; cancelling an approved proposal
//! takes the threshold that approved it; an owner votes once; the counts
//! stay equal to the bits set; and a proposal only moves along the legal
//! status transitions.

use vstd::prelude::*;

use crate::error::MultisigError;
use crate::instruction::approve::approve_transition;
use crate::instruction::cancel::cancel_transition;
use crate::instruction::reject::reject_transition;
use crate::instruction::vote::Voter;
use crate::state::bitmap::{bit_at, lemma_with_bit_count, lemma_with_bit_reads, popcount};
use crate::state::multisig::{cutoff_of, Multisig};
use crate::state::transaction::{status_byte, status_of_byte, Transaction, TransactionStatus};

verus! {

/// The status moves the lifecycle permits: `Active` to `Approved`,
/// `Rejected` or `Cancelled`, and `Approved` to `Executed` or `Cancelled`.
pub open spec fn legal_transition(from: TransactionStatus, to: TransactionStatus) -> bool {
    from == to || (from == TransactionStatus::Active && (to == TransactionStatus::Approved || to
        == TransactionStatus::Rejected || to == TransactionStatus::Cancelled)) || (from
        == TransactionStatus::Approved && (to == TransactionStatus::Executed || to
        == TransactionStatus::Cancelled))
}

/// The status a header's byte records, where it records one.
pub open spec fn stored_status(t: Transaction) -> TransactionStatus {
    status_of_byte(t.status)->Ok_0
}

/// An approval sets the voter's bit and no other, counts it, and latches the
/// proposal `Approved`, stamped `now`, exactly when the count reaches the
/// threshold; otherwise the proposal stays `Active`.
pub proof fn lemma_approve_latches(
    t: Transaction,
    approved: Seq<u8>,
    rejected: Seq<u8>,
    cancelled: Seq<u8>,
    voter: Voter,
    now: i64,
)
    requires
        status_of_byte(t.status) == Ok::<TransactionStatus, MultisigError>(TransactionStatus::Active),
        approve_transition(t, approved, rejected, cancelled, voter, now) is Ok,
    ensures
        ({
            let (t1, a1) = approve_transition(t, approved, rejected, cancelled, voter, now)->Ok_0;
            &&& t1.approved_count == t.approved_count + 1
            &&& bit_at(a1, voter.index as int)
            &&& forall|j: int| j != voter.index ==> bit_at(a1, j) == bit_at(approved, j)
            &&& popcount(approved) == t.approved_count ==> popcount(a1) == t1.approved_count
            &&& t1.approved_count >= voter.threshold ==> stored_status(t1)
                == TransactionStatus::Approved && t1.approved_at == now
            &&& t1.approved_count < voter.threshold ==> t1.status == t.status && t1.approved_at
                == t.approved_at
            &&& legal_transition(stored_status(t), stored_status(t1))
        }),
{
    let i = voter.index as int;
    lemma_with_bit_count(approved, i);
    assert forall|j: int| j != voter.index implies #[trigger] bit_at(
        approve_transition(t, approved, rejected, cancelled, voter, now)->Ok_0.1,
        j,
    ) == bit_at(approved, j) by {
        lemma_with_bit_reads(approved, i, j);
    }
    lemma_with_bit_reads(approved, i, i);
}

/// A rejection sets the voter's bit and no other, counts it, and latches the
/// proposal `Rejected` exactly when the count reaches the cutoff.
pub proof fn lemma_reject_latches(
    t: Transaction,
    approved: Seq<u8>,
    rejected: Seq<u8>,
    cancelled: Seq<u8>,
    voter: Voter,
)
    requires
        status_of_byte(t.status) == Ok::<TransactionStatus, MultisigError>(TransactionStatus::Active),
        reject_transition(t, approved, rejected, cancelled, voter) is Ok,
    ensures
        ({
            let (t1, r1) = reject_transition(t, approved, rejected, cancelled, voter)->Ok_0;
            &&& t1.rejected_count == t.rejected_count + 1
            &&& bit_at(r1, voter.index as int)
            &&& forall|j: int| j != voter.index ==> bit_at(r1, j) == bit_at(rejected, j)
            &&& popcount(rejected) == t.rejected_count ==> popcount(r1) == t1.rejected_count
            &&& t1.rejected_count >= voter.cutoff ==> stored_status(t1)
                == TransactionStatus::Rejected
            &&& t1.rejected_count < voter.cutoff ==> t1.status == t.status
            &&& legal_transition(stored_status(t), stored_status(t1))
        }),
{
    let i = voter.index as int;
    lemma_with_bit_count(rejected, i);
    assert forall|j: int| j != voter.index implies #[trigger] bit_at(
        reject_transition(t, approved, rejected, cancelled, voter)->Ok_0.1,
        j,
    ) == bit_at(rejected, j) by {
        lemma_with_bit_reads(rejected, i, j);
    }
    lemma_with_bit_reads(rejected, i, i);
}

/// An owner votes once: whoever has already approved, rejected or voted to
/// cancel is refused a second approval or rejection.
pub proof fn lemma_one_vote_per_owner(
    t: Transaction,
    approved: Seq<u8>,
    rejected: Seq<u8>,
    cancelled: Seq<u8>,
    voter: Voter,
    now: i64,
)
    requires
        bit_at(approved, voter.index as int) || bit_at(rejected, voter.index as int) || bit_at(
            cancelled,
            voter.index as int,
        ),
    ensures
        approve_transition(t, approved, rejected, cancelled, voter, now) == Err::<
            (Transaction, Seq<u8>),
            MultisigError,
        >(MultisigError::AlreadyVoted),
        reject_transition(t, approved, rejected, cancelled, voter) == Err::<
            (Transaction, Seq<u8>),
            MultisigError,
        >(MultisigError::AlreadyVoted),
{
}

/// Approving twice fails: after an owner's approval went through, the same
/// owner's next approval or rejection of that proposal is refused.
pub proof fn lemma_second_approval_refused(
    t: Transaction,
    approved: Seq<u8>,
    rejected: Seq<u8>,
    cancelled: Seq<u8>,
    voter: Voter,
    now: i64,
    later: i64,
)
    requires
        approve_transition(t, approved, rejected, cancelled, voter, now) is Ok,
    ensures
        ({
            let (t1, a1) = approve_transition(t, approved, rejected, cancelled, voter, now)->Ok_0;
            &&& approve_transition(t1, a1, rejected, cancelled, voter, later) == Err::<
                (Transaction, Seq<u8>),
                MultisigError,
            >(MultisigError::AlreadyVoted)
            &&& reject_transition(t1, a1, rejected, cancelled, voter) == Err::<
                (Transaction, Seq<u8>),
                MultisigError,
            >(MultisigError::AlreadyVoted)
        }),
{
    lemma_with_bit_reads(approved, voter.index as int, voter.index as int);
}

/// Cancelling an approved proposal takes the threshold that approved it:
/// each cancel vote counts one, and the proposal becomes `Cancelled` exactly
/// when that count reaches the threshold.
pub proof fn lemma_cancel_approved_takes_threshold(
    t: Transaction,
    cancelled: Seq<u8>,
    voter: Voter,
    multisig: Seq<u8>,
    signer: Seq<u8>,
)
    requires
        status_of_byte(t.status) == Ok::<TransactionStatus, MultisigError>(
            TransactionStatus::Approved,
        ),
        cancel_transition(t, cancelled, voter, multisig, signer) is Ok,
    ensures
        ({
            let (t1, c1) = cancel_transition(t, cancelled, voter, multisig, signer)->Ok_0;
            &&& voter.can_vote
            &&& t1.cancelled_count == t.cancelled_count + 1
            &&& bit_at(c1, voter.index as int) && !bit_at(cancelled, voter.index as int)
            &&& popcount(cancelled) == t.cancelled_count ==> popcount(c1) == t1.cancelled_count
            &&& stored_status(t1) == TransactionStatus::Cancelled <==> t1.cancelled_count
                >= voter.threshold
            &&& t1.cancelled_count < voter.threshold ==> stored_status(t1)
                == TransactionStatus::Approved
            &&& legal_transition(stored_status(t), stored_status(t1))
        }),
{
    let i = voter.index as int;
    lemma_with_bit_count(cancelled, i);
    lemma_with_bit_reads(cancelled, i, i);
}

/// An active proposal is cancelled outright, by its creator alone.
pub proof fn lemma_cancel_active_by_creator(
    t: Transaction,
    cancelled: Seq<u8>,
    voter: Voter,
    multisig: Seq<u8>,
    signer: Seq<u8>,
)
    requires
        status_of_byte(t.status) == Ok::<TransactionStatus, MultisigError>(TransactionStatus::Active),
        cancel_transition(t, cancelled, voter, multisig, signer) is Ok,
    ensures
        signer == t.creator@,
        stored_status(cancel_transition(t, cancelled, voter, multisig, signer)->Ok_0.0)
            == TransactionStatus::Cancelled,
{
}

/// Once rejections reach the cutoff, the voters left cannot reach the
/// threshold: approvals stay below it however the rest vote.
pub proof fn lemma_cutoff_makes_approval_unreachable(h: Multisig, approvals: int, rejections: int)
    requires
        1 <= h.threshold <= h.voter_count,
        0 <= approvals,
        approvals + rejections <= h.voter_count,
        rejections >= cutoff_of(h),
    ensures
        approvals < h.threshold,
{
}

/// Below the cutoff, approval is still reachable: the voters who have not
/// rejected are enough to meet the threshold.
pub proof fn lemma_below_cutoff_approval_reachable(h: Multisig, rejections: int)
    requires
        1 <= h.threshold <= h.voter_count,
        0 <= rejections < cutoff_of(h),
    ensures
        h.voter_count - rejections >= h.threshold,
{
}

} // verus!
