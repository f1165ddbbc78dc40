//! Owner-management actions.
//!
//! Two paths reach these. On an autonomous multisig they ride inside a
//! proposal targeting this program, so changing the owner set costs the same
//! threshold of approvals as spending from the vault. On a controlled one
//! `set_config` applies them on the config authority's signature alone.
//!
//! Both paths run the code here, so they cannot drift apart. `via_proposal`
//! marks which one is calling, because closing the multisig has to account for
//! the proposal carrying the action being open.
//!
//! The owner set is a variable-length tail, so adding or removing an owner
//! resizes the account and moves rent between it and the payer.

use vstd::bytes::*;
use vstd::prelude::*;
use vstd::slice::*;

use crate::account::{
    closed, validate_eq, with_data, with_lamports, AccountModel, AccountView,
};
use crate::address::{address_of, lemma_address_of, lex_lt, Address, Order};
use crate::constants::MAX_OWNER;
use crate::error::MultisigError;
use crate::rent::{rent_exempt_minimum, Rent, MAX_LAMPORTS_PER_BYTE};
use crate::state::multisig::{
    multisig_account_bytes, multisig_violation, owner_index, parse_multisig_account,
    search_owners, zero_address, Multisig,
};
use crate::state::permission::{mask_grants, Permission};

verus! {

/// Action encoded in the first byte of a config payload.
#[derive(Clone, Copy, Debug, PartialEq, Eq, Structural)]
pub enum ConfigAction {
    /// Add an owner. Payload is the 32-byte address.
    AddOwner,
    /// Remove an owner. Payload is the 32-byte address.
    RemoveOwner,
    /// Change the approval threshold. Payload is a little-endian `u32`.
    ChangeThreshold,
    /// Change the execution delay. Payload is a little-endian `u32`.
    ChangeTimeLock,
    /// Set where reclaimed rent goes. Payload is the 32-byte address; the
    /// all-zero address restores "refund whoever paid".
    SetRentCollector,
    /// Set one owner's permission mask. Payload is the 32-byte address followed
    /// by the mask byte.
    SetPermission,
    /// Close the multisig and reclaim its rent. No payload.
    CloseMultisig,
    /// Hand configuration control to a key, or return it to the owners by
    /// setting the all-zero address. Payload is the 32-byte address.
    SetConfigAuthority,
}

/// The action a byte names.
pub open spec fn config_action_of(v: u8) -> Result<ConfigAction, MultisigError> {
    if v == 0 {
        Ok(ConfigAction::AddOwner)
    } else if v == 1 {
        Ok(ConfigAction::RemoveOwner)
    } else if v == 2 {
        Ok(ConfigAction::ChangeThreshold)
    } else if v == 3 {
        Ok(ConfigAction::ChangeTimeLock)
    } else if v == 4 {
        Ok(ConfigAction::SetRentCollector)
    } else if v == 5 {
        Ok(ConfigAction::SetPermission)
    } else if v == 6 {
        Ok(ConfigAction::CloseMultisig)
    } else if v == 7 {
        Ok(ConfigAction::SetConfigAuthority)
    } else {
        Err(MultisigError::UnknownConfigAction)
    }
}

impl ConfigAction {
    /// Decodes an action byte, rejecting unknown values.
    pub fn from_u8(v: u8) -> (r: Result<ConfigAction, MultisigError>)
        ensures
            r == config_action_of(v),
    {
        match v {
            0 => Ok(ConfigAction::AddOwner),
            1 => Ok(ConfigAction::RemoveOwner),
            2 => Ok(ConfigAction::ChangeThreshold),
            3 => Ok(ConfigAction::ChangeTimeLock),
            4 => Ok(ConfigAction::SetRentCollector),
            5 => Ok(ConfigAction::SetPermission),
            6 => Ok(ConfigAction::CloseMultisig),
            7 => Ok(ConfigAction::SetConfigAuthority),
            _ => Err(MultisigError::UnknownConfigAction),
        }
    }
}

/// The address a 32-byte payload holds.
pub open spec fn payload_address_of(payload: Seq<u8>) -> Result<Address, MultisigError> {
    if payload.len() == 32 {
        Ok(address_of(payload))
    } else {
        Err(MultisigError::InvalidInstructionData)
    }
}

/// The little-endian `u32` a 4-byte payload holds.
pub open spec fn payload_u32_of(payload: Seq<u8>) -> Result<u32, MultisigError> {
    if payload.len() == 4 {
        Ok(spec_u32_from_le_bytes(payload))
    } else {
        Err(MultisigError::InvalidInstructionData)
    }
}

/// Reads a 32-byte address payload.
pub fn payload_address(payload: &[u8]) -> (r: Result<Address, MultisigError>)
    ensures
        r == payload_address_of(payload@),
        r matches Ok(a) ==> a@ == payload@,
{
    if payload.len() != 32 {
        return Err(MultisigError::InvalidInstructionData);
    }
    let a = Address::from_slice(payload);
    proof {
        lemma_address_of(a);
    }
    Ok(a)
}

/// Reads a little-endian `u32` payload.
fn payload_u32(payload: &[u8]) -> (r: Result<u32, MultisigError>)
    ensures
        r == payload_u32_of(payload@),
{
    if payload.len() != 4 {
        return Err(MultisigError::InvalidInstructionData);
    }
    Ok(u32_from_le_bytes(payload))
}

/// A header after every proposal in flight is made stale, refused if it
/// breaks a rule.
pub open spec fn settled_header(h: Multisig) -> Result<Multisig, MultisigError> {
    let h1 = Multisig { stale_transaction_index: h.transaction_index, ..h };
    match multisig_violation(h1) {
        Some(e) => Err(e),
        None => Ok(h1),
    }
}

/// What an action that leaves the owner set's shape alone does to the header
/// and permissions, before the shared invalidate-and-check.
pub open spec fn header_action(
    h: Multisig,
    owners: Seq<Address>,
    permissions: Seq<u8>,
    action: ConfigAction,
    payload: Seq<u8>,
) -> Result<(Multisig, Seq<u8>), MultisigError> {
    match action {
        ConfigAction::ChangeThreshold => match payload_u32_of(payload) {
            Ok(t) => Ok((Multisig { threshold: t, ..h }, permissions)),
            Err(e) => Err(e),
        },
        ConfigAction::ChangeTimeLock => match payload_u32_of(payload) {
            Ok(t) => Ok((Multisig { time_lock: t, ..h }, permissions)),
            Err(e) => Err(e),
        },
        ConfigAction::SetRentCollector => match payload_address_of(payload) {
            Ok(a) => Ok((Multisig { rent_collector: a, ..h }, permissions)),
            Err(e) => Err(e),
        },
        ConfigAction::SetConfigAuthority => match payload_address_of(payload) {
            Ok(a) => Ok((Multisig { config_authority: a, ..h }, permissions)),
            Err(e) => Err(e),
        },
        _ => set_permission_of(h, owners, permissions, payload),
    }
}

/// What setting one owner's permission mask does, keeping `voter_count` in
/// step.
pub open spec fn set_permission_of(
    h: Multisig,
    owners: Seq<Address>,
    permissions: Seq<u8>,
    payload: Seq<u8>,
) -> Result<(Multisig, Seq<u8>), MultisigError> {
    if payload.len() != 33 {
        Err(MultisigError::InvalidInstructionData)
    } else if payload[32] > Permission::ALL {
        Err(MultisigError::UnknownPermission)
    } else {
        match owner_index(owners, payload.subrange(0, 32)) {
            None => Err(MultisigError::NotAnOwner),
            Some(i) => {
                let mask = payload[32];
                let was_voter = mask_grants(permissions[i], Permission::VOTE);
                let is_voter = mask_grants(mask, Permission::VOTE);
                if !was_voter && is_voter && h.voter_count == u32::MAX {
                    Err(MultisigError::Overflow)
                } else if was_voter && !is_voter && h.voter_count == 0 {
                    Err(MultisigError::Overflow)
                } else {
                    let voters = if !was_voter && is_voter {
                        h.voter_count + 1
                    } else if was_voter && !is_voter {
                        h.voter_count - 1
                    } else {
                        h.voter_count as int
                    };
                    Ok((Multisig { voter_count: voters as u32, ..h }, permissions.update(i, mask)))
                }
            },
        }
    }
}

/// Sets one owner's permission mask, keeping `voter_count` in step.
fn set_permission(h: &mut Multisig, owners: &[Address], permissions: &mut Vec<u8>, payload: &[u8]) -> (r:
    Result<(), MultisigError>)
    requires
        old(permissions)@.len() == owners@.len(),
    ensures
        match set_permission_of(*old(h), owners@, old(permissions)@, payload@) {
            Ok((h1, p1)) => r is Ok && *final(h) == h1 && final(permissions)@ == p1,
            Err(e) => r == Err::<(), MultisigError>(e),
        },
{
    if payload.len() != 33 {
        return Err(MultisigError::InvalidInstructionData);
    }
    let owner = payload_address(slice_subrange(payload, 0, 32))?;
    let mask = payload[32];
    if mask > Permission::ALL {
        return Err(MultisigError::UnknownPermission);
    }
    let index = match Multisig::is_owner(owners, &owner) {
        Some(i) => i,
        None => {
            return Err(MultisigError::NotAnOwner);
        },
    };
    let was_voter = Multisig::mask_can_vote(permissions[index]);
    let is_voter = Multisig::mask_can_vote(mask);
    // Maintained rather than recounted; scanning would be linear in the owner
    // count and this runs on every change.
    if !was_voter && is_voter {
        if h.voter_count == u32::MAX {
            return Err(MultisigError::Overflow);
        }
        h.voter_count = h.voter_count + 1;
    } else if was_voter && !is_voter {
        if h.voter_count == 0 {
            return Err(MultisigError::Overflow);
        }
        h.voter_count = h.voter_count - 1;
    }
    permissions.set(index, mask);
    Ok(())
}

/// Applies an action that leaves the owner set's shape alone, then makes
/// every proposal in flight stale and checks the header's rules.
pub fn apply_header_action(
    h: &mut Multisig,
    owners: &[Address],
    permissions: &mut Vec<u8>,
    action: ConfigAction,
    payload: &[u8],
) -> (r: Result<(), MultisigError>)
    requires
        old(permissions)@.len() == owners@.len(),
        action != ConfigAction::AddOwner,
        action != ConfigAction::RemoveOwner,
        action != ConfigAction::CloseMultisig,
    ensures
        match header_action(*old(h), owners@, old(permissions)@, action, payload@) {
            Ok((h1, p1)) => match settled_header(h1) {
                Ok(h2) => r is Ok && *final(h) == h2 && final(permissions)@ == p1,
                Err(e) => r == Err::<(), MultisigError>(e),
            },
            Err(e) => r == Err::<(), MultisigError>(e),
        },
{
    match action {
        ConfigAction::ChangeThreshold => {
            h.threshold = payload_u32(payload)?;
        },
        ConfigAction::ChangeTimeLock => {
            h.time_lock = payload_u32(payload)?;
        },
        ConfigAction::SetRentCollector => {
            h.rent_collector = payload_address(payload)?;
        },
        ConfigAction::SetConfigAuthority => {
            h.config_authority = payload_address(payload)?;
        },
        _ => {
            set_permission(h, owners, permissions, payload)?;
        },
    }
    // Every proposal in flight was voted on against the configuration that
    // stood a moment ago, so none of them may be voted on further. Shared here
    // so no action can forget it.
    h.invalidate_prior_transactions();
    h.check_invariant()
}

/// Where a new owner goes, or why it cannot be added.
pub open spec fn add_owner_position(owners: Seq<Address>, owner: Seq<u8>, count: u32) -> Result<
    int,
    MultisigError,
> {
    match search_owners(owners, owner) {
        Ok(_) => Err(MultisigError::OwnerAlreadyExists),
        Err(p) => if count >= MAX_OWNER {
            Err(MultisigError::InvalidOwnerCount)
        } else {
            Ok(p)
        },
    }
}

/// The owner set after inserting `owner` at `pos` with the all-permissions
/// mask, or why the result is refused.
///
/// Only the neighbours of the new entry can be out of order, so ordering is
/// checked there rather than across the whole set.
pub open spec fn add_owner_insert(
    h: Multisig,
    owners: Seq<Address>,
    permissions: Seq<u8>,
    owner: Address,
    pos: int,
) -> Result<(Multisig, Seq<Address>, Seq<u8>), MultisigError> {
    let o1 = owners.insert(pos, owner);
    if h.voter_count == u32::MAX {
        Err(MultisigError::Overflow)
    } else if pos > 0 && !lex_lt(o1[pos - 1]@, o1[pos]@) {
        Err(MultisigError::OwnersNotSorted)
    } else if pos + 1 < o1.len() && !lex_lt(o1[pos]@, o1[pos + 1]@) {
        Err(MultisigError::OwnersNotSorted)
    } else {
        match settled_header(
            Multisig {
                owners_count: (owners.len() + 1) as u32,
                voter_count: (h.voter_count + 1) as u32,
                ..h
            },
        ) {
            Ok(h2) => Ok((h2, o1, permissions.insert(pos, 0u8))),
            Err(e) => Err(e),
        }
    }
}

/// The owner set after removing `owner`, or why it is refused.
///
/// A removal that would leave the threshold above the remaining voters is
/// refused by the header's rules: lowering the threshold is its own change.
pub open spec fn remove_owner_of(
    h: Multisig,
    owners: Seq<Address>,
    permissions: Seq<u8>,
    owner: Seq<u8>,
) -> Result<(Multisig, Seq<Address>, Seq<u8>), MultisigError> {
    match owner_index(owners, owner) {
        None => Err(MultisigError::NotAnOwner),
        Some(i) => {
            let was_voter = mask_grants(permissions[i], Permission::VOTE);
            if was_voter && h.voter_count == 0 {
                Err(MultisigError::Overflow)
            } else {
                let h1 = Multisig {
                    owners_count: (owners.len() - 1) as u32,
                    voter_count: if was_voter {
                        (h.voter_count - 1) as u32
                    } else {
                        h.voter_count
                    },
                    ..h
                };
                match settled_header(h1) {
                    Ok(h2) => Ok((h2, owners.remove(i), permissions.remove(i))),
                    Err(e) => Err(e),
                }
            }
        },
    }
}

/// Finds where a new owner goes.
fn find_insert_position(owners: &[Address], owner: &Address, count: u32) -> (r: Result<
    usize,
    MultisigError,
>)
    ensures
        match add_owner_position(owners@, owner@, count) {
            Ok(p) => r == Ok::<usize, MultisigError>(p as usize) && 0 <= p <= owners@.len(),
            Err(e) => r == Err::<usize, MultisigError>(e),
        },
{
    match Multisig::search(owners, owner) {
        Ok(_) => Err(MultisigError::OwnerAlreadyExists),
        Err(pos) => {
            proof {
                crate::state::multisig::lemma_search_bounds(owners@, owner@);
            }
            if count as usize >= MAX_OWNER {
                Err(MultisigError::InvalidOwnerCount)
            } else {
                Ok(pos)
            }
        },
    }
}

/// Inserts `owner` at `pos`, keeping the set ascending.
fn insert_owner(
    h: &mut Multisig,
    owners: &mut Vec<Address>,
    permissions: &mut Vec<u8>,
    owner: Address,
    pos: usize,
) -> (r: Result<(), MultisigError>)
    requires
        pos <= old(owners)@.len(),
        old(owners)@.len() < MAX_OWNER,
        old(permissions)@.len() == old(owners)@.len(),
    ensures
        match add_owner_insert(*old(h), old(owners)@, old(permissions)@, owner, pos as int) {
            Ok((h1, o1, p1)) => r is Ok && *final(h) == h1 && final(owners)@ == o1
                && final(permissions)@ == p1,
            Err(e) => r == Err::<(), MultisigError>(e),
        },
{
    if h.voter_count == u32::MAX {
        return Err(MultisigError::Overflow);
    }
    let count = owners.len();
    owners.insert(pos, owner);
    // Zero reads as every permission, the sensible default.
    permissions.insert(pos, 0u8);
    if pos > 0 {
        match owners[pos - 1].compare(&owners[pos]) {
            Order::Less => {},
            _ => {
                return Err(MultisigError::OwnersNotSorted);
            },
        }
    }
    if pos + 1 < owners.len() {
        match owners[pos].compare(&owners[pos + 1]) {
            Order::Less => {},
            _ => {
                return Err(MultisigError::OwnersNotSorted);
            },
        }
    }
    h.owners_count = (count + 1) as u32;
    h.voter_count = h.voter_count + 1;
    h.invalidate_prior_transactions();
    h.check_invariant()
}

/// Removes `owner`, keeping the set ascending.
fn remove_owner_entry(
    h: &mut Multisig,
    owners: &mut Vec<Address>,
    permissions: &mut Vec<u8>,
    owner: &Address,
) -> (r: Result<(), MultisigError>)
    requires
        old(permissions)@.len() == old(owners)@.len(),
    ensures
        match remove_owner_of(*old(h), old(owners)@, old(permissions)@, owner@) {
            Ok((h1, o1, p1)) => r is Ok && *final(h) == h1 && final(owners)@ == o1
                && final(permissions)@ == p1,
            Err(e) => r == Err::<(), MultisigError>(e),
        },
{
    let pos = match Multisig::is_owner(owners.as_slice(), owner) {
        Some(i) => i,
        None => {
            return Err(MultisigError::NotAnOwner);
        },
    };
    let was_voter = Multisig::mask_can_vote(permissions[pos]);
    if was_voter && h.voter_count == 0 {
        return Err(MultisigError::Overflow);
    }
    let count = owners.len();
    owners.remove(pos);
    permissions.remove(pos);
    h.owners_count = (count - 1) as u32;
    if was_voter {
        h.voter_count = h.voter_count - 1;
    }
    h.invalidate_prior_transactions();
    h.check_invariant()
}

/// Lamport movements that leave `multisig` rent exempt at its new size:
/// its new balance, the payer's new balance, and what the payer must still
/// transfer in through the system program.
///
/// Growing pulls from the payer through the system program, since the payer
/// is not ours to debit. Shrinking pushes the excess back directly, which is
/// permitted because the account being debited is ours.
pub open spec fn settle_of(held: u64, payer: u64, required: int) -> Result<
    (u64, u64, u64),
    MultisigError,
> {
    if held < required {
        Ok((held, payer, (required - held) as u64))
    } else if held > required {
        if payer + (held - required) > u64::MAX {
            Err(MultisigError::Overflow)
        } else {
            Ok((required as u64, (payer + (held - required)) as u64, 0))
        }
    } else {
        Ok((held, payer, 0))
    }
}

/// Computes the lamport movements of [`settle_of`].
fn settle_rent(held: u64, payer: u64, required: u64) -> (r: Result<(u64, u64, u64), MultisigError>)
    ensures
        r == settle_of(held, payer, required as int),
{
    if held < required {
        Ok((held, payer, required - held))
    } else if held > required {
        let refund = held - required;
        match payer.checked_add(refund) {
            Some(credited) => Ok((required, credited, 0)),
            None => Err(MultisigError::Overflow),
        }
    } else {
        Ok((held, payer, 0))
    }
}

/// The multisig and payer after an owner is added, with what the payer must
/// transfer in, or why it is refused.
pub open spec fn add_owner_outcome(
    multisig: AccountModel,
    payer: AccountModel,
    payload: Seq<u8>,
    rent: Rent,
) -> Result<(AccountModel, AccountModel, u64), MultisigError> {
    match payload_address_of(payload) {
        Err(e) => Err(e),
        Ok(owner) => match parse_multisig_account(multisig.data) {
            None => Err(MultisigError::InvalidAccountData),
            Some((h, o, p)) => match add_owner_position(o, owner@, h.owners_count) {
                Err(e) => Err(e),
                Ok(pos) => match settle_of(
                    multisig.lamports,
                    payer.lamports,
                    rent_exempt_minimum(rent, 144 + 33 * (h.owners_count + 1)),
                ) {
                    Err(e) => Err(e),
                    Ok((held, paid, transfer)) => match add_owner_insert(h, o, p, owner, pos) {
                        Err(e) => Err(e),
                        Ok((h2, o2, p2)) => Ok(
                            (
                                with_lamports(
                                    with_data(multisig, multisig_account_bytes(h2, o2, p2)),
                                    held,
                                ),
                                with_lamports(payer, paid),
                                transfer,
                            ),
                        ),
                    },
                },
            },
        },
    }
}

/// The multisig and payer after an owner is removed, or why it is refused.
pub open spec fn remove_owner_outcome(
    multisig: AccountModel,
    payer: AccountModel,
    payload: Seq<u8>,
    rent: Rent,
) -> Result<(AccountModel, AccountModel, u64), MultisigError> {
    match payload_address_of(payload) {
        Err(e) => Err(e),
        Ok(owner) => match parse_multisig_account(multisig.data) {
            None => Err(MultisigError::InvalidAccountData),
            Some((h, o, p)) => match remove_owner_of(h, o, p, owner@) {
                Err(e) => Err(e),
                Ok((h2, o2, p2)) => match settle_of(
                    multisig.lamports,
                    payer.lamports,
                    rent_exempt_minimum(rent, 144 + 33 * (h.owners_count - 1)),
                ) {
                    Err(e) => Err(e),
                    Ok((held, paid, transfer)) => Ok(
                        (
                            with_lamports(
                                with_data(multisig, multisig_account_bytes(h2, o2, p2)),
                                held,
                            ),
                            with_lamports(payer, paid),
                            transfer,
                        ),
                    ),
                },
            },
        },
    }
}

/// The multisig and destination after the multisig is closed, or why it is
/// refused.
///
/// Refused unless the only proposal still open is the one carrying this
/// action (through a proposal) or none is (through the config authority):
/// closing the config while other proposals remain would strand their rent.
pub open spec fn close_multisig_outcome(
    multisig: AccountModel,
    destination: AccountModel,
    payload: Seq<u8>,
    via_proposal: bool,
) -> Result<(AccountModel, AccountModel, u64), MultisigError> {
    if payload.len() != 0 {
        Err(MultisigError::InvalidInstructionData)
    } else {
        match parse_multisig_account(multisig.data) {
            None => Err(MultisigError::InvalidAccountData),
            Some((h, _, _)) => {
                let clear = if via_proposal {
                    h.closed_transaction_count + 1 == h.transaction_index
                } else {
                    h.closed_transaction_count == h.transaction_index
                };
                if !clear {
                    Err(MultisigError::TransactionsOutstanding)
                } else if h.rent_collector@ != zero_address() && h.rent_collector@
                    != destination.address {
                    Err(MultisigError::InvalidAccount)
                } else if destination.lamports + multisig.lamports > u64::MAX {
                    Err(MultisigError::Overflow)
                } else {
                    Ok(
                        (
                            closed(multisig),
                            with_lamports(
                                destination,
                                (destination.lamports + multisig.lamports) as u64,
                            ),
                            0,
                        ),
                    )
                }
            },
        }
    }
}

/// The multisig and payer after a config action, with what the payer must
/// transfer in, or why it is refused.
pub open spec fn config_outcome(
    multisig: AccountModel,
    payer: AccountModel,
    data: Seq<u8>,
    via_proposal: bool,
    rent: Rent,
) -> Result<(AccountModel, AccountModel, u64), MultisigError> {
    if data.len() == 0 {
        Err(MultisigError::InvalidInstructionData)
    } else {
        let payload = data.subrange(1, data.len() as int);
        match config_action_of(data[0]) {
            Err(e) => Err(e),
            Ok(ConfigAction::CloseMultisig) => close_multisig_outcome(
                multisig,
                payer,
                payload,
                via_proposal,
            ),
            Ok(ConfigAction::AddOwner) => add_owner_outcome(multisig, payer, payload, rent),
            Ok(ConfigAction::RemoveOwner) => remove_owner_outcome(multisig, payer, payload, rent),
            Ok(action) => match parse_multisig_account(multisig.data) {
                None => Err(MultisigError::InvalidAccountData),
                Some((h, o, p)) => match header_action(h, o, p, action, payload) {
                    Err(e) => Err(e),
                    Ok((h1, p1)) => match settled_header(h1) {
                        Err(e) => Err(e),
                        Ok(h2) => Ok(
                            (with_data(multisig, multisig_account_bytes(h2, o, p1)), payer, 0),
                        ),
                    },
                },
            },
        }
    }
}

/// Where lamports go in a config action. One that asks the payer for a
/// transfer leaves both balances as they were; any other only moves lamports
/// from the multisig to the payer, none arriving from anywhere else.
pub proof fn lemma_config_lamports(
    multisig: AccountModel,
    payer: AccountModel,
    data: Seq<u8>,
    via_proposal: bool,
    rent: Rent,
)
    requires
        config_outcome(multisig, payer, data, via_proposal, rent) is Ok,
    ensures
        ({
            let (m, p, transfer) = config_outcome(multisig, payer, data, via_proposal, rent)->Ok_0;
            &&& transfer > 0 ==> m.lamports == multisig.lamports && p.lamports == payer.lamports
            &&& transfer == 0 ==> p.lamports >= payer.lamports && m.lamports + (p.lamports
                - payer.lamports) == multisig.lamports
            &&& m.address == multisig.address
            &&& p.address == payer.address
        }),
{
}

/// Applies a config action to `multisig`.
///
/// `payer` funds a growing owner set and receives the refund from a shrinking
/// one. The result is the lamports `payer` must still transfer into
/// `multisig` through the system program for the account to stay rent exempt.
/// On an error neither account changes.
pub fn apply_config_action(
    multisig: &mut AccountView,
    payer: &mut AccountView,
    data: &[u8],
    via_proposal: bool,
    rent: &Rent,
) -> (r: Result<u64, MultisigError>)
    requires
        rent.lamports_per_byte <= MAX_LAMPORTS_PER_BYTE,
    ensures
        match config_outcome(old(multisig)@, old(payer)@, data@, via_proposal, *rent) {
            Ok((m, p, transfer)) => r == Ok::<u64, MultisigError>(transfer) && final(multisig)@ == m
                && final(payer)@ == p,
            Err(e) => r == Err::<u64, MultisigError>(e) && final(multisig)@ == old(multisig)@
                && final(payer)@ == old(payer)@,
        },
{
    if data.len() == 0 {
        return Err(MultisigError::InvalidInstructionData);
    }
    let tag = data[0];
    let payload = slice_subrange(data, 1, data.len());
    let action = ConfigAction::from_u8(tag)?;
    // Closing ends the account, so it cannot run the invalidate-and-check tail
    // the other actions share: there would be nothing left to check.
    match action {
        ConfigAction::CloseMultisig => {
            return close_multisig(multisig, payer, payload, via_proposal);
        },
        ConfigAction::AddOwner => {
            return add_owner(multisig, payer, payload, rent);
        },
        ConfigAction::RemoveOwner => {
            return remove_owner(multisig, payer, payload, rent);
        },
        _ => {},
    }
    let (mut h, owners, mut permissions) = Multisig::load(multisig.data.as_slice())?;
    apply_header_action(&mut h, owners.as_slice(), &mut permissions, action, payload)?;
    let bytes = h.to_account_bytes(owners.as_slice(), permissions.as_slice());
    multisig.set_data(bytes);
    Ok(0)
}

/// Inserts a new owner, keeping the set ascending, and resizes the account.
fn add_owner(multisig: &mut AccountView, payer: &mut AccountView, payload: &[u8], rent: &Rent) -> (r:
    Result<u64, MultisigError>)
    requires
        rent.lamports_per_byte <= MAX_LAMPORTS_PER_BYTE,
    ensures
        match add_owner_outcome(old(multisig)@, old(payer)@, payload@, *rent) {
            Ok((m, p, transfer)) => r == Ok::<u64, MultisigError>(transfer) && final(multisig)@ == m
                && final(payer)@ == p,
            Err(e) => r == Err::<u64, MultisigError>(e) && final(multisig)@ == old(multisig)@
                && final(payer)@ == old(payer)@,
        },
{
    let owner = payload_address(payload)?;
    let (mut h, mut owners, mut permissions) = Multisig::load(multisig.data.as_slice())?;
    let count = h.owners_count;
    let pos = find_insert_position(owners.as_slice(), &owner, count)?;
    let new_space = Multisig::space(count as usize + 1);
    let required = rent.minimum_balance_unchecked(new_space);
    let (held, paid, transfer) = settle_rent(multisig.lamports(), payer.lamports(), required)?;
    insert_owner(&mut h, &mut owners, &mut permissions, owner, pos)?;
    let bytes = h.to_account_bytes(owners.as_slice(), permissions.as_slice());
    multisig.set_data(bytes);
    multisig.set_lamports(held);
    payer.set_lamports(paid);
    Ok(transfer)
}

/// Removes an owner, keeping the set ascending, and resizes the account.
fn remove_owner(multisig: &mut AccountView, payer: &mut AccountView, payload: &[u8], rent: &Rent) -> (r:
    Result<u64, MultisigError>)
    requires
        rent.lamports_per_byte <= MAX_LAMPORTS_PER_BYTE,
    ensures
        match remove_owner_outcome(old(multisig)@, old(payer)@, payload@, *rent) {
            Ok((m, p, transfer)) => r == Ok::<u64, MultisigError>(transfer) && final(multisig)@ == m
                && final(payer)@ == p,
            Err(e) => r == Err::<u64, MultisigError>(e) && final(multisig)@ == old(multisig)@
                && final(payer)@ == old(payer)@,
        },
{
    let owner = payload_address(payload)?;
    let (mut h, mut owners, mut permissions) = Multisig::load(multisig.data.as_slice())?;
    let count = h.owners_count;
    remove_owner_entry(&mut h, &mut owners, &mut permissions, &owner)?;
    let new_space = Multisig::space(count as usize - 1);
    let required = rent.minimum_balance_unchecked(new_space);
    let (held, paid, transfer) = settle_rent(multisig.lamports(), payer.lamports(), required)?;
    let bytes = h.to_account_bytes(owners.as_slice(), permissions.as_slice());
    multisig.set_data(bytes);
    multisig.set_lamports(held);
    payer.set_lamports(paid);
    Ok(transfer)
}

/// Closes the multisig and returns its rent to `destination`.
fn close_multisig(
    multisig: &mut AccountView,
    destination: &mut AccountView,
    payload: &[u8],
    via_proposal: bool,
) -> (r: Result<u64, MultisigError>)
    ensures
        match close_multisig_outcome(old(multisig)@, old(destination)@, payload@, via_proposal) {
            Ok((m, d, transfer)) => r == Ok::<u64, MultisigError>(transfer) && final(multisig)@ == m
                && final(destination)@ == d,
            Err(e) => r == Err::<u64, MultisigError>(e) && final(multisig)@ == old(multisig)@
                && final(destination)@ == old(destination)@,
        },
{
    if payload.len() != 0 {
        return Err(MultisigError::InvalidInstructionData);
    }
    let (h, _, _) = Multisig::load(multisig.data.as_slice())?;
    // Reached through a proposal, the proposal carrying this action is itself
    // open and is excluded. Reached through the config authority, nothing is
    // executing, so everything must already be closed.
    let clear = if via_proposal {
        h.only_executing_transaction_open()
    } else {
        h.all_transactions_closed()
    };
    if !clear {
        return Err(MultisigError::TransactionsOutstanding);
    }
    // Rent goes where the multisig says, when it says anything.
    if !h.rent_collector.is_zero() {
        validate_eq(&h.rent_collector, destination.address(), MultisigError::InvalidAccount)?;
    }
    // Lamports must leave the account before it is closed, or the instruction
    // ends unbalanced and the runtime rejects it.
    let refund = multisig.lamports();
    let credited = match destination.lamports().checked_add(refund) {
        Some(c) => c,
        None => {
            return Err(MultisigError::Overflow);
        },
    };
    destination.set_lamports(credited);
    multisig.set_lamports(0);
    multisig.close();
    Ok(0)
}

} // verus!
