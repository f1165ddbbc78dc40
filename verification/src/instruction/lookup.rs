//! Accounts a message loads from address lookup tables.
//!
//! A message names a table and indexes into it; the executor passes the
//! accounts those indexes resolve to. Nothing the executor passes is trusted:
//! each table must be a live table owned by the lookup table program, each
//! index must fall inside it, and each account passed must be the one the
//! table holds there.
//!
//! The runtime orders resolved accounts as every table's writable indexes,
//! then every table's readonly indexes, each in message order.

use vstd::bytes::*;
use vstd::prelude::*;
use vstd::slice::*;

use crate::account::{AccountModel, AccountView};
use crate::address::Address;
use crate::constants::{address_lookup_table_id, lookup_table_program_bytes};
use crate::encoding::read_u64;
use crate::error::MultisigError;
use crate::state::message::MessageLookup;
use crate::state::message_format::{lookup_key_total, lookup_writable_total, LookupModel};

verus! {

/// Bytes of a lookup table account before its addresses begin.
pub open spec fn table_meta_size() -> int {
    56
}

/// Addresses a lookup table account's data holds.
pub open spec fn table_len(data: Seq<u8>) -> int {
    (data.len() - 56) / 32
}

/// The address at `index` of a lookup table account's data.
pub open spec fn table_entry(data: Seq<u8>, index: int) -> Seq<u8> {
    data.subrange(56 + 32 * index, 56 + 32 * index + 32)
}

/// Whether a table account may be read from, or why not: it must belong to
/// the lookup table program, hold the whole meta region, and not be
/// deactivating (any deactivation slot but `u64::MAX` means the table is going
/// away).
pub open spec fn table_check(table: AccountModel) -> Result<(), MultisigError> {
    if table.owner != lookup_table_program_bytes() {
        Err(MultisigError::IllegalOwner)
    } else if table.data.len() < 56 {
        Err(MultisigError::InvalidLookupTable)
    } else if spec_u64_from_le_bytes(table.data.subrange(4, 12)) != u64::MAX {
        Err(MultisigError::InvalidLookupTable)
    } else {
        Ok(())
    }
}

/// `(table, index)` for each index in `indexes`.
pub open spec fn refs_of(table: usize, indexes: Seq<u8>) -> Seq<(usize, u8)> {
    indexes.map_values(|x: u8| (table, x))
}

/// `(table, index)` for every writable index, table by table.
pub open spec fn writable_refs(lookups: Seq<LookupModel>) -> Seq<(usize, u8)>
    decreases lookups.len(),
{
    if lookups.len() == 0 {
        Seq::empty()
    } else {
        writable_refs(lookups.drop_last()) + refs_of(
            (lookups.len() - 1) as usize,
            lookups.last().writable_indexes,
        )
    }
}

/// `(table, index)` for every readonly index, table by table.
pub open spec fn readonly_refs(lookups: Seq<LookupModel>) -> Seq<(usize, u8)>
    decreases lookups.len(),
{
    if lookups.len() == 0 {
        Seq::empty()
    } else {
        readonly_refs(lookups.drop_last()) + refs_of(
            (lookups.len() - 1) as usize,
            lookups.last().readonly_indexes,
        )
    }
}

/// Every account the lookups load, in the order the runtime passes them.
pub open spec fn lookup_refs(lookups: Seq<LookupModel>) -> Seq<(usize, u8)> {
    writable_refs(lookups) + readonly_refs(lookups)
}

/// Checks each reference in turn against the tables: the first whose index
/// runs past its table, or whose passed account is not the table's entry,
/// decides the error.
pub open spec fn resolve_check(
    refs: Seq<(usize, u8)>,
    tables: Seq<AccountModel>,
    passed: Seq<AccountModel>,
) -> Result<(), MultisigError>
    decreases refs.len(),
{
    if refs.len() == 0 {
        Ok(())
    } else {
        let (j, x) = refs[0];
        if x >= table_len(tables[j as int].data) {
            Err(MultisigError::InvalidLookupTable)
        } else if passed[0].address != table_entry(tables[j as int].data, x as int) {
            Err(MultisigError::AccountMismatch)
        } else {
            resolve_check(refs.skip(1), tables, passed.skip(1))
        }
    }
}

/// Each table, in order, is the account the message names and may be read.
pub open spec fn tables_check(lookups: Seq<LookupModel>, tables: Seq<AccountModel>) -> Result<
    (),
    MultisigError,
>
    decreases lookups.len(),
{
    if lookups.len() == 0 {
        Ok(())
    } else {
        match tables_check(lookups.drop_last(), tables) {
            Err(e) => Err(e),
            Ok(_) => {
                let t = tables[lookups.len() - 1];
                if t.address != lookups.last().account_key {
                    Err(MultisigError::AccountMismatch)
                } else {
                    table_check(t)
                }
            },
        }
    }
}

/// The references count every account the lookups load.
pub proof fn lemma_refs_len(lookups: Seq<LookupModel>)
    ensures
        writable_refs(lookups).len() == lookup_writable_total(lookups),
        lookup_refs(lookups).len() == lookup_key_total(lookups),
    decreases lookups.len(),
{
    if lookups.len() > 0 {
        lemma_refs_len(lookups.drop_last());
    }
}

/// References name only tables the message has.
pub proof fn lemma_refs_tables(lookups: Seq<LookupModel>)
    ensures
        forall|p: int|
            0 <= p < lookup_refs(lookups).len() ==> (#[trigger] lookup_refs(lookups)[p]).0
                < lookups.len(),
    decreases lookups.len(),
{
    if lookups.len() > 0 {
        lemma_refs_tables(lookups.drop_last());
        let w = writable_refs(lookups);
        let r = readonly_refs(lookups);
        let wd = writable_refs(lookups.drop_last());
        let rd = readonly_refs(lookups.drop_last());
        assert forall|p: int| 0 <= p < w.len() implies (#[trigger] w[p]).0 < lookups.len() by {
            if p < wd.len() {
                assert(lookup_refs(lookups.drop_last())[p] == wd[p]);
            }
        }
        assert forall|p: int| 0 <= p < r.len() implies (#[trigger] r[p]).0 < lookups.len() by {
            if p < rd.len() {
                assert(lookup_refs(lookups.drop_last())[wd.len() + p] == rd[p]);
            }
        }
        assert forall|p: int| 0 <= p < lookup_refs(lookups).len() implies (#[trigger] lookup_refs(
            lookups,
        )[p]).0 < lookups.len() by {
            if p < w.len() {
                assert(lookup_refs(lookups)[p] == w[p]);
            } else {
                assert(lookup_refs(lookups)[p] == r[p - w.len()]);
            }
        }
    }
}

/// Appends `(table, x)` for each `x` in `indexes`.
fn push_refs(refs: &mut Vec<(usize, u8)>, table: usize, indexes: &Vec<u8>)
    ensures
        final(refs)@ == old(refs)@ + refs_of(table, indexes@),
{
    let mut k: usize = 0;
    while k < indexes.len()
        invariant
            k <= indexes@.len(),
            refs@ == old(refs)@ + refs_of(table, indexes@.take(k as int)),
        decreases indexes@.len() - k,
    {
        refs.push((table, indexes[k]));
        proof {
            assert(refs_of(table, indexes@.take(k + 1)) =~= refs_of(table, indexes@.take(k as int)).push(
                (table, indexes@[k as int]),
            ));
        }
        k = k + 1;
    }
    assert(indexes@.take(indexes@.len() as int) =~= indexes@);
}

/// Every account the lookups load, in the order the runtime passes them.
pub fn collect_refs(lookups: &Vec<MessageLookup>) -> (r: Vec<(usize, u8)>)
    ensures
        r@ == lookup_refs(lookups@.map_values(|l: MessageLookup| l@)),
{
    let ghost models = lookups@.map_values(|l: MessageLookup| l@);
    let mut refs: Vec<(usize, u8)> = Vec::new();
    let mut j: usize = 0;
    while j < lookups.len()
        invariant
            j <= lookups@.len(),
            models == lookups@.map_values(|l: MessageLookup| l@),
            refs@ == writable_refs(models.take(j as int)),
        decreases lookups@.len() - j,
    {
        push_refs(&mut refs, j, &lookups[j].writable_indexes);
        proof {
            assert(models.take(j + 1).drop_last() =~= models.take(j as int));
        }
        j = j + 1;
    }
    assert(models.take(j as int) =~= models);
    let ghost w = refs@;
    let mut j: usize = 0;
    while j < lookups.len()
        invariant
            j <= lookups@.len(),
            models == lookups@.map_values(|l: MessageLookup| l@),
            w == writable_refs(models),
            refs@ == w + readonly_refs(models.take(j as int)),
        decreases lookups@.len() - j,
    {
        push_refs(&mut refs, j, &lookups[j].readonly_indexes);
        proof {
            assert(models.take(j + 1).drop_last() =~= models.take(j as int));
        }
        j = j + 1;
    }
    assert(models.take(j as int) =~= models);
    refs
}

/// Checks one table account.
pub fn check_table(table: &AccountView) -> (r: Result<(), MultisigError>)
    ensures
        r == table_check(table@),
{
    let alt = address_lookup_table_id();
    if !table.owner().is_eq(&alt) {
        return Err(MultisigError::IllegalOwner);
    }
    if table.data.len() < 56 {
        return Err(MultisigError::InvalidLookupTable);
    }
    if read_u64(table.data.as_slice(), 4) != u64::MAX {
        return Err(MultisigError::InvalidLookupTable);
    }
    Ok(())
}

/// Checks that each table account is the one the message names and may be
/// read. `tables[j]` is the account passed for lookup `j`.
pub fn check_tables(lookups: &Vec<MessageLookup>, tables: &[AccountView]) -> (r: Result<
    (),
    MultisigError,
>)
    requires
        tables@.len() >= lookups@.len(),
    ensures
        r == tables_check(
            lookups@.map_values(|l: MessageLookup| l@),
            tables@.map_values(|a: AccountView| a@),
        ),
{
    let ghost models = lookups@.map_values(|l: MessageLookup| l@);
    let ghost ts = tables@.map_values(|a: AccountView| a@);
    let mut j: usize = 0;
    while j < lookups.len()
        invariant
            j <= lookups@.len(),
            tables@.len() >= lookups@.len(),
            models == lookups@.map_values(|l: MessageLookup| l@),
            ts == tables@.map_values(|a: AccountView| a@),
            tables_check(models.take(j as int), ts) == Ok::<(), MultisigError>(()),
        decreases lookups@.len() - j,
    {
        proof {
            assert(models.take(j + 1).drop_last() =~= models.take(j as int));
        }
        if !tables[j].address().is_eq(&lookups[j].account_key) {
            proof {
                lemma_tables_check_prefix(models, ts, j as int + 1);
            }
            return Err(MultisigError::AccountMismatch);
        }
        if let Err(e) = check_table(&tables[j]) {
            proof {
                lemma_tables_check_prefix(models, ts, j as int + 1);
            }
            return Err(e);
        }
        j = j + 1;
    }
    assert(models.take(j as int) =~= models);
    Ok(())
}

/// A failure among the first tables is the failure of the whole list.
proof fn lemma_tables_check_prefix(lookups: Seq<LookupModel>, tables: Seq<AccountModel>, n: int)
    requires
        0 <= n <= lookups.len(),
        tables_check(lookups.take(n), tables) is Err,
    ensures
        tables_check(lookups, tables) == tables_check(lookups.take(n), tables),
    decreases lookups.len() - n,
{
    if n < lookups.len() {
        assert(lookups.take(n + 1).drop_last() =~= lookups.take(n));
        lemma_tables_check_prefix(lookups, tables, n + 1);
    } else {
        assert(lookups.take(n) =~= lookups);
    }
}

/// Checks each reference against the tables and the accounts passed for it.
/// `passed[p]` is the account passed for reference `p`.
pub fn check_refs(refs: &Vec<(usize, u8)>, tables: &[AccountView], passed: &[AccountView]) -> (r:
    Result<(), MultisigError>)
    requires
        passed@.len() >= refs@.len(),
        forall|p: int| 0 <= p < refs@.len() ==> (#[trigger] refs@[p]).0 < tables@.len(),
    ensures
        r == resolve_check(
            refs@,
            tables@.map_values(|a: AccountView| a@),
            passed@.map_values(|a: AccountView| a@),
        ),
{
    let ghost ts = tables@.map_values(|a: AccountView| a@);
    let ghost ps = passed@.map_values(|a: AccountView| a@);
    assert(refs@.skip(0) =~= refs@);
    assert(ps.skip(0) =~= ps);
    let mut p: usize = 0;
    while p < refs.len()
        invariant
            p <= refs@.len(),
            passed@.len() >= refs@.len(),
            forall|q: int| 0 <= q < refs@.len() ==> (#[trigger] refs@[q]).0 < tables@.len(),
            ts == tables@.map_values(|a: AccountView| a@),
            ps == passed@.map_values(|a: AccountView| a@),
            resolve_check(refs@, ts, ps) == resolve_check(refs@.skip(p as int), ts, ps.skip(p as int)),
        decreases refs@.len() - p,
    {
        let (j, x) = refs[p];
        let table = &tables[j];
        let n = table.data.len();
        proof {
            assert(refs@.skip(p as int)[0] == refs@[p as int]);
            assert(ps.skip(p as int)[0] == ps[p as int]);
            assert(refs@.skip(p as int).skip(1) =~= refs@.skip(p + 1));
            assert(ps.skip(p as int).skip(1) =~= ps.skip(p + 1));
        }
        if n < 56 || (x as usize) >= (n - 56) / 32 {
            return Err(MultisigError::InvalidLookupTable);
        }
        let start = 56 + 32 * (x as usize);
        let entry = Address::from_slice(slice_subrange(table.data.as_slice(), start, start + 32));
        if !passed[p].address().is_eq(&entry) {
            return Err(MultisigError::AccountMismatch);
        }
        p = p + 1;
    }
    Ok(())
}

} // verus!
