//! Limits and PDA seed prefixes.

use vstd::prelude::*;

use crate::address::Address;

verus! {

/// Maximum owners per multisig.
pub const MAX_OWNER: usize = 4096;

/// Longest permitted delay between approval and execution, in seconds.
///
/// Capped at three months so a config change cannot brick a multisig by
/// putting its funds beyond reach.
pub const MAX_TIME_LOCK: u32 = 7776000;

/// Largest compiled message a proposal may hold, in bytes.
pub const MAX_MESSAGE_SIZE: usize = 4096;

/// Largest number of accounts a single inner instruction may reference.
pub const MAX_CPI_ACCOUNTS: usize = 32;

/// Bytes of a lookup table account before its addresses begin.
pub const LOOKUP_TABLE_META_SIZE: usize = 56;

/// Most ephemeral signers a single proposal may derive.
pub const MAX_EPHEMERAL_SIGNERS: usize = 4;

/// Offset of `deactivation_slot` within a lookup table account.
pub const LOOKUP_TABLE_DEACTIVATION_OFFSET: usize = 4;

/// The bytes of the `multisig` seed prefix.
pub open spec fn multisig_seed_bytes() -> Seq<u8> {
    seq![109u8, 117, 108, 116, 105, 115, 105, 103]
}

/// The bytes of the `transaction` seed prefix.
pub open spec fn transaction_seed_bytes() -> Seq<u8> {
    seq![116u8, 114, 97, 110, 115, 97, 99, 116, 105, 111, 110]
}

/// The bytes of the `vault` seed prefix.
pub open spec fn vault_seed_bytes() -> Seq<u8> {
    seq![118u8, 97, 117, 108, 116]
}

/// The bytes of the `buffer` seed prefix.
pub open spec fn buffer_seed_bytes() -> Seq<u8> {
    seq![98u8, 117, 102, 102, 101, 114]
}

/// The bytes of the `ephemeral` seed prefix.
pub open spec fn ephemeral_seed_bytes() -> Seq<u8> {
    seq![101u8, 112, 104, 101, 109, 101, 114, 97, 108]
}

/// The Address Lookup Table program's address.
pub open spec fn lookup_table_program_bytes() -> Seq<u8> {
    seq![
        2u8, 119, 166, 175, 151, 51, 155, 122, 200, 141, 24, 146, 201, 4, 70, 245, 0, 2, 48,
        146, 102, 246, 46, 83, 193, 24, 36, 73, 130, 0, 0, 0,
    ]
}

/// This program's address.
pub open spec fn program_id_bytes() -> Seq<u8> {
    seq![
        52u8, 72, 32, 218, 158, 79, 220, 235, 132, 237, 218, 24, 88, 210, 229, 81, 81, 84, 61,
        159, 197, 110, 19, 155, 166, 170, 11, 45, 46, 163, 67, 226,
    ]
}

/// Seed prefix for the multisig PDA, derived as `["multisig", create_key]`.
pub fn multisig_seed() -> (r: Vec<u8>)
    ensures
        r@ == multisig_seed_bytes(),
{
    vec![109u8, 117, 108, 116, 105, 115, 105, 103]
}

/// Seed prefix for a transaction PDA, `["transaction", multisig, index]`.
pub fn transaction_seed() -> (r: Vec<u8>)
    ensures
        r@ == transaction_seed_bytes(),
{
    vec![116u8, 114, 97, 110, 115, 97, 99, 116, 105, 111, 110]
}

/// Seed prefix for a vault PDA, `["vault", multisig, vault_index]`.
pub fn vault_seed() -> (r: Vec<u8>)
    ensures
        r@ == vault_seed_bytes(),
{
    vec![118u8, 97, 117, 108, 116]
}

/// Seed prefix for a buffer PDA, `["buffer", multisig, creator, index]`.
pub fn buffer_seed() -> (r: Vec<u8>)
    ensures
        r@ == buffer_seed_bytes(),
{
    vec![98u8, 117, 102, 102, 101, 114]
}

/// Seed prefix for an ephemeral signer PDA, `["ephemeral", transaction, index]`.
pub fn ephemeral_seed() -> (r: Vec<u8>)
    ensures
        r@ == ephemeral_seed_bytes(),
{
    vec![101u8, 112, 104, 101, 109, 101, 114, 97, 108]
}

/// The Address Lookup Table program, which owns every lookup table account.
pub fn address_lookup_table_id() -> (r: Address)
    ensures
        r@ == lookup_table_program_bytes(),
{
    let r = Address::new_from_array(
        [
            2u8, 119, 166, 175, 151, 51, 155, 122, 200, 141, 24, 146, 201, 4, 70, 245, 0, 2, 48,
            146, 102, 246, 46, 83, 193, 24, 36, 73, 130, 0, 0, 0,
        ],
    );
    assert(r@ =~= lookup_table_program_bytes());
    r
}

/// This program's address.
pub fn id() -> (r: Address)
    ensures
        r@ == program_id_bytes(),
{
    let r = Address::new_from_array(
        [
            52u8, 72, 32, 218, 158, 79, 220, 235, 132, 237, 218, 24, 88, 210, 229, 81, 81, 84, 61,
            159, 197, 110, 19, 155, 166, 170, 11, 45, 46, 163, 67, 226,
        ],
    );
    assert(r@ =~= program_id_bytes());
    r
}

/// Whether `address` is this program's address.
pub fn check_id(address: &Address) -> (r: bool)
    ensures
        r == (address@ == program_id_bytes()),
{
    address.is_eq(&id())
}

/// The system program's address, all zero bytes.
pub fn system_program_id() -> (r: Address)
    ensures
        r@ == Seq::new(32, |i: int| 0u8),
{
    Address::zero()
}

} // verus!
