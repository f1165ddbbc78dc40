//! Accounts the program asks the system program to create.
//!
//! Creating an account is a cross-program invocation, which the runtime
//! performs. An instruction that creates one describes it here; once it
//! exists, the instruction's data is written into it.

use vstd::prelude::*;

use crate::address::Address;

verus! {

/// A system-program account creation, signed for by the new account's seeds.
pub struct CreateAccount {
    /// Pays the rent.
    pub from: Address,
    /// The account being created.
    pub to: Address,
    /// Lamports moved into the new account.
    pub lamports: u64,
    /// Bytes of data the new account holds.
    pub space: u64,
    /// Program that will own the new account.
    pub owner: Address,
    /// The seeds, bump last, that sign for the new account as a PDA.
    pub seeds: Vec<Vec<u8>>,
}

/// The value of an account creation.
pub struct CreateAccountModel {
    /// Pays the rent.
    pub from: Seq<u8>,
    /// The account being created.
    pub to: Seq<u8>,
    /// Lamports moved into the new account.
    pub lamports: u64,
    /// Bytes of data the new account holds.
    pub space: u64,
    /// Program that will own the new account.
    pub owner: Seq<u8>,
    /// The seeds, bump last, that sign for the new account as a PDA.
    pub seeds: Seq<Seq<u8>>,
}

/// The values of a list of byte strings.
pub open spec fn byte_strings(v: Seq<Vec<u8>>) -> Seq<Seq<u8>> {
    v.map_values(|s: Vec<u8>| s@)
}

impl View for CreateAccount {
    type V = CreateAccountModel;

    open spec fn view(&self) -> CreateAccountModel {
        CreateAccountModel {
            from: self.from@,
            to: self.to@,
            lamports: self.lamports,
            space: self.space,
            owner: self.owner@,
            seeds: byte_strings(self.seeds@),
        }
    }
}

/// A seed holding the bytes of `b`.
pub fn seed_of(b: &[u8]) -> (r: Vec<u8>)
    ensures
        r@ == b@,
{
    vstd::slice::slice_to_vec(b)
}

/// A one-byte seed.
pub fn byte_seed(b: u8) -> (r: Vec<u8>)
    ensures
        r@ == seq![b],
{
    let v = vec![b];
    assert(v@ =~= seq![b]);
    v
}

} // verus!
