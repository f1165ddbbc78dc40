//! Accounts as an instruction sees them, and the checks every instruction
//! makes of them.
//!
//! The runtime hands a program its accounts by reference; here an account is a
//! plain value whose data can be read, decided on, and written back. A failed
//! instruction leaves every account as it found it, which the handlers model
//! by writing only once every check has passed.

use vstd::prelude::*;

use crate::address::Address;
use crate::error::MultisigError;

verus! {

/// One account passed to an instruction.
#[derive(Clone, Debug)]
pub struct AccountView {
    /// The account's address.
    pub address: Address,
    /// The program that owns the account.
    pub owner: Address,
    /// Whether the account signed the transaction.
    pub is_signer: bool,
    /// Whether the transaction may write the account.
    pub is_writable: bool,
    /// Balance in lamports.
    pub lamports: u64,
    /// The account's data.
    pub data: Vec<u8>,
}

/// The value of an account: everything an instruction can read or change.
pub struct AccountModel {
    /// The account's address.
    pub address: Seq<u8>,
    /// The program that owns the account.
    pub owner: Seq<u8>,
    /// Whether the account signed the transaction.
    pub is_signer: bool,
    /// Whether the transaction may write the account.
    pub is_writable: bool,
    /// Balance in lamports.
    pub lamports: u64,
    /// The account's data.
    pub data: Seq<u8>,
}

impl View for AccountView {
    type V = AccountModel;

    open spec fn view(&self) -> AccountModel {
        AccountModel {
            address: self.address@,
            owner: self.owner@,
            is_signer: self.is_signer,
            is_writable: self.is_writable,
            lamports: self.lamports,
            data: self.data@,
        }
    }
}

/// The values of a list of accounts.
pub open spec fn account_models(accounts: Seq<AccountView>) -> Seq<AccountModel> {
    accounts.map_values(|a: AccountView| a@)
}

/// An account with new data, everything else kept.
pub open spec fn with_data(a: AccountModel, data: Seq<u8>) -> AccountModel {
    AccountModel { data, ..a }
}

/// An account with a new balance, everything else kept.
pub open spec fn with_lamports(a: AccountModel, lamports: u64) -> AccountModel {
    AccountModel { lamports, ..a }
}

/// An account after it is closed: no data, no lamports, no owner.
pub open spec fn closed(a: AccountModel) -> AccountModel {
    AccountModel {
        data: Seq::empty(),
        lamports: 0,
        owner: Seq::new(32, |i: int| 0u8),
        ..a
    }
}

impl AccountView {
    /// The account's address.
    pub fn address(&self) -> (r: &Address)
        ensures
            *r == self.address,
    {
        &self.address
    }

    /// The program that owns the account.
    pub fn owner(&self) -> (r: &Address)
        ensures
            *r == self.owner,
    {
        &self.owner
    }

    /// Whether the account signed the transaction.
    pub fn is_signer(&self) -> (r: bool)
        ensures
            r == self.is_signer,
    {
        self.is_signer
    }

    /// Balance in lamports.
    pub fn lamports(&self) -> (r: u64)
        ensures
            r == self.lamports,
    {
        self.lamports
    }

    /// Whether the account holds no data.
    pub fn is_data_empty(&self) -> (r: bool)
        ensures
            r == (self.data@.len() == 0),
    {
        self.data.len() == 0
    }

    /// An independent copy of the account.
    pub fn duplicate(&self) -> (r: AccountView)
        ensures
            r@ == self@,
    {
        AccountView {
            address: self.address,
            owner: self.owner,
            is_signer: self.is_signer,
            is_writable: self.is_writable,
            lamports: self.lamports,
            data: vstd::slice::slice_to_vec(self.data.as_slice()),
        }
    }

    /// Replaces the account's data.
    pub fn set_data(&mut self, data: Vec<u8>)
        ensures
            final(self)@ == with_data(old(self)@, data@),
    {
        self.data = data;
    }

    /// Sets the account's balance.
    pub fn set_lamports(&mut self, lamports: u64)
        ensures
            final(self)@ == with_lamports(old(self)@, lamports),
    {
        self.lamports = lamports;
    }

    /// Zeroes the account's data length, lamports and owner, closing it.
    ///
    /// The lamports must be moved out first, or the instruction ends
    /// unbalanced and the runtime rejects it.
    pub fn close(&mut self)
        ensures
            final(self)@ == closed(old(self)@),
    {
        self.data = Vec::new();
        self.lamports = 0;
        self.owner = Address::zero();
    }
}

/// Returns `err` if `a` and `b` differ.
pub fn validate_eq(a: &Address, b: &Address, err: MultisigError) -> (r: Result<(), MultisigError>)
    ensures
        r == if a@ == b@ {
            Ok(())
        } else {
            Err(err)
        },
{
    if a.is_eq(b) {
        Ok(())
    } else {
        Err(err)
    }
}

/// Returns `err` if the account did not sign.
pub fn check_signer(a: &AccountView, err: MultisigError) -> (r: Result<(), MultisigError>)
    ensures
        r == if a.is_signer {
            Ok(())
        } else {
            Err(err)
        },
{
    if !a.is_signer() {
        Err(err)
    } else {
        Ok(())
    }
}

/// Returns `err` if the account is not owned by `program_id`.
///
/// Every caller-supplied state account needs this. Without it a forged account
/// created under another program parses as valid state.
pub fn check_owner(a: &AccountView, program_id: &Address, err: MultisigError) -> (r: Result<
    (),
    MultisigError,
>)
    ensures
        r == if a.owner@ == program_id@ {
            Ok(())
        } else {
            Err(err)
        },
{
    validate_eq(a.owner(), program_id, err)
}

} // verus!
