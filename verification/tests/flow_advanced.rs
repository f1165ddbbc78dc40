#![allow(dead_code, non_camel_case_types)]

use std::collections::HashMap;
use std::sync::atomic::{AtomicU64, Ordering as AtomicOrdering};

use multisig::account::AccountView;
use multisig::address::Address;
use multisig::client::{AccountMeta, Instruction};
use multisig::entrypoint::{process_instruction, Outcome};
use multisig::error::ProgramError;
use multisig::rent::Rent;

type Pubkey = Address;

/// Addresses as byte slices, as the runtime's key type offers them.
trait KeyBytes {
    fn as_ref(&self) -> &[u8];
}

impl KeyBytes for Address {
    fn as_ref(&self) -> &[u8] {
        self.as_array()
    }
}

/// Fresh keys, each sorting after the one before.
trait UniqueKey {
    fn new_unique() -> Self;
    fn default() -> Self;
}

static NEXT_KEY: AtomicU64 = AtomicU64::new(1);

impl UniqueKey for Address {
    fn new_unique() -> Self {
        let n = NEXT_KEY.fetch_add(1, AtomicOrdering::SeqCst);
        let mut bytes = [0u8; 32];
        bytes[0] = 0x40;
        bytes[24..].copy_from_slice(&n.to_be_bytes());
        Address::new_from_array(bytes)
    }

    fn default() -> Self {
        Address::new_from_array([0u8; 32])
    }
}

/// The program under test.
const PROGRAM_ID: Pubkey = Address {
    bytes: [
        52, 72, 32, 218, 158, 79, 220, 235, 132, 237, 218, 24, 88, 210, 229, 81, 81, 84, 61, 159,
        197, 110, 19, 155, 166, 170, 11, 45, 46, 163, 67, 226,
    ],
};

/// The system program.
const SYSTEM_ID: Pubkey = Address { bytes: [0u8; 32] };

/// The address lookup table program.
const LOOKUP_TABLE_PROGRAM: Pubkey = Address {
    bytes: [
        2, 119, 166, 175, 151, 51, 155, 122, 200, 141, 24, 146, 201, 4, 70, 245, 0, 2, 48, 146,
        102, 246, 46, 83, 193, 24, 36, 73, 130, 0, 0, 0,
    ],
};

/// A wall-clock time for the simulated runtime.
const TEST_UNIX_TIMESTAMP: i64 = 1_700_000_000;

/// Offsets into a `Multisig` header. The owner set follows it.
struct MultisigOffset;
type multisig_offset = MultisigOffset;
type off = MultisigOffset;

impl MultisigOffset {
    const CREATE_KEY: usize = 0;
    const CONFIG_AUTHORITY: usize = 32;
    const RENT_COLLECTOR: usize = 64;
    const TRANSACTION_INDEX: usize = 96;
    const STALE_TRANSACTION_INDEX: usize = 104;
    const CLOSED_TRANSACTION_COUNT: usize = 112;
    const TIME_LOCK: usize = 120;
    const OWNERS_COUNT: usize = 124;
    const VOTER_COUNT: usize = 128;
    const THRESHOLD: usize = 132;
    const BUMP: usize = 136;
    const HEADER_LEN: usize = 144;
    const OWNERS: usize = 144;
}

/// Offsets into a `Transaction` header. The vote bitmaps and message follow it.
struct TransactionOffset;
type tx_off = TransactionOffset;

impl TransactionOffset {
    const MULTISIG: usize = 0;
    const CREATOR: usize = 32;
    const INDEX: usize = 64;
    const APPROVED_AT: usize = 72;
    const OWNERS_COUNT: usize = 80;
    const APPROVED_COUNT: usize = 84;
    const REJECTED_COUNT: usize = 88;
    const CANCELLED_COUNT: usize = 92;
    const MESSAGE_LEN: usize = 96;
    const STATUS: usize = 100;
    const BUMP: usize = 101;
    const VAULT_INDEX: usize = 102;
    const VAULT_BUMP: usize = 103;
    const EPHEMERAL_COUNT: usize = 104;
    const EPHEMERAL_BUMPS: usize = 105;
    const HEADER_LEN: usize = 112;
}

/// Status byte values.
struct StatusByte;
type status = StatusByte;

impl StatusByte {
    const ACTIVE: u8 = 0;
    const APPROVED: u8 = 1;
    const REJECTED: u8 = 2;
    const EXECUTED: u8 = 3;
    const CANCELLED: u8 = 4;
}

/// Error codes, matching `MultisigError`.
struct ErrorCode;
type err = ErrorCode;

impl ErrorCode {
    const NOT_ENOUGH_ACCOUNTS: u32 = 0;
    const INVALID_ACCOUNT_DATA: u32 = 1;
    const ILLEGAL_OWNER: u32 = 2;
    const MISSING_SIGNATURE: u32 = 3;
    const INVALID_ACCOUNT: u32 = 4;
    const INVALID_PROGRAM_ID: u32 = 5;
    const ALREADY_INITIALIZED: u32 = 6;
    const INVALID_INSTRUCTION_DATA: u32 = 7;
    const INVALID_OWNER_COUNT: u32 = 8;
    const INVALID_THRESHOLD: u32 = 9;
    const OWNERS_NOT_SORTED: u32 = 10;
    const NOT_AN_OWNER: u32 = 11;
    const ALREADY_VOTED: u32 = 12;
    const STALE_TRANSACTION: u32 = 13;
    const INVALID_STATUS: u32 = 14;
    const UNKNOWN_STATUS: u32 = 15;
    const MULTISIG_MISMATCH: u32 = 16;
    const ACCOUNT_MISMATCH: u32 = 17;
    const OVERFLOW: u32 = 18;
    const OWNER_ALREADY_EXISTS: u32 = 19;
    const UNKNOWN_CONFIG_ACTION: u32 = 20;
    const INVALID_TIME_LOCK: u32 = 21;
    const TIME_LOCK_NOT_RELEASED: u32 = 22;
    const INVALID_MESSAGE: u32 = 23;
    const TOO_MANY_ACCOUNTS: u32 = 24;
    const BUFFER_INCOMPLETE: u32 = 25;
    const BUFFER_HASH_MISMATCH: u32 = 26;
    const INVALID_LOOKUP_TABLE: u32 = 27;
    const UNKNOWN_PERMISSION: u32 = 28;
    const NO_VOTERS: u32 = 29;
    const UNAUTHORIZED: u32 = 30;
    const TRANSACTIONS_OUTSTANDING: u32 = 31;
    const NOT_CONTROLLED: u32 = 32;
}

/// An account held by the simulated runtime.
#[derive(Clone, Debug, PartialEq)]
struct Account {
    lamports: u64,
    data: Vec<u8>,
    owner: Pubkey,
    executable: bool,
    rent_epoch: u64,
}

impl Account {
    fn new(lamports: u64, space: usize, owner: &Pubkey) -> Account {
        Account { lamports, data: vec![0u8; space], owner: *owner, executable: false, rent_epoch: 0 }
    }

    fn default() -> Account {
        Account::new(0, 0, &SYSTEM_ID)
    }
}

/// What an instruction is expected to end with.
enum Check {
    Success,
    Failure(ProgramError),
}

impl Check {
    fn success() -> Check {
        Check::Success
    }

    fn err(e: ProgramError) -> Check {
        Check::Failure(e)
    }
}

/// The clock a run sees.
struct Clock {
    unix_timestamp: i64,
}

/// The sysvars a run sees.
struct Sysvars {
    clock: Clock,
}

/// A runtime that feeds instructions to the program and carries out what it
/// asks: creating accounts, transferring lamports, invoking the system
/// program.
struct Mollusk {
    sysvars: Sysvars,
    rent: Rent,
}

/// The accounts after a run.
struct InstructionResult {
    resulting_accounts: Vec<(Pubkey, Account)>,
}

impl InstructionResult {
    fn get_account(&self, key: &Pubkey) -> Option<&Account> {
        self.resulting_accounts.iter().rev().find(|(k, _)| k == key).map(|(_, a)| a)
    }
}

/// Failure of something the runtime itself does, such as a transfer from an
/// account without the lamports.
const RUNTIME_FAILURE: u32 = 0xffff;

fn setup() -> Mollusk {
    Mollusk {
        sysvars: Sysvars { clock: Clock { unix_timestamp: TEST_UNIX_TIMESTAMP } },
        rent: Rent { lamports_per_byte: 6960 },
    }
}

type Bank = HashMap<[u8; 32], Account>;

fn bank_get(bank: &Bank, key: &Pubkey) -> Account {
    bank.get(&key.bytes).cloned().unwrap_or_else(Account::default)
}

fn runtime_transfer(bank: &mut Bank, from: &Pubkey, to: &Pubkey, lamports: u64) -> Result<(), ProgramError> {
    let mut a = bank_get(bank, from);
    if a.lamports < lamports {
        return Err(ProgramError::Custom(RUNTIME_FAILURE));
    }
    a.lamports -= lamports;
    bank.insert(from.bytes, a);
    let mut b = bank_get(bank, to);
    b.lamports += lamports;
    bank.insert(to.bytes, b);
    Ok(())
}

fn runtime_create(bank: &mut Bank, from: &Pubkey, to: &Pubkey, lamports: u64, space: u64, owner: &Pubkey) -> Result<(), ProgramError> {
    let existing = bank_get(bank, to);
    if existing.lamports != 0 || !existing.data.is_empty() {
        return Err(ProgramError::Custom(RUNTIME_FAILURE));
    }
    runtime_transfer(bank, from, to, lamports)?;
    let mut b = bank_get(bank, to);
    b.data = vec![0u8; space as usize];
    b.owner = *owner;
    bank.insert(to.bytes, b);
    Ok(())
}

impl Mollusk {
    fn run(&self, bank: &mut Bank, ix: &Instruction) -> Result<(), ProgramError> {
        let mut accounts: Vec<AccountView> = ix
            .accounts
            .iter()
            .map(|m| {
                let a = bank_get(bank, &m.pubkey);
                AccountView {
                    address: m.pubkey,
                    owner: a.owner,
                    is_signer: m.is_signer,
                    is_writable: m.is_writable,
                    lamports: a.lamports,
                    data: a.data.clone(),
                }
            })
            .collect();
        let mut staged = bank.clone();
        let outcome = process_instruction(
            &ix.program_id,
            &mut accounts,
            &ix.data,
            self.sysvars.clock.unix_timestamp,
            &self.rent,
        )?;
        for view in &accounts {
            let mut a = bank_get(&staged, &view.address);
            a.lamports = view.lamports;
            a.data = view.data.clone();
            a.owner = view.owner;
            staged.insert(view.address.bytes, a);
        }
        match outcome {
            Outcome::Done => {},
            Outcome::Create(plan, data) => {
                runtime_create(&mut staged, &plan.from, &plan.to, plan.lamports, plan.space, &plan.owner)?;
                let mut a = bank_get(&staged, &plan.to);
                assert_eq!(a.data.len(), data.len(), "data fills the created account");
                a.data = data;
                staged.insert(plan.to.bytes, a);
            },
            Outcome::Transfer(lamports) => {
                if lamports > 0 {
                    runtime_transfer(&mut staged, &accounts[0].address, &accounts[1].address, lamports)?;
                }
            },
            Outcome::Execute(plan) => {
                for inv in &plan.invocations {
                    if inv.program_id != SYSTEM_ID {
                        return Err(ProgramError::Custom(RUNTIME_FAILURE));
                    }
                    let tag = u32::from_le_bytes(inv.data[0..4].try_into().unwrap());
                    match tag {
                        0 => {
                            let lamports = u64::from_le_bytes(inv.data[4..12].try_into().unwrap());
                            let space = u64::from_le_bytes(inv.data[12..20].try_into().unwrap());
                            let owner = Address::new_from_array(inv.data[20..52].try_into().unwrap());
                            runtime_create(&mut staged, &inv.accounts[0].address, &inv.accounts[1].address, lamports, space, &owner)?;
                        },
                        2 => {
                            let lamports = u64::from_le_bytes(inv.data[4..12].try_into().unwrap());
                            runtime_transfer(&mut staged, &inv.accounts[0].address, &inv.accounts[1].address, lamports)?;
                        },
                        _ => return Err(ProgramError::Custom(RUNTIME_FAILURE)),
                    }
                }
            },
        }
        *bank = staged;
        Ok(())
    }

    fn process_and_validate_instruction_chain(
        &self,
        chain: &[(&Instruction, &[Check])],
        accounts: &[(Pubkey, Account)],
    ) -> InstructionResult {
        let mut bank: Bank = HashMap::new();
        let mut order: Vec<Pubkey> = Vec::new();
        for (k, a) in accounts {
            bank.insert(k.bytes, a.clone());
            order.push(*k);
        }
        for (ix, checks) in chain {
            for m in &ix.accounts {
                if !order.contains(&m.pubkey) {
                    order.push(m.pubkey);
                }
            }
            let result = self.run(&mut bank, ix);
            for check in checks.iter() {
                match check {
                    Check::Success => assert!(result.is_ok(), "expected success, got {:?}", result),
                    Check::Failure(e) => assert_eq!(result, Err(*e), "expected {:?}", e),
                }
            }
            if result.is_err() {
                break;
            }
        }
        InstructionResult {
            resulting_accounts: order.iter().map(|k| (*k, bank_get(&bank, k))).collect(),
        }
    }

    fn process_and_validate_instruction(
        &self,
        ix: &Instruction,
        accounts: &[(Pubkey, Account)],
        checks: &[Check],
    ) -> InstructionResult {
        self.process_and_validate_instruction_chain(&[(ix, checks)], accounts)
    }
}

/// Bytes the three vote bitmaps occupy for a given owner count.
fn bitmap_len(owners: usize) -> usize {
    owners.div_ceil(8)
}

/// Whether the bit at `index` is set.
fn bit(bits: &[u8], index: usize) -> bool {
    bits[index / 8] & (1 << (index % 8)) != 0
}

/// The three vote bitmaps of a proposal account.
fn votes(data: &[u8], owners: usize) -> (&[u8], &[u8], &[u8]) {
    let n = bitmap_len(owners);
    let tail = &data[tx_off::HEADER_LEN..];
    (&tail[..n], &tail[n..2 * n], &tail[2 * n..3 * n])
}

/// The message stored after the bitmaps.
fn stored_message(data: &[u8], owners: usize) -> &[u8] {
    &data[tx_off::HEADER_LEN + 3 * bitmap_len(owners)..]
}

fn u32_at(data: &[u8], at: usize) -> u32 {
    u32::from_le_bytes(data[at..at + 4].try_into().unwrap())
}

fn u64_at(data: &[u8], at: usize) -> u64 {
    u64::from_le_bytes(data[at..at + 8].try_into().unwrap())
}

fn owner_at(data: &[u8], index: usize) -> &[u8] {
    let at = off::HEADER_LEN + index * 32;
    &data[at..at + 32]
}

fn permission_at(data: &[u8], index: usize, owners: usize) -> u8 {
    data[off::HEADER_LEN + owners * 32 + index]
}

fn multisig_pda(create_key: &Pubkey) -> (Pubkey, u8) {
    multisig::client::multisig_address(create_key).unwrap()
}

fn transaction_pda(multisig: &Pubkey, index: u64) -> (Pubkey, u8) {
    multisig::client::transaction_address(multisig, index).unwrap()
}

fn vault_pda(multisig: &Pubkey, vault_index: u8) -> (Pubkey, u8) {
    multisig::client::vault_address(multisig, vault_index).unwrap()
}

fn buffer_pda(multisig: &Pubkey, creator: &Pubkey, buffer_index: u8) -> (Pubkey, u8) {
    multisig::client::buffer_address(multisig, creator, buffer_index).unwrap()
}

fn ephemeral_pda(transaction: &Pubkey, index: u8) -> (Pubkey, u8) {
    multisig::client::ephemeral_address(transaction, index).unwrap()
}

fn funded(lamports: u64) -> Account {
    Account::new(lamports, 0, &SYSTEM_ID)
}

fn empty() -> Account {
    Account::default()
}

fn system_account() -> (Pubkey, Account) {
    (SYSTEM_ID, Account { lamports: 1, data: vec![], owner: SYSTEM_ID, executable: true, rent_epoch: 0 })
}

fn program_account() -> (Pubkey, Account) {
    (PROGRAM_ID, Account { lamports: 1, data: vec![], owner: SYSTEM_ID, executable: true, rent_epoch: 0 })
}

fn sorted_owners(n: usize) -> Vec<Pubkey> {
    let mut owners: Vec<Pubkey> = (0..n).map(|_| Pubkey::new_unique()).collect();
    owners.sort();
    owners
}

fn new_with_bytes(data: &[u8], accounts: Vec<AccountMeta>) -> Instruction {
    Instruction { program_id: PROGRAM_ID, accounts, data: data.to_vec() }
}

fn init_multisig_ix(
    creator: &Pubkey,
    create_key: &Pubkey,
    multisig: &Pubkey,
    owners: &[Pubkey],
    threshold: u32,
    bump: u8,
) -> Instruction {
    init_multisig_ix_with_authority(creator, create_key, multisig, owners, threshold, bump, &Pubkey::default())
}

fn init_multisig_ix_with_authority(
    creator: &Pubkey,
    create_key: &Pubkey,
    multisig: &Pubkey,
    owners: &[Pubkey],
    threshold: u32,
    bump: u8,
    config_authority: &Pubkey,
) -> Instruction {
    let mut data = vec![0u8];
    data.extend_from_slice(&threshold.to_le_bytes());
    data.extend_from_slice(&(owners.len() as u32).to_le_bytes());
    data.push(bump);
    data.extend_from_slice(&[0u8; 3]);
    data.extend_from_slice(config_authority.as_ref());
    for owner in owners {
        data.extend_from_slice(owner.as_ref());
    }
    new_with_bytes(
        &data,
        vec![
            AccountMeta::new(*creator, true),
            AccountMeta::new_readonly(*create_key, true),
            AccountMeta::new(*multisig, false),
            AccountMeta::new_readonly(SYSTEM_ID, false),
        ],
    )
}

struct MessageIx {
    program_id_index: u8,
    account_indexes: Vec<u8>,
    data: Vec<u8>,
}

struct MessageLookup {
    account_key: Pubkey,
    writable_indexes: Vec<u8>,
    readonly_indexes: Vec<u8>,
}

fn build_message(
    num_signers: u8,
    num_writable_signers: u8,
    num_writable_non_signers: u8,
    keys: &[Pubkey],
    instructions: &[MessageIx],
    lookups: &[MessageLookup],
) -> Vec<u8> {
    let mut blob = vec![
        num_signers,
        num_writable_signers,
        num_writable_non_signers,
        keys.len() as u8,
        instructions.len() as u8,
        lookups.len() as u8,
    ];
    for key in keys {
        blob.extend_from_slice(key.as_ref());
    }
    for ix in instructions {
        blob.push(ix.program_id_index);
        blob.push(ix.account_indexes.len() as u8);
        blob.extend_from_slice(&ix.account_indexes);
        blob.extend_from_slice(&(ix.data.len() as u16).to_le_bytes());
        blob.extend_from_slice(&ix.data);
    }
    for lookup in lookups {
        blob.extend_from_slice(lookup.account_key.as_ref());
        blob.push(lookup.writable_indexes.len() as u8);
        blob.extend_from_slice(&lookup.writable_indexes);
        blob.push(lookup.readonly_indexes.len() as u8);
        blob.extend_from_slice(&lookup.readonly_indexes);
    }
    blob
}

fn transfer_message(vault: &Pubkey, destination: &Pubkey, lamports: u64) -> Vec<u8> {
    let mut data = 2u32.to_le_bytes().to_vec();
    data.extend_from_slice(&lamports.to_le_bytes());
    build_message(
        1,
        1,
        1,
        &[*vault, *destination, SYSTEM_ID],
        &[MessageIx { program_id_index: 2, account_indexes: vec![0, 1], data }],
        &[],
    )
}

fn config_message(action: u8, payload: &[u8]) -> Vec<u8> {
    let mut data = vec![action];
    data.extend_from_slice(payload);
    build_message(
        0,
        0,
        0,
        &[PROGRAM_ID, SYSTEM_ID],
        &[MessageIx { program_id_index: 0, account_indexes: vec![], data }],
        &[],
    )
}

fn config_accounts() -> Vec<AccountMeta> {
    vec![AccountMeta::new_readonly(PROGRAM_ID, false), AccountMeta::new_readonly(SYSTEM_ID, false)]
}

fn create_transaction_ix(
    creator: &Pubkey,
    multisig: &Pubkey,
    transaction: &Pubkey,
    message: &[u8],
    vault_index: u8,
    vault_bump: u8,
    bump: u8,
    ephemeral_bumps: &[u8],
) -> Instruction {
    let mut data = vec![1u8, vault_index, vault_bump, bump, ephemeral_bumps.len() as u8];
    let mut bumps = [0u8; 4];
    bumps[..ephemeral_bumps.len()].copy_from_slice(ephemeral_bumps);
    data.extend_from_slice(&bumps);
    data.extend_from_slice(message);
    new_with_bytes(
        &data,
        vec![
            AccountMeta::new(*creator, true),
            AccountMeta::new(*multisig, false),
            AccountMeta::new(*transaction, false),
            AccountMeta::new_readonly(SYSTEM_ID, false),
        ],
    )
}

fn vote_ix(tag: u8, signer: &Pubkey, multisig: &Pubkey, transaction: &Pubkey) -> Instruction {
    new_with_bytes(
        &[tag],
        vec![
            AccountMeta::new_readonly(*signer, true),
            AccountMeta::new(*multisig, false),
            AccountMeta::new(*transaction, false),
        ],
    )
}

fn execute_ix(executor: &Pubkey, multisig: &Pubkey, transaction: &Pubkey, message_accounts: &[AccountMeta]) -> Instruction {
    let mut accounts = vec![
        AccountMeta::new(*executor, true),
        AccountMeta::new(*multisig, false),
        AccountMeta::new(*transaction, false),
    ];
    accounts.extend_from_slice(message_accounts);
    new_with_bytes(&[4u8], accounts)
}

fn set_config_ix(authority: &Pubkey, multisig: &Pubkey, action: u8, payload: &[u8]) -> Instruction {
    let mut data = vec![11u8, action];
    data.extend_from_slice(payload);
    new_with_bytes(
        &data,
        vec![
            AccountMeta::new(*authority, true),
            AccountMeta::new(*multisig, false),
            AccountMeta::new_readonly(SYSTEM_ID, false),
        ],
    )
}

fn close_transaction_ix(transaction: &Pubkey, multisig: &Pubkey, destination: &Pubkey) -> Instruction {
    new_with_bytes(
        &[6u8],
        vec![
            AccountMeta::new(*transaction, false),
            AccountMeta::new(*multisig, false),
            AccountMeta::new(*destination, false),
        ],
    )
}

fn buffer_create_ix(
    creator: &Pubkey,
    multisig: &Pubkey,
    buffer: &Pubkey,
    final_hash: [u8; 32],
    final_size: u32,
    buffer_index: u8,
    vault_index: u8,
    bump: u8,
    chunk: &[u8],
) -> Instruction {
    let mut data = vec![7u8];
    data.extend_from_slice(&final_hash);
    data.extend_from_slice(&final_size.to_le_bytes());
    data.push(buffer_index);
    data.push(vault_index);
    data.push(bump);
    data.push(0);
    data.extend_from_slice(chunk);
    new_with_bytes(
        &data,
        vec![
            AccountMeta::new(*creator, true),
            AccountMeta::new_readonly(*multisig, false),
            AccountMeta::new(*buffer, false),
            AccountMeta::new_readonly(SYSTEM_ID, false),
        ],
    )
}

fn buffer_extend_ix(creator: &Pubkey, buffer: &Pubkey, chunk: &[u8]) -> Instruction {
    let mut data = vec![8u8];
    data.extend_from_slice(chunk);
    new_with_bytes(&data, vec![AccountMeta::new_readonly(*creator, true), AccountMeta::new(*buffer, false)])
}

fn buffer_close_ix(creator: &Pubkey, buffer: &Pubkey) -> Instruction {
    new_with_bytes(&[9u8], vec![AccountMeta::new(*creator, true), AccountMeta::new(*buffer, false)])
}

fn create_from_buffer_ix(
    creator: &Pubkey,
    multisig: &Pubkey,
    transaction: &Pubkey,
    buffer: &Pubkey,
    bump: u8,
    vault_bump: u8,
    ephemeral_bumps: &[u8],
) -> Instruction {
    let mut data = vec![10u8, bump, vault_bump, ephemeral_bumps.len() as u8];
    let mut bumps = [0u8; 4];
    bumps[..ephemeral_bumps.len()].copy_from_slice(ephemeral_bumps);
    data.extend_from_slice(&bumps);
    new_with_bytes(
        &data,
        vec![
            AccountMeta::new(*creator, true),
            AccountMeta::new(*multisig, false),
            AccountMeta::new(*transaction, false),
            AccountMeta::new(*buffer, false),
            AccountMeta::new_readonly(SYSTEM_ID, false),
        ],
    )
}

// Time locks, staleness, multi-instruction proposals, ephemeral signers and
// permission gating.



const VAULT_FUNDING: u64 = 5_000_000_000;
const TRANSFER: u64 = 500_000_000;

struct Fixture {
    owners: Vec<Pubkey>,
    multisig: Pubkey,
    vault: Pubkey,
    vault_bump: u8,
    accounts: Vec<(Pubkey, Account)>,
}

fn fixture(mollusk: &Mollusk) -> Fixture {
    let creator = Pubkey::new_unique();
    let create_key = Pubkey::new_unique();
    let (multisig, bump) = multisig_pda(&create_key);
    let owners = sorted_owners(3);
    let (vault, vault_bump) = vault_pda(&multisig, 0);

    let ix = init_multisig_ix(&creator, &create_key, &multisig, &owners, 2, bump);

    let result = mollusk.process_and_validate_instruction(
        &ix,
        &[
            (creator, funded(10_000_000_000)),
            (create_key, funded(0)),
            (multisig, empty()),
            system_account(),
        ],
        &[Check::success()],
    );

    let accounts = vec![
        (owners[0], funded(10_000_000_000)),
        (owners[1], funded(10_000_000_000)),
        (owners[2], funded(10_000_000_000)),
        (multisig, result.get_account(&multisig).unwrap().clone()),
        (vault, funded(VAULT_FUNDING)),
        system_account(),
        (
            PROGRAM_ID,
            program_account().1,
        ),
    ];

    Fixture {
        owners,
        multisig,
        vault,
        vault_bump,
        accounts,
    }
}

#[test]
fn several_instructions_settle_together() {
    let mollusk = setup();
    let f = fixture(&mollusk);

    let first = Pubkey::new_unique();
    let second = Pubkey::new_unique();

    let transfer = |amount: u64| {
        let mut data = 2u32.to_le_bytes().to_vec();
        data.extend_from_slice(&amount.to_le_bytes());
        data
    };

    // vault (writable signer), two destinations (writable non-signers),
    // system program (readonly non-signer).
    let message = build_message(
        1,
        1,
        2,
        &[f.vault, first, second, SYSTEM_ID],
        &[
            MessageIx {
                program_id_index: 3,
                account_indexes: vec![0, 1],
                data: transfer(TRANSFER),
            },
            MessageIx {
                program_id_index: 3,
                account_indexes: vec![0, 2],
                data: transfer(TRANSFER * 2),
            },
        ],
        &[],
    );

    let (transaction, bump) = transaction_pda(&f.multisig, 1);

    let create = create_transaction_ix(
        &f.owners[0],
        &f.multisig,
        &transaction,
        &message,
        0,
        f.vault_bump,
        bump,
        &[],
    );
    let approve_a = vote_ix(2, &f.owners[0], &f.multisig, &transaction);
    let approve_b = vote_ix(2, &f.owners[1], &f.multisig, &transaction);
    let execute = execute_ix(
        &f.owners[0],
        &f.multisig,
        &transaction,
        &[
            AccountMeta::new(f.vault, false),
            AccountMeta::new(first, false),
            AccountMeta::new(second, false),
            AccountMeta::new_readonly(SYSTEM_ID, false),
        ],
    );

    let mut accounts = f.accounts.clone();
    accounts.push((transaction, empty()));
    accounts.push((first, funded(0)));
    accounts.push((second, funded(0)));

    let result = mollusk.process_and_validate_instruction_chain(
        &[
            (&create, &[Check::success()]),
            (&approve_a, &[Check::success()]),
            (&approve_b, &[Check::success()]),
            (&execute, &[Check::success()]),
        ],
        &accounts,
    );

    assert_eq!(result.get_account(&first).unwrap().lamports, TRANSFER);
    assert_eq!(result.get_account(&second).unwrap().lamports, TRANSFER * 2);
    assert_eq!(
        result.get_account(&f.vault).unwrap().lamports,
        VAULT_FUNDING - TRANSFER * 3,
        "both transfers came out of one approval"
    );
}

#[test]
fn an_ephemeral_signer_can_create_an_account() {
    let mollusk = setup();
    let f = fixture(&mollusk);

    let (transaction, bump) = transaction_pda(&f.multisig, 1);
    let (ephemeral, ephemeral_bump) = ephemeral_pda(&transaction, 0);

    // System CreateAccount: the new account must sign for itself, which is
    // exactly what an ephemeral signer is for.
    let mut data = 0u32.to_le_bytes().to_vec();
    data.extend_from_slice(&1_000_000u64.to_le_bytes()); // lamports
    data.extend_from_slice(&0u64.to_le_bytes()); // space
    data.extend_from_slice(SYSTEM_ID.as_ref()); // owner

    let message = build_message(
        2,
        2,
        0,
        &[f.vault, ephemeral, SYSTEM_ID],
        &[MessageIx {
            program_id_index: 2,
            account_indexes: vec![0, 1],
            data,
        }],
        &[],
    );

    let create = create_transaction_ix(
        &f.owners[0],
        &f.multisig,
        &transaction,
        &message,
        0,
        f.vault_bump,
        bump,
        &[ephemeral_bump],
    );
    let approve_a = vote_ix(2, &f.owners[0], &f.multisig, &transaction);
    let approve_b = vote_ix(2, &f.owners[1], &f.multisig, &transaction);
    let execute = execute_ix(
        &f.owners[0],
        &f.multisig,
        &transaction,
        &[
            AccountMeta::new(f.vault, false),
            AccountMeta::new(ephemeral, false),
            AccountMeta::new_readonly(SYSTEM_ID, false),
        ],
    );

    let mut accounts = f.accounts.clone();
    accounts.push((transaction, empty()));
    accounts.push((ephemeral, empty()));

    let result = mollusk.process_and_validate_instruction_chain(
        &[
            (&create, &[Check::success()]),
            (&approve_a, &[Check::success()]),
            (&approve_b, &[Check::success()]),
            (&execute, &[Check::success()]),
        ],
        &accounts,
    );

    let created = result.get_account(&ephemeral).unwrap();
    assert_eq!(created.lamports, 1_000_000, "ephemeral account funded");

    let tx = result.get_account(&transaction).unwrap();
    assert_eq!(tx.data[tx_off::EPHEMERAL_COUNT], 1);
    assert_eq!(tx.data[tx_off::EPHEMERAL_BUMPS], ephemeral_bump);
}

#[test]
fn a_time_lock_defers_execution() {
    let mollusk = setup();
    let f = fixture(&mollusk);

    // Proposal 1 sets a one hour delay.
    let (config_tx, config_bump) = transaction_pda(&f.multisig, 1);
    let config = create_transaction_ix(
        &f.owners[0],
        &f.multisig,
        &config_tx,
        &config_message(3, &3600u32.to_le_bytes()),
        0,
        0,
        config_bump,
        &[],
    );
    let config_a = vote_ix(2, &f.owners[0], &f.multisig, &config_tx);
    let config_b = vote_ix(2, &f.owners[1], &f.multisig, &config_tx);
    let config_exec = execute_ix(&f.owners[0], &f.multisig, &config_tx, &config_accounts());

    let mut accounts = f.accounts.clone();
    accounts.push((config_tx, empty()));

    let after_config = mollusk.process_and_validate_instruction_chain(
        &[
            (&config, &[Check::success()]),
            (&config_a, &[Check::success()]),
            (&config_b, &[Check::success()]),
            (&config_exec, &[Check::success()]),
        ],
        &accounts,
    );

    // Proposal 2 spends, and must wait out the delay.
    let destination = Pubkey::new_unique();
    let (spend_tx, spend_bump) = transaction_pda(&f.multisig, 2);
    let message = transfer_message(&f.vault, &destination, TRANSFER);

    let spend = create_transaction_ix(
        &f.owners[0],
        &f.multisig,
        &spend_tx,
        &message,
        0,
        f.vault_bump,
        spend_bump,
        &[],
    );
    let spend_a = vote_ix(2, &f.owners[0], &f.multisig, &spend_tx);
    let spend_b = vote_ix(2, &f.owners[1], &f.multisig, &spend_tx);
    let spend_exec = execute_ix(
        &f.owners[0],
        &f.multisig,
        &spend_tx,
        &[
            AccountMeta::new(f.vault, false),
            AccountMeta::new(destination, false),
            AccountMeta::new_readonly(SYSTEM_ID, false),
        ],
    );

    let mut accounts: Vec<(Pubkey, Account)> = after_config.resulting_accounts.clone();
    accounts.push((spend_tx, empty()));
    accounts.push((destination, funded(0)));

    let approved = mollusk.process_and_validate_instruction_chain(
        &[
            (&spend, &[Check::success()]),
            (&spend_a, &[Check::success()]),
            (&spend_b, &[Check::success()]),
            (
                &spend_exec,
                &[Check::err(ProgramError::Custom(
                    err::TIME_LOCK_NOT_RELEASED,
                ))],
            ),
        ],
        &accounts,
    );

    assert_eq!(
        approved.get_account(&spend_tx).unwrap().data[tx_off::STATUS],
        status::APPROVED,
        "still approved, just not executable yet"
    );

    // The same accounts, an hour later.
    let mut later = setup();
    later.sysvars.clock.unix_timestamp = TEST_UNIX_TIMESTAMP + 3600;

    let result = later.process_and_validate_instruction(
        &spend_exec,
        &approved.resulting_accounts,
        &[Check::success()],
    );

    assert_eq!(
        result.get_account(&destination).unwrap().lamports,
        TRANSFER,
        "executes once the delay has passed"
    );
}

#[test]
fn a_config_change_makes_older_proposals_stale() {
    let mollusk = setup();
    let f = fixture(&mollusk);

    // Proposal 1 spends and is left unapproved.
    let destination = Pubkey::new_unique();
    let (spend_tx, spend_bump) = transaction_pda(&f.multisig, 1);
    let spend = create_transaction_ix(
        &f.owners[0],
        &f.multisig,
        &spend_tx,
        &transfer_message(&f.vault, &destination, TRANSFER),
        0,
        f.vault_bump,
        spend_bump,
        &[],
    );

    // Proposal 2 changes the threshold, which invalidates proposal 1.
    let (config_tx, config_bump) = transaction_pda(&f.multisig, 2);
    let config = create_transaction_ix(
        &f.owners[0],
        &f.multisig,
        &config_tx,
        &config_message(2, &3u32.to_le_bytes()),
        0,
        0,
        config_bump,
        &[],
    );
    let config_a = vote_ix(2, &f.owners[0], &f.multisig, &config_tx);
    let config_b = vote_ix(2, &f.owners[1], &f.multisig, &config_tx);
    let config_exec = execute_ix(&f.owners[0], &f.multisig, &config_tx, &config_accounts());

    let stale_vote = vote_ix(2, &f.owners[0], &f.multisig, &spend_tx);

    let mut accounts = f.accounts.clone();
    accounts.push((spend_tx, empty()));
    accounts.push((config_tx, empty()));
    accounts.push((destination, funded(0)));

    mollusk.process_and_validate_instruction_chain(
        &[
            (&spend, &[Check::success()]),
            (&config, &[Check::success()]),
            (&config_a, &[Check::success()]),
            (&config_b, &[Check::success()]),
            (&config_exec, &[Check::success()]),
            (
                &stale_vote,
                &[Check::err(ProgramError::Custom(err::STALE_TRANSACTION))],
            ),
        ],
        &accounts,
    );
}

#[test]
fn permissions_gate_voting() {
    let mollusk = setup();
    let f = fixture(&mollusk);

    // Proposal 1 gives owner 2 execute-only rights.
    let mut payload = f.owners[2].as_ref().to_vec();
    payload.push(4);

    let (config_tx, config_bump) = transaction_pda(&f.multisig, 1);
    let config = create_transaction_ix(
        &f.owners[0],
        &f.multisig,
        &config_tx,
        &config_message(5, &payload),
        0,
        0,
        config_bump,
        &[],
    );
    let config_a = vote_ix(2, &f.owners[0], &f.multisig, &config_tx);
    let config_b = vote_ix(2, &f.owners[1], &f.multisig, &config_tx);
    let config_exec = execute_ix(&f.owners[0], &f.multisig, &config_tx, &config_accounts());

    let destination = Pubkey::new_unique();
    let (spend_tx, spend_bump) = transaction_pda(&f.multisig, 2);
    let spend = create_transaction_ix(
        &f.owners[0],
        &f.multisig,
        &spend_tx,
        &transfer_message(&f.vault, &destination, TRANSFER),
        0,
        f.vault_bump,
        spend_bump,
        &[],
    );
    let vote_by_restricted = vote_ix(2, &f.owners[2], &f.multisig, &spend_tx);

    let mut accounts = f.accounts.clone();
    accounts.push((config_tx, empty()));
    accounts.push((spend_tx, empty()));
    accounts.push((destination, funded(0)));

    mollusk.process_and_validate_instruction_chain(
        &[
            (&config, &[Check::success()]),
            (&config_a, &[Check::success()]),
            (&config_b, &[Check::success()]),
            (&config_exec, &[Check::success()]),
            (&spend, &[Check::success()]),
            (
                &vote_by_restricted,
                &[Check::err(ProgramError::Custom(err::UNAUTHORIZED))],
            ),
        ],
        &accounts,
    );
}
