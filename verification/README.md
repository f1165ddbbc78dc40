# multisig

A multisig program for Solana whose decision logic is verified with Verus.
An owner proposes a transaction, owners vote on it, and once approvals reach
the threshold anyone may execute it. Owner and threshold changes are ordinary
proposals targeting the program, or, where the multisig names a config
authority, direct instructions from it.

## Layout

- `src/` is the verified library. Accounts are plain values
  (`account::AccountView`: address, owner, flags, lamports, data); each
  instruction is a function from those values and the instruction bytes to
  the accounts afterwards and what the runtime must still do (create an
  account, move lamports, invoke the stored instructions). Every instruction's
  contract is an exact spec function of its inputs.
  - `state/` holds the account layouts (multisig, proposal, upload buffer),
    the vote bitmaps and the compiled message format, each with its encoding,
    its parser and round-trip lemmas.
  - `instruction/` holds the instructions and the laws about them:
    `vote_laws.rs` (latching, one vote per owner, rejection cutoff,
    cancellation), `config_laws.rs` (owner order, voter count, staleness),
    `execute_laws.rs` (guards on execution, executing once) and
    `lifecycle.rs` (the status moves a proposal can make under any
    instruction).
  - `client.rs` builds instructions and compiled messages for callers.
- `app/` is the on-chain entrypoint: it copies the runtime's accounts into
  the library's values, runs the library, and performs what it decided
  through pinocchio.
- `tests/` runs the instructions end to end against an in-memory ledger.

Two outside computations are trusted rather than proved: SHA-256 of an
uploaded message (`solana-sha256-hasher`) and program-derived address search
(`solana-pubkey`). Their contracts name the result without stating it.
