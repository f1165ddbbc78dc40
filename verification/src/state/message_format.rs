//! The compiled message wire format, stated as an encoding and a grammar.
//!
//! ```text
//! header            6 bytes
//! account_keys      32 * num_account_keys
//! instructions      num_instructions * { program_id_index: u8,
//!                                        account_indexes_len: u8,
//!                                        account_indexes: [u8],
//!                                        data_len: u16 (le),
//!                                        data: [u8] }
//! lookups           num_lookups * { account_key: [u8; 32],
//!                                   writable_len: u8, writable: [u8],
//!                                   readonly_len: u8, readonly: [u8] }
//! ```
//!
//! `encode_message` says what bytes a message is; `parse_message` is the
//! grammar the program accepts. The two lemmas at the end show that the
//! grammar accepts exactly the encodings of valid messages.

use vstd::bytes::*;
use vstd::prelude::*;

verus! {

/// One instruction of a message, as values.
pub struct InstructionModel {
    /// Index of the program to invoke.
    pub program_id_index: u8,
    /// Indexes of the accounts the instruction takes, in order.
    pub account_indexes: Seq<u8>,
    /// Instruction payload.
    pub data: Seq<u8>,
}

/// One address lookup table reference, as values.
pub struct LookupModel {
    /// The table's address.
    pub account_key: Seq<u8>,
    /// Table indexes loaded as writable.
    pub writable_indexes: Seq<u8>,
    /// Table indexes loaded as readonly.
    pub readonly_indexes: Seq<u8>,
}

/// A compiled message, as values.
pub struct MessageModel {
    /// Signer keys, which come first.
    pub num_signers: u8,
    /// Of the signers, how many are writable.
    pub num_writable_signers: u8,
    /// Of the non-signers, how many are writable.
    pub num_writable_non_signers: u8,
    /// Static account keys, each 32 bytes.
    pub account_keys: Seq<Seq<u8>>,
    /// Instructions, in order.
    pub instructions: Seq<InstructionModel>,
    /// Lookup table references, in order.
    pub lookups: Seq<LookupModel>,
}

// ---------------------------------------------------------------------------
// Instructions

/// Lengths of an instruction fit their length prefixes.
pub open spec fn instruction_wf(ix: InstructionModel) -> bool {
    ix.account_indexes.len() <= 255 && ix.data.len() <= 65535
}

/// The bytes of one instruction.
pub open spec fn encode_instruction(ix: InstructionModel) -> Seq<u8> {
    seq![ix.program_id_index, ix.account_indexes.len() as u8] + ix.account_indexes
        + spec_u16_to_le_bytes(ix.data.len() as u16) + ix.data
}

/// Reads one instruction from the front of `s`, with the bytes it used.
pub open spec fn parse_instruction(s: Seq<u8>) -> Option<(InstructionModel, int)> {
    if s.len() < 2 {
        None
    } else {
        let n = s[1] as int;
        if s.len() < 4 + n {
            None
        } else {
            let dl = spec_u16_from_le_bytes(s.subrange(2 + n, 4 + n)) as int;
            if s.len() < 4 + n + dl {
                None
            } else {
                Some(
                    (
                        InstructionModel {
                            program_id_index: s[0],
                            account_indexes: s.subrange(2, 2 + n),
                            data: s.subrange(4 + n, 4 + n + dl),
                        },
                        4 + n + dl,
                    ),
                )
            }
        }
    }
}

/// The bytes of a list of instructions.
pub open spec fn encode_instructions(xs: Seq<InstructionModel>) -> Seq<u8>
    decreases xs.len(),
{
    if xs.len() == 0 {
        Seq::empty()
    } else {
        encode_instructions(xs.drop_last()) + encode_instruction(xs.last())
    }
}

/// Reads `count` instructions from the front of `s`, with the bytes they used.
pub open spec fn parse_instructions(s: Seq<u8>, count: nat) -> Option<(Seq<InstructionModel>, int)>
    decreases count,
{
    if count == 0 {
        Some((Seq::empty(), 0))
    } else {
        match parse_instructions(s, (count - 1) as nat) {
            None => None,
            Some((xs, n)) => match parse_instruction(s.skip(n)) {
                None => None,
                Some((x, m)) => Some((xs.push(x), n + m)),
            },
        }
    }
}

// ---------------------------------------------------------------------------
// Lookups

/// A lookup names a 32-byte table and its index lists fit their prefixes.
pub open spec fn lookup_wf(lk: LookupModel) -> bool {
    lk.account_key.len() == 32 && lk.writable_indexes.len() <= 255
        && lk.readonly_indexes.len() <= 255
}

/// The bytes of one lookup.
pub open spec fn encode_lookup(lk: LookupModel) -> Seq<u8> {
    lk.account_key + seq![lk.writable_indexes.len() as u8] + lk.writable_indexes + seq![
        lk.readonly_indexes.len() as u8,
    ] + lk.readonly_indexes
}

/// Reads one lookup from the front of `s`, with the bytes it used.
pub open spec fn parse_lookup(s: Seq<u8>) -> Option<(LookupModel, int)> {
    if s.len() < 33 {
        None
    } else {
        let w = s[32] as int;
        if s.len() < 34 + w {
            None
        } else {
            let r = s[33 + w] as int;
            if s.len() < 34 + w + r {
                None
            } else {
                Some(
                    (
                        LookupModel {
                            account_key: s.subrange(0, 32),
                            writable_indexes: s.subrange(33, 33 + w),
                            readonly_indexes: s.subrange(34 + w, 34 + w + r),
                        },
                        34 + w + r,
                    ),
                )
            }
        }
    }
}

/// The bytes of a list of lookups.
pub open spec fn encode_lookups(xs: Seq<LookupModel>) -> Seq<u8>
    decreases xs.len(),
{
    if xs.len() == 0 {
        Seq::empty()
    } else {
        encode_lookups(xs.drop_last()) + encode_lookup(xs.last())
    }
}

/// Reads `count` lookups from the front of `s`, with the bytes they used.
pub open spec fn parse_lookups(s: Seq<u8>, count: nat) -> Option<(Seq<LookupModel>, int)>
    decreases count,
{
    if count == 0 {
        Some((Seq::empty(), 0))
    } else {
        match parse_lookups(s, (count - 1) as nat) {
            None => None,
            Some((xs, n)) => match parse_lookup(s.skip(n)) {
                None => None,
                Some((x, m)) => Some((xs.push(x), n + m)),
            },
        }
    }
}

/// Accounts the lookups supply, writable and readonly together.
pub open spec fn lookup_key_total(xs: Seq<LookupModel>) -> int
    decreases xs.len(),
{
    if xs.len() == 0 {
        0
    } else {
        lookup_key_total(xs.drop_last()) + xs.last().writable_indexes.len()
            + xs.last().readonly_indexes.len()
    }
}

/// Accounts the lookups supply as writable.
pub open spec fn lookup_writable_total(xs: Seq<LookupModel>) -> int
    decreases xs.len(),
{
    if xs.len() == 0 {
        0
    } else {
        lookup_writable_total(xs.drop_last()) + xs.last().writable_indexes.len()
    }
}

// ---------------------------------------------------------------------------
// Keys

/// The bytes of the static account keys, one after another.
pub open spec fn encode_keys(keys: Seq<Seq<u8>>) -> Seq<u8>
    decreases keys.len(),
{
    if keys.len() == 0 {
        Seq::empty()
    } else {
        encode_keys(keys.drop_last()) + keys.last()
    }
}

/// Splits `b` into `n` consecutive 32-byte keys.
pub open spec fn keys_of(b: Seq<u8>, n: nat) -> Seq<Seq<u8>> {
    Seq::new(n, |i: int| b.subrange(32 * i, 32 * i + 32))
}

// ---------------------------------------------------------------------------
// Messages

/// Every account the message can reference: static keys, then lookup keys.
pub open spec fn num_all_keys(m: MessageModel) -> int {
    m.account_keys.len() + lookup_key_total(m.lookups)
}

/// Every instruction references only accounts the message supplies.
pub open spec fn indexes_in_range(ins: Seq<InstructionModel>, total: int) -> bool {
    forall|i: int|
        0 <= i < ins.len() ==> {
            &&& (#[trigger] ins[i]).program_id_index < total
            &&& forall|j: int|
                0 <= j < ins[i].account_indexes.len() ==> #[trigger] ins[i].account_indexes[j]
                    < total
        }
}

/// A message that the program accepts.
pub open spec fn message_valid(m: MessageModel) -> bool {
    &&& m.account_keys.len() <= 255
    &&& m.instructions.len() <= 255
    &&& m.lookups.len() <= 255
    &&& forall|i: int| 0 <= i < m.account_keys.len() ==> (#[trigger] m.account_keys[i]).len() == 32
    &&& forall|i: int| 0 <= i < m.instructions.len() ==> instruction_wf(#[trigger] m.instructions[i])
    &&& forall|i: int| 0 <= i < m.lookups.len() ==> lookup_wf(#[trigger] m.lookups[i])
    &&& m.num_signers <= m.account_keys.len()
    &&& m.num_writable_signers <= m.num_signers
    &&& m.num_writable_non_signers <= m.account_keys.len() - m.num_signers
    &&& indexes_in_range(m.instructions, num_all_keys(m))
}

/// The six header bytes of a message.
pub open spec fn encode_header(m: MessageModel) -> Seq<u8> {
    seq![
        m.num_signers,
        m.num_writable_signers,
        m.num_writable_non_signers,
        m.account_keys.len() as u8,
        m.instructions.len() as u8,
        m.lookups.len() as u8,
    ]
}

/// The bytes of a message.
pub open spec fn encode_message(m: MessageModel) -> Seq<u8> {
    encode_header(m) + encode_keys(m.account_keys) + encode_instructions(m.instructions)
        + encode_lookups(m.lookups)
}

/// The grammar the program accepts: header, keys, instructions, lookups,
/// nothing left over, and every index in range.
pub open spec fn parse_message(b: Seq<u8>) -> Option<MessageModel> {
    if b.len() < 6 {
        None
    } else {
        let ns = b[0];
        let nws = b[1];
        let nwn = b[2];
        let nk = b[3] as int;
        if !(ns <= nk && nws <= ns && nwn <= nk - ns) {
            None
        } else if b.len() < 6 + 32 * nk {
            None
        } else {
            let rest = b.skip(6 + 32 * nk);
            match parse_instructions(rest, b[4] as nat) {
                None => None,
                Some((ins, n1)) => match parse_lookups(rest.skip(n1), b[5] as nat) {
                    None => None,
                    Some((lks, n2)) => {
                        let m = MessageModel {
                            num_signers: ns,
                            num_writable_signers: nws,
                            num_writable_non_signers: nwn,
                            account_keys: keys_of(b.subrange(6, 6 + 32 * nk), nk as nat),
                            instructions: ins,
                            lookups: lks,
                        };
                        if n1 + n2 != rest.len() {
                            None
                        } else if !indexes_in_range(ins, num_all_keys(m)) {
                            None
                        } else {
                            Some(m)
                        }
                    },
                },
            }
        }
    }
}

// ---------------------------------------------------------------------------
// Instruction lemmas

proof fn lemma_parse_encode_instruction(ix: InstructionModel, rest: Seq<u8>)
    requires
        instruction_wf(ix),
    ensures
        parse_instruction(encode_instruction(ix) + rest) == Some(
            (ix, encode_instruction(ix).len() as int),
        ),
{
    lemma_auto_spec_u16_to_from_le_bytes();
    let e = encode_instruction(ix);
    let s = e + rest;
    let n = ix.account_indexes.len() as int;
    let dl = ix.data.len() as int;
    let lb = spec_u16_to_le_bytes(dl as u16);
    assert(lb.len() == 2);
    assert(e.len() == 4 + n + dl);
    assert(s[0] == ix.program_id_index);
    assert(s[1] == n as u8);
    assert(s[1] as int == n);
    assert(s.subrange(2, 2 + n) =~= ix.account_indexes);
    assert(s.subrange(2 + n, 4 + n) =~= lb);
    assert(spec_u16_from_le_bytes(lb) == dl as u16);
    assert(s.subrange(4 + n, 4 + n + dl) =~= ix.data);
}

proof fn lemma_encode_parse_instruction(s: Seq<u8>)
    requires
        parse_instruction(s) is Some,
    ensures
        ({
            let (ix, n) = parse_instruction(s).unwrap();
            &&& instruction_wf(ix)
            &&& n == encode_instruction(ix).len()
            &&& 0 <= n <= s.len()
            &&& s.take(n) == encode_instruction(ix)
        }),
{
    lemma_auto_spec_u16_to_from_le_bytes();
    let (ix, n) = parse_instruction(s).unwrap();
    let k = s[1] as int;
    let lb = s.subrange(2 + k, 4 + k);
    let dl = spec_u16_from_le_bytes(lb);
    assert(spec_u16_to_le_bytes(spec_u16_from_le_bytes(lb)) == lb);
    assert(ix.account_indexes.len() == k);
    assert(ix.data.len() == dl as int);
    assert((k as u8) == s[1]);
    assert(s.take(n) =~= encode_instruction(ix));
}

proof fn lemma_parse_encode_instructions(xs: Seq<InstructionModel>, rest: Seq<u8>)
    requires
        forall|i: int| 0 <= i < xs.len() ==> instruction_wf(#[trigger] xs[i]),
    ensures
        parse_instructions(encode_instructions(xs) + rest, xs.len()) == Some(
            (xs, encode_instructions(xs).len() as int),
        ),
    decreases xs.len(),
{
    if xs.len() == 0 {
        assert(xs =~= Seq::<InstructionModel>::empty());
    } else {
        let ys = xs.drop_last();
        let x = xs.last();
        let s = encode_instructions(xs) + rest;
        let rest2 = encode_instruction(x) + rest;
        assert(s =~= encode_instructions(ys) + rest2);
        assert forall|i: int| 0 <= i < ys.len() implies instruction_wf(#[trigger] ys[i]) by {
            assert(ys[i] == xs[i]);
        }
        lemma_parse_encode_instructions(ys, rest2);
        let n = encode_instructions(ys).len() as int;
        assert(s.skip(n) =~= rest2);
        assert(instruction_wf(xs[xs.len() - 1]));
        lemma_parse_encode_instruction(x, rest);
        assert(ys.push(x) =~= xs);
    }
}

pub(crate) proof fn lemma_encode_parse_instructions(s: Seq<u8>, count: nat)
    requires
        parse_instructions(s, count) is Some,
    ensures
        ({
            let (xs, n) = parse_instructions(s, count).unwrap();
            &&& xs.len() == count
            &&& forall|i: int| 0 <= i < xs.len() ==> instruction_wf(#[trigger] xs[i])
            &&& 0 <= n <= s.len()
            &&& s.take(n) == encode_instructions(xs)
        }),
    decreases count,
{
    if count == 0 {
        assert(s.take(0) =~= Seq::<u8>::empty());
    } else {
        lemma_encode_parse_instructions(s, (count - 1) as nat);
        let (ys, n) = parse_instructions(s, (count - 1) as nat).unwrap();
        lemma_encode_parse_instruction(s.skip(n));
        let (x, m) = parse_instruction(s.skip(n)).unwrap();
        let xs = ys.push(x);
        assert(xs.drop_last() =~= ys);
        assert(s.take(n + m) =~= s.take(n) + s.skip(n).take(m));
        assert forall|i: int| 0 <= i < xs.len() implies instruction_wf(#[trigger] xs[i]) by {
            if i < ys.len() {
                assert(xs[i] == ys[i]);
            }
        }
    }
}

// ---------------------------------------------------------------------------
// Lookup lemmas

proof fn lemma_parse_encode_lookup(lk: LookupModel, rest: Seq<u8>)
    requires
        lookup_wf(lk),
    ensures
        parse_lookup(encode_lookup(lk) + rest) == Some((lk, encode_lookup(lk).len() as int)),
{
    let e = encode_lookup(lk);
    let s = e + rest;
    let w = lk.writable_indexes.len() as int;
    let r = lk.readonly_indexes.len() as int;
    assert(e.len() == 34 + w + r);
    assert(s[32] == w as u8);
    assert(s[32] as int == w);
    assert(s[33 + w] == r as u8);
    assert(s[33 + w] as int == r);
    assert(s.subrange(0, 32) =~= lk.account_key);
    assert(s.subrange(33, 33 + w) =~= lk.writable_indexes);
    assert(s.subrange(34 + w, 34 + w + r) =~= lk.readonly_indexes);
}

proof fn lemma_encode_parse_lookup(s: Seq<u8>)
    requires
        parse_lookup(s) is Some,
    ensures
        ({
            let (lk, n) = parse_lookup(s).unwrap();
            &&& lookup_wf(lk)
            &&& n == encode_lookup(lk).len()
            &&& 0 <= n <= s.len()
            &&& s.take(n) == encode_lookup(lk)
        }),
{
    let (lk, n) = parse_lookup(s).unwrap();
    let w = s[32] as int;
    let r = s[33 + w] as int;
    assert((w as u8) == s[32]);
    assert((r as u8) == s[33 + w]);
    assert(s.take(n) =~= encode_lookup(lk));
}

proof fn lemma_parse_encode_lookups(xs: Seq<LookupModel>, rest: Seq<u8>)
    requires
        forall|i: int| 0 <= i < xs.len() ==> lookup_wf(#[trigger] xs[i]),
    ensures
        parse_lookups(encode_lookups(xs) + rest, xs.len()) == Some(
            (xs, encode_lookups(xs).len() as int),
        ),
    decreases xs.len(),
{
    if xs.len() == 0 {
        assert(xs =~= Seq::<LookupModel>::empty());
    } else {
        let ys = xs.drop_last();
        let x = xs.last();
        let s = encode_lookups(xs) + rest;
        let rest2 = encode_lookup(x) + rest;
        assert(s =~= encode_lookups(ys) + rest2);
        assert forall|i: int| 0 <= i < ys.len() implies lookup_wf(#[trigger] ys[i]) by {
            assert(ys[i] == xs[i]);
        }
        lemma_parse_encode_lookups(ys, rest2);
        let n = encode_lookups(ys).len() as int;
        assert(s.skip(n) =~= rest2);
        assert(lookup_wf(xs[xs.len() - 1]));
        lemma_parse_encode_lookup(x, rest);
        assert(ys.push(x) =~= xs);
    }
}

pub(crate) proof fn lemma_encode_parse_lookups(s: Seq<u8>, count: nat)
    requires
        parse_lookups(s, count) is Some,
    ensures
        ({
            let (xs, n) = parse_lookups(s, count).unwrap();
            &&& xs.len() == count
            &&& forall|i: int| 0 <= i < xs.len() ==> lookup_wf(#[trigger] xs[i])
            &&& 0 <= n <= s.len()
            &&& s.take(n) == encode_lookups(xs)
        }),
    decreases count,
{
    if count == 0 {
        assert(s.take(0) =~= Seq::<u8>::empty());
    } else {
        lemma_encode_parse_lookups(s, (count - 1) as nat);
        let (ys, n) = parse_lookups(s, (count - 1) as nat).unwrap();
        lemma_encode_parse_lookup(s.skip(n));
        let (x, m) = parse_lookup(s.skip(n)).unwrap();
        let xs = ys.push(x);
        assert(xs.drop_last() =~= ys);
        assert(s.take(n + m) =~= s.take(n) + s.skip(n).take(m));
        assert forall|i: int| 0 <= i < xs.len() implies lookup_wf(#[trigger] xs[i]) by {
            if i < ys.len() {
                assert(xs[i] == ys[i]);
            }
        }
    }
}

// ---------------------------------------------------------------------------
// Key lemmas

pub(crate) proof fn lemma_keys_of_encode(keys: Seq<Seq<u8>>)
    requires
        forall|i: int| 0 <= i < keys.len() ==> (#[trigger] keys[i]).len() == 32,
    ensures
        encode_keys(keys).len() == 32 * keys.len(),
        keys_of(encode_keys(keys), keys.len()) == keys,
    decreases keys.len(),
{
    if keys.len() == 0 {
        assert(keys_of(encode_keys(keys), 0) =~= keys);
    } else {
        let ks = keys.drop_last();
        assert forall|i: int| 0 <= i < ks.len() implies (#[trigger] ks[i]).len() == 32 by {
            assert(ks[i] == keys[i]);
        }
        lemma_keys_of_encode(ks);
        let e = encode_keys(keys);
        let e1 = encode_keys(ks);
        assert(keys[keys.len() - 1].len() == 32);
        assert forall|i: int| 0 <= i < keys.len() implies #[trigger] keys_of(e, keys.len())[i]
            == keys[i] by {
            if i < ks.len() {
                assert(keys_of(e1, ks.len())[i] == ks[i]);
                assert(e.subrange(32 * i, 32 * i + 32) =~= e1.subrange(32 * i, 32 * i + 32));
            } else {
                assert(e.subrange(32 * i, 32 * i + 32) =~= keys.last());
            }
        }
        assert(keys_of(e, keys.len()) =~= keys);
    }
}

pub(crate) proof fn lemma_encode_keys_of(b: Seq<u8>, n: nat)
    requires
        b.len() == 32 * n,
    ensures
        encode_keys(keys_of(b, n)) == b,
    decreases n,
{
    if n == 0 {
        assert(encode_keys(keys_of(b, 0)) =~= b);
    } else {
        let b1 = b.take(32 * (n - 1));
        lemma_encode_keys_of(b1, (n - 1) as nat);
        let ks = keys_of(b, n);
        assert forall|i: int| 0 <= i < n - 1 implies #[trigger] ks.drop_last()[i] == keys_of(
            b1,
            (n - 1) as nat,
        )[i] by {
            assert(b.subrange(32 * i, 32 * i + 32) =~= b1.subrange(32 * i, 32 * i + 32));
        }
        assert(ks.drop_last() =~= keys_of(b1, (n - 1) as nat));
        assert(ks.last() == b.subrange(32 * (n - 1), 32 * n as int));
        assert(b1 + b.subrange(32 * (n - 1), 32 * n as int) =~= b);
    }
}

// ---------------------------------------------------------------------------
// The message laws

/// The grammar accepts the encoding of every valid message, and reads back
/// exactly that message.
pub proof fn lemma_parse_encode_message(m: MessageModel)
    requires
        message_valid(m),
    ensures
        parse_message(encode_message(m)) == Some(m),
{
    let b = encode_message(m);
    let nk = m.account_keys.len() as int;
    lemma_keys_of_encode(m.account_keys);
    let ek = encode_keys(m.account_keys);
    let ei = encode_instructions(m.instructions);
    let el = encode_lookups(m.lookups);
    assert(b[3] == nk as u8);
    assert(b[3] as int == nk);
    assert(b[4] as int == m.instructions.len());
    assert(b[5] as int == m.lookups.len());
    assert(b[0] == m.num_signers);
    assert(b[1] == m.num_writable_signers);
    assert(b[2] == m.num_writable_non_signers);
    assert(b.subrange(6, 6 + 32 * nk) =~= ek);
    let rest = b.skip(6 + 32 * nk);
    assert(rest =~= ei + el);
    lemma_parse_encode_instructions(m.instructions, el);
    let n1 = ei.len() as int;
    assert(rest.skip(n1) =~= el + Seq::<u8>::empty());
    lemma_parse_encode_lookups(m.lookups, Seq::<u8>::empty());
    assert(el + Seq::<u8>::empty() =~= el);
}

/// Whatever the grammar accepts is a valid message, and is exactly the bytes
/// of that message.
#[verifier::rlimit(50)]
pub proof fn lemma_encode_parse_message(b: Seq<u8>)
    requires
        parse_message(b) is Some,
    ensures
        message_valid(parse_message(b).unwrap()),
        encode_message(parse_message(b).unwrap()) == b,
{
    let m = parse_message(b).unwrap();
    let nk = b[3] as int;
    let rest = b.skip(6 + 32 * nk);
    lemma_encode_parse_instructions(rest, b[4] as nat);
    let (ins, n1) = parse_instructions(rest, b[4] as nat).unwrap();
    lemma_encode_parse_lookups(rest.skip(n1), b[5] as nat);
    let (lks, n2) = parse_lookups(rest.skip(n1), b[5] as nat).unwrap();
    let kb = b.subrange(6, 6 + 32 * nk);
    lemma_encode_keys_of(kb, nk as nat);
    assert forall|i: int| 0 <= i < m.account_keys.len() implies (
    #[trigger] m.account_keys[i]).len() == 32 by {
        assert(m.account_keys[i] == kb.subrange(32 * i, 32 * i + 32));
    }
    assert(m.account_keys.len() == nk);
    assert((nk as u8) == b[3]);
    assert((ins.len() as u8) == b[4]);
    assert((lks.len() as u8) == b[5]);
    assert(rest =~= rest.take(n1) + rest.skip(n1).take(n2));
    assert(b.take(6) =~= encode_header(m));
    assert(b =~= b.take(6) + kb + rest);
    assert(encode_message(m) =~= b);
}


// ---------------------------------------------------------------------------
// Reading depends only on the bytes read

/// Reading one instruction looks only at the bytes it uses: the same read
/// succeeds, with the same result, on any extension of the input.
proof fn lemma_parse_instruction_extends(p: Seq<u8>, s: Seq<u8>)
    requires
        p.len() <= s.len(),
        p == s.take(p.len() as int),
        parse_instruction(p) is Some,
    ensures
        parse_instruction(s) == parse_instruction(p),
        0 <= parse_instruction(p)->Some_0.1 <= p.len(),
{
    let n = p[1] as int;
    assert(p[0] == s[0] && p[1] == s[1]);
    assert(p.subrange(2 + n, 4 + n) =~= s.subrange(2 + n, 4 + n));
    let dl = spec_u16_from_le_bytes(p.subrange(2 + n, 4 + n)) as int;
    assert(p.subrange(2, 2 + n) =~= s.subrange(2, 2 + n));
    assert(p.subrange(4 + n, 4 + n + dl) =~= s.subrange(4 + n, 4 + n + dl));
}

/// Reading instructions looks only at the bytes they use.
proof fn lemma_parse_instructions_extends(p: Seq<u8>, s: Seq<u8>, count: nat)
    requires
        p.len() <= s.len(),
        p == s.take(p.len() as int),
        parse_instructions(p, count) is Some,
    ensures
        parse_instructions(s, count) == parse_instructions(p, count),
        0 <= parse_instructions(p, count)->Some_0.1 <= p.len(),
    decreases count,
{
    if count > 0 {
        lemma_parse_instructions_extends(p, s, (count - 1) as nat);
        let n = parse_instructions(p, (count - 1) as nat)->Some_0.1;
        assert(p.skip(n) =~= s.skip(n).take(p.skip(n).len() as int));
        lemma_parse_instruction_extends(p.skip(n), s.skip(n));
    }
}

/// Reading one lookup looks only at the bytes it uses.
proof fn lemma_parse_lookup_extends(p: Seq<u8>, s: Seq<u8>)
    requires
        p.len() <= s.len(),
        p == s.take(p.len() as int),
        parse_lookup(p) is Some,
    ensures
        parse_lookup(s) == parse_lookup(p),
        0 <= parse_lookup(p)->Some_0.1 <= p.len(),
{
    let w = p[32] as int;
    assert(p[32] == s[32]);
    assert(p[33 + w] == s[33 + w]);
    let r = p[33 + w] as int;
    assert(p.subrange(0, 32) =~= s.subrange(0, 32));
    assert(p.subrange(33, 33 + w) =~= s.subrange(33, 33 + w));
    assert(p.subrange(34 + w, 34 + w + r) =~= s.subrange(34 + w, 34 + w + r));
}

/// Reading lookups looks only at the bytes they use.
proof fn lemma_parse_lookups_extends(p: Seq<u8>, s: Seq<u8>, count: nat)
    requires
        p.len() <= s.len(),
        p == s.take(p.len() as int),
        parse_lookups(p, count) is Some,
    ensures
        parse_lookups(s, count) == parse_lookups(p, count),
        0 <= parse_lookups(p, count)->Some_0.1 <= p.len(),
    decreases count,
{
    if count > 0 {
        lemma_parse_lookups_extends(p, s, (count - 1) as nat);
        let n = parse_lookups(p, (count - 1) as nat)->Some_0.1;
        assert(p.skip(n) =~= s.skip(n).take(p.skip(n).len() as int));
        lemma_parse_lookup_extends(p.skip(n), s.skip(n));
    }
}

/// No strict prefix of an accepted message is accepted: a blob is accepted
/// only where it ends exactly where its message does.
pub proof fn lemma_message_prefix_refused(b: Seq<u8>, k: int)
    requires
        parse_message(b) is Some,
        0 <= k < b.len(),
    ensures
        parse_message(b.take(k)) is None,
{
    let p = b.take(k);
    if parse_message(p) is Some {
        assert(p[0] == b[0] && p[1] == b[1] && p[2] == b[2]);
        assert(p[3] == b[3] && p[4] == b[4] && p[5] == b[5]);
        let nk = b[3] as int;
        let rp = p.skip(6 + 32 * nk);
        let rb = b.skip(6 + 32 * nk);
        assert(rp =~= rb.take(rp.len() as int));
        lemma_parse_instructions_extends(rp, rb, b[4] as nat);
        let n1 = parse_instructions(rp, b[4] as nat)->Some_0.1;
        assert(rp.skip(n1) =~= rb.skip(n1).take(rp.skip(n1).len() as int));
        lemma_parse_lookups_extends(rp.skip(n1), rb.skip(n1), b[5] as nat);
        assert(rp.len() < rb.len());
    }
}

/// No strict extension of an accepted message is accepted: bytes after a
/// message make the blob malformed.
pub proof fn lemma_message_extension_refused(b: Seq<u8>, s: Seq<u8>)
    requires
        parse_message(b) is Some,
        s.len() > 0,
    ensures
        parse_message(b + s) is None,
{
    if parse_message(b + s) is Some {
        assert((b + s).take(b.len() as int) =~= b);
        lemma_message_prefix_refused(b + s, b.len() as int);
    }
}

} // verus!
