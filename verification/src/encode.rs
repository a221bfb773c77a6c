//! The canonical binary encoding of chain values: fixed-width
//! little-endian integers, compact variable-length length prefixes,
//! single-byte variant tags. Ids are digests of these encodings: a
//! transaction id hashes the transaction without witnesses, a block id
//! hashes the header.

use vstd::prelude::*;

use crate::primitives::H256;
use crate::transaction::{
    Destination, InputWitness, OutPointSourceId, OutputTimeLock, SignedTransaction,
    StandardInputSignature, Transaction, TxInput, TxOutput,
};

verus! {

/// The digest an input of these bytes produces.
pub uninterp spec fn sha256_of(data: Seq<u8>) -> H256;

/// Relies on sha2's SHA-256: the digest depends on the input bytes
/// alone, on every machine.
#[verifier::external_body]
pub fn sha256(data: &Vec<u8>) -> (r: H256)
    ensures
        r == sha256_of(data@),
{
    let d = <sha2::Sha256 as sha2::Digest>::digest(data.as_slice());
    H256 {
        w0: u64::from_le_bytes(d[0..8].try_into().unwrap()),
        w1: u64::from_le_bytes(d[8..16].try_into().unwrap()),
        w2: u64::from_le_bytes(d[16..24].try_into().unwrap()),
        w3: u64::from_le_bytes(d[24..32].try_into().unwrap()),
    }
}

/// Four little-endian bytes of a 32-bit integer.
pub open spec fn u32_le_bytes(v: u32) -> Seq<u8> {
    seq![
        (v & 0xff) as u8,
        ((v >> 8) & 0xff) as u8,
        ((v >> 16) & 0xff) as u8,
        ((v >> 24) & 0xff) as u8,
    ]
}

/// Eight little-endian bytes of a 64-bit integer.
pub open spec fn u64_le_bytes(v: u64) -> Seq<u8> {
    seq![
        (v & 0xff) as u8,
        ((v >> 8) & 0xff) as u8,
        ((v >> 16) & 0xff) as u8,
        ((v >> 24) & 0xff) as u8,
        ((v >> 32) & 0xff) as u8,
        ((v >> 40) & 0xff) as u8,
        ((v >> 48) & 0xff) as u8,
        ((v >> 56) & 0xff) as u8,
    ]
}

/// The 32 bytes of an identifier, lowest word first.
pub open spec fn h256_bytes(h: H256) -> Seq<u8> {
    u64_le_bytes(h.w0) + u64_le_bytes(h.w1) + u64_le_bytes(h.w2) + u64_le_bytes(h.w3)
}

/// How many bytes the big-integer arm of the compact encoding needs:
/// the least count of little-endian bytes that holds `v`.
pub open spec fn bytes_needed(v: u128) -> nat {
    if v == 0 {
        0
    } else if v < 0x100 {
        1
    } else if v < 0x10000 {
        2
    } else if v < 0x1000000 {
        3
    } else if v < 0x100000000 {
        4
    } else if v < 0x10000000000 {
        5
    } else if v < 0x1000000000000 {
        6
    } else if v < 0x100000000000000 {
        7
    } else if v < 0x10000000000000000 {
        8
    } else if v < 0x1000000000000000000 {
        9
    } else if v < 0x100000000000000000000 {
        10
    } else if v < 0x10000000000000000000000 {
        11
    } else if v < 0x1000000000000000000000000 {
        12
    } else if v < 0x100000000000000000000000000 {
        13
    } else if v < 0x10000000000000000000000000000 {
        14
    } else if v < 0x1000000000000000000000000000000 {
        15
    } else {
        16
    }
}

/// The `n` lowest bytes of `v`, little-endian.
pub open spec fn le_bytes(v: u128, n: nat) -> Seq<u8>
    decreases n,
{
    if n == 0 {
        Seq::empty()
    } else {
        seq![(v % 256) as u8] + le_bytes(v / 256, (n - 1) as nat)
    }
}

/// The compact encoding of an unsigned value: two mode bits in the
/// lowest positions select one, two or four bytes, or a length-prefixed
/// big-integer arm.
pub open spec fn compact_bytes(v: u128) -> Seq<u8> {
    if v < 64 {
        seq![(v * 4) as u8]
    } else if v < 16384 {
        seq![((v * 4 + 1) % 256) as u8, ((v * 4 + 1) / 256) as u8]
    } else if v < 1073741824 {
        u32_le_bytes((v * 4 + 2) as u32)
    } else {
        seq![((bytes_needed(v) - 4) * 4 + 3) as u8] + le_bytes(v, bytes_needed(v))
    }
}

fn bytes_needed_exec(v: u128) -> (r: u32)
    ensures
        r == bytes_needed(v),
{
    if v == 0 {
        0
    } else if v < 0x100 {
        1
    } else if v < 0x10000 {
        2
    } else if v < 0x1000000 {
        3
    } else if v < 0x100000000 {
        4
    } else if v < 0x10000000000 {
        5
    } else if v < 0x1000000000000 {
        6
    } else if v < 0x100000000000000 {
        7
    } else if v < 0x10000000000000000 {
        8
    } else if v < 0x1000000000000000000 {
        9
    } else if v < 0x100000000000000000000 {
        10
    } else if v < 0x10000000000000000000000 {
        11
    } else if v < 0x1000000000000000000000000 {
        12
    } else if v < 0x100000000000000000000000000 {
        13
    } else if v < 0x10000000000000000000000000000 {
        14
    } else if v < 0x1000000000000000000000000000000 {
        15
    } else {
        16
    }
}

/// Append the compact encoding of `v`.
pub fn push_compact(out: &mut Vec<u8>, v: u128)
    ensures
        final(out)@ == old(out)@ + compact_bytes(v),
{
    if v < 64 {
        out.push((v * 4) as u8);
        proof {
            assert(final(out)@ =~= old(out)@ + compact_bytes(v));
        }
    } else if v < 16384 {
        let w = v * 4 + 1;
        out.push((w % 256) as u8);
        out.push((w / 256) as u8);
        proof {
            assert(out@ =~= old(out)@ + compact_bytes(v));
        }
    } else if v < 1073741824 {
        push_u32_le(out, (v * 4 + 2) as u32);
        proof {
            assert(out@ =~= old(out)@ + compact_bytes(v));
        }
    } else {
        let n = bytes_needed_exec(v);
        out.push(((n - 4) * 4 + 3) as u8);
        let ghost base = out@;
        let mut tmp = v;
        let mut i: u32 = 0;
        while i < n
            invariant
                i <= n,
                n == bytes_needed(v),
                n <= 16,
                out@ + le_bytes(tmp, (n - i) as nat) == base + le_bytes(v, n as nat),
            decreases n - i,
        {
            out.push((tmp % 256) as u8);
            proof {
                assert(le_bytes(tmp, (n - i) as nat) =~= seq![(tmp % 256) as u8] + le_bytes(
                    tmp / 256,
                    (n - i - 1) as nat,
                ));
                assert(out@ + le_bytes(tmp / 256, (n - i - 1) as nat) =~= base + le_bytes(
                    v,
                    n as nat,
                ));
            }
            tmp = tmp / 256;
            i = i + 1;
        }
        proof {
            assert(le_bytes(tmp, 0) =~= Seq::<u8>::empty());
            assert(out@ =~= out@ + le_bytes(tmp, 0));
            assert(out@ =~= old(out)@ + compact_bytes(v));
        }
    }
}

/// Append the four little-endian bytes of `v`.
pub fn push_u32_le(out: &mut Vec<u8>, v: u32)
    ensures
        final(out)@ == old(out)@ + u32_le_bytes(v),
{
    out.push((v & 0xff) as u8);
    out.push(((v >> 8) & 0xff) as u8);
    out.push(((v >> 16) & 0xff) as u8);
    out.push(((v >> 24) & 0xff) as u8);
    proof {
        assert(out@ =~= old(out)@ + u32_le_bytes(v));
    }
}

/// Append the eight little-endian bytes of `v`.
pub fn push_u64_le(out: &mut Vec<u8>, v: u64)
    ensures
        final(out)@ == old(out)@ + u64_le_bytes(v),
{
    out.push((v & 0xff) as u8);
    out.push(((v >> 8) & 0xff) as u8);
    out.push(((v >> 16) & 0xff) as u8);
    out.push(((v >> 24) & 0xff) as u8);
    out.push(((v >> 32) & 0xff) as u8);
    out.push(((v >> 40) & 0xff) as u8);
    out.push(((v >> 48) & 0xff) as u8);
    out.push(((v >> 56) & 0xff) as u8);
    proof {
        assert(out@ =~= old(out)@ + u64_le_bytes(v));
    }
}

/// Append the 32 bytes of an identifier.
pub fn push_h256(out: &mut Vec<u8>, h: &H256)
    ensures
        final(out)@ == old(out)@ + h256_bytes(*h),
{
    push_u64_le(out, h.w0);
    push_u64_le(out, h.w1);
    push_u64_le(out, h.w2);
    push_u64_le(out, h.w3);
    proof {
        assert(out@ =~= old(out)@ + h256_bytes(*h));
    }
}

/// The encoding of an outpoint source: a tag and the id.
pub open spec fn source_id_bytes(s: OutPointSourceId) -> Seq<u8> {
    match s {
        OutPointSourceId::Transaction(id) => seq![0u8] + h256_bytes(id),
        OutPointSourceId::BlockReward(id) => seq![1u8] + h256_bytes(id),
    }
}

/// The encoding of one input: its source and the output index.
pub open spec fn input_bytes(i: TxInput) -> Seq<u8> {
    source_id_bytes(i.outpoint.source_id) + u32_le_bytes(i.outpoint.index)
}

/// The encoding of a destination: a tag and, but for the anyone-can-spend
/// destination, the key or key hash.
pub open spec fn destination_bytes(d: Destination) -> Seq<u8> {
    match d {
        Destination::AnyoneCanSpend => seq![0u8],
        Destination::Address(h) => seq![1u8] + h256_bytes(h),
        Destination::PublicKey(h) => seq![2u8] + h256_bytes(h),
    }
}

/// The encoding of a timelock: a tag and the height or count.
pub open spec fn timelock_bytes(t: OutputTimeLock) -> Seq<u8> {
    match t {
        OutputTimeLock::UntilHeight(h) => seq![0u8] + u64_le_bytes(h.height),
        OutputTimeLock::ForBlockCount(c) => seq![1u8] + u64_le_bytes(c),
    }
}

/// The encoding of an amount: sixteen little-endian bytes.
pub open spec fn amount_bytes(v: u128) -> Seq<u8> {
    le_bytes(v, 16)
}

/// The encoding of one output: a tag and the variant's fields.
pub open spec fn output_bytes(o: TxOutput) -> Seq<u8> {
    match o {
        TxOutput::Transfer(v, d) => seq![0u8] + amount_bytes(v.atoms) + destination_bytes(d),
        TxOutput::LockThenTransfer(v, d, t) => seq![1u8] + amount_bytes(v.atoms)
            + destination_bytes(d) + timelock_bytes(t),
        TxOutput::Burn(v) => seq![2u8] + amount_bytes(v.atoms),
        TxOutput::CreateStakePool(pool_id, data) => seq![3u8] + h256_bytes(pool_id) + amount_bytes(
            data.pledge.atoms,
        ) + destination_bytes(data.staker),
        TxOutput::ProduceBlockFromStake(d, pool_id) => seq![4u8] + destination_bytes(d)
            + h256_bytes(pool_id),
        TxOutput::CreateDelegationId(d, pool_id) => seq![5u8] + destination_bytes(d) + h256_bytes(
            pool_id,
        ),
        TxOutput::DelegateStaking(v, delegation_id) => seq![6u8] + amount_bytes(v.atoms)
            + h256_bytes(delegation_id),
    }
}

/// The encoding of the input list of a transaction, without its length
/// prefix.
pub open spec fn inputs_bytes(s: Seq<TxInput>) -> Seq<u8>
    decreases s.len(),
{
    if s.len() == 0 {
        Seq::empty()
    } else {
        inputs_bytes(s.drop_last()) + input_bytes(s.last())
    }
}

/// The encoding of the output list of a transaction, without its length
/// prefix.
pub open spec fn outputs_bytes(s: Seq<TxOutput>) -> Seq<u8>
    decreases s.len(),
{
    if s.len() == 0 {
        Seq::empty()
    } else {
        outputs_bytes(s.drop_last()) + output_bytes(s.last())
    }
}

/// The encoding of one witness: a tag, an inner option tag for absent
/// data, and length-prefixed bytes.
pub open spec fn witness_bytes(w: InputWitness) -> Seq<u8> {
    match w {
        InputWitness::NoSignature(None) => seq![0u8, 0u8],
        InputWitness::NoSignature(Some(data)) => seq![0u8, 1u8] + compact_bytes(
            data@.len() as u128,
        ) + data@,
        InputWitness::Standard(sig) => seq![1u8, sig.sighash_type] + compact_bytes(
            sig.raw_signature@.len() as u128,
        ) + sig.raw_signature@,
    }
}

/// The encoding of the witness list.
pub open spec fn witnesses_bytes(s: Seq<InputWitness>) -> Seq<u8>
    decreases s.len(),
{
    if s.len() == 0 {
        Seq::empty()
    } else {
        witnesses_bytes(s.drop_last()) + witness_bytes(s.last())
    }
}

/// The encoding of a transaction, witnesses excluded: the version tag,
/// the compact flags, and the length-prefixed input and output lists.
pub open spec fn tx_bytes(tx: Transaction) -> Seq<u8> {
    seq![1u8] + compact_bytes(crate::transaction::tx_flags(tx)) + compact_bytes(
        crate::transaction::tx_inputs(tx).len() as u128,
    ) + inputs_bytes(crate::transaction::tx_inputs(tx)) + compact_bytes(
        crate::transaction::tx_outputs(tx).len() as u128,
    ) + outputs_bytes(crate::transaction::tx_outputs(tx))
}

/// The encoding of a signed transaction: the transaction followed by its
/// length-prefixed witness list.
pub open spec fn signed_tx_bytes(stx: SignedTransaction) -> Seq<u8> {
    tx_bytes(stx.transaction) + compact_bytes(stx.witnesses@.len() as u128) + witnesses_bytes(
        stx.witnesses@,
    )
}

/// The id of a transaction: the digest of its encoding without
/// witnesses.
pub open spec fn tx_id_spec(tx: Transaction) -> H256 {
    sha256_of(tx_bytes(tx))
}

fn push_source_id(out: &mut Vec<u8>, s: &OutPointSourceId)
    ensures
        final(out)@ == old(out)@ + source_id_bytes(*s),
{
    match s {
        OutPointSourceId::Transaction(id) => {
            out.push(0u8);
            push_h256(out, id);
        },
        OutPointSourceId::BlockReward(id) => {
            out.push(1u8);
            push_h256(out, id);
        },
    }
    proof {
        assert(out@ =~= old(out)@ + source_id_bytes(*s));
    }
}

pub fn push_input(out: &mut Vec<u8>, i: &TxInput)
    ensures
        final(out)@ == old(out)@ + input_bytes(*i),
{
    push_source_id(out, &i.outpoint.source_id);
    push_u32_le(out, i.outpoint.index);
    proof {
        assert(out@ =~= old(out)@ + input_bytes(*i));
    }
}

fn push_destination(out: &mut Vec<u8>, d: &Destination)
    ensures
        final(out)@ == old(out)@ + destination_bytes(*d),
{
    match d {
        Destination::AnyoneCanSpend => out.push(0u8),
        Destination::Address(h) => {
            out.push(1u8);
            push_h256(out, h);
        },
        Destination::PublicKey(h) => {
            out.push(2u8);
            push_h256(out, h);
        },
    }
    proof {
        assert(out@ =~= old(out)@ + destination_bytes(*d));
    }
}

pub fn push_amount(out: &mut Vec<u8>, v: u128)
    ensures
        final(out)@ == old(out)@ + amount_bytes(v),
{
    let ghost base = out@;
    let mut tmp = v;
    let mut i: u32 = 0;
    while i < 16
        invariant
            i <= 16,
            out@ + le_bytes(tmp, (16 - i) as nat) == base + le_bytes(v, 16),
        decreases 16 - i,
    {
        out.push((tmp % 256) as u8);
        proof {
            assert(le_bytes(tmp, (16 - i) as nat) =~= seq![(tmp % 256) as u8] + le_bytes(
                tmp / 256,
                (16 - i - 1) as nat,
            ));
            assert(out@ + le_bytes(tmp / 256, (16 - i - 1) as nat) =~= base + le_bytes(v, 16));
        }
        tmp = tmp / 256;
        i = i + 1;
    }
    proof {
        assert(le_bytes(tmp, 0) =~= Seq::<u8>::empty());
        assert(out@ =~= out@ + le_bytes(tmp, 0));
        assert(out@ =~= old(out)@ + amount_bytes(v));
    }
}

fn push_timelock(out: &mut Vec<u8>, t: &OutputTimeLock)
    ensures
        final(out)@ == old(out)@ + timelock_bytes(*t),
{
    match t {
        OutputTimeLock::UntilHeight(h) => {
            out.push(0u8);
            push_u64_le(out, h.height);
        },
        OutputTimeLock::ForBlockCount(c) => {
            out.push(1u8);
            push_u64_le(out, *c);
        },
    }
    proof {
        assert(out@ =~= old(out)@ + timelock_bytes(*t));
    }
}

fn push_output(out: &mut Vec<u8>, o: &TxOutput)
    ensures
        final(out)@ == old(out)@ + output_bytes(*o),
{
    match o {
        TxOutput::Transfer(v, d) => {
            out.push(0u8);
            push_amount(out, v.atoms);
            push_destination(out, d);
        },
        TxOutput::LockThenTransfer(v, d, t) => {
            out.push(1u8);
            push_amount(out, v.atoms);
            push_destination(out, d);
            push_timelock(out, t);
        },
        TxOutput::Burn(v) => {
            out.push(2u8);
            push_amount(out, v.atoms);
        },
        TxOutput::CreateStakePool(pool_id, data) => {
            out.push(3u8);
            push_h256(out, pool_id);
            push_amount(out, data.pledge.atoms);
            push_destination(out, &data.staker);
        },
        TxOutput::ProduceBlockFromStake(d, pool_id) => {
            out.push(4u8);
            push_destination(out, d);
            push_h256(out, pool_id);
        },
        TxOutput::CreateDelegationId(d, pool_id) => {
            out.push(5u8);
            push_destination(out, d);
            push_h256(out, pool_id);
        },
        TxOutput::DelegateStaking(v, delegation_id) => {
            out.push(6u8);
            push_amount(out, v.atoms);
            push_h256(out, delegation_id);
        },
    }
    proof {
        assert(out@ =~= old(out)@ + output_bytes(*o));
    }
}

fn push_witness(out: &mut Vec<u8>, w: &InputWitness)
    ensures
        final(out)@ == old(out)@ + witness_bytes(*w),
{
    match w {
        InputWitness::NoSignature(None) => {
            out.push(0u8);
            out.push(0u8);
        },
        InputWitness::NoSignature(Some(data)) => {
            out.push(0u8);
            out.push(1u8);
            push_compact(out, data.len() as u128);
            let ghost mid = out@;
            out.extend_from_slice(data.as_slice());
            proof {
                assert(out@ =~= mid + data@);
            }
        },
        InputWitness::Standard(sig) => {
            out.push(1u8);
            out.push(sig.sighash_type);
            push_compact(out, sig.raw_signature.len() as u128);
            let ghost mid = out@;
            out.extend_from_slice(sig.raw_signature.as_slice());
            proof {
                assert(out@ =~= mid + sig.raw_signature@);
            }
        },
    }
    proof {
        assert(out@ =~= old(out)@ + witness_bytes(*w));
    }
}

fn push_inputs(out: &mut Vec<u8>, inputs: &Vec<TxInput>)
    ensures
        final(out)@ == old(out)@ + compact_bytes(inputs@.len() as u128) + inputs_bytes(inputs@),
{
    push_compact(out, inputs.len() as u128);
    let ghost base = out@;
    let n = inputs.len();
    let mut i: usize = 0;
    while i < n
        invariant
            i <= n,
            n == inputs@.len(),
            out@ == base + inputs_bytes(inputs@.take(i as int)),
        decreases n - i,
    {
        push_input(out, &inputs[i]);
        proof {
            assert(inputs@.take(i + 1 as int).drop_last() =~= inputs@.take(i as int));
            assert(out@ =~= base + inputs_bytes(inputs@.take(i + 1 as int)));
        }
        i = i + 1;
    }
    proof {
        assert(inputs@.take(n as int) =~= inputs@);
        assert(out@ =~= old(out)@ + compact_bytes(inputs@.len() as u128) + inputs_bytes(inputs@));
    }
}

fn push_outputs(out: &mut Vec<u8>, outputs: &Vec<TxOutput>)
    ensures
        final(out)@ == old(out)@ + compact_bytes(outputs@.len() as u128) + outputs_bytes(outputs@),
{
    push_compact(out, outputs.len() as u128);
    let ghost base = out@;
    let n = outputs.len();
    let mut i: usize = 0;
    while i < n
        invariant
            i <= n,
            n == outputs@.len(),
            out@ == base + outputs_bytes(outputs@.take(i as int)),
        decreases n - i,
    {
        push_output(out, &outputs[i]);
        proof {
            assert(outputs@.take(i + 1 as int).drop_last() =~= outputs@.take(i as int));
            assert(out@ =~= base + outputs_bytes(outputs@.take(i + 1 as int)));
        }
        i = i + 1;
    }
    proof {
        assert(outputs@.take(n as int) =~= outputs@);
        assert(out@ =~= old(out)@ + compact_bytes(outputs@.len() as u128) + outputs_bytes(
            outputs@,
        ));
    }
}

impl Transaction {
    /// The canonical encoding of this transaction, without witnesses.
    pub fn encode(&self) -> (r: Vec<u8>)
        ensures
            r@ == tx_bytes(*self),
    {
        let mut out: Vec<u8> = Vec::new();
        out.push(1u8);
        push_compact(&mut out, self.flags());
        push_inputs(&mut out, self.inputs());
        push_outputs(&mut out, self.outputs());
        proof {
            assert(out@ =~= tx_bytes(*self));
        }
        out
    }

    /// The single version byte the encoding starts with.
    pub fn version_byte(&self) -> (r: u8)
        ensures
            r == 1,
            r == tx_bytes(*self)[0],
    {
        proof {
            assert(tx_bytes(*self)[0] == 1u8);
        }
        1
    }

    /// The id of this transaction: the digest of its encoding without
    /// witnesses, so the id is not malleable through witnesses.
    pub fn get_id(&self) -> (r: H256)
        ensures
            r == tx_id_spec(*self),
    {
        let bytes = self.encode();
        sha256(&bytes)
    }

    /// The digest of the serialized transaction.
    pub fn serialized_hash(&self) -> (r: H256)
        ensures
            r == tx_id_spec(*self),
    {
        self.get_id()
    }

    /// How many bytes the encoding takes.
    pub fn encoded_size(&self) -> (r: usize)
        ensures
            r == tx_bytes(*self).len(),
    {
        self.encode().len()
    }
}

impl SignedTransaction {
    /// The canonical encoding of this transaction with its witnesses.
    pub fn encode(&self) -> (r: Vec<u8>)
        ensures
            r@ == signed_tx_bytes(*self),
    {
        let mut out = self.transaction.encode();
        push_compact(&mut out, self.witnesses.len() as u128);
        let ghost base = out@;
        let n = self.witnesses.len();
        let mut i: usize = 0;
        while i < n
            invariant
                i <= n,
                n == self.witnesses@.len(),
                out@ == base + witnesses_bytes(self.witnesses@.take(i as int)),
            decreases n - i,
        {
            push_witness(&mut out, &self.witnesses[i]);
            proof {
                assert(self.witnesses@.take(i + 1 as int).drop_last() =~= self.witnesses@.take(
                    i as int,
                ));
                assert(out@ =~= base + witnesses_bytes(self.witnesses@.take(i + 1 as int)));
            }
            i = i + 1;
        }
        proof {
            assert(self.witnesses@.take(n as int) =~= self.witnesses@);
            assert(out@ =~= signed_tx_bytes(*self));
        }
        out
    }

    /// How many bytes the encoding takes, witnesses included; fees are
    /// computed per encoded byte.
    pub fn encoded_size(&self) -> (r: usize)
        ensures
            r == signed_tx_bytes(*self).len(),
    {
        self.encode().len()
    }

    /// The id of the underlying transaction (witnesses excluded).
    pub fn get_id(&self) -> (r: H256)
        ensures
            r == tx_id_spec(self.transaction),
    {
        self.transaction.get_id()
    }
}

} // verus!
