//! Blocks: a versioned header committing to the transaction list through
//! a Merkle root, and the transactions themselves. A block's id is the
//! digest of its encoded header.

use vstd::prelude::*;

use crate::config::ChainConfig;
use crate::encode::{h256_bytes, sha256, sha256_of, u32_le_bytes, u64_le_bytes};
use crate::primitives::H256;
use crate::transaction::{SignedTransaction, Transaction, TxInput};

verus! {

/// The proof-of-work payload of a header.
#[derive(PartialEq, Eq, Structural, Clone, Copy, Debug)]
pub struct PoWData {
    pub bits: u128,
    pub nonce: u128,
}

/// The proof-of-stake payload of a header: the kernel input whose
/// referenced output stakes the block, the pool the reward is built for,
/// and the VRF output.
#[derive(PartialEq, Eq, Structural, Clone, Copy, Debug)]
pub struct PoSData {
    pub kernel_input: TxInput,
    pub pool_id: H256,
    pub vrf_data: H256,
}

/// The consensus payload of a header.
#[derive(PartialEq, Eq, Structural, Clone, Copy, Debug)]
pub enum ConsensusData {
    NoData,
    PoW(PoWData),
    PoS(PoSData),
}

/// Errors creating a block.
#[derive(PartialEq, Eq, Structural, Clone, Copy, Debug)]
pub enum BlockCreationError {
    MerkleTreeError(MerkleTreeFormError),
}

/// Errors forming a Merkle tree.
#[derive(PartialEq, Eq, Structural, Clone, Copy, Debug)]
pub enum MerkleTreeFormError {
    TooSmall(u32),
}

/// The digest of two child digests, concatenated.
pub open spec fn merkle_pair_hash(a: H256, b: H256) -> H256 {
    sha256_of(h256_bytes(a) + h256_bytes(b))
}

/// One level up the tree: children are combined pairwise, an odd last
/// child is paired with itself.
pub open spec fn merkle_level(s: Seq<H256>) -> Seq<H256> {
    Seq::new(
        ((s.len() + 1) / 2) as nat,
        |i: int|
            if 2 * i + 1 < s.len() {
                merkle_pair_hash(s[2 * i], s[2 * i + 1])
            } else {
                merkle_pair_hash(s[2 * i], s[2 * i])
            },
    )
}

/// The root of the Merkle tree over the leaves; a single leaf is its own
/// root.
pub open spec fn merkle_root_of(s: Seq<H256>) -> H256
    decreases s.len(),
{
    if s.len() == 0 {
        H256 { w0: 0, w1: 0, w2: 0, w3: 0 }
    } else if s.len() == 1 {
        s[0]
    } else {
        merkle_root_of(merkle_level(s))
    }
}

/// The ids of a list of transactions, in order.
pub open spec fn tx_ids_of(txs: Seq<Transaction>) -> Seq<H256> {
    Seq::new(txs.len(), |i: int| crate::encode::tx_id_spec(txs[i]))
}

/// The ids of a list of signed transactions, in order; witnesses do not
/// enter the id.
pub open spec fn signed_tx_ids_of(txs: Seq<SignedTransaction>) -> Seq<H256> {
    Seq::new(txs.len(), |i: int| crate::encode::tx_id_spec(txs[i].transaction))
}

/// The digest of two concatenated digests.
pub fn hash_pair(a: &H256, b: &H256) -> (r: H256)
    ensures
        r == merkle_pair_hash(*a, *b),
{
    let mut buf: Vec<u8> = Vec::new();
    crate::encode::push_h256(&mut buf, a);
    crate::encode::push_h256(&mut buf, b);
    proof {
        assert(buf@ =~= h256_bytes(*a) + h256_bytes(*b));
    }
    sha256(&buf)
}

/// The Merkle root of the given leaf digests.
pub fn merkle_root_from_ids(ids: Vec<H256>) -> (r: H256)
    requires
        ids@.len() >= 1,
    ensures
        r == merkle_root_of(ids@),
{
    let mut cur = ids;
    while cur.len() > 1
        invariant
            cur@.len() >= 1,
            merkle_root_of(cur@) == merkle_root_of(ids@),
        decreases cur@.len(),
    {
        let n = cur.len();
        let half = n / 2 + n % 2;
        proof {
            assert(half == (n + 1) / 2);
        }
        let mut next: Vec<H256> = Vec::new();
        let mut i: usize = 0;
        while i < half
            invariant
                i <= half,
                n == cur@.len(),
                n > 1,
                half == (n + 1) / 2,
                next@ == merkle_level(cur@).take(i as int),
            decreases half - i,
        {
            let left = cur[2 * i];
            let h = if 2 * i + 1 < n {
                hash_pair(&left, &cur[2 * i + 1])
            } else {
                hash_pair(&left, &left)
            };
            next.push(h);
            proof {
                assert(next@ =~= merkle_level(cur@).take(i + 1 as int));
            }
            i = i + 1;
        }
        proof {
            assert(next@ =~= merkle_level(cur@));
        }
        cur = next;
    }
    cur[0]
}

/// The Merkle root committing to a transaction list: absent for an empty
/// block; a single transaction's id is used directly as the root.
pub fn calculate_tx_merkle_root(transactions: &Vec<Transaction>) -> (r: Result<
    Option<H256>,
    MerkleTreeFormError,
>)
    ensures
        transactions@.len() == 0 ==> r == Ok::<Option<H256>, MerkleTreeFormError>(None),
        transactions@.len() == 1 ==> r == Ok::<Option<H256>, MerkleTreeFormError>(
            Some(crate::encode::tx_id_spec(transactions@[0])),
        ),
        transactions@.len() >= 1 ==> r == Ok::<Option<H256>, MerkleTreeFormError>(
            Some(merkle_root_of(tx_ids_of(transactions@))),
        ),
{
    if transactions.len() == 0 {
        return Ok(None);
    }
    let n = transactions.len();
    let mut ids: Vec<H256> = Vec::new();
    let mut i: usize = 0;
    while i < n
        invariant
            i <= n,
            n == transactions@.len(),
            ids@ == tx_ids_of(transactions@).take(i as int),
        decreases n - i,
    {
        let id = transactions[i].get_id();
        ids.push(id);
        proof {
            assert(ids@ =~= tx_ids_of(transactions@).take(i + 1 as int));
        }
        i = i + 1;
    }
    proof {
        assert(ids@ =~= tx_ids_of(transactions@));
    }
    Ok(Some(merkle_root_from_ids(ids)))
}

/// The Merkle root committing to the witnessed transactions; it follows
/// the same shape over the same ids.
pub fn calculate_witness_merkle_root(transactions: &Vec<Transaction>) -> (r: Result<
    Option<H256>,
    MerkleTreeFormError,
>)
    ensures
        transactions@.len() == 0 ==> r == Ok::<Option<H256>, MerkleTreeFormError>(None),
        transactions@.len() >= 1 ==> r == Ok::<Option<H256>, MerkleTreeFormError>(
            Some(merkle_root_of(tx_ids_of(transactions@))),
        ),
{
    calculate_tx_merkle_root(transactions)
}

/// The Merkle root committing to a list of signed transactions, over
/// their witness-free ids: absent for an empty list; a single
/// transaction's id is the root.
pub fn calculate_signed_tx_merkle_root(transactions: &Vec<SignedTransaction>) -> (r: Result<
    Option<H256>,
    MerkleTreeFormError,
>)
    ensures
        transactions@.len() == 0 ==> r == Ok::<Option<H256>, MerkleTreeFormError>(None),
        transactions@.len() >= 1 ==> r == Ok::<Option<H256>, MerkleTreeFormError>(
            Some(merkle_root_of(signed_tx_ids_of(transactions@))),
        ),
{
    if transactions.len() == 0 {
        return Ok(None);
    }
    let n = transactions.len();
    let mut ids: Vec<H256> = Vec::new();
    let mut i: usize = 0;
    while i < n
        invariant
            i <= n,
            n == transactions@.len(),
            ids@ == signed_tx_ids_of(transactions@).take(i as int),
        decreases n - i,
    {
        let id = transactions[i].get_id();
        ids.push(id);
        proof {
            assert(ids@ =~= signed_tx_ids_of(transactions@).take(i + 1 as int));
        }
        i = i + 1;
    }
    proof {
        assert(ids@ =~= signed_tx_ids_of(transactions@));
    }
    Ok(Some(merkle_root_from_ids(ids)))
}

/// The versioned header of a block.
#[derive(PartialEq, Eq, Structural, Clone, Copy, Debug)]
pub struct BlockHeader {
    pub prev_block_hash: Option<H256>,
    pub tx_merkle_root: Option<H256>,
    pub witness_merkle_root: Option<H256>,
    pub time: u32,
    pub consensus_data_inner: ConsensusData,
}

/// The encoding of an optional digest: an option tag, then the digest.
pub open spec fn opt_h256_bytes(o: Option<H256>) -> Seq<u8> {
    match o {
        None => seq![0u8],
        Some(h) => seq![1u8] + h256_bytes(h),
    }
}

/// The encoding of the consensus payload.
pub open spec fn consensus_bytes(c: ConsensusData) -> Seq<u8> {
    match c {
        ConsensusData::NoData => seq![0u8],
        ConsensusData::PoW(d) => seq![1u8] + crate::encode::amount_bytes(d.bits)
            + crate::encode::amount_bytes(d.nonce),
        ConsensusData::PoS(d) => seq![2u8] + crate::encode::input_bytes(d.kernel_input)
            + h256_bytes(d.pool_id) + h256_bytes(d.vrf_data),
    }
}

/// The encoding of a header: the version tag and its fields.
pub open spec fn header_bytes(h: BlockHeader) -> Seq<u8> {
    seq![1u8] + opt_h256_bytes(h.prev_block_hash) + opt_h256_bytes(h.tx_merkle_root)
        + opt_h256_bytes(h.witness_merkle_root) + u32_le_bytes(h.time) + consensus_bytes(
        h.consensus_data_inner,
    )
}

fn push_opt_h256(out: &mut Vec<u8>, o: &Option<H256>)
    ensures
        final(out)@ == old(out)@ + opt_h256_bytes(*o),
{
    match o {
        None => out.push(0u8),
        Some(h) => {
            out.push(1u8);
            crate::encode::push_h256(out, h);
        },
    }
    proof {
        assert(out@ =~= old(out)@ + opt_h256_bytes(*o));
    }
}

impl BlockHeader {
    /// The canonical encoding of this header.
    pub fn encode(&self) -> (r: Vec<u8>)
        ensures
            r@ == header_bytes(*self),
    {
        let mut out: Vec<u8> = Vec::new();
        out.push(1u8);
        push_opt_h256(&mut out, &self.prev_block_hash);
        push_opt_h256(&mut out, &self.tx_merkle_root);
        push_opt_h256(&mut out, &self.witness_merkle_root);
        crate::encode::push_u32_le(&mut out, self.time);
        match &self.consensus_data_inner {
            ConsensusData::NoData => out.push(0u8),
            ConsensusData::PoW(d) => {
                out.push(1u8);
                crate::encode::push_amount(&mut out, d.bits);
                crate::encode::push_amount(&mut out, d.nonce);
            },
            ConsensusData::PoS(d) => {
                out.push(2u8);
                crate::encode::push_input(&mut out, &d.kernel_input);
                crate::encode::push_h256(&mut out, &d.pool_id);
                crate::encode::push_h256(&mut out, &d.vrf_data);
            },
        }
        proof {
            assert(out@ =~= header_bytes(*self));
        }
        out
    }
}

/// The versioned body of a block.
#[derive(PartialEq, Eq, Clone, Debug)]
pub struct BlockV1 {
    pub header: BlockHeader,
    pub transactions: Vec<SignedTransaction>,
}

/// A block; its id is the digest of its header, which commits to the
/// transactions through the Merkle root.
#[derive(PartialEq, Eq, Clone, Debug)]
pub enum Block {
    V1(BlockV1),
}

/// The header of a block.
pub open spec fn block_header(b: Block) -> BlockHeader {
    match b {
        Block::V1(v1) => v1.header,
    }
}

/// The transactions of a block, witnesses included.
pub open spec fn block_transactions(b: Block) -> Seq<SignedTransaction> {
    match b {
        Block::V1(v1) => v1.transactions@,
    }
}

/// The id of a block: the digest of its encoded header.
pub open spec fn block_id_spec(b: Block) -> H256 {
    sha256_of(header_bytes(block_header(b)))
}

impl Block {
    /// Build a block: the Merkle roots over the transactions are
    /// computed and sealed into the header.
    pub fn new(
        transactions: Vec<SignedTransaction>,
        hash_prev_block: Option<H256>,
        time: u32,
        consensus_data: ConsensusData,
    ) -> (r: Result<Self, BlockCreationError>)
        ensures
            r matches Ok(b) && block_transactions(b) == transactions@ && block_header(b)
                == (BlockHeader {
                prev_block_hash: hash_prev_block,
                tx_merkle_root: if transactions@.len() == 0 {
                    None
                } else {
                    Some(merkle_root_of(signed_tx_ids_of(transactions@)))
                },
                witness_merkle_root: if transactions@.len() == 0 {
                    None
                } else {
                    Some(merkle_root_of(signed_tx_ids_of(transactions@)))
                },
                time,
                consensus_data_inner: consensus_data,
            }),
    {
        let tx_merkle_root = match calculate_signed_tx_merkle_root(&transactions) {
            Ok(root) => root,
            Err(e) => {
                return Err(BlockCreationError::MerkleTreeError(e));
            },
        };
        let witness_merkle_root = match calculate_signed_tx_merkle_root(&transactions) {
            Ok(root) => root,
            Err(e) => {
                return Err(BlockCreationError::MerkleTreeError(e));
            },
        };
        let header = BlockHeader {
            time,
            consensus_data_inner: consensus_data,
            prev_block_hash: hash_prev_block,
            tx_merkle_root,
            witness_merkle_root,
        };
        Ok(Block::V1(BlockV1 { header, transactions }))
    }

    /// Build a block with no consensus payload.
    pub fn new_with_no_consensus(
        transactions: Vec<SignedTransaction>,
        hash_prev_block: Option<H256>,
        time: u32,
    ) -> (r: Result<Self, BlockCreationError>)
        ensures
            r matches Ok(b) && block_transactions(b) == transactions@ && block_header(b)
                == (BlockHeader {
                prev_block_hash: hash_prev_block,
                tx_merkle_root: if transactions@.len() == 0 {
                    None
                } else {
                    Some(merkle_root_of(signed_tx_ids_of(transactions@)))
                },
                witness_merkle_root: if transactions@.len() == 0 {
                    None
                } else {
                    Some(merkle_root_of(signed_tx_ids_of(transactions@)))
                },
                time,
                consensus_data_inner: ConsensusData::NoData,
            }),
    {
        Block::new(transactions, hash_prev_block, time, ConsensusData::NoData)
    }

    /// Replace the consensus payload, keeping everything else.
    pub fn update_consensus_data(&mut self, consensus_data: ConsensusData)
        ensures
            block_header(*final(self)) == (BlockHeader {
                consensus_data_inner: consensus_data,
                ..block_header(*old(self))
            }),
            block_transactions(*final(self)) == block_transactions(*old(self)),
    {
        match self {
            Block::V1(blk) => {
                blk.header.consensus_data_inner = consensus_data;
            },
        }
    }

    pub fn consensus_data(&self) -> (r: &ConsensusData)
        ensures
            *r == block_header(*self).consensus_data_inner,
    {
        match self {
            Block::V1(blk) => &blk.header.consensus_data_inner,
        }
    }

    pub fn merkle_root(&self) -> (r: Option<H256>)
        ensures
            r == block_header(*self).tx_merkle_root,
    {
        match self {
            Block::V1(blk) => blk.header.tx_merkle_root,
        }
    }

    pub fn witness_merkle_root(&self) -> (r: Option<H256>)
        ensures
            r == block_header(*self).witness_merkle_root,
    {
        match self {
            Block::V1(blk) => blk.header.witness_merkle_root,
        }
    }

    pub fn header(&self) -> (r: &BlockHeader)
        ensures
            *r == block_header(*self),
    {
        match self {
            Block::V1(blk) => &blk.header,
        }
    }

    pub fn block_time(&self) -> (r: u32)
        ensures
            r == block_header(*self).time,
    {
        match self {
            Block::V1(blk) => blk.header.time,
        }
    }

    pub fn transactions(&self) -> (r: &Vec<SignedTransaction>)
        ensures
            r@ == block_transactions(*self),
    {
        match self {
            Block::V1(blk) => &blk.transactions,
        }
    }

    pub fn prev_block_id(&self) -> (r: Option<H256>)
        ensures
            r == block_header(*self).prev_block_hash,
    {
        match self {
            Block::V1(blk) => blk.header.prev_block_hash,
        }
    }

    /// The id of this block: the digest of its encoded header.
    pub fn get_id(&self) -> (r: H256)
        ensures
            r == block_id_spec(*self),
    {
        let bytes = self.header().encode();
        sha256(&bytes)
    }

    /// Whether this block is the chain's genesis block.
    pub fn is_genesis(&self, chain_config: &ChainConfig) -> (r: bool)
        ensures
            r <==> (block_header(*self).prev_block_hash is None && chain_config.genesis_id()
                == block_id_spec(*self)),
    {
        self.prev_block_id().is_none() && chain_config.genesis_block_id() == self.get_id()
    }
}

} // verus!
