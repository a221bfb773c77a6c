//! The chain configuration: immutable after construction and shared by
//! reference. Built through a builder seeded from a chain type.

use vstd::prelude::*;

use crate::block::{Block, BlockV1, BlockHeader, ConsensusData};
use crate::primitives::{Amount, BlockHeight, H256};
use crate::transaction::{
    Destination, InputWitness, OutPointSourceId, SignedTransaction, Transaction, TransactionV1,
    TxInput, TxOutput,
};

verus! {

/// The network a configuration is for.
#[derive(PartialEq, Eq, Structural, Clone, Copy, Debug)]
pub enum ChainType {
    Mainnet,
    Testnet,
    Regtest,
    Signet,
}

/// The consensus rule active from some height on.
#[derive(PartialEq, Eq, Structural, Clone, Copy, Debug)]
pub enum ConsensusUpgrade {
    IgnoreConsensus,
    PoW { initial_difficulty: u128 },
    PoS { initial_difficulty: u128 },
}

/// The schedule of consensus rules by activation height.
#[derive(PartialEq, Eq, Clone, Debug)]
pub struct NetUpgrades {
    pub upgrades: Vec<(BlockHeight, ConsensusUpgrade)>,
}

impl NetUpgrades {
    /// The schedule used by unit-test chains: no consensus at any height.
    pub fn unit_tests() -> (r: Self)
        ensures
            r.upgrades@.len() == 1,
            r.upgrades@[0] == (BlockHeight { height: 0 }, ConsensusUpgrade::IgnoreConsensus),
    {
        let mut upgrades: Vec<(BlockHeight, ConsensusUpgrade)> = Vec::new();
        upgrades.push((BlockHeight { height: 0 }, ConsensusUpgrade::IgnoreConsensus));
        NetUpgrades { upgrades }
    }
}

/// The consensus schedule a chain of this type starts with.
pub open spec fn default_upgrades_of(t: ChainType) -> Seq<(BlockHeight, ConsensusUpgrade)> {
    match t {
        ChainType::Mainnet | ChainType::Regtest => seq![
            (BlockHeight { height: 0 }, ConsensusUpgrade::IgnoreConsensus),
            (
                BlockHeight { height: 1 },
                ConsensusUpgrade::PoW { initial_difficulty: 0x0000ffff00000000 },
            ),
        ],
        ChainType::Testnet => seq![
            (BlockHeight { height: 0 }, ConsensusUpgrade::IgnoreConsensus),
            (
                BlockHeight { height: 1 },
                ConsensusUpgrade::PoS { initial_difficulty: 0x0000ffff00000000 },
            ),
        ],
        ChainType::Signet => seq![(BlockHeight { height: 0 }, ConsensusUpgrade::IgnoreConsensus)],
    }
}

impl ChainType {
    /// The consensus schedule a chain of this type starts with: ignored
    /// consensus at genesis, then the chain's work or stake rule.
    pub fn default_net_upgrades(&self) -> (r: NetUpgrades)
        ensures
            r.upgrades@ == default_upgrades_of(*self),
    {
        match self {
            ChainType::Mainnet | ChainType::Regtest => {
                let mut upgrades: Vec<(BlockHeight, ConsensusUpgrade)> = Vec::new();
                upgrades.push((BlockHeight { height: 0 }, ConsensusUpgrade::IgnoreConsensus));
                upgrades.push(
                    (
                        BlockHeight { height: 1 },
                        ConsensusUpgrade::PoW { initial_difficulty: 0x0000ffff00000000 },
                    ),
                );
                proof {
                    assert(upgrades@ =~= default_upgrades_of(*self));
                }
                NetUpgrades { upgrades }
            },
            ChainType::Testnet => {
                let mut upgrades: Vec<(BlockHeight, ConsensusUpgrade)> = Vec::new();
                upgrades.push((BlockHeight { height: 0 }, ConsensusUpgrade::IgnoreConsensus));
                upgrades.push(
                    (
                        BlockHeight { height: 1 },
                        ConsensusUpgrade::PoS { initial_difficulty: 0x0000ffff00000000 },
                    ),
                );
                proof {
                    assert(upgrades@ =~= default_upgrades_of(*self));
                }
                NetUpgrades { upgrades }
            },
            ChainType::Signet => {
                let r = NetUpgrades::unit_tests();
                proof {
                    assert(r.upgrades@ =~= default_upgrades_of(*self));
                }
                r
            },
        }
    }

    fn default_p2p_port(&self) -> (r: u16)
        ensures
            r > 0,
    {
        match self {
            ChainType::Mainnet => 3031,
            ChainType::Testnet => 13031,
            ChainType::Regtest => 23031,
            ChainType::Signet => 33031,
        }
    }
}

/// What the unit-test genesis block holds for a premine destination: no
/// parent, a fixed timestamp, no consensus payload, and one transaction
/// moving the premine from a null block-reward outpoint to the
/// destination, committed to by the header's roots.
pub open spec fn unit_test_genesis_ok(b: Block, premine_destination: Destination) -> bool {
    let txs = crate::block::block_transactions(b);
    let h = crate::block::block_header(b);
    &&& txs.len() == 1
    &&& txs[0].wf()
    &&& crate::transaction::tx_flags(txs[0].transaction) == 0
    &&& crate::transaction::tx_inputs(txs[0].transaction) == seq![
        TxInput {
            outpoint: crate::transaction::OutPoint {
                source_id: OutPointSourceId::BlockReward(H256 { w0: 0, w1: 0, w2: 0, w3: 0 }),
                index: 0,
            },
        },
    ]
    &&& crate::transaction::tx_outputs(txs[0].transaction) == seq![
        TxOutput::Transfer(Amount { atoms: 100000000000000000 }, premine_destination),
    ]
    &&& h.prev_block_hash is None
    &&& h.time == 1639975460
    &&& h.consensus_data_inner == ConsensusData::NoData
    &&& h.tx_merkle_root == Some(
        crate::block::merkle_root_of(crate::block::signed_tx_ids_of(txs)),
    )
    &&& h.witness_merkle_root == h.tx_merkle_root
}

/// The premined genesis block of a test chain: one transaction moving
/// the premine to the given destination.
pub fn create_unit_test_genesis(premine_destination: Destination) -> (r: Block)
    ensures
        unit_test_genesis_ok(r, premine_destination),
{
    let input = TxInput::new(
        OutPointSourceId::BlockReward(H256::zero()),
        0,
    );
    let mut inputs: Vec<TxInput> = Vec::new();
    inputs.push(input);
    let mut outputs: Vec<TxOutput> = Vec::new();
    outputs.push(
        TxOutput::Transfer(Amount { atoms: 100000000000000000 }, premine_destination),
    );
    let tx = Transaction::V1(TransactionV1 { flags: 0, inputs, outputs });
    let stx = match SignedTransaction::new(tx, vec![InputWitness::NoSignature(None)]) {
        Ok(s) => s,
        Err(_) => {
            proof {
                assert(false);
            }
            SignedTransaction {
                transaction: Transaction::V1(
                    TransactionV1 { flags: 0, inputs: Vec::new(), outputs: Vec::new() },
                ),
                witnesses: Vec::new(),
            }
        },
    };
    let mut transactions: Vec<SignedTransaction> = Vec::new();
    transactions.push(stx);
    match Block::new(transactions, None, 1639975460, ConsensusData::NoData) {
        Ok(b) => {
            proof {
                assert(unit_test_genesis_ok(b, premine_destination));
            }
            b
        },
        Err(_) => {
            // Block creation over a fixed transaction list does not fail.
            proof {
                assert(false);
            }
            Block::V1(
                BlockV1 {
                    header: BlockHeader {
                        prev_block_hash: None,
                        tx_merkle_root: None,
                        witness_merkle_root: None,
                        time: 0,
                        consensus_data_inner: ConsensusData::NoData,
                    },
                    transactions: Vec::new(),
                },
            )
        },
    }
}

/// The chain's immutable parameters.
pub struct ChainConfig {
    pub chain_type: ChainType,
    pub p2p_port: u16,
    pub magic_byte: u8,
    pub coin_decimals: u8,
    pub max_future_block_time_offset_secs: u64,
    pub target_block_spacing_secs: u64,
    pub max_block_header_size: usize,
    pub max_block_size_with_standard_txs: usize,
    pub epoch_length: u64,
    pub sealed_epoch_distance_from_tip: u64,
    pub min_stake_pool_pledge: Amount,
    pub decommission_maturity_block_count: u64,
    pub net_upgrades: NetUpgrades,
    pub genesis_block: Block,
}

impl ChainConfig {
    /// Epochs must not be empty.
    pub open spec fn wf(&self) -> bool {
        self.epoch_length > 0
    }

    /// The id of the genesis block.
    pub open spec fn genesis_id(&self) -> H256 {
        crate::block::block_id_spec(self.genesis_block)
    }

    pub fn genesis_block(&self) -> (r: &Block)
        ensures
            *r == self.genesis_block,
    {
        &self.genesis_block
    }

    pub fn genesis_block_id(&self) -> (r: H256)
        ensures
            r == self.genesis_id(),
    {
        self.genesis_block.get_id()
    }

    /// The epoch a height falls in.
    pub fn epoch_index_from_height(&self, height: &BlockHeight) -> (r: u64)
        requires
            self.wf(),
        ensures
            r == height.height / self.epoch_length,
    {
        height.height / self.epoch_length
    }

    pub fn epoch_length(&self) -> (r: u64)
        ensures
            r == self.epoch_length,
    {
        self.epoch_length
    }

    pub fn sealed_epoch_distance_from_tip(&self) -> (r: u64)
        ensures
            r == self.sealed_epoch_distance_from_tip,
    {
        self.sealed_epoch_distance_from_tip
    }
}

/// Builder for a [`ChainConfig`], seeded by the chain type's defaults.
pub struct Builder {
    pub chain_type: ChainType,
    pub p2p_port: u16,
    pub magic_byte: u8,
    pub coin_decimals: u8,
    pub max_future_block_time_offset_secs: u64,
    pub target_block_spacing_secs: u64,
    pub max_block_header_size: usize,
    pub max_block_size_with_standard_txs: usize,
    pub epoch_length: u64,
    pub sealed_epoch_distance_from_tip: u64,
    pub min_stake_pool_pledge: Amount,
    pub decommission_maturity_block_count: u64,
    pub net_upgrades: NetUpgrades,
    pub genesis_destination: Destination,
}

impl Builder {
    /// A new chain config builder, with the given chain type as a basis.
    pub fn new(chain_type: ChainType) -> (r: Self)
        ensures
            r.wf(),
            r.chain_type == chain_type,
            r.p2p_port > 0,
            r.magic_byte == 0xb0,
            r.coin_decimals == 11,
            r.max_future_block_time_offset_secs == 120,
            r.target_block_spacing_secs == 120,
            r.max_block_header_size == 1024,
            r.max_block_size_with_standard_txs == 1048576,
            r.epoch_length == 5,
            r.sealed_epoch_distance_from_tip == 2,
            r.min_stake_pool_pledge == (Amount { atoms: 4000000000000000 }),
            r.decommission_maturity_block_count == 2000,
            r.net_upgrades.upgrades@ == default_upgrades_of(chain_type),
            r.genesis_destination == Destination::AnyoneCanSpend,
    {
        let net_upgrades = chain_type.default_net_upgrades();
        let p2p_port = chain_type.default_p2p_port();
        Builder {
            chain_type,
            p2p_port,
            magic_byte: 0xb0,
            coin_decimals: 11,
            max_future_block_time_offset_secs: 120,
            target_block_spacing_secs: 120,
            max_block_header_size: 1024,
            max_block_size_with_standard_txs: 1048576,
            epoch_length: 5,
            sealed_epoch_distance_from_tip: 2,
            min_stake_pool_pledge: Amount { atoms: 4000000000000000 },
            decommission_maturity_block_count: 2000,
            net_upgrades,
            genesis_destination: Destination::AnyoneCanSpend,
        }
    }

    pub open spec fn wf(&self) -> bool {
        self.epoch_length > 0
    }

    /// A builder initialized with the unit-test chain configuration.
    pub fn test_chain() -> (r: Self)
        ensures
            r.wf(),
    {
        Builder::new(ChainType::Mainnet).net_upgrades(NetUpgrades::unit_tests()).genesis_unittest(
            Destination::AnyoneCanSpend,
        )
    }

    pub fn chain_type(self, chain_type: ChainType) -> (r: Self)
        ensures
            r == (Builder { chain_type, ..self }),
    {
        Builder { chain_type, ..self }
    }

    pub fn p2p_port(self, p2p_port: u16) -> (r: Self)
        ensures
            r == (Builder { p2p_port, ..self }),
    {
        Builder { p2p_port, ..self }
    }

    pub fn epoch_length(self, epoch_length: u64) -> (r: Self)
        requires
            epoch_length > 0,
        ensures
            r == (Builder { epoch_length, ..self }),
            r.wf(),
    {
        Builder { epoch_length, ..self }
    }

    pub fn sealed_epoch_distance_from_tip(self, sealed_epoch_distance_from_tip: u64) -> (r: Self)
        ensures
            r == (Builder { sealed_epoch_distance_from_tip, ..self }),
    {
        Builder { sealed_epoch_distance_from_tip, ..self }
    }

    pub fn max_future_block_time_offset(self, secs: u64) -> (r: Self)
        ensures
            r == (Builder { max_future_block_time_offset_secs: secs, ..self }),
    {
        Builder { max_future_block_time_offset_secs: secs, ..self }
    }

    pub fn net_upgrades(self, net_upgrades: NetUpgrades) -> (r: Self)
        ensures
            r == (Builder { net_upgrades, ..self }),
    {
        Builder { net_upgrades, ..self }
    }

    /// Use the premined unit-test genesis paying the given destination.
    pub fn genesis_unittest(self, premine_destination: Destination) -> (r: Self)
        ensures
            r == (Builder { genesis_destination: premine_destination, ..self }),
    {
        Builder { genesis_destination: premine_destination, ..self }
    }

    /// Build the chain config: every parameter set through the builder
    /// is reflected in the result, and the genesis block is built from
    /// the chosen premine destination.
    pub fn build(self) -> (r: ChainConfig)
        requires
            self.wf(),
        ensures
            r.wf(),
            r.chain_type == self.chain_type,
            r.p2p_port == self.p2p_port,
            r.magic_byte == self.magic_byte,
            r.coin_decimals == self.coin_decimals,
            r.max_future_block_time_offset_secs == self.max_future_block_time_offset_secs,
            r.target_block_spacing_secs == self.target_block_spacing_secs,
            r.max_block_header_size == self.max_block_header_size,
            r.max_block_size_with_standard_txs == self.max_block_size_with_standard_txs,
            r.epoch_length == self.epoch_length,
            r.sealed_epoch_distance_from_tip == self.sealed_epoch_distance_from_tip,
            r.min_stake_pool_pledge == self.min_stake_pool_pledge,
            r.decommission_maturity_block_count == self.decommission_maturity_block_count,
            r.net_upgrades == self.net_upgrades,
            unit_test_genesis_ok(r.genesis_block, self.genesis_destination),
    {
        let genesis_block = create_unit_test_genesis(self.genesis_destination);
        ChainConfig {
            chain_type: self.chain_type,
            p2p_port: self.p2p_port,
            magic_byte: self.magic_byte,
            coin_decimals: self.coin_decimals,
            max_future_block_time_offset_secs: self.max_future_block_time_offset_secs,
            target_block_spacing_secs: self.target_block_spacing_secs,
            max_block_header_size: self.max_block_header_size,
            max_block_size_with_standard_txs: self.max_block_size_with_standard_txs,
            epoch_length: self.epoch_length,
            sealed_epoch_distance_from_tip: self.sealed_epoch_distance_from_tip,
            min_stake_pool_pledge: self.min_stake_pool_pledge,
            decommission_maturity_block_count: self.decommission_maturity_block_count,
            net_upgrades: self.net_upgrades,
            genesis_block,
        }
    }
}

/// The unit-test chain configuration.
pub fn create_unit_test_config() -> (r: ChainConfig)
    ensures
        r.wf(),
{
    Builder::test_chain().build()
}

} // verus!
