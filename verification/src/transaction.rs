//! Transactions and their parts: inputs referencing outputs by outpoint,
//! tagged output variants, timelocks and witnesses.

use vstd::prelude::*;

use crate::primitives::{Amount, BlockHeight, H256};
use crate::vecmap::MapKey;

verus! {

/// Who may spend an output.
#[derive(PartialEq, Eq, Structural, Clone, Copy, Debug, Hash)]
pub enum Destination {
    AnyoneCanSpend,
    Address(H256),
    PublicKey(H256),
}

/// The id of the entity that produced an output: a transaction or a
/// block reward.
#[derive(PartialEq, Eq, Structural, Clone, Copy, Debug, Hash)]
pub enum OutPointSourceId {
    Transaction(H256),
    BlockReward(H256),
}

impl OutPointSourceId {
    /// The transaction id, where the source is a transaction.
    pub fn get_tx_id(&self) -> (r: Option<H256>)
        ensures
            match r {
                Some(id) => *self == OutPointSourceId::Transaction(id),
                None => self is BlockReward,
            },
    {
        match self {
            OutPointSourceId::Transaction(id) => Some(*id),
            OutPointSourceId::BlockReward(_) => None,
        }
    }
}

/// A reference to one output: the producing entity and the output index.
#[derive(PartialEq, Eq, Structural, Clone, Copy, Debug, Hash)]
pub struct OutPoint {
    pub source_id: OutPointSourceId,
    pub index: u32,
}

impl OutPoint {
    pub fn new(source_id: OutPointSourceId, index: u32) -> (r: Self)
        ensures
            r.source_id == source_id,
            r.index == index,
    {
        OutPoint { source_id, index }
    }
}

impl MapKey for OutPoint {
    fn key_eq(&self, other: &Self) -> (r: bool)
        ensures
            r <==> self == other,
    {
        *self == *other
    }
}

/// One input of a transaction: the outpoint it consumes.
#[derive(PartialEq, Eq, Structural, Clone, Copy, Debug, Hash)]
pub struct TxInput {
    pub outpoint: OutPoint,
}

impl TxInput {
    pub fn new(outpoint_source_id: OutPointSourceId, output_index: u32) -> (r: Self)
        ensures
            r.outpoint.source_id == outpoint_source_id,
            r.outpoint.index == output_index,
    {
        TxInput { outpoint: OutPoint { source_id: outpoint_source_id, index: output_index } }
    }

    pub fn outpoint(&self) -> (r: &OutPoint)
        ensures
            *r == self.outpoint,
    {
        &self.outpoint
    }
}

/// When a locked output becomes spendable.
#[derive(PartialEq, Eq, Structural, Clone, Copy, Debug, Hash)]
pub enum OutputTimeLock {
    /// Spendable once the chain has reached the given height.
    UntilHeight(BlockHeight),
    /// Spendable once the given number of blocks lie between the creating
    /// block and the spending block.
    ForBlockCount(u64),
}

/// The declaration a stake pool is created with.
#[derive(PartialEq, Eq, Structural, Clone, Copy, Debug, Hash)]
pub struct StakePoolData {
    pub pledge: Amount,
    pub staker: Destination,
}

/// One output of a transaction or block reward; the tag decides which
/// consumption rules apply.
#[derive(PartialEq, Eq, Structural, Clone, Copy, Debug, Hash)]
pub enum TxOutput {
    Transfer(Amount, Destination),
    LockThenTransfer(Amount, Destination, OutputTimeLock),
    Burn(Amount),
    CreateStakePool(H256, StakePoolData),
    ProduceBlockFromStake(Destination, H256),
    CreateDelegationId(Destination, H256),
    DelegateStaking(Amount, H256),
}

/// The coins an output carries, in atoms.
pub open spec fn output_value(o: TxOutput) -> u128 {
    match o {
        TxOutput::Transfer(v, _) => v.atoms,
        TxOutput::LockThenTransfer(v, _, _) => v.atoms,
        TxOutput::Burn(v) => v.atoms,
        TxOutput::CreateStakePool(_, d) => d.pledge.atoms,
        TxOutput::ProduceBlockFromStake(_, _) => 0,
        TxOutput::CreateDelegationId(_, _) => 0,
        TxOutput::DelegateStaking(v, _) => v.atoms,
    }
}

impl TxOutput {
    /// The coins this output carries, in atoms.
    pub fn value_atoms(&self) -> (r: u128)
        ensures
            r == output_value(*self),
    {
        match self {
            TxOutput::Transfer(v, _) => v.atoms,
            TxOutput::LockThenTransfer(v, _, _) => v.atoms,
            TxOutput::Burn(v) => v.atoms,
            TxOutput::CreateStakePool(_, d) => d.pledge.atoms,
            TxOutput::ProduceBlockFromStake(_, _) => 0,
            TxOutput::CreateDelegationId(_, _) => 0,
            TxOutput::DelegateStaking(v, _) => v.atoms,
        }
    }
}

/// A witness authorizing one input.
#[derive(PartialEq, Eq, Clone, Debug, Hash)]
pub enum InputWitness {
    NoSignature(Option<Vec<u8>>),
    Standard(StandardInputSignature),
}

/// A signature over the canonical serialization selected by the sighash
/// type.
#[derive(PartialEq, Eq, Clone, Debug, Hash)]
pub struct StandardInputSignature {
    pub sighash_type: u8,
    pub raw_signature: Vec<u8>,
}

#[derive(PartialEq, Eq, Structural, Clone, Copy, Debug)]
pub enum TransactionCreationError {
    InvalidWitnessCount,
}

/// Size classification of a transaction, by the features it uses.
pub enum TransactionSize {
    ScriptedTransaction(usize),
    SmartContractTransaction(usize),
}

/// The versioned body of a transaction; the id excludes witnesses.
#[derive(PartialEq, Eq, Clone, Debug, Hash)]
pub struct TransactionV1 {
    pub flags: u128,
    pub inputs: Vec<TxInput>,
    pub outputs: Vec<TxOutput>,
}

/// A transaction: flags, inputs consumed and outputs created.
#[derive(PartialEq, Eq, Clone, Debug, Hash)]
pub enum Transaction {
    V1(TransactionV1),
}

/// The flags of a transaction.
pub open spec fn tx_flags(tx: Transaction) -> u128 {
    match tx {
        Transaction::V1(v1) => v1.flags,
    }
}

/// The inputs of a transaction.
pub open spec fn tx_inputs(tx: Transaction) -> Seq<TxInput> {
    match tx {
        Transaction::V1(v1) => v1.inputs@,
    }
}

/// The outputs of a transaction.
pub open spec fn tx_outputs(tx: Transaction) -> Seq<TxOutput> {
    match tx {
        Transaction::V1(v1) => v1.outputs@,
    }
}

impl Transaction {
    pub fn new(flags: u128, inputs: Vec<TxInput>, outputs: Vec<TxOutput>) -> (r: Result<
        Self,
        TransactionCreationError,
    >)
        ensures
            r matches Ok(tx) && tx_flags(tx) == flags && tx_inputs(tx) == inputs@ && tx_outputs(tx)
                == outputs@,
    {
        Ok(Transaction::V1(TransactionV1 { flags, inputs, outputs }))
    }

    pub fn flags(&self) -> (r: u128)
        ensures
            r == tx_flags(*self),
    {
        match self {
            Transaction::V1(v1) => v1.flags,
        }
    }

    /// A transaction signals replaceability through its lowest flag bit.
    pub fn is_replaceable(&self) -> (r: bool)
        ensures
            r <==> tx_flags(*self) & 1 == 1,
    {
        match self {
            Transaction::V1(v1) => v1.flags & 1 == 1,
        }
    }

    pub fn inputs(&self) -> (r: &Vec<TxInput>)
        ensures
            r@ == tx_inputs(*self),
    {
        match self {
            Transaction::V1(v1) => &v1.inputs,
        }
    }

    pub fn outputs(&self) -> (r: &Vec<TxOutput>)
        ensures
            r@ == tx_outputs(*self),
    {
        match self {
            Transaction::V1(v1) => &v1.outputs,
        }
    }

    pub fn has_smart_contracts(&self) -> (r: bool)
        ensures
            r == false,
    {
        false
    }

    /// Attach witnesses, one per input.
    pub fn with_signatures(self, witnesses: Vec<InputWitness>) -> (r: Result<
        SignedTransaction,
        TransactionCreationError,
    >)
        ensures
            witnesses@.len() == tx_inputs(self).len() ==> (r matches Ok(stx)
                && stx.transaction == self && stx.witnesses == witnesses),
            witnesses@.len() != tx_inputs(self).len() ==> r == Err::<
                SignedTransaction,
                TransactionCreationError,
            >(TransactionCreationError::InvalidWitnessCount),
    {
        if witnesses.len() != self.inputs().len() {
            return Err(TransactionCreationError::InvalidWitnessCount);
        }
        SignedTransaction::new(self, witnesses)
    }
}

/// A transaction together with one witness per input.
#[derive(PartialEq, Eq, Clone, Debug, Hash)]
pub struct SignedTransaction {
    pub transaction: Transaction,
    pub witnesses: Vec<InputWitness>,
}

impl SignedTransaction {
    /// One witness per input.
    pub open spec fn wf(&self) -> bool {
        self.witnesses@.len() == tx_inputs(self.transaction).len()
    }

    pub fn new(transaction: Transaction, witnesses: Vec<InputWitness>) -> (r: Result<
        Self,
        TransactionCreationError,
    >)
        ensures
            witnesses@.len() == tx_inputs(transaction).len() ==> (r matches Ok(stx)
                && stx.transaction == transaction && stx.witnesses == witnesses && stx.wf()),
            witnesses@.len() != tx_inputs(transaction).len() ==> r == Err::<
                SignedTransaction,
                TransactionCreationError,
            >(TransactionCreationError::InvalidWitnessCount),
    {
        if witnesses.len() != transaction.inputs().len() {
            return Err(TransactionCreationError::InvalidWitnessCount);
        }
        Ok(SignedTransaction { transaction, witnesses })
    }

    pub fn transaction(&self) -> (r: &Transaction)
        ensures
            *r == self.transaction,
    {
        &self.transaction
    }

    pub fn inputs(&self) -> (r: &Vec<TxInput>)
        ensures
            r@ == tx_inputs(self.transaction),
    {
        self.transaction.inputs()
    }

    pub fn outputs(&self) -> (r: &Vec<TxOutput>)
        ensures
            r@ == tx_outputs(self.transaction),
    {
        self.transaction.outputs()
    }

    pub fn signatures(&self) -> (r: &Vec<InputWitness>)
        ensures
            r@ == self.witnesses@,
    {
        &self.witnesses
    }
}

} // verus!
