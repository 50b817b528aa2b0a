use vstd::prelude::*;

verus! {

/// A field element, held as its high and low 128-bit halves.
#[derive(Clone, Copy, Debug, PartialEq, Eq, Structural, Default, Hash)]
pub struct Felt {
    pub high: u128,
    pub low: u128,
}

impl Felt {
    pub fn from_u128(v: u128) -> (r: Felt)
        ensures
            r == (Felt { high: 0, low: v }),
    {
        Felt { high: 0, low: v }
    }
}

pub type BlockHash = Felt;

pub type BlockNumber = u64;

pub type TxHash = Felt;

pub type TxNumber = u64;

pub type ClassHash = Felt;

pub type CompiledClassHash = Felt;

pub type ContractAddress = Felt;

pub type Nonce = Felt;

pub type StorageKey = Felt;

pub type StorageValue = Felt;

/// A storage slot: a contract and a key within its storage.
#[derive(Clone, Copy, Debug, PartialEq, Eq, Structural)]
pub struct StorageSlot {
    pub address: ContractAddress,
    pub key: StorageKey,
}

/// A block given either by its number or by its hash.
#[derive(Clone, Copy, Debug, PartialEq, Eq, Structural)]
pub enum BlockHashOrNumber {
    Hash(BlockHash),
    Num(BlockNumber),
}

/// How settled a block is.
#[derive(Clone, Copy, Debug, PartialEq, Eq, Structural)]
pub enum FinalityStatus {
    AcceptedOnL2,
    AcceptedOnL1,
}

/// Block metadata.
#[derive(Clone, Copy, Debug, PartialEq, Eq, Structural, Default)]
pub struct Header {
    pub parent_hash: BlockHash,
    pub number: BlockNumber,
    pub gas_price: u128,
    pub timestamp: u64,
    pub state_root: Felt,
    pub sequencer_address: ContractAddress,
}

/// A header together with the hash its producer assigned to the block.
#[derive(Clone, Copy, Debug, PartialEq, Eq, Structural, Default)]
pub struct SealedHeader {
    pub hash: BlockHash,
    pub header: Header,
}

#[derive(Clone, Copy, Debug, PartialEq, Eq, Structural, Default)]
pub enum TxKind {
    #[default]
    Invoke,
    Declare,
    L1Handler,
    DeployAccount,
}

/// A transaction payload.
#[derive(Clone, Debug, PartialEq, Eq, Default)]
pub struct Tx {
    pub kind: TxKind,
    pub sender_address: ContractAddress,
    pub nonce: Nonce,
    pub max_fee: u128,
    pub calldata: Vec<Felt>,
    pub signature: Vec<Felt>,
}

/// What a transaction payload holds, as mathematical values.
pub struct TxModel {
    pub kind: TxKind,
    pub sender_address: ContractAddress,
    pub nonce: Nonce,
    pub max_fee: u128,
    pub calldata: Seq<Felt>,
    pub signature: Seq<Felt>,
}

impl View for Tx {
    type V = TxModel;

    open spec fn view(&self) -> TxModel {
        TxModel {
            kind: self.kind,
            sender_address: self.sender_address,
            nonce: self.nonce,
            max_fee: self.max_fee,
            calldata: self.calldata@,
            signature: self.signature@,
        }
    }
}

/// A transaction payload with its hash.
#[derive(Clone, Debug, PartialEq, Eq, Default)]
pub struct TxWithHash {
    pub hash: TxHash,
    pub transaction: Tx,
}

impl View for TxWithHash {
    type V = (TxHash, TxModel);

    open spec fn view(&self) -> (TxHash, TxModel) {
        (self.hash, self.transaction@)
    }
}

/// The outcome of executing a transaction.
#[derive(Clone, Debug, PartialEq, Eq, Default)]
pub struct Receipt {
    pub kind: TxKind,
    pub actual_fee: u128,
    pub reverted: bool,
    pub events: Vec<Felt>,
}

pub struct ReceiptModel {
    pub kind: TxKind,
    pub actual_fee: u128,
    pub reverted: bool,
    pub events: Seq<Felt>,
}

impl View for Receipt {
    type V = ReceiptModel;

    open spec fn view(&self) -> ReceiptModel {
        ReceiptModel {
            kind: self.kind,
            actual_fee: self.actual_fee,
            reverted: self.reverted,
            events: self.events@,
        }
    }
}

/// A block: its header and its transactions in order.
#[derive(Clone, Debug, PartialEq, Eq, Default)]
pub struct Block {
    pub header: Header,
    pub body: Vec<TxWithHash>,
}

impl View for Block {
    type V = (Header, Seq<(TxHash, TxModel)>);

    open spec fn view(&self) -> (Header, Seq<(TxHash, TxModel)>) {
        (self.header, txs_view(self.body@))
    }
}

/// The mathematical values of a sequence of transactions.
pub open spec fn txs_view(s: Seq<TxWithHash>) -> Seq<(TxHash, TxModel)> {
    s.map_values(|t: TxWithHash| t@)
}

/// The mathematical values of a sequence of receipts.
pub open spec fn receipts_view(s: Seq<Receipt>) -> Seq<ReceiptModel> {
    s.map_values(|r: Receipt| r@)
}

/// The mathematical value of an optional record.
pub open spec fn opt_view<T: View>(o: Option<T>) -> Option<T::V> {
    match o {
        Some(t) => Some(t@),
        None => None,
    }
}

/// A block whose hash has been assigned.
#[derive(Clone, Debug, PartialEq, Eq, Default)]
pub struct SealedBlock {
    pub header: SealedHeader,
    pub body: Vec<TxWithHash>,
}

/// A sealed block with the finality status it is stored under.
#[derive(Clone, Debug, PartialEq, Eq)]
pub struct SealedBlockWithStatus {
    pub block: SealedBlock,
    pub status: FinalityStatus,
}

/// A block whose body lists only the hashes of its transactions.
#[derive(Clone, Debug, PartialEq, Eq, Default)]
pub struct BlockWithTxHashes {
    pub header: Header,
    pub body: Vec<TxHash>,
}

impl View for BlockWithTxHashes {
    type V = (Header, Seq<TxHash>);

    open spec fn view(&self) -> (Header, Seq<TxHash>) {
        (self.header, self.body@)
    }
}

/// The range `[tx_offset, tx_offset + tx_count)` of transaction numbers of one block.
#[derive(Clone, Copy, Debug, PartialEq, Eq, Structural, Default)]
pub struct StoredBlockBodyIndices {
    pub tx_offset: TxNumber,
    pub tx_count: u64,
}

/// The artifact of a declared Sierra class.
#[derive(Clone, Debug, PartialEq, Eq, Default)]
pub struct SierraClass {
    pub program: Vec<Felt>,
}

impl View for SierraClass {
    type V = Seq<Felt>;

    open spec fn view(&self) -> Seq<Felt> {
        self.program@
    }
}

/// The classes declared by a block: for each its compiled class hash, and the
/// Sierra artifacts. Compiled class bytecode is not kept by this store.
#[derive(Clone, Debug, PartialEq, Eq, Default)]
pub struct StateUpdatesWithDeclaredClasses {
    pub declared_classes: Vec<(ClassHash, CompiledClassHash)>,
    pub declared_sierra_classes: Vec<(ClassHash, SierraClass)>,
}

impl Block {
    /// Attaches the hash that the producer computed for this block.
    pub fn seal_with_hash(self, hash: BlockHash) -> (r: SealedBlock)
        ensures
            r.header == (SealedHeader { hash, header: self.header }),
            r.body@ == self.body@,
    {
        SealedBlock { header: SealedHeader { hash, header: self.header }, body: self.body }
    }
}

impl SealedBlock {
    /// Drops the hash and gives back the block.
    pub fn unseal(self) -> (r: Block)
        ensures
            r.header == self.header.header,
            r.body@ == self.body@,
    {
        Block { header: self.header.header, body: self.body }
    }
}

} // verus!
