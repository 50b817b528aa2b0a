use vstd::prelude::*;

use crate::model::{lemma_after_insert_wf, lookup, put_all, StoreModel};
use crate::primitives::{
    opt_view, receipts_view, txs_view, Block, BlockHash, BlockHashOrNumber, BlockNumber,
    BlockWithTxHashes, ClassHash, CompiledClassHash, ContractAddress, FinalityStatus, Header,
    Nonce, Receipt, SealedBlockWithStatus, SierraClass, StateUpdatesWithDeclaredClasses,
    StorageKey, StorageSlot, StorageValue, StoredBlockBodyIndices, Tx, TxHash, TxModel,
    TxNumber, TxWithHash,
};
use crate::state::{LatestStateProvider, StateFactoryProvider, StateProvider, StateWriter};
use crate::table::{Record, Table};

verus! {

/// The tables of the store.
#[derive(Clone, Copy, Debug, PartialEq, Eq, Structural)]
pub enum StoreTable {
    BlockHashes,
    BlockStatusses,
    Headers,
    BlockBodyIndices,
    Transactions,
    TxHashes,
    TxBlocks,
    Receipts,
}

/// A failure of a read: a key resolved, but a table that must hold a
/// companion entry for it does not. The store no longer meets its invariants.
#[derive(Clone, Copy, Debug, PartialEq, Eq, Structural)]
pub enum ProviderError {
    MissingEntry(StoreTable),
}

/// Relies on `RangeInclusive::into_inner`: the lower and the upper bound of the range.
#[verifier::external_body]
fn range_bounds(range: std::ops::RangeInclusive<BlockNumber>) -> (r: (BlockNumber, BlockNumber))
    ensures
        r.0 == range@.start,
        r.1 == range@.end,
{
    range.into_inner()
}

/// The mathematical values of a sequence of blocks.
pub open spec fn blocks_view(s: Seq<Block>) -> Seq<(Header, Seq<(TxHash, TxModel)>)> {
    s.map_values(|b: Block| b@)
}

/// The store: one table per kind of record, kept under the invariants of
/// [`StoreModel::wf`].
pub struct DbEnv {
    block_hashes: Table<BlockNumber, BlockHash>,
    block_numbers: Table<BlockHash, BlockNumber>,
    statuses: Table<BlockNumber, FinalityStatus>,
    headers: Table<BlockNumber, Header>,
    body_indices: Table<BlockNumber, StoredBlockBodyIndices>,
    transactions: Table<TxNumber, Tx>,
    tx_hashes: Table<TxNumber, TxHash>,
    tx_numbers: Table<TxHash, TxNumber>,
    tx_blocks: Table<TxNumber, BlockNumber>,
    receipts: Table<TxNumber, Receipt>,
    compiled_class_hashes: Table<ClassHash, CompiledClassHash>,
    sierra_classes: Table<ClassHash, SierraClass>,
    nonces: Table<ContractAddress, Nonce>,
    storage: Table<StorageSlot, StorageValue>,
    class_hashes: Table<ContractAddress, ClassHash>,
}

impl View for DbEnv {
    type V = StoreModel;

    closed spec fn view(&self) -> StoreModel {
        StoreModel {
            block_hashes: self.block_hashes@,
            block_numbers: self.block_numbers@,
            block_count: self.block_numbers.entries(),
            statuses: self.statuses@,
            headers: self.headers@,
            body_indices: self.body_indices@,
            tx_count: self.transactions.entries(),
            transactions: self.transactions@,
            tx_hashes: self.tx_hashes@,
            tx_numbers: self.tx_numbers@,
            tx_blocks: self.tx_blocks@,
            receipts: self.receipts@,
            compiled_class_hashes: self.compiled_class_hashes@,
            sierra_classes: self.sierra_classes@,
            nonces: self.nonces@,
            storage: self.storage@,
            class_hashes: self.class_hashes@,
        }
    }
}

impl DbEnv {
    pub closed spec fn wf(&self) -> bool {
        &&& self.tables_wf()
        &&& self@.wf()
    }

    closed spec fn tables_wf(&self) -> bool {
        &&& self.block_hashes.wf()
        &&& self.block_numbers.wf()
        &&& self.statuses.wf()
        &&& self.headers.wf()
        &&& self.body_indices.wf()
        &&& self.transactions.wf()
        &&& self.tx_hashes.wf()
        &&& self.tx_numbers.wf()
        &&& self.tx_blocks.wf()
        &&& self.receipts.wf()
        &&& self.compiled_class_hashes.wf()
        &&& self.sierra_classes.wf()
        &&& self.nonces.wf()
        &&& self.storage.wf()
        &&& self.class_hashes.wf()
    }

    /// An empty store.
    pub fn new() -> (r: DbEnv)
        ensures
            r.wf(),
            r@ == StoreModel::empty(),
    {
        DbEnv {
            block_hashes: Table::new(),
            block_numbers: Table::new(),
            statuses: Table::new(),
            headers: Table::new(),
            body_indices: Table::new(),
            transactions: Table::new(),
            tx_hashes: Table::new(),
            tx_numbers: Table::new(),
            tx_blocks: Table::new(),
            receipts: Table::new(),
            compiled_class_hashes: Table::new(),
            sierra_classes: Table::new(),
            nonces: Table::new(),
            storage: Table::new(),
            class_hashes: Table::new(),
        }
    }

    /// The number of the block with hash `hash`.
    pub fn block_number_by_hash(&self, hash: BlockHash) -> (r: Option<BlockNumber>)
        requires
            self.wf(),
        ensures
            r == lookup(self@.block_numbers, hash),
    {
        self.block_numbers.get(&hash)
    }

    /// The hash of block `num`.
    pub fn block_hash_by_num(&self, num: BlockNumber) -> (r: Option<BlockHash>)
        requires
            self.wf(),
        ensures
            r == lookup(self@.block_hashes, num),
    {
        self.block_hashes.get(&num)
    }

    /// The number of the most recent block (0 for an empty store).
    pub fn latest_number(&self) -> (r: BlockNumber)
        requires
            self.wf(),
        ensures
            r == self@.latest_number(),
    {
        let total = self.block_numbers.len() as u64;
        if total == 0 {
            0
        } else {
            total - 1
        }
    }

    /// The hash of the most recent block. Fails where no block is stored under
    /// the number [`DbEnv::latest_number`] gives.
    pub fn latest_hash(&self) -> (r: Result<BlockHash, ProviderError>)
        requires
            self.wf(),
        ensures
            r == match lookup(self@.block_hashes, self@.latest_number()) {
                Some(h) => Ok::<BlockHash, ProviderError>(h),
                None => Err(ProviderError::MissingEntry(StoreTable::BlockHashes)),
            },
    {
        let latest = self.latest_number();
        match self.block_hashes.get(&latest) {
            Some(h) => Ok(h),
            None => Err(ProviderError::MissingEntry(StoreTable::BlockHashes)),
        }
    }

    /// The number of the stored block that `id` names.
    fn resolve(&self, id: BlockHashOrNumber) -> (r: Option<BlockNumber>)
        requires
            self.wf(),
        ensures
            r == self@.resolve(id),
    {
        match id {
            BlockHashOrNumber::Num(n) => {
                match self.block_hashes.get(&n) {
                    Some(_) => Some(n),
                    None => None,
                }
            },
            BlockHashOrNumber::Hash(h) => self.block_numbers.get(&h),
        }
    }

    /// The stored transactions numbered in `range`, with their hashes, in order.
    pub fn transaction_in_range(&self, range: std::ops::Range<TxNumber>) -> (r: Result<
        Vec<TxWithHash>,
        ProviderError,
    >)
        requires
            self.wf(),
        ensures
            r is Ok,
            txs_view(r->Ok_0@) == self@.txs_in_range(range.start as int, range.end as int),
    {
        let total = self.transactions.len() as u64;
        let hi = if range.end < total {
            range.end
        } else {
            total
        };
        let mut out: Vec<TxWithHash> = Vec::new();
        let mut i: u64 = range.start;
        while i < hi
            invariant
                self.wf(),
                range.start <= i,
                i <= hi || i == range.start,
                hi as int == self@.clip(range.end as int),
                txs_view(out@) =~= Seq::new(
                    (i - range.start) as nat,
                    |j: int| self@.tx_at(range.start + j),
                ),
            decreases hi - i,
        {
            assert(self@.tx_hashes.contains_key(i));
            assert(self@.transactions.contains_key(i));
            if let Some(transaction) = self.transactions.get(&i) {
                match self.tx_hashes.get(&i) {
                    Some(hash) => {
                        let ghost prev = out@;
                        out.push(TxWithHash { hash, transaction });
                        assert(txs_view(out@) =~= txs_view(prev).push(self@.tx_at(i as int)));
                    },
                    None => {
                        return Err(ProviderError::MissingEntry(StoreTable::TxHashes));
                    },
                }
            }
            i = i + 1;
        }
        Ok(out)
    }

    /// The hashes of the stored transactions numbered in `range`, in order.
    pub fn transaction_hashes_in_range(&self, range: std::ops::Range<TxNumber>) -> (r: Vec<TxHash>)
        requires
            self.wf(),
        ensures
            r@ == self@.tx_hashes_in_range(range.start as int, range.end as int),
    {
        let total = self.transactions.len() as u64;
        let hi = if range.end < total {
            range.end
        } else {
            total
        };
        let mut out: Vec<TxHash> = Vec::new();
        let mut i: u64 = range.start;
        while i < hi
            invariant
                self.wf(),
                range.start <= i,
                i <= hi || i == range.start,
                hi as int == self@.clip(range.end as int),
                out@ =~= Seq::new(
                    (i - range.start) as nat,
                    |j: int| self@.tx_hashes[(range.start + j) as TxNumber],
                ),
            decreases hi - i,
        {
            if let Some(hash) = self.tx_hashes.get(&i) {
                out.push(hash);
            }
            i = i + 1;
        }
        out
    }

    /// The receipts of the stored transactions numbered in `[start, end)`, in order.
    fn receipts_in_range(&self, start: TxNumber, end: TxNumber) -> (r: Vec<Receipt>)
        requires
            self.wf(),
        ensures
            receipts_view(r@) == self@.receipts_in_range(start as int, end as int),
    {
        let total = self.transactions.len() as u64;
        let hi = if end < total {
            end
        } else {
            total
        };
        let mut out: Vec<Receipt> = Vec::new();
        let mut i: u64 = start;
        while i < hi
            invariant
                self.wf(),
                start <= i,
                i <= hi || i == start,
                hi as int == self@.clip(end as int),
                receipts_view(out@) =~= Seq::new(
                    (i - start) as nat,
                    |j: int| self@.receipts[(start + j) as TxNumber],
                ),
            decreases hi - i,
        {
            assert(self@.receipts.contains_key(i));
            if let Some(receipt) = self.receipts.get(&i) {
                let ghost prev = out@;
                out.push(receipt);
                assert(receipts_view(out@) =~= receipts_view(prev).push(self@.receipts[i]));
            }
            i = i + 1;
        }
        out
    }

    /// The header of the block that `id` names.
    pub fn header(&self, id: BlockHashOrNumber) -> (r: Result<Option<Header>, ProviderError>)
        requires
            self.wf(),
        ensures
            r == Ok::<Option<Header>, ProviderError>(self@.header_of(id)),
    {
        match self.resolve(id) {
            Some(n) => match self.headers.get(&n) {
                Some(header) => Ok(Some(header)),
                None => Err(ProviderError::MissingEntry(StoreTable::Headers)),
            },
            None => Ok(None),
        }
    }

    /// The transaction range of the block that `id` names.
    pub fn block_body_indices(&self, id: BlockHashOrNumber) -> (r: Option<StoredBlockBodyIndices>)
        requires
            self.wf(),
        ensures
            r == self@.body_indices_of(id),
    {
        match self.resolve(id) {
            Some(n) => self.body_indices.get(&n),
            None => None,
        }
    }

    /// The finality status of the block that `id` names.
    pub fn block_status(&self, id: BlockHashOrNumber) -> (r: Result<
        Option<FinalityStatus>,
        ProviderError,
    >)
        requires
            self.wf(),
        ensures
            r == Ok::<Option<FinalityStatus>, ProviderError>(self@.status_of(id)),
    {
        match self.resolve(id) {
            Some(n) => match self.statuses.get(&n) {
                Some(status) => Ok(Some(status)),
                None => Err(ProviderError::MissingEntry(StoreTable::BlockStatusses)),
            },
            None => Ok(None),
        }
    }

    /// The stored block `n`, if there is one.
    fn block_by_number(&self, n: BlockNumber) -> (r: Result<Option<Block>, ProviderError>)
        requires
            self.wf(),
        ensures
            r is Ok,
            opt_view(r->Ok_0) == (if self@.headers.contains_key(n) {
                Some(self@.block_at(n))
            } else {
                None
            }),
    {
        match self.headers.get(&n) {
            Some(header) => match self.body_indices.get(&n) {
                Some(ix) => {
                    let end = ix.tx_offset + ix.tx_count;
                    let range = std::ops::Range { start: ix.tx_offset, end };
                    match self.transaction_in_range(range) {
                        Ok(body) => Ok(Some(Block { header, body })),
                        Err(e) => Err(e),
                    }
                },
                None => Err(ProviderError::MissingEntry(StoreTable::BlockBodyIndices)),
            },
            None => Ok(None),
        }
    }

    /// The block that `id` names: its header and its transactions.
    pub fn block(&self, id: BlockHashOrNumber) -> (r: Result<Option<Block>, ProviderError>)
        requires
            self.wf(),
        ensures
            r is Ok,
            opt_view(r->Ok_0) == self@.block_of(id),
    {
        match self.resolve(id) {
            Some(n) => self.block_by_number(n),
            None => Ok(None),
        }
    }

    /// The block that `id` names, with only the hashes of its transactions.
    pub fn block_with_tx_hashes(&self, id: BlockHashOrNumber) -> (r: Result<
        Option<BlockWithTxHashes>,
        ProviderError,
    >)
        requires
            self.wf(),
        ensures
            r is Ok,
            opt_view(r->Ok_0) == self@.block_with_hashes_of(id),
    {
        let n = match self.resolve(id) {
            Some(n) => n,
            None => {
                return Ok(None);
            },
        };
        match self.headers.get(&n) {
            Some(header) => match self.body_indices.get(&n) {
                Some(ix) => {
                    let end = ix.tx_offset + ix.tx_count;
                    let range = std::ops::Range { start: ix.tx_offset, end };
                    let body = self.transaction_hashes_in_range(range);
                    Ok(Some(BlockWithTxHashes { header, body }))
                },
                None => Err(ProviderError::MissingEntry(StoreTable::BlockBodyIndices)),
            },
            None => Ok(None),
        }
    }

    /// The stored blocks numbered in `range`, in ascending order; numbers with
    /// no block are passed over.
    pub fn blocks_in_range(&self, range: std::ops::RangeInclusive<BlockNumber>) -> (r: Result<
        Vec<Block>,
        ProviderError,
    >)
        requires
            self.wf(),
        ensures
            r is Ok,
            blocks_view(r->Ok_0@) == self@.blocks_in_range(range@.start as int, range@.end as int),
    {
        let (start, end) = range_bounds(range);
        let mut blocks: Vec<Block> = Vec::new();
        let mut num: u128 = start as u128;
        while num <= end as u128
            invariant
                self.wf(),
                start <= num <= end as int + 1 || num == start,
                blocks_view(blocks@) == self@.blocks_in_range(start as int, num - 1),
            decreases end as int + 1 - num,
        {
            let n = num as u64;
            let ghost prev = blocks@;
            match self.block_by_number(n) {
                Ok(Some(block)) => {
                    blocks.push(block);
                    assert(blocks_view(blocks@) =~= blocks_view(prev).push(self@.block_at(n)));
                },
                Ok(None) => {},
                Err(e) => {
                    return Err(e);
                },
            }
            num = num + 1;
        }
        Ok(blocks)
    }

    /// The transaction with hash `hash`.
    pub fn transaction_by_hash(&self, hash: TxHash) -> (r: Result<
        Option<TxWithHash>,
        ProviderError,
    >)
        requires
            self.wf(),
        ensures
            r is Ok,
            opt_view(r->Ok_0) == self@.tx_by_hash(hash),
    {
        match self.tx_numbers.get(&hash) {
            Some(num) => match self.transactions.get(&num) {
                Some(transaction) => Ok(Some(TxWithHash { hash, transaction })),
                None => Err(ProviderError::MissingEntry(StoreTable::Transactions)),
            },
            None => Ok(None),
        }
    }

    /// The transactions of the block that `block_id` names, in order.
    pub fn transactions_by_block(&self, block_id: BlockHashOrNumber) -> (r: Result<
        Option<Vec<TxWithHash>>,
        ProviderError,
    >)
        requires
            self.wf(),
        ensures
            r is Ok,
            r->Ok_0.is_some() == self@.txs_of_block(block_id).is_some(),
            r->Ok_0.is_some() ==> txs_view(r->Ok_0.unwrap()@) == self@.txs_of_block(
                block_id,
            ).unwrap(),
    {
        match self.block_body_indices(block_id) {
            Some(ix) => {
                let end = ix.tx_offset + ix.tx_count;
                    let range = std::ops::Range { start: ix.tx_offset, end };
                match self.transaction_in_range(range) {
                    Ok(txs) => Ok(Some(txs)),
                    Err(e) => Err(e),
                }
            },
            None => Ok(None),
        }
    }

    /// The number and the hash of the block holding the transaction with hash `hash`.
    pub fn transaction_block_num_and_hash(&self, hash: TxHash) -> (r: Result<
        Option<(BlockNumber, BlockHash)>,
        ProviderError,
    >)
        requires
            self.wf(),
        ensures
            r == Ok::<Option<(BlockNumber, BlockHash)>, ProviderError>(self@.tx_block_of(hash)),
    {
        match self.tx_numbers.get(&hash) {
            Some(num) => match self.tx_blocks.get(&num) {
                Some(block_num) => match self.block_hashes.get(&block_num) {
                    Some(block_hash) => Ok(Some((block_num, block_hash))),
                    None => Err(ProviderError::MissingEntry(StoreTable::BlockHashes)),
                },
                None => Err(ProviderError::MissingEntry(StoreTable::TxBlocks)),
            },
            None => Ok(None),
        }
    }

    /// The transaction at position `idx` within the block that `block_id` names;
    /// none where `idx` is not below the block's transaction count.
    pub fn transaction_by_block_and_idx(&self, block_id: BlockHashOrNumber, idx: u64) -> (r: Result<
        Option<TxWithHash>,
        ProviderError,
    >)
        requires
            self.wf(),
        ensures
            r is Ok,
            opt_view(r->Ok_0) == self@.tx_by_block_and_idx(block_id, idx),
    {
        match self.block_body_indices(block_id) {
            Some(ix) => {
                if idx < ix.tx_count {
                    let num = ix.tx_offset + idx;
                    match self.tx_hashes.get(&num) {
                        Some(hash) => match self.transactions.get(&num) {
                            Some(transaction) => Ok(Some(TxWithHash { hash, transaction })),
                            None => Err(ProviderError::MissingEntry(StoreTable::Transactions)),
                        },
                        None => Err(ProviderError::MissingEntry(StoreTable::TxHashes)),
                    }
                } else {
                    Ok(None)
                }
            },
            None => Ok(None),
        }
    }

    /// The number of transactions of the block that `block_id` names.
    pub fn transaction_count_by_block(&self, block_id: BlockHashOrNumber) -> (r: Option<u64>)
        requires
            self.wf(),
        ensures
            r == self@.tx_count_of(block_id),
    {
        match self.block_body_indices(block_id) {
            Some(ix) => Some(ix.tx_count),
            None => None,
        }
    }

    /// The finality status of the block holding the transaction with hash `hash`.
    pub fn transaction_status(&self, hash: TxHash) -> (r: Result<
        Option<FinalityStatus>,
        ProviderError,
    >)
        requires
            self.wf(),
        ensures
            r == Ok::<Option<FinalityStatus>, ProviderError>(self@.tx_status(hash)),
    {
        match self.tx_numbers.get(&hash) {
            Some(num) => match self.tx_blocks.get(&num) {
                Some(block_num) => match self.statuses.get(&block_num) {
                    Some(status) => Ok(Some(status)),
                    None => Err(ProviderError::MissingEntry(StoreTable::BlockStatusses)),
                },
                None => Err(ProviderError::MissingEntry(StoreTable::TxBlocks)),
            },
            None => Ok(None),
        }
    }

    /// The receipt of the transaction with hash `hash`.
    pub fn receipt_by_hash(&self, hash: TxHash) -> (r: Result<Option<Receipt>, ProviderError>)
        requires
            self.wf(),
        ensures
            r is Ok,
            opt_view(r->Ok_0) == self@.receipt_by_hash(hash),
    {
        match self.tx_numbers.get(&hash) {
            Some(num) => match self.receipts.get(&num) {
                Some(receipt) => Ok(Some(receipt)),
                None => Err(ProviderError::MissingEntry(StoreTable::Receipts)),
            },
            None => Ok(None),
        }
    }

    /// The receipts of the transactions of the block that `block_id` names, in order.
    pub fn receipts_by_block(&self, block_id: BlockHashOrNumber) -> (r: Option<Vec<Receipt>>)
        requires
            self.wf(),
        ensures
            r.is_some() == self@.receipts_of_block(block_id).is_some(),
            r.is_some() ==> receipts_view(r.unwrap()@) == self@.receipts_of_block(
                block_id,
            ).unwrap(),
    {
        match self.block_body_indices(block_id) {
            Some(ix) => Some(self.receipts_in_range(ix.tx_offset, ix.tx_offset + ix.tx_count)),
            None => None,
        }
    }

    /// The compiled class hash declared for `class_hash`.
    pub fn compiled_class_hash(&self, class_hash: ClassHash) -> (r: Option<CompiledClassHash>)
        requires
            self.wf(),
        ensures
            r == lookup(self@.compiled_class_hashes, class_hash),
    {
        self.compiled_class_hashes.get(&class_hash)
    }

    /// The Sierra artifact declared for `class_hash`.
    pub fn sierra_class(&self, class_hash: ClassHash) -> (r: Option<SierraClass>)
        requires
            self.wf(),
        ensures
            opt_view(r) == lookup(self@.sierra_classes, class_hash),
    {
        self.sierra_classes.get(&class_hash)
    }

    /// Stores a block, its receipts and the classes it declared, in one step.
    /// The block's transactions get the numbers that follow the last stored one.
    pub fn insert_block_with_states_and_receipts(
        &mut self,
        block: SealedBlockWithStatus,
        states: StateUpdatesWithDeclaredClasses,
        receipts: Vec<Receipt>,
    )
        requires
            old(self).wf(),
            receipts.len() == block.block.body.len(),
            old(self)@.tx_count + block.block.body.len() <= u64::MAX,
        ensures
            final(self).wf(),
            final(self)@ == old(self)@.after_insert(
                block.block.header.hash,
                block.block.header.header.number,
                block.status,
                block.block.header.header,
                txs_view(block.block.body@),
                receipts_view(receipts@),
                states.declared_classes@,
                states.declared_sierra_classes@.map_values(
                    |p: (ClassHash, SierraClass)| (p.0, p.1@),
                ),
            ),
    {
        let ghost m0 = self@;
        let ghost txs = txs_view(block.block.body@);
        let ghost rs = receipts_view(receipts@);
        let block_hash = block.block.header.hash;
        let block_number = block.block.header.header.number;
        let tx_count = block.block.body.len() as u64;
        let tx_offset = self.transactions.len() as u64;
        let indices = StoredBlockBodyIndices { tx_offset, tx_count };

        self.block_hashes.put(block_number, block_hash);
        self.block_numbers.put(block_hash, block_number);
        self.statuses.put(block_number, block.status);
        self.headers.put(block_number, block.block.header.header);
        self.body_indices.put(block_number, indices);

        let body = &block.block.body;
        let mut i: usize = 0;
        while i < body.len()
            invariant
                self.tables_wf(),
                m0.wf(),
                i <= body.len(),
                body.len() == receipts.len(),
                tx_offset == m0.tx_count,
                m0.tx_count + body.len() <= u64::MAX,
                txs == txs_view(body@),
                rs == receipts_view(receipts@),
                self@.block_hashes == m0.block_hashes.insert(block_number, block_hash),
                self@.block_numbers == m0.block_numbers.insert(block_hash, block_number),
                self@.block_count == (if m0.block_numbers.contains_key(block_hash) {
                    m0.block_count
                } else {
                    m0.block_count + 1
                }),
                self@.statuses == m0.statuses.insert(block_number, block.status),
                self@.headers == m0.headers.insert(block_number, block.block.header.header),
                self@.body_indices == m0.body_indices.insert(block_number, indices),
                self@.tx_count == m0.tx_count + i,
                self@.transactions == m0.transactions.union_prefer_right(
                    Map::new(
                        |k: TxNumber| m0.tx_count <= k < m0.tx_count + i,
                        |k: TxNumber| txs[k - m0.tx_count].1,
                    ),
                ),
                self@.tx_hashes == m0.tx_hashes.union_prefer_right(
                    Map::new(
                        |k: TxNumber| m0.tx_count <= k < m0.tx_count + i,
                        |k: TxNumber| txs[k - m0.tx_count].0,
                    ),
                ),
                self@.tx_numbers == put_all(
                    m0.tx_numbers,
                    Seq::new(i as nat, |j: int| (txs[j].0, (m0.tx_count + j) as TxNumber)),
                ),
                self@.tx_blocks == m0.tx_blocks.union_prefer_right(
                    Map::new(
                        |k: TxNumber| m0.tx_count <= k < m0.tx_count + i,
                        |k: TxNumber| block_number,
                    ),
                ),
                self@.receipts == m0.receipts.union_prefer_right(
                    Map::new(
                        |k: TxNumber| m0.tx_count <= k < m0.tx_count + i,
                        |k: TxNumber| rs[k - m0.tx_count],
                    ),
                ),
                self@.compiled_class_hashes == m0.compiled_class_hashes,
                self@.sierra_classes == m0.sierra_classes,
                self@.nonces == m0.nonces,
                self@.storage == m0.storage,
                self@.class_hashes == m0.class_hashes,
            decreases body.len() - i,
        {
            let tx_number = tx_offset + i as u64;
            let tx = &body[i];
            assert(!self@.transactions.contains_key(tx_number));
            assert(!self@.tx_hashes.contains_key(tx_number));
            assert(!self@.tx_blocks.contains_key(tx_number));
            assert(!self@.receipts.contains_key(tx_number));
            self.tx_hashes.put(tx_number, tx.hash);
            self.tx_numbers.put(tx.hash, tx_number);
            self.tx_blocks.put(tx_number, block_number);
            self.transactions.put(tx_number, tx.transaction.duplicate());
            self.receipts.put(tx_number, receipts[i].duplicate());
            proof {
                let n = (i + 1) as nat;
                assert(Seq::new(n, |j: int| (txs[j].0, (m0.tx_count + j) as TxNumber)).drop_last()
                    =~= Seq::new(i as nat, |j: int| (txs[j].0, (m0.tx_count + j) as TxNumber)));
                assert(self@.transactions =~= m0.transactions.union_prefer_right(
                    Map::new(
                        |k: TxNumber| m0.tx_count <= k < m0.tx_count + n,
                        |k: TxNumber| txs[k - m0.tx_count].1,
                    ),
                ));
                assert(self@.tx_hashes =~= m0.tx_hashes.union_prefer_right(
                    Map::new(
                        |k: TxNumber| m0.tx_count <= k < m0.tx_count + n,
                        |k: TxNumber| txs[k - m0.tx_count].0,
                    ),
                ));
                assert(self@.tx_blocks =~= m0.tx_blocks.union_prefer_right(
                    Map::new(
                        |k: TxNumber| m0.tx_count <= k < m0.tx_count + n,
                        |k: TxNumber| block_number,
                    ),
                ));
                assert(self@.receipts =~= m0.receipts.union_prefer_right(
                    Map::new(
                        |k: TxNumber| m0.tx_count <= k < m0.tx_count + n,
                        |k: TxNumber| rs[k - m0.tx_count],
                    ),
                ));
            }
            i = i + 1;
        }
        proof {
            assert(Seq::new(body.len() as nat, |j: int| (txs[j].0, (m0.tx_count + j) as TxNumber))
                =~= Seq::new(txs.len(), |j: int| (txs[j].0, (m0.tx_count + j) as TxNumber)));
        }

        let ghost m1 = self@;
        let classes = &states.declared_classes;
        let mut j: usize = 0;
        while j < classes.len()
            invariant
                self.tables_wf(),
                j <= classes.len(),
                self@ == (StoreModel { compiled_class_hashes: self@.compiled_class_hashes, ..m1 }),
                self@.compiled_class_hashes == put_all(
                    m0.compiled_class_hashes,
                    classes@.take(j as int),
                ),
            decreases classes.len() - j,
        {
            let (class_hash, compiled_hash) = classes[j];
            self.compiled_class_hashes.put(class_hash, compiled_hash);
            assert(classes@.take(j + 1).drop_last() =~= classes@.take(j as int));
            j = j + 1;
        }
        assert(classes@.take(classes.len() as int) =~= classes@);

        let ghost m2 = self@;
        let ghost sierra = states.declared_sierra_classes@.map_values(
            |p: (ClassHash, SierraClass)| (p.0, p.1@),
        );
        let declared = &states.declared_sierra_classes;
        let mut k: usize = 0;
        while k < declared.len()
            invariant
                self.tables_wf(),
                k <= declared.len(),
                self@ == (StoreModel { sierra_classes: self@.sierra_classes, ..m2 }),
                sierra == declared@.map_values(|p: (ClassHash, SierraClass)| (p.0, p.1@)),
                self@.sierra_classes == put_all(m0.sierra_classes, sierra.take(k as int)),
            decreases declared.len() - k,
        {
            let class_hash = declared[k].0;
            let artifact = declared[k].1.duplicate();
            self.sierra_classes.put(class_hash, artifact);
            assert(sierra.take(k + 1).drop_last() =~= sierra.take(k as int));
            k = k + 1;
        }
        assert(sierra.take(declared.len() as int) =~= sierra);
        proof {
            lemma_after_insert_wf(
                m0,
                block_hash,
                block_number,
                block.status,
                block.block.header.header,
                txs,
                rs,
                states.declared_classes@,
                sierra,
            );
        }
        assert(self@ =~= m0.after_insert(
            block_hash,
            block_number,
            block.status,
            block.block.header.header,
            txs,
            rs,
            states.declared_classes@,
            sierra,
        ));
    }
}

impl StateProvider for DbEnv {
    closed spec fn ready(&self) -> bool {
        self.wf()
    }

    closed spec fn nonces(&self) -> Map<ContractAddress, Nonce> {
        self@.nonces
    }

    closed spec fn storage_values(&self) -> Map<StorageSlot, StorageValue> {
        self@.storage
    }

    closed spec fn contract_classes(&self) -> Map<ContractAddress, ClassHash> {
        self@.class_hashes
    }

    fn nonce(&self, address: ContractAddress) -> (r: Option<Nonce>) {
        self.nonces.get(&address)
    }

    fn storage(&self, address: ContractAddress, storage_key: StorageKey) -> (r: Option<
        StorageValue,
    >) {
        self.storage.get(&StorageSlot { address, key: storage_key })
    }

    fn class_hash_of_contract(&self, address: ContractAddress) -> (r: Option<ClassHash>) {
        self.class_hashes.get(&address)
    }
}

impl StateWriter for DbEnv {
    fn set_nonce(&mut self, address: ContractAddress, nonce: Nonce) {
        let ghost m0 = self@;
        self.nonces.put(address, nonce);
        assert(self@ == (StoreModel { nonces: self@.nonces, ..m0 }));
    }

    fn set_storage(
        &mut self,
        address: ContractAddress,
        storage_key: StorageKey,
        storage_value: StorageValue,
    ) {
        let ghost m0 = self@;
        self.storage.put(StorageSlot { address, key: storage_key }, storage_value);
        assert(self@ == (StoreModel { storage: self@.storage, ..m0 }));
    }

    fn set_class_hash_of_contract(&mut self, address: ContractAddress, class_hash: ClassHash) {
        let ghost m0 = self@;
        self.class_hashes.put(address, class_hash);
        assert(self@ == (StoreModel { class_hashes: self@.class_hashes, ..m0 }));
    }
}

impl StateFactoryProvider for DbEnv {
    fn latest(&self) -> (r: LatestStateProvider) {
        LatestStateProvider::from_tables(
            self.nonces.duplicate(),
            self.storage.duplicate(),
            self.class_hashes.duplicate(),
        )
    }
}

} // verus!
