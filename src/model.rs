use vstd::prelude::*;

use crate::primitives::{
    BlockHash, BlockHashOrNumber, BlockNumber, ClassHash, CompiledClassHash, ContractAddress,
    Felt, FinalityStatus, Header, Nonce, ReceiptModel, StorageSlot, StorageValue,
    StoredBlockBodyIndices, TxHash, TxModel, TxNumber,
};

verus! {

/// The contents of every table, as mathematical maps.
pub struct StoreModel {
    pub block_hashes: Map<BlockNumber, BlockHash>,
    pub block_numbers: Map<BlockHash, BlockNumber>,
    /// Entries in the block-number index.
    pub block_count: nat,
    pub statuses: Map<BlockNumber, FinalityStatus>,
    pub headers: Map<BlockNumber, Header>,
    pub body_indices: Map<BlockNumber, StoredBlockBodyIndices>,
    /// Entries in the transaction table, which is also the next transaction number.
    pub tx_count: nat,
    pub transactions: Map<TxNumber, TxModel>,
    pub tx_hashes: Map<TxNumber, TxHash>,
    pub tx_numbers: Map<TxHash, TxNumber>,
    pub tx_blocks: Map<TxNumber, BlockNumber>,
    pub receipts: Map<TxNumber, ReceiptModel>,
    pub compiled_class_hashes: Map<ClassHash, CompiledClassHash>,
    pub sierra_classes: Map<ClassHash, Seq<Felt>>,
    pub nonces: Map<ContractAddress, Nonce>,
    pub storage: Map<StorageSlot, StorageValue>,
    pub class_hashes: Map<ContractAddress, ClassHash>,
}

/// The value stored under `k`, if any.
pub open spec fn lookup<K, V>(m: Map<K, V>, k: K) -> Option<V> {
    if m.contains_key(k) {
        Some(m[k])
    } else {
        None
    }
}

/// `m` after storing each pair of `kvs` in turn; a later pair wins over an earlier one.
pub open spec fn put_all<K, V>(m: Map<K, V>, kvs: Seq<(K, V)>) -> Map<K, V>
    decreases kvs.len(),
{
    if kvs.len() == 0 {
        m
    } else {
        put_all(m, kvs.drop_last()).insert(kvs.last().0, kvs.last().1)
    }
}

impl StoreModel {
    /// A store with no entries.
    pub open spec fn empty() -> StoreModel {
        StoreModel {
            block_hashes: Map::empty(),
            block_numbers: Map::empty(),
            block_count: 0,
            statuses: Map::empty(),
            headers: Map::empty(),
            body_indices: Map::empty(),
            tx_count: 0,
            transactions: Map::empty(),
            tx_hashes: Map::empty(),
            tx_numbers: Map::empty(),
            tx_blocks: Map::empty(),
            receipts: Map::empty(),
            compiled_class_hashes: Map::empty(),
            sierra_classes: Map::empty(),
            nonces: Map::empty(),
            storage: Map::empty(),
            class_hashes: Map::empty(),
        }
    }

    /// The invariants that hold of every store between calls.
    pub open spec fn wf(self) -> bool {
        &&& self.headers.dom() == self.block_hashes.dom()
        &&& self.statuses.dom() == self.block_hashes.dom()
        &&& self.body_indices.dom() == self.block_hashes.dom()
        &&& forall|h: BlockHash| #[trigger]
            self.block_numbers.contains_key(h) ==> self.block_hashes.contains_key(
                self.block_numbers[h],
            )
        &&& forall|n: BlockNumber| #[trigger]
            self.body_indices.contains_key(n) ==> self.body_indices[n].tx_offset
                + self.body_indices[n].tx_count <= self.tx_count
        &&& forall|i: TxNumber| #[trigger] self.transactions.contains_key(i) <==> i < self.tx_count
        &&& forall|i: TxNumber| #[trigger] self.tx_hashes.contains_key(i) <==> i < self.tx_count
        &&& forall|i: TxNumber| #[trigger] self.tx_blocks.contains_key(i) <==> i < self.tx_count
        &&& forall|i: TxNumber| #[trigger] self.receipts.contains_key(i) <==> i < self.tx_count
        &&& forall|h: TxHash| #[trigger]
            self.tx_numbers.contains_key(h) ==> self.tx_numbers[h] < self.tx_count
        &&& forall|i: TxNumber| #[trigger]
            self.tx_blocks.contains_key(i) ==> self.block_hashes.contains_key(self.tx_blocks[i])
        &&& self.tx_count <= u64::MAX
    }

    /// The number of the most recent block: entries of the block-number index
    /// less one, and 0 for an empty store.
    pub open spec fn latest_number(self) -> BlockNumber {
        if self.block_count == 0 {
            0
        } else {
            (self.block_count - 1) as BlockNumber
        }
    }

    /// The stored block that `id` names, if any.
    pub open spec fn resolve(self, id: BlockHashOrNumber) -> Option<BlockNumber> {
        match id {
            BlockHashOrNumber::Num(n) => if self.block_hashes.contains_key(n) {
                Some(n)
            } else {
                None
            },
            BlockHashOrNumber::Hash(h) => lookup(self.block_numbers, h),
        }
    }

    /// The transaction stored under number `i`, with its hash.
    pub open spec fn tx_at(self, i: int) -> (TxHash, TxModel) {
        (self.tx_hashes[i as TxNumber], self.transactions[i as TxNumber])
    }

    /// `end`, lowered to the next transaction number where it lies beyond it.
    pub open spec fn clip(self, end: int) -> int {
        if end < self.tx_count {
            end
        } else {
            self.tx_count as int
        }
    }

    /// The stored transactions numbered in `[start, end)`, in order.
    pub open spec fn txs_in_range(self, start: int, end: int) -> Seq<(TxHash, TxModel)> {
        if start < self.clip(end) {
            Seq::new((self.clip(end) - start) as nat, |j: int| self.tx_at(start + j))
        } else {
            Seq::empty()
        }
    }

    /// The hashes of the stored transactions numbered in `[start, end)`, in order.
    pub open spec fn tx_hashes_in_range(self, start: int, end: int) -> Seq<TxHash> {
        if start < self.clip(end) {
            Seq::new(
                (self.clip(end) - start) as nat,
                |j: int| self.tx_hashes[(start + j) as TxNumber],
            )
        } else {
            Seq::empty()
        }
    }

    /// The receipts of the stored transactions numbered in `[start, end)`, in order.
    pub open spec fn receipts_in_range(self, start: int, end: int) -> Seq<ReceiptModel> {
        if start < self.clip(end) {
            Seq::new(
                (self.clip(end) - start) as nat,
                |j: int| self.receipts[(start + j) as TxNumber],
            )
        } else {
            Seq::empty()
        }
    }

    /// The stored block `n`: its header and its transactions.
    pub open spec fn block_at(self, n: BlockNumber) -> (Header, Seq<(TxHash, TxModel)>) {
        let ix = self.body_indices[n];
        (self.headers[n], self.txs_in_range(ix.tx_offset as int, ix.tx_offset + ix.tx_count))
    }

    /// The stored block `n` with the hashes of its transactions.
    pub open spec fn block_with_hashes_at(self, n: BlockNumber) -> (Header, Seq<TxHash>) {
        let ix = self.body_indices[n];
        (
            self.headers[n],
            self.tx_hashes_in_range(ix.tx_offset as int, ix.tx_offset + ix.tx_count),
        )
    }

    /// The stored blocks numbered in `[start, end]`, in ascending order.
    pub open spec fn blocks_in_range(self, start: int, end: int) -> Seq<
        (Header, Seq<(TxHash, TxModel)>),
    >
        decreases end - start + 1,
    {
        if end < start {
            Seq::empty()
        } else if self.headers.contains_key(end as BlockNumber) {
            self.blocks_in_range(start, end - 1).push(self.block_at(end as BlockNumber))
        } else {
            self.blocks_in_range(start, end - 1)
        }
    }

    /// The header of the block that `id` names.
    pub open spec fn header_of(self, id: BlockHashOrNumber) -> Option<Header> {
        match self.resolve(id) {
            Some(n) => Some(self.headers[n]),
            None => None,
        }
    }

    /// The transaction range of the block that `id` names.
    pub open spec fn body_indices_of(self, id: BlockHashOrNumber) -> Option<
        StoredBlockBodyIndices,
    > {
        match self.resolve(id) {
            Some(n) => Some(self.body_indices[n]),
            None => None,
        }
    }

    /// The block that `id` names.
    pub open spec fn block_of(self, id: BlockHashOrNumber) -> Option<
        (Header, Seq<(TxHash, TxModel)>),
    > {
        match self.resolve(id) {
            Some(n) => Some(self.block_at(n)),
            None => None,
        }
    }

    /// The block that `id` names, with the hashes of its transactions.
    pub open spec fn block_with_hashes_of(self, id: BlockHashOrNumber) -> Option<
        (Header, Seq<TxHash>),
    > {
        match self.resolve(id) {
            Some(n) => Some(self.block_with_hashes_at(n)),
            None => None,
        }
    }

    /// The finality status of the block that `id` names.
    pub open spec fn status_of(self, id: BlockHashOrNumber) -> Option<FinalityStatus> {
        match self.resolve(id) {
            Some(n) => Some(self.statuses[n]),
            None => None,
        }
    }

    /// The transactions of the block that `id` names, in order.
    pub open spec fn txs_of_block(self, id: BlockHashOrNumber) -> Option<Seq<(TxHash, TxModel)>> {
        match self.resolve(id) {
            Some(n) => Some(self.block_at(n).1),
            None => None,
        }
    }

    /// The receipts of the transactions of the block that `id` names, in order.
    pub open spec fn receipts_of_block(self, id: BlockHashOrNumber) -> Option<Seq<ReceiptModel>> {
        match self.resolve(id) {
            Some(n) => {
                let ix = self.body_indices[n];
                Some(self.receipts_in_range(ix.tx_offset as int, ix.tx_offset + ix.tx_count))
            },
            None => None,
        }
    }

    /// The number of transactions of the block that `id` names.
    pub open spec fn tx_count_of(self, id: BlockHashOrNumber) -> Option<u64> {
        match self.resolve(id) {
            Some(n) => Some(self.body_indices[n].tx_count),
            None => None,
        }
    }

    /// The transaction at position `idx` within the block that `id` names.
    pub open spec fn tx_by_block_and_idx(self, id: BlockHashOrNumber, idx: u64) -> Option<
        (TxHash, TxModel),
    > {
        match self.resolve(id) {
            Some(n) => if idx < self.body_indices[n].tx_count {
                Some(self.tx_at(self.body_indices[n].tx_offset + idx))
            } else {
                None
            },
            None => None,
        }
    }

    /// The transaction with hash `h`.
    pub open spec fn tx_by_hash(self, h: TxHash) -> Option<(TxHash, TxModel)> {
        match lookup(self.tx_numbers, h) {
            Some(i) => Some((h, self.transactions[i])),
            None => None,
        }
    }

    /// The number and the hash of the block holding the transaction with hash `h`.
    pub open spec fn tx_block_of(self, h: TxHash) -> Option<(BlockNumber, BlockHash)> {
        match lookup(self.tx_numbers, h) {
            Some(i) => Some((self.tx_blocks[i], self.block_hashes[self.tx_blocks[i]])),
            None => None,
        }
    }

    /// The finality status of the block holding the transaction with hash `h`.
    pub open spec fn tx_status(self, h: TxHash) -> Option<FinalityStatus> {
        match lookup(self.tx_numbers, h) {
            Some(i) => Some(self.statuses[self.tx_blocks[i]]),
            None => None,
        }
    }

    /// The receipt of the transaction with hash `h`.
    pub open spec fn receipt_by_hash(self, h: TxHash) -> Option<ReceiptModel> {
        match lookup(self.tx_numbers, h) {
            Some(i) => Some(self.receipts[i]),
            None => None,
        }
    }

    /// The store after inserting a block with hash `hash`, number `number`,
    /// status `status` and header `header`, whose transactions `txs` executed
    /// into `receipts`, and which declared the classes `classes` (class hash and
    /// compiled class hash) and the Sierra artifacts `sierra`.
    pub open spec fn after_insert(
        self,
        hash: BlockHash,
        number: BlockNumber,
        status: FinalityStatus,
        header: Header,
        txs: Seq<(TxHash, TxModel)>,
        receipts: Seq<ReceiptModel>,
        classes: Seq<(ClassHash, CompiledClassHash)>,
        sierra: Seq<(ClassHash, Seq<Felt>)>,
    ) -> StoreModel {
        let off = self.tx_count;
        let end = self.tx_count + txs.len();
        StoreModel {
            block_hashes: self.block_hashes.insert(number, hash),
            block_numbers: self.block_numbers.insert(hash, number),
            block_count: if self.block_numbers.contains_key(hash) {
                self.block_count
            } else {
                self.block_count + 1
            },
            statuses: self.statuses.insert(number, status),
            headers: self.headers.insert(number, header),
            body_indices: self.body_indices.insert(
                number,
                StoredBlockBodyIndices { tx_offset: off as TxNumber, tx_count: txs.len() as u64 },
            ),
            tx_count: end,
            transactions: self.transactions.union_prefer_right(
                Map::new(|i: TxNumber| off <= i < end, |i: TxNumber| txs[i - off].1),
            ),
            tx_hashes: self.tx_hashes.union_prefer_right(
                Map::new(|i: TxNumber| off <= i < end, |i: TxNumber| txs[i - off].0),
            ),
            tx_numbers: put_all(
                self.tx_numbers,
                Seq::new(txs.len(), |j: int| (txs[j].0, (off + j) as TxNumber)),
            ),
            tx_blocks: self.tx_blocks.union_prefer_right(
                Map::new(|i: TxNumber| off <= i < end, |i: TxNumber| number),
            ),
            receipts: self.receipts.union_prefer_right(
                Map::new(|i: TxNumber| off <= i < end, |i: TxNumber| receipts[i - off]),
            ),
            compiled_class_hashes: put_all(self.compiled_class_hashes, classes),
            sierra_classes: put_all(self.sierra_classes, sierra),
            nonces: self.nonces,
            storage: self.storage,
            class_hashes: self.class_hashes,
        }
    }
}

/// Storing numbers below `bound` into a map whose numbers are below `bound`
/// leaves every number below `bound`.
proof fn lemma_put_all_bounded(m: Map<TxHash, TxNumber>, kvs: Seq<(TxHash, TxNumber)>, bound: int)
    requires
        forall|h: TxHash| #[trigger] m.contains_key(h) ==> m[h] < bound,
        forall|j: int| 0 <= j < kvs.len() ==> #[trigger] kvs[j].1 < bound,
    ensures
        forall|h: TxHash| #[trigger]
            put_all(m, kvs).contains_key(h) ==> put_all(m, kvs)[h] < bound,
    decreases kvs.len(),
{
    if kvs.len() > 0 {
        let rest = kvs.drop_last();
        assert forall|j: int| 0 <= j < rest.len() implies #[trigger] rest[j].1 < bound by {
            assert(rest[j] == kvs[j]);
        }
        lemma_put_all_bounded(m, rest, bound);
        assert(kvs.last() == kvs[kvs.len() - 1]);
        let p = put_all(m, kvs);
        assert(p == put_all(m, rest).insert(kvs.last().0, kvs.last().1));
        assert forall|h: TxHash| #[trigger] p.contains_key(h) implies p[h] < bound by {
            if h != kvs.last().0 {
                assert(put_all(m, rest).contains_key(h));
            }
        }
    }
}

/// Inserting a block keeps the store's invariants.
pub(crate) proof fn lemma_after_insert_wf(
    m: StoreModel,
    hash: BlockHash,
    number: BlockNumber,
    status: FinalityStatus,
    header: Header,
    txs: Seq<(TxHash, TxModel)>,
    receipts: Seq<ReceiptModel>,
    classes: Seq<(ClassHash, CompiledClassHash)>,
    sierra: Seq<(ClassHash, Seq<Felt>)>,
)
    requires
        m.wf(),
        m.tx_count + txs.len() <= u64::MAX,
    ensures
        m.after_insert(hash, number, status, header, txs, receipts, classes, sierra).wf(),
{
    let a = m.after_insert(hash, number, status, header, txs, receipts, classes, sierra);
    assert(a.headers.dom() =~= a.block_hashes.dom());
    assert(a.statuses.dom() =~= a.block_hashes.dom());
    assert(a.body_indices.dom() =~= a.block_hashes.dom());
    let kvs = Seq::new(txs.len(), |j: int| (txs[j].0, (m.tx_count + j) as TxNumber));
    assert forall|h: TxHash| #[trigger] m.tx_numbers.contains_key(h) implies m.tx_numbers[h]
        < a.tx_count by {}
    assert forall|j: int| 0 <= j < kvs.len() implies #[trigger] kvs[j].1 < a.tx_count by {}
    lemma_put_all_bounded(m.tx_numbers, kvs, a.tx_count as int);
}

} // verus!
