use vstd::prelude::*;

use crate::model::{lookup, put_all, StoreModel};
use crate::primitives::{
    BlockHash, BlockHashOrNumber, BlockNumber, ClassHash, CompiledClassHash, Felt,
    FinalityStatus, Header, ReceiptModel, StoredBlockBodyIndices, TxHash, TxModel, TxNumber,
};

verus! {

/// What one call of the block writer hands to the store, as mathematical values.
pub struct InsertedBlock {
    pub hash: BlockHash,
    pub number: BlockNumber,
    pub status: FinalityStatus,
    pub header: Header,
    pub txs: Seq<(TxHash, TxModel)>,
    pub receipts: Seq<ReceiptModel>,
    pub classes: Seq<(ClassHash, CompiledClassHash)>,
    pub sierra: Seq<(ClassHash, Seq<Felt>)>,
}

/// The store `m` after the block writer stored `b`.
pub open spec fn insert(m: StoreModel, b: InsertedBlock) -> StoreModel {
    m.after_insert(b.hash, b.number, b.status, b.header, b.txs, b.receipts, b.classes, b.sierra)
}

/// The store `m` after the block writer stored each block of `bs` in turn.
pub open spec fn insert_all(m: StoreModel, bs: Seq<InsertedBlock>) -> StoreModel
    decreases bs.len(),
{
    if bs.len() == 0 {
        m
    } else {
        insert(insert_all(m, bs.drop_last()), bs.last())
    }
}

/// The number of transactions of the first `k` blocks of `bs`.
pub open spec fn tx_total(bs: Seq<InsertedBlock>, k: int) -> nat
    decreases k,
{
    if k <= 0 {
        0
    } else {
        tx_total(bs, k - 1) + bs[k - 1].txs.len()
    }
}

/// Block numbers map to hashes and back, and so do transaction numbers.
pub open spec fn indices_bijective(m: StoreModel) -> bool {
    &&& forall|n: BlockNumber| #[trigger]
        m.block_hashes.contains_key(n) ==> lookup(m.block_numbers, m.block_hashes[n]) == Some(n)
    &&& forall|h: BlockHash| #[trigger]
        m.block_numbers.contains_key(h) ==> lookup(m.block_hashes, m.block_numbers[h]) == Some(h)
    &&& forall|i: TxNumber| #[trigger]
        m.tx_hashes.contains_key(i) ==> lookup(m.tx_numbers, m.tx_hashes[i]) == Some(i)
    &&& forall|h: TxHash| #[trigger]
        m.tx_numbers.contains_key(h) ==> lookup(m.tx_hashes, m.tx_numbers[h]) == Some(h)
}

/// Round trip: once a block is stored, it reads back the same by its hash
/// and by its number, header and transactions as they were given; and each of
/// its transactions is found by its hash, with the payload it was given where
/// the block's transaction hashes are distinct.
pub proof fn lemma_round_trip(m: StoreModel, b: InsertedBlock)
    requires
        m.wf(),
        m.tx_count + b.txs.len() <= u64::MAX,
    ensures
        insert(m, b).block_of(BlockHashOrNumber::Hash(b.hash)) == Some((b.header, b.txs)),
        insert(m, b).block_of(BlockHashOrNumber::Num(b.number)) == Some((b.header, b.txs)),
        forall|i: int|
            0 <= i < b.txs.len() ==> #[trigger] insert(m, b).tx_by_hash(b.txs[i].0) is Some
                && insert(m, b).tx_by_hash(b.txs[i].0)->Some_0.0 == b.txs[i].0,
        (forall|i: int, j: int| 0 <= i < j < b.txs.len() ==> b.txs[i].0 != b.txs[j].0) ==> forall|
            i: int,
        | 0 <= i < b.txs.len() ==> #[trigger] insert(m, b).tx_by_hash(b.txs[i].0) == Some(b.txs[i]),
{
    let a = insert(m, b);
    let off = m.tx_count as int;
    assert(a.block_at(b.number).1 =~= b.txs);
    assert forall|i: int| 0 <= i < b.txs.len() implies #[trigger] a.tx_by_hash(b.txs[i].0) is Some
        && a.tx_by_hash(b.txs[i].0)->Some_0.0 == b.txs[i].0 by {
        lemma_put_all_has_key(
            m.tx_numbers,
            Seq::new(b.txs.len(), |j: int| (b.txs[j].0, (off + j) as TxNumber)),
            i,
        );
    }
    if forall|i: int, j: int| 0 <= i < j < b.txs.len() ==> b.txs[i].0 != b.txs[j].0 {
        let kvs = Seq::new(b.txs.len(), |j: int| (b.txs[j].0, (off + j) as TxNumber));
        lemma_put_all_fresh(m.tx_numbers, kvs);
        assert forall|i: int| 0 <= i < b.txs.len() implies #[trigger] a.tx_by_hash(b.txs[i].0)
            == Some(b.txs[i]) by {
            assert(kvs[i].0 == b.txs[i].0);
            assert(a.tx_numbers[b.txs[i].0] == (off + i) as TxNumber);
        }
    }
}

/// After storing pairs, the key of each stored pair is present.
proof fn lemma_put_all_has_key<K, V>(m: Map<K, V>, kvs: Seq<(K, V)>, i: int)
    requires
        0 <= i < kvs.len(),
    ensures
        put_all(m, kvs).contains_key(kvs[i].0),
    decreases kvs.len(),
{
    if i < kvs.len() - 1 {
        lemma_put_all_has_key(m, kvs.drop_last(), i);
        assert(kvs.drop_last()[i] == kvs[i]);
    }
}

/// Storing pairs whose keys are all new and distinct stores each value under its key,
/// and keeps every other key as it was.
proof fn lemma_put_all_fresh<K, V>(m: Map<K, V>, kvs: Seq<(K, V)>)
    requires
        forall|i: int, j: int| 0 <= i < j < kvs.len() ==> kvs[i].0 != kvs[j].0,
    ensures
        forall|i: int| 0 <= i < kvs.len() ==> #[trigger] put_all(m, kvs).contains_key(kvs[i].0)
            && put_all(m, kvs)[kvs[i].0] == kvs[i].1,
        forall|k: K| #[trigger] put_all(m, kvs).contains_key(k) ==> m.contains_key(k) || exists|
            i: int,
        | 0 <= i < kvs.len() && kvs[i].0 == k,
        forall|k: K|
            (forall|i: int| 0 <= i < kvs.len() ==> kvs[i].0 != k) ==> (#[trigger] lookup(
                put_all(m, kvs),
                k,
            ) == lookup(m, k)),
    decreases kvs.len(),
{
    if kvs.len() > 0 {
        let rest = kvs.drop_last();
        lemma_put_all_fresh(m, rest);
        let p = put_all(m, kvs);
        let last = kvs.len() - 1;
        assert(kvs.last() == kvs[last]);
        assert forall|i: int| 0 <= i < kvs.len() implies #[trigger] p.contains_key(kvs[i].0)
            && p[kvs[i].0] == kvs[i].1 by {
            if i < last {
                assert(rest[i] == kvs[i]);
            }
        }
        assert forall|k: K| #[trigger] p.contains_key(k) implies m.contains_key(k) || exists|
            i: int,
        | 0 <= i < kvs.len() && kvs[i].0 == k by {
            if k != kvs[last].0 && !m.contains_key(k) {
                let i = choose|i: int| 0 <= i < rest.len() && rest[i].0 == k;
                assert(kvs[i].0 == k);
            }
        }
        assert forall|k: K| (forall|i: int| 0 <= i < kvs.len() ==> kvs[i].0 != k) implies (
        #[trigger] lookup(p, k) == lookup(m, k)) by {
            assert forall|i: int| 0 <= i < rest.len() implies rest[i].0 != k by {
                assert(rest[i] == kvs[i]);
            }
            assert(kvs[last].0 != k);
            assert(lookup(put_all(m, rest), k) == lookup(m, k));
            assert(p == put_all(m, rest).insert(kvs.last().0, kvs.last().1));
        }
    }
}

/// The store with no entries has its indices bijective.
pub proof fn lemma_empty_bijective()
    ensures
        indices_bijective(StoreModel::empty()),
{
}

/// Bijection: storing a block under a new number and a new hash, whose
/// transactions have new and distinct hashes, keeps block numbers and hashes,
/// and transaction numbers and hashes, in one-to-one correspondence.
pub proof fn lemma_insert_keeps_bijection(m: StoreModel, b: InsertedBlock)
    requires
        m.wf(),
        indices_bijective(m),
        m.tx_count + b.txs.len() <= u64::MAX,
        !m.block_hashes.contains_key(b.number),
        !m.block_numbers.contains_key(b.hash),
        forall|i: int, j: int| 0 <= i < j < b.txs.len() ==> b.txs[i].0 != b.txs[j].0,
        forall|i: int| 0 <= i < b.txs.len() ==> !m.tx_numbers.contains_key(#[trigger] b.txs[i].0),
    ensures
        indices_bijective(insert(m, b)),
{
    let a = insert(m, b);
    let off = m.tx_count as int;
    let kvs = Seq::new(b.txs.len(), |j: int| (b.txs[j].0, (off + j) as TxNumber));
    lemma_put_all_fresh(m.tx_numbers, kvs);
    assert forall|n: BlockNumber| #[trigger] a.block_hashes.contains_key(n) implies lookup(
        a.block_numbers,
        a.block_hashes[n],
    ) == Some(n) by {
        if n != b.number {
            assert(lookup(m.block_numbers, m.block_hashes[n]) == Some(n));
        }
    }
    assert forall|h: BlockHash| #[trigger] a.block_numbers.contains_key(h) implies lookup(
        a.block_hashes,
        a.block_numbers[h],
    ) == Some(h) by {
        if h != b.hash {
            assert(lookup(m.block_hashes, m.block_numbers[h]) == Some(h));
        }
    }
    assert forall|i: TxNumber| #[trigger] a.tx_hashes.contains_key(i) implies lookup(
        a.tx_numbers,
        a.tx_hashes[i],
    ) == Some(i) by {
        if i < off {
            let h = m.tx_hashes[i];
            assert(lookup(m.tx_numbers, h) == Some(i));
            assert forall|j: int| 0 <= j < kvs.len() implies kvs[j].0 != h by {
                assert(!m.tx_numbers.contains_key(b.txs[j].0));
            }
            assert(lookup(a.tx_numbers, h) == lookup(m.tx_numbers, h));
        } else {
            let j = i - off;
            assert(kvs[j].0 == a.tx_hashes[i]);
        }
    }
    assert forall|h: TxHash| #[trigger] a.tx_numbers.contains_key(h) implies lookup(
        a.tx_hashes,
        a.tx_numbers[h],
    ) == Some(h) by {
        if m.tx_numbers.contains_key(h) && (forall|j: int| 0 <= j < kvs.len() ==> kvs[j].0 != h) {
            assert(lookup(a.tx_numbers, h) == lookup(m.tx_numbers, h));
            assert(lookup(m.tx_hashes, m.tx_numbers[h]) == Some(h));
        } else {
            let j = choose|j: int| 0 <= j < kvs.len() && kvs[j].0 == h;
            assert(a.tx_numbers[h] == kvs[j].1);
        }
    }
}

/// Counting the transactions of the first `k` blocks reads only those blocks.
proof fn lemma_tx_total_prefix(bs: Seq<InsertedBlock>, k: int)
    requires
        0 <= k < bs.len(),
    ensures
        tx_total(bs.drop_last(), k) == tx_total(bs, k),
    decreases k,
{
    if k > 0 {
        lemma_tx_total_prefix(bs, k - 1);
        assert(bs.drop_last()[k - 1] == bs[k - 1]);
    }
}

/// More blocks hold at least as many transactions.
proof fn lemma_tx_total_mono(bs: Seq<InsertedBlock>, k: int, l: int)
    requires
        0 <= k <= l,
    ensures
        tx_total(bs, k) <= tx_total(bs, l),
    decreases l,
{
    if k < l {
        lemma_tx_total_mono(bs, k, l - 1);
    }
}

/// After storing `bs` into an empty store, the next transaction number is the
/// number of transactions that `bs` holds.
proof fn lemma_insert_all_tx_count(bs: Seq<InsertedBlock>)
    ensures
        insert_all(StoreModel::empty(), bs).tx_count == tx_total(bs, bs.len() as int),
    decreases bs.len(),
{
    if bs.len() > 0 {
        let last = bs.len() - 1;
        lemma_insert_all_tx_count(bs.drop_last());
        lemma_tx_total_prefix(bs, last);
        assert(bs.last() == bs[last]);
    }
}

/// Contiguity: after storing blocks with distinct numbers one after another
/// into an empty store, the transactions of each block start where those of
/// the blocks before it end, and span as many numbers as it has transactions.
pub proof fn lemma_contiguity(bs: Seq<InsertedBlock>, i: int)
    requires
        0 <= i < bs.len(),
        forall|j: int, k: int| 0 <= j < k < bs.len() ==> bs[j].number != bs[k].number,
        tx_total(bs, bs.len() as int) <= u64::MAX,
    ensures
        insert_all(StoreModel::empty(), bs).body_indices.contains_key(bs[i].number),
        insert_all(StoreModel::empty(), bs).body_indices[bs[i].number] == (StoredBlockBodyIndices {
            tx_offset: tx_total(bs, i) as TxNumber,
            tx_count: bs[i].txs.len() as u64,
        }),
    decreases bs.len(),
{
    let last = bs.len() - 1;
    let rest = bs.drop_last();
    assert(bs.last() == bs[last]);
    lemma_insert_all_tx_count(rest);
    lemma_tx_total_prefix(bs, last);
    if i < last {
        assert(rest[i] == bs[i]);
        assert forall|j: int, k: int| 0 <= j < k < rest.len() implies rest[j].number
            != rest[k].number by {
            assert(rest[j] == bs[j] && rest[k] == bs[k]);
        }
        lemma_tx_total_mono(bs, last, bs.len() as int);
        lemma_contiguity(rest, i);
        lemma_tx_total_prefix(bs, i);
    }
}

/// Boundary: in a stored block, a position below its transaction count gives
/// the transaction given at that position, and any other position gives none.
pub proof fn lemma_boundary(m: StoreModel, b: InsertedBlock, idx: u64)
    requires
        m.wf(),
        m.tx_count + b.txs.len() <= u64::MAX,
    ensures
        insert(m, b).tx_by_block_and_idx(BlockHashOrNumber::Num(b.number), idx) == if idx
            < b.txs.len() {
            Some(b.txs[idx as int])
        } else {
            None::<(TxHash, TxModel)>
        },
        insert(m, b).tx_by_block_and_idx(BlockHashOrNumber::Hash(b.hash), idx) == if idx
            < b.txs.len() {
            Some(b.txs[idx as int])
        } else {
            None::<(TxHash, TxModel)>
        },
{
}

/// Latest tracking: after storing block 0 into an empty store, the latest
/// number is 0 and the latest hash is that block's; after storing a second
/// block with another hash, the latest number is 1, and the latest hash is the
/// second block's where that block is number 1.
pub proof fn lemma_latest_tracking(first: InsertedBlock, second: InsertedBlock)
    requires
        first.number == 0,
        second.hash != first.hash,
    ensures
        insert(StoreModel::empty(), first).latest_number() == 0,
        lookup(
            insert(StoreModel::empty(), first).block_hashes,
            insert(StoreModel::empty(), first).latest_number(),
        ) == Some(first.hash),
        insert(insert(StoreModel::empty(), first), second).latest_number() == 1,
        second.number == 1 ==> lookup(
            insert(insert(StoreModel::empty(), first), second).block_hashes,
            insert(insert(StoreModel::empty(), first), second).latest_number(),
        ) == Some(second.hash),
{
}

} // verus!
