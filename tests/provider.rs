use katana_provider::db::{DbEnv, ProviderError, StoreTable};
use katana_provider::primitives::{
    Block, BlockHashOrNumber, BlockWithTxHashes, Felt, FinalityStatus, Header, Receipt,
    SealedBlockWithStatus, SierraClass, StateUpdatesWithDeclaredClasses, Tx, TxHash, TxKind,
    TxWithHash,
};
use katana_provider::state::{StateFactoryProvider, StateProvider, StateWriter};

fn felt(v: u128) -> Felt {
    Felt::from_u128(v)
}

fn invoke_tx(hash: u128, nonce: u128) -> TxWithHash {
    TxWithHash {
        hash: felt(hash),
        transaction: Tx {
            kind: TxKind::Invoke,
            nonce: felt(nonce),
            calldata: vec![felt(1), felt(nonce)],
            ..Default::default()
        },
    }
}

fn invoke_receipt(fee: u128) -> Receipt {
    Receipt { kind: TxKind::Invoke, actual_fee: fee, reverted: false, events: vec![felt(fee)] }
}

fn make_block(number: u64, hash: u128, tx_hashes: &[u128]) -> SealedBlockWithStatus {
    let header = Header { parent_hash: felt(hash + 1000), number, ..Default::default() };
    let body = tx_hashes.iter().map(|h| invoke_tx(*h, *h + 7)).collect();
    let block = Block { header, body }.seal_with_hash(felt(hash));
    SealedBlockWithStatus { block, status: FinalityStatus::AcceptedOnL2 }
}

fn receipts_for(block: &SealedBlockWithStatus) -> Vec<Receipt> {
    (0..block.block.body.len()).map(|i| invoke_receipt(i as u128 + 1)).collect()
}

fn store(env: &mut DbEnv, block: &SealedBlockWithStatus) {
    env.insert_block_with_states_and_receipts(
        block.clone(),
        StateUpdatesWithDeclaredClasses::default(),
        receipts_for(block),
    );
}

fn create_dummy_block() -> SealedBlockWithStatus {
    let header = Header { parent_hash: felt(199), number: 0, ..Default::default() };
    let block = Block {
        header,
        body: vec![TxWithHash {
            hash: felt(24),
            transaction: Tx { kind: TxKind::Invoke, ..Default::default() },
        }],
    }
    .seal_with_hash(felt(0xb10c));
    SealedBlockWithStatus { block, status: FinalityStatus::AcceptedOnL2 }
}

#[test]
fn insert_block() {
    let mut env = DbEnv::new();
    let block = create_dummy_block();

    env.insert_block_with_states_and_receipts(
        block.clone(),
        StateUpdatesWithDeclaredClasses::default(),
        vec![Receipt { kind: TxKind::Invoke, ..Default::default() }],
    );

    let block_id = BlockHashOrNumber::Hash(block.block.header.hash);

    let latest_number = env.latest_number();
    let latest_hash = env.latest_hash().unwrap();

    let actual_block = env.block(block_id).unwrap().unwrap();
    let tx_count = env.transaction_count_by_block(block_id).unwrap();
    let block_status = env.block_status(block_id).unwrap().unwrap();
    let body_indices = env.block_body_indices(block_id).unwrap();

    let tx_hash: TxHash = felt(24);
    let tx = env.transaction_by_hash(tx_hash).unwrap().unwrap();

    assert_eq!(tx_hash, tx.hash);
    assert_eq!(tx.transaction, Tx { kind: TxKind::Invoke, ..Default::default() });

    assert_eq!(tx_count, 1);
    assert_eq!(body_indices.tx_offset, 0);
    assert_eq!(body_indices.tx_count, tx_count);

    assert_eq!(block_status, FinalityStatus::AcceptedOnL2);
    assert_eq!(block.block.header.hash, latest_hash);
    assert_eq!(block.block.body.len() as u64, tx_count);
    assert_eq!(block.block.header.header.number, latest_number);
    assert_eq!(block.block.unseal(), actual_block);
}

#[test]
fn one_invoke_block_scenario() {
    let mut env = DbEnv::new();
    let header = Header { parent_hash: felt(0xc7), number: 0, ..Default::default() };
    let tx = TxWithHash {
        hash: felt(0x18),
        transaction: Tx { kind: TxKind::Invoke, ..Default::default() },
    };
    let block = Block { header, body: vec![tx] }.seal_with_hash(felt(0xabc));
    let receipt = Receipt { kind: TxKind::Invoke, ..Default::default() };
    env.insert_block_with_states_and_receipts(
        SealedBlockWithStatus { block, status: FinalityStatus::AcceptedOnL2 },
        StateUpdatesWithDeclaredClasses::default(),
        vec![receipt.clone()],
    );

    let zero = BlockHashOrNumber::Num(0);
    assert_eq!(env.transaction_count_by_block(zero), Some(1));
    assert_eq!(env.block_status(zero), Ok(Some(FinalityStatus::AcceptedOnL2)));
    assert_eq!(env.receipts_by_block(zero), Some(vec![receipt]));
    assert_eq!(env.transaction_by_hash(felt(0x18)).unwrap().unwrap().hash, felt(0x18));
}

#[test]
fn blocks_in_range_skips_missing_numbers() {
    let mut env = DbEnv::new();
    let b5 = make_block(5, 50, &[1]);
    let b7 = make_block(7, 70, &[2, 3]);
    let b9 = make_block(9, 90, &[]);
    store(&mut env, &b5);
    store(&mut env, &b7);
    store(&mut env, &b9);

    let blocks = env.blocks_in_range(5..=10).unwrap();
    assert_eq!(blocks, vec![b5.block.unseal(), b7.block.unseal(), b9.block.unseal()]);
    assert_eq!(env.blocks_in_range(10..=20).unwrap(), vec![]);
    assert_eq!(env.blocks_in_range(9..=5).unwrap(), vec![]);
}

#[test]
fn block_reads_back_by_hash_and_number() {
    let mut env = DbEnv::new();
    let b0 = make_block(0, 100, &[11, 12, 13]);
    store(&mut env, &b0);

    let by_hash = env.block(BlockHashOrNumber::Hash(felt(100))).unwrap().unwrap();
    let by_num = env.block(BlockHashOrNumber::Num(0)).unwrap().unwrap();
    assert_eq!(by_hash, by_num);
    assert_eq!(by_hash, b0.block.clone().unseal());
    for tx in &b0.block.body {
        let found = env.transaction_by_hash(tx.hash).unwrap().unwrap();
        assert_eq!(found.hash, tx.hash);
        assert_eq!(&found, tx);
    }
}

#[test]
fn block_numbers_and_hashes_correspond() {
    let mut env = DbEnv::new();
    let blocks =
        [make_block(0, 100, &[1, 2]), make_block(1, 101, &[3]), make_block(2, 102, &[4, 5, 6])];
    for b in &blocks {
        store(&mut env, b);
    }
    for n in 0..3u64 {
        let hash = env.block_hash_by_num(n).unwrap();
        assert_eq!(env.block_number_by_hash(hash), Some(n));
    }
    for (n, b) in blocks.iter().enumerate() {
        for tx in &b.block.body {
            assert_eq!(
                env.transaction_block_num_and_hash(tx.hash),
                Ok(Some((n as u64, b.block.header.hash)))
            );
        }
    }
    assert_eq!(env.block_number_by_hash(felt(999)), None);
    assert_eq!(env.block_hash_by_num(3), None);
    assert_eq!(env.transaction_block_num_and_hash(felt(999)), Ok(None));
}

#[test]
fn transaction_ranges_are_contiguous() {
    let mut env = DbEnv::new();
    store(&mut env, &make_block(0, 100, &[1, 2]));
    store(&mut env, &make_block(1, 101, &[]));
    store(&mut env, &make_block(2, 102, &[3, 4, 5]));

    let offsets: Vec<(u64, u64)> = (0..3u64)
        .map(|n| {
            let ix = env.block_body_indices(BlockHashOrNumber::Num(n)).unwrap();
            (ix.tx_offset, ix.tx_count)
        })
        .collect();
    assert_eq!(offsets, vec![(0, 2), (2, 0), (2, 3)]);
    assert_eq!(env.block_body_indices(BlockHashOrNumber::Num(3)), None);
}

#[test]
fn transaction_index_is_bounded_by_count() {
    let mut env = DbEnv::new();
    let b0 = make_block(0, 100, &[1]);
    let b1 = make_block(1, 101, &[2, 3]);
    store(&mut env, &b0);
    store(&mut env, &b1);

    let id = BlockHashOrNumber::Hash(felt(101));
    assert_eq!(env.transaction_by_block_and_idx(id, 0), Ok(Some(b1.block.body[0].clone())));
    assert_eq!(env.transaction_by_block_and_idx(id, 1), Ok(Some(b1.block.body[1].clone())));
    assert_eq!(env.transaction_by_block_and_idx(id, 2), Ok(None));
    assert_eq!(env.transaction_by_block_and_idx(id, u64::MAX), Ok(None));
    assert_eq!(env.transaction_by_block_and_idx(BlockHashOrNumber::Num(7), 0), Ok(None));
}

#[test]
fn latest_block_follows_insertions() {
    let mut env = DbEnv::new();
    assert_eq!(env.latest_number(), 0);
    store(&mut env, &make_block(0, 100, &[1]));
    assert_eq!(env.latest_number(), 0);
    assert_eq!(env.latest_hash(), Ok(felt(100)));
    store(&mut env, &make_block(1, 101, &[2]));
    assert_eq!(env.latest_number(), 1);
    assert_eq!(env.latest_hash(), Ok(felt(101)));
}

#[test]
fn latest_hash_reports_missing_entry() {
    let mut env = DbEnv::new();
    assert_eq!(env.latest_hash(), Err(ProviderError::MissingEntry(StoreTable::BlockHashes)));
    store(&mut env, &make_block(5, 50, &[1]));
    assert_eq!(env.latest_number(), 0);
    assert_eq!(env.latest_hash(), Err(ProviderError::MissingEntry(StoreTable::BlockHashes)));
}

#[test]
fn unknown_keys_are_absent() {
    let mut env = DbEnv::new();
    store(&mut env, &make_block(0, 100, &[1]));
    let unknown = BlockHashOrNumber::Hash(felt(5));
    assert_eq!(env.header(unknown), Ok(None));
    assert_eq!(env.header(BlockHashOrNumber::Num(1)), Ok(None));
    assert_eq!(env.block(unknown), Ok(None));
    assert_eq!(env.block_with_tx_hashes(unknown), Ok(None));
    assert_eq!(env.block_status(unknown), Ok(None));
    assert_eq!(env.transactions_by_block(unknown), Ok(None));
    assert_eq!(env.transaction_count_by_block(unknown), None);
    assert_eq!(env.receipts_by_block(unknown), None);
    assert_eq!(env.transaction_by_hash(felt(2)), Ok(None));
    assert_eq!(env.receipt_by_hash(felt(2)), Ok(None));
    assert_eq!(env.transaction_status(felt(2)), Ok(None));
}

#[test]
fn header_and_hash_only_block() {
    let mut env = DbEnv::new();
    let b0 = make_block(0, 100, &[1, 2]);
    store(&mut env, &b0);
    let id = BlockHashOrNumber::Num(0);
    assert_eq!(env.header(id), Ok(Some(b0.block.header.header)));
    assert_eq!(
        env.block_with_tx_hashes(id),
        Ok(Some(BlockWithTxHashes { header: b0.block.header.header, body: vec![felt(1), felt(2)] }))
    );
    assert_eq!(env.transactions_by_block(id), Ok(Some(b0.block.body.clone())));
}

#[test]
fn transaction_status_is_that_of_its_block() {
    let mut env = DbEnv::new();
    let mut b0 = make_block(0, 100, &[1]);
    b0.status = FinalityStatus::AcceptedOnL1;
    store(&mut env, &b0);
    store(&mut env, &make_block(1, 101, &[2]));
    assert_eq!(env.transaction_status(felt(1)), Ok(Some(FinalityStatus::AcceptedOnL1)));
    assert_eq!(env.transaction_status(felt(2)), Ok(Some(FinalityStatus::AcceptedOnL2)));
}

#[test]
fn receipts_follow_their_transactions() {
    let mut env = DbEnv::new();
    let b0 = make_block(0, 100, &[1]);
    let b1 = make_block(1, 101, &[2, 3]);
    store(&mut env, &b0);
    store(&mut env, &b1);
    assert_eq!(env.receipt_by_hash(felt(3)), Ok(Some(invoke_receipt(2))));
    assert_eq!(
        env.receipts_by_block(BlockHashOrNumber::Num(1)),
        Some(vec![invoke_receipt(1), invoke_receipt(2)])
    );
}

#[test]
fn transaction_ranges_read_only_stored_numbers() {
    let mut env = DbEnv::new();
    let b0 = make_block(0, 100, &[1, 2, 3]);
    store(&mut env, &b0);
    assert_eq!(env.transaction_in_range(1..3), Ok(b0.block.body[1..3].to_vec()));
    assert_eq!(env.transaction_in_range(2..10), Ok(b0.block.body[2..3].to_vec()));
    assert_eq!(env.transaction_in_range(3..10), Ok(vec![]));
    assert_eq!(env.transaction_in_range(2..1), Ok(vec![]));
    assert_eq!(env.transaction_hashes_in_range(0..u64::MAX), vec![felt(1), felt(2), felt(3)]);
}

#[test]
fn declared_classes_are_stored() {
    let mut env = DbEnv::new();
    let block = make_block(0, 100, &[]);
    let states = StateUpdatesWithDeclaredClasses {
        declared_classes: vec![(felt(40), felt(41)), (felt(42), felt(43))],
        declared_sierra_classes: vec![(felt(40), SierraClass { program: vec![felt(9), felt(8)] })],
    };
    env.insert_block_with_states_and_receipts(block, states, vec![]);
    assert_eq!(env.compiled_class_hash(felt(40)), Some(felt(41)));
    assert_eq!(env.compiled_class_hash(felt(42)), Some(felt(43)));
    assert_eq!(env.compiled_class_hash(felt(44)), None);
    assert_eq!(env.sierra_class(felt(40)), Some(SierraClass { program: vec![felt(9), felt(8)] }));
    assert_eq!(env.sierra_class(felt(42)), None);
}

#[test]
fn contract_state_writes_are_upserts() {
    let mut env = DbEnv::new();
    let a = felt(0xa);
    assert_eq!(env.nonce(a), None);
    env.set_nonce(a, felt(1));
    env.set_nonce(a, felt(2));
    env.set_storage(a, felt(3), felt(4));
    env.set_class_hash_of_contract(a, felt(5));
    assert_eq!(env.nonce(a), Some(felt(2)));
    assert_eq!(env.storage(a, felt(3)), Some(felt(4)));
    assert_eq!(env.storage(a, felt(4)), None);
    assert_eq!(env.storage(felt(0xb), felt(3)), None);
    assert_eq!(env.class_hash_of_contract(a), Some(felt(5)));
    assert_eq!(env.class_hash_of_contract(felt(0xb)), None);
}

#[test]
fn seal_and_unseal_keep_the_block() {
    let block = Block { header: Header { number: 3, ..Default::default() }, body: vec![invoke_tx(1, 2)] };
    let sealed = block.clone().seal_with_hash(felt(77));
    assert_eq!(sealed.header.hash, felt(77));
    assert_eq!(sealed.header.header, block.header);
    assert_eq!(sealed.unseal(), block);
}

#[test]
fn latest_state_is_a_snapshot() {
    let mut env = DbEnv::new();
    let a = felt(0xa);
    env.set_nonce(a, felt(1));
    env.set_storage(a, felt(2), felt(3));
    let latest = env.latest();
    env.set_nonce(a, felt(9));
    env.set_class_hash_of_contract(a, felt(4));
    assert_eq!(latest.nonce(a), Some(felt(1)));
    assert_eq!(latest.storage(a, felt(2)), Some(felt(3)));
    assert_eq!(latest.class_hash_of_contract(a), None);
    assert_eq!(env.nonce(a), Some(felt(9)));
}
