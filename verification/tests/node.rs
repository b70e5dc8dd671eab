use sprig::blockchain::BlockChain;
use sprig::hash::genesis_block_hash;
use sprig::blockchain::Transaction;
use sprig::node::{Storage, STATUS_CREATED};
use std::sync::{Arc, Mutex};

fn transaction(n: u64) -> Transaction {
    Transaction {
        author: n.to_be_bytes().to_vec(),
        recipient: vec![1, 2, 3],
        amount_bits: (n as f64).to_bits(),
        signature: vec![n as u8],
    }
}

#[test]
fn storage_starts_with_a_fresh_chain_and_nothing_pending() {
    let storage = Storage::new().unwrap();
    assert!(storage.minable_transactions.is_empty());
    assert_eq!(storage.blockchain, BlockChain::new().unwrap());
    assert_eq!(storage.tip(), genesis_block_hash().unwrap());
}

#[test]
fn storage_around_a_chain() {
    let chain = BlockChain::with_genesis([3u8; 16]);
    let storage = Storage::with_chain(chain.clone());
    assert_eq!(storage.blockchain, chain);
    assert_eq!(storage.minable_transactions, vec![]);
    assert_eq!(storage.tip(), [3u8; 16]);
}

#[test]
fn an_appended_transaction_is_the_last_of_the_pool() {
    let mut storage = Storage::with_chain(BlockChain::with_genesis([3u8; 16]));
    storage.add_transaction(transaction(1));
    storage.add_transaction(transaction(2));
    assert_eq!(storage.minable_transactions, vec![transaction(1), transaction(2)]);
    assert_eq!(storage.blockchain, BlockChain::with_genesis([3u8; 16]));
}

#[test]
fn a_hundred_appends_make_a_pool_of_a_hundred() {
    let mut storage = Storage::with_chain(BlockChain::with_genesis([3u8; 16]));
    for n in 0..100u64 {
        storage.add_transaction(transaction(n));
    }
    assert_eq!(storage.minable_transactions.len(), 100);
    for n in 0..100u64 {
        assert_eq!(storage.minable_transactions[n as usize], transaction(n));
    }
}

#[test]
fn appends_under_a_lock_lose_and_double_nothing() {
    let storage = Arc::new(Mutex::new(Storage::with_chain(BlockChain::with_genesis(
        [3u8; 16],
    ))));
    let callers: Vec<Arc<Mutex<Storage>>> = (0..10).map(|_| storage.clone()).collect();
    for round in 0..10u64 {
        for (caller, handle) in callers.iter().enumerate() {
            let mut guard = handle.lock().unwrap();
            guard.add_transaction(transaction(round * 10 + caller as u64));
        }
    }
    let guard = storage.lock().unwrap();
    assert_eq!(guard.minable_transactions.len(), 100);
    let mut seen: Vec<u64> = guard
        .minable_transactions
        .iter()
        .map(|t| f64::from_bits(t.amount_bits) as u64)
        .collect();
    seen.sort();
    let expected: Vec<u64> = (0..100).collect();
    assert_eq!(seen, expected);
}

#[test]
fn a_submission_is_stored_byte_for_byte() {
    let mut storage = Storage::with_chain(BlockChain::with_genesis([3u8; 16]));
    let before = storage.minable_transactions.len();
    let status = storage.submit("alice", "bob", 1.5f64.to_bits(), "deadbeef");
    assert_eq!(status, 201);
    assert_eq!(status, STATUS_CREATED);
    assert_eq!(storage.minable_transactions.len(), before + 1);
    let stored = &storage.minable_transactions[before];
    assert_eq!(stored.author, b"alice".to_vec());
    assert_eq!(stored.recipient, b"bob".to_vec());
    assert_eq!(f64::from_bits(stored.amount_bits), 1.5);
    assert_eq!(stored.amount_bits, 0x3ff8_0000_0000_0000);
    assert_eq!(stored.signature, b"deadbeef".to_vec());
}

#[test]
fn a_submission_is_not_checked() {
    let mut storage = Storage::with_chain(BlockChain::with_genesis([3u8; 16]));
    assert_eq!(storage.submit("", "", f64::NAN.to_bits(), ""), 201);
    assert_eq!(storage.submit("é", "b", (-1.0f64).to_bits(), "zz"), 201);
    assert_eq!(storage.minable_transactions.len(), 2);
    assert_eq!(storage.minable_transactions[1].author, vec![0xc3, 0xa9]);
}

#[test]
fn a_transaction_from_a_submission() {
    let tx = Transaction::from_submission("alice", "bob", 2.0f64.to_bits(), "sig");
    assert_eq!(
        tx,
        Transaction {
            author: vec![97, 108, 105, 99, 101],
            recipient: vec![98, 111, 98],
            amount_bits: 0x4000_0000_0000_0000,
            signature: vec![115, 105, 103],
        }
    );
}

#[test]
fn default_storage_is_empty_over_a_fresh_chain() {
    let storage = Storage::default();
    let genesis = genesis_block_hash().unwrap();
    assert!(storage.minable_transactions.is_empty());
    assert_eq!(storage.blockchain.latest_block_hash, genesis);
    assert_eq!(storage.blockchain.tree.len(), 1);
    assert_eq!(
        storage.blockchain.tree.get(&BlockChain::key(&genesis)),
        Some(&sprig::hash::Block { timestamp: 0 })
    );
    assert_eq!(storage, Storage::new().unwrap());
}
