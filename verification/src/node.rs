//! The node's shared state: the chain store and the pool of transactions
//! that wait to be mined.

use crate::blockchain::{BlockChain, Transaction, TransactionView};
use crate::hash::{BlockHash, HashError};
use vstd::prelude::*;
use vstd::string::StringSliceAdditionalSpecFns;

verus! {

/// The status with which the inlet answers a submission that was taken.
pub const STATUS_CREATED: u16 = 201;

/// The pending transactions, oldest first.
pub open spec fn pool_view(pool: Seq<Transaction>) -> Seq<TransactionView> {
    Seq::new(pool.len(), |i: int| pool[i]@)
}

/// The pool after the transactions of `added` were appended one by one.
pub open spec fn pool_after(pool: Seq<TransactionView>, added: Seq<TransactionView>) -> Seq<
    TransactionView,
>
    decreases added.len(),
{
    if added.len() == 0 {
        pool
    } else {
        pool_after(pool, added.drop_last()).push(added.last())
    }
}

/// The chain store and the pending transactions.
#[derive(Debug, PartialEq, Eq)]
pub struct Storage {
    /// Transactions that wait to be mined, oldest first.
    pub minable_transactions: Vec<Transaction>,
    /// The chain.
    pub blockchain: BlockChain,
}

impl Storage {
    /// The pending transactions, oldest first.
    pub open spec fn pool(&self) -> Seq<TransactionView> {
        pool_view(self.minable_transactions@)
    }

    /// Storage around a given chain, with nothing pending.
    pub fn with_chain(blockchain: BlockChain) -> (storage: Storage)
        ensures
            storage.blockchain == blockchain,
            storage.minable_transactions@.len() == 0,
            storage.pool() == Seq::<TransactionView>::empty(),
    {
        let storage = Storage { minable_transactions: Vec::new(), blockchain };
        proof {
            assert(storage.pool() =~= Seq::<TransactionView>::empty());
        }
        storage
    }

    /// Storage as a node starts with: a fresh chain and nothing pending. It
    /// never fails.
    pub fn new() -> (r: Result<Storage, HashError>)
        ensures
            r matches Ok(storage) && storage.blockchain.is_fresh() && storage.blockchain.wf()
                && storage.minable_transactions@.len() == 0 && storage.pool() == Seq::<
                TransactionView,
            >::empty(),
    {
        match BlockChain::new() {
            Ok(chain) => Ok(Storage::with_chain(chain)),
            Err(e) => Err(e),
        }
    }

    /// Hash of the chain's tip.
    pub fn tip(&self) -> (hash: BlockHash)
        ensures
            hash == self.blockchain.latest_block_hash,
    {
        self.blockchain.latest_block_hash
    }

    /// Appends a transaction to the pool. Whatever was pending stays, in its
    /// order, and the chain is not touched.
    pub fn add_transaction(&mut self, transaction: Transaction)
        ensures
            final(self).pool() == old(self).pool().push(transaction@),
            final(self).blockchain == old(self).blockchain,
    {
        self.minable_transactions.push(transaction);
        proof {
            assert(self.pool() =~= old(self).pool().push(transaction@));
        }
    }

    /// Takes a submission from the inlet: the transaction it describes is
    /// appended to the pool, unchecked, and the answer is "created".
    pub fn submit(
        &mut self,
        author: &str,
        recipient: &str,
        amount_bits: u64,
        signature: &str,
    ) -> (status: u16)
        ensures
            status == STATUS_CREATED,
            final(self).pool() == old(self).pool().push(
                TransactionView {
                    author: author.spec_bytes(),
                    recipient: recipient.spec_bytes(),
                    amount_bits,
                    signature: signature.spec_bytes(),
                },
            ),
            final(self).blockchain == old(self).blockchain,
    {
        let transaction = Transaction::from_submission(author, recipient, amount_bits, signature);
        self.add_transaction(transaction);
        STATUS_CREATED
    }
}

impl Default for Storage {
    /// Storage as a node starts with: a fresh chain and nothing pending.
    fn default() -> (storage: Storage)
        ensures
            storage.blockchain.is_fresh(),
            storage.blockchain.wf(),
            storage.minable_transactions@.len() == 0,
            storage.pool() == Seq::<TransactionView>::empty(),
    {
        match Storage::new() {
            Ok(storage) => storage,
            Err(_) => unreached(),
        }
    }
}

/// However many transactions are appended one after another, none is lost
/// and none is doubled: the pool grows by exactly their number, and holds
/// what it held followed by them in the order of their appending.
pub proof fn lemma_appends_accumulate(pool: Seq<TransactionView>, added: Seq<TransactionView>)
    ensures
        pool_after(pool, added) == pool + added,
        pool_after(pool, added).len() == pool.len() + added.len(),
    decreases added.len(),
{
    if added.len() == 0 {
        assert(pool + added =~= pool);
    } else {
        lemma_appends_accumulate(pool, added.drop_last());
        assert(pool_after(pool, added) =~= pool + added);
    }
}

} // verus!
