//! The chain store: blocks keyed by their hash, the hash of the latest
//! block, and the binary form in which a chain is kept on disk.
//!
//! On disk a chain is the sixteen bytes of the latest hash, the number of
//! blocks as eight bytes, least significant first, and then for each block
//! its sixteen-byte hash and its timestamp as eight bytes, least significant
//! first. Blocks may stand in any order; where a hash occurs twice the later
//! block counts. Bytes after the last block are ignored. A chain is read
//! only if it holds its tip and the genesis block.

use crate::bytes::{
    append, le_bytes, le_value, lemma_le_bytes_len, lemma_le_bytes_of_value,
    lemma_le_value_bound, lemma_le_value_injective, lemma_le_value_of_bytes,
    lemma_pow256_widths, u128_from_le, u128_to_le, u64_from_le, u64_to_le,
};
use crate::hash::{genesis_block_hash, genesis_digest, HashError};
pub use crate::hash::{Block, BlockHash};
use std::collections::HashMap;
use vstd::prelude::*;
use vstd::std_specs::hash::spec_hash_map_iter;
use vstd::std_specs::iter::IteratorSpec;
use vstd::string::{StrSliceExecFns, StringSliceAdditionalSpecFns};

verus! {

/// Bytes before the first block of an encoded chain.
pub const HEADER_LEN: usize = 24;

/// Bytes of one encoded block.
pub const ENTRY_LEN: usize = 24;

/// The key under which the chain store files a hash: the hash read as a
/// number, least significant byte first.
pub open spec fn key_of(hash: Seq<u8>) -> u128 {
    le_value(hash) as u128
}

/// The hash that is filed under `key`.
pub open spec fn hash_of(key: u128) -> Seq<u8> {
    le_bytes(key as nat, 16)
}

/// The chain store.
#[derive(Clone, Debug, PartialEq, Eq)]
pub struct BlockChain {
    /// Hash of the chain's tip.
    pub latest_block_hash: BlockHash,
    /// The blocks, each under the key of its hash.
    pub tree: HashMap<u128, Block>,
}

/// The bytes given are not an encoded chain.
#[derive(Clone, Copy, Debug, PartialEq, Eq, Structural)]
pub enum FormatError {
    /// The bytes end before the header or before the last block announced.
    Truncated,
    /// The blocks in the bytes lack the tip that the header names, or the
    /// genesis block.
    Unanchored,
}

/// A chain store's invariant: the blocks hold the tip, and the genesis block
/// under the genesis hash.
pub open spec fn anchored(latest: Seq<u8>, blocks: Map<u128, Block>, genesis: Seq<u8>) -> bool {
    &&& blocks.contains_key(key_of(latest))
    &&& blocks.contains_key(key_of(genesis))
    &&& blocks[key_of(genesis)] == (Block { timestamp: 0 })
}

/// The number of blocks that an encoded chain announces.
pub open spec fn announced(data: Seq<u8>) -> nat {
    le_value(data.subrange(16, 24))
}

/// The bytes hold a header and every block that the header announces.
pub open spec fn well_framed(data: Seq<u8>) -> bool {
    data.len() >= HEADER_LEN && HEADER_LEN + ENTRY_LEN * announced(data) <= data.len()
}

/// The key and block of the `i`-th encoded block.
pub open spec fn entry_at(data: Seq<u8>, i: int) -> (u128, Block) {
    let at = HEADER_LEN + ENTRY_LEN * i;
    (
        le_value(data.subrange(at, at + 16)) as u128,
        Block { timestamp: le_value(data.subrange(at + 16, at + 24)) as u64 },
    )
}

/// The first `count` encoded blocks, in their order.
pub open spec fn entries_of(data: Seq<u8>, count: nat) -> Seq<(u128, Block)> {
    Seq::new(count, |i: int| entry_at(data, i))
}

/// The map that a list of blocks makes: a later block replaces an earlier
/// one under the same key.
pub open spec fn map_of(entries: Seq<(u128, Block)>) -> Map<u128, Block>
    decreases entries.len(),
{
    if entries.len() == 0 {
        Map::empty()
    } else {
        map_of(entries.drop_last()).insert(entries.last().0, entries.last().1)
    }
}

/// The bytes of a list of blocks.
pub open spec fn entries_bytes(entries: Seq<(u128, Block)>) -> Seq<u8>
    decreases entries.len(),
{
    if entries.len() == 0 {
        Seq::empty()
    } else {
        entries_bytes(entries.drop_last()) + hash_of(entries.last().0) + le_bytes(
            entries.last().1.timestamp as nat,
            8,
        )
    }
}

/// The encoded chain with the given tip and blocks in the given order.
pub open spec fn chain_bytes(latest: Seq<u8>, entries: Seq<(u128, Block)>) -> Seq<u8> {
    latest + le_bytes(entries.len(), 8) + entries_bytes(entries)
}

/// The tip that an encoded chain names.
pub open spec fn decoded_tip(data: Seq<u8>) -> Seq<u8> {
    data.subrange(0, 16)
}

/// The blocks that an encoded chain holds.
pub open spec fn decoded_blocks(data: Seq<u8>) -> Map<u128, Block> {
    map_of(entries_of(data, announced(data)))
}

/// Why bytes are not read as a chain that starts at the given genesis hash;
/// none where they are read.
pub open spec fn format_error(data: Seq<u8>, genesis: Seq<u8>) -> Option<FormatError> {
    if !well_framed(data) {
        Some(FormatError::Truncated)
    } else if !anchored(decoded_tip(data), decoded_blocks(data), genesis) {
        Some(FormatError::Unanchored)
    } else {
        None
    }
}

/// The list names every block of the map once, and nothing else.
pub open spec fn lists(entries: Seq<(u128, Block)>, blocks: Map<u128, Block>) -> bool {
    &&& entries.len() == blocks.dom().len()
    &&& forall|i: int|
        0 <= i < entries.len() ==> blocks.contains_key(#[trigger] entries[i].0)
            && blocks[entries[i].0] == entries[i].1
    &&& forall|k: u128| #[trigger]
        blocks.contains_key(k) ==> exists|i: int|
            0 <= i < entries.len() && (#[trigger] entries[i]).0 == k
}

impl BlockChain {
    /// The chain holds its tip, and the genesis block under the given hash.
    pub open spec fn anchored_at(&self, genesis: Seq<u8>) -> bool {
        anchored(self.latest_block_hash@, self.tree@, genesis)
    }

    /// The chain holds its tip and the genesis block under the genesis hash.
    pub open spec fn wf(&self) -> bool {
        self.anchored_at(genesis_digest())
    }

    /// The chain that holds the genesis block alone.
    pub open spec fn is_fresh(&self) -> bool {
        &&& self.latest_block_hash@ == genesis_digest()
        &&& self.tree@ == Map::<u128, Block>::empty().insert(
            key_of(genesis_digest()),
            Block { timestamp: 0 },
        )
    }

    /// The key under which the chain files a hash.
    pub fn key(hash: &BlockHash) -> (key: u128)
        ensures
            key == key_of(hash@),
    {
        proof {
            assert(hash@.subrange(0, 16) =~= hash@);
        }
        u128_from_le(hash.as_slice(), 0)
    }

    /// The block with the given hash, if the chain holds one.
    pub fn get(&self, hash: &BlockHash) -> (block: Option<Block>)
        ensures
            block == (if self.tree@.contains_key(key_of(hash@)) {
                Some(self.tree@[key_of(hash@)])
            } else {
                None
            }),
    {
        let key: u128 = BlockChain::key(hash);
        match self.tree.get(&key) {
            Some(block) => Some(*block),
            None => None,
        }
    }

    /// The number of blocks in the chain.
    pub fn len(&self) -> (count: usize)
        ensures
            count == self.tree@.dom().len(),
    {
        self.tree.len()
    }

    /// Whether the chain holds its tip, and the genesis block under the
    /// given genesis hash.
    pub fn is_anchored(&self, genesis_hash: &BlockHash) -> (anchored: bool)
        ensures
            anchored == self.anchored_at(genesis_hash@),
    {
        match (self.get(&self.latest_block_hash), self.get(genesis_hash)) {
            (Some(_), Some(first)) => first.timestamp == 0,
            _ => false,
        }
    }

    /// The chain that starts at the genesis block with the given hash and
    /// holds nothing else.
    pub fn with_genesis(genesis_hash: BlockHash) -> (chain: BlockChain)
        ensures
            chain.latest_block_hash == genesis_hash,
            chain.tree@ == Map::<u128, Block>::empty().insert(
                key_of(genesis_hash@),
                Block { timestamp: 0 },
            ),
            chain.anchored_at(genesis_hash@),
    {
        let mut tree: HashMap<u128, Block> = HashMap::new();
        let key: u128 = BlockChain::key(&genesis_hash);
        tree.insert(key, Block::genesis());
        BlockChain { latest_block_hash: genesis_hash, tree }
    }

    /// A fresh chain: the genesis block under its hash, which is also the
    /// tip. It never fails.
    pub fn new() -> (r: Result<BlockChain, HashError>)
        ensures
            r matches Ok(chain) && chain.is_fresh() && chain.wf() && chain.tree@.dom().len() == 1,
    {
        match genesis_block_hash() {
            Ok(hash) => {
                let chain = BlockChain::with_genesis(hash);
                proof {
                    lemma_fresh_chain(chain);
                }
                Ok(chain)
            },
            Err(e) => Err(e),
        }
    }

    /// Decodes a chain that starts at the genesis block with the given hash.
    /// It succeeds exactly on bytes that hold a header and every block that
    /// the header announces, among them the tip that the header names and
    /// the genesis block. The chain then has that tip and the blocks in the
    /// bytes, a later block replacing an earlier one with the same hash.
    pub fn from_bytes(data: &[u8], genesis_hash: &BlockHash) -> (r: Result<BlockChain, FormatError>)
        ensures
            match r {
                Ok(chain) => {
                    &&& format_error(data@, genesis_hash@) is None
                    &&& chain.latest_block_hash@ == decoded_tip(data@)
                    &&& chain.tree@ == decoded_blocks(data@)
                    &&& chain.anchored_at(genesis_hash@)
                    &&& genesis_hash@ == genesis_digest() ==> chain.wf()
                },
                Err(e) => format_error(data@, genesis_hash@) == Some(e),
            },
    {
        let total: usize = data.len();
        if total < HEADER_LEN {
            return Err(FormatError::Truncated);
        }
        let count: u64 = u64_from_le(data, 16);
        let room: usize = (total - HEADER_LEN) / ENTRY_LEN;
        if count > room as u64 {
            return Err(FormatError::Truncated);
        }
        let count: usize = count as usize;
        let mut latest: BlockHash = [0u8; 16];
        let mut j: usize = 0;
        while j < 16
            invariant
                j <= 16,
                total == data@.len(),
                total >= HEADER_LEN,
                forall|k: int| 0 <= k < j ==> latest@[k] == data@[k],
            decreases 16 - j,
        {
            latest[j] = data[j];
            j = j + 1;
        }
        proof {
            assert(latest@ =~= data@.subrange(0, 16));
        }
        let mut tree: HashMap<u128, Block> = HashMap::new();
        let mut i: usize = 0;
        while i < count
            invariant
                i <= count,
                total == data@.len(),
                count == announced(data@),
                HEADER_LEN + ENTRY_LEN * count <= total,
                tree@ == map_of(entries_of(data@, i as nat)),
            decreases count - i,
        {
            let at: usize = HEADER_LEN + ENTRY_LEN * i;
            let key: u128 = u128_from_le(data, at);
            let timestamp: u64 = u64_from_le(data, at + 16);
            proof {
                let done = entries_of(data@, i as nat);
                let more = entries_of(data@, (i + 1) as nat);
                assert(more.drop_last() =~= done);
                assert(more.last() == entry_at(data@, i as int));
                lemma_le_value_bound(data@.subrange(at as int, at + 16));
                lemma_le_value_bound(data@.subrange(at + 16, at + 24));
                lemma_pow256_widths();
            }
            tree.insert(key, Block { timestamp });
            i = i + 1;
        }
        let chain = BlockChain { latest_block_hash: latest, tree };
        if chain.is_anchored(genesis_hash) {
            Ok(chain)
        } else {
            Err(FormatError::Unanchored)
        }
    }

    /// Encodes the chain: its tip, the number of its blocks, and the blocks
    /// in the order in which the map hands them out.
    pub fn to_bytes(&self) -> (out: Vec<u8>)
        ensures
            exists|entries: Seq<(u128, Block)>|
                lists(entries, self.tree@) && out@ == #[trigger] chain_bytes(
                    self.latest_block_hash@,
                    entries,
                ),
    {
        let mut out: Vec<u8> = Vec::new();
        append(&mut out, self.latest_block_hash.as_slice());
        let count: u64 = self.tree.len() as u64;
        let count_bytes: [u8; 8] = u64_to_le(count);
        append(&mut out, count_bytes.as_slice());
        let ghost listing = spec_hash_map_iter(&self.tree).remaining();
        let ghost done: Seq<(u128, Block)> = Seq::empty();
        proof {
            assert(listing.unref().take(0) =~= done);
        }
        for entry in it: self.tree.iter()
            invariant
                it.seq() == listing,
                done == listing.unref().take(it.index()),
                out@ == self.latest_block_hash@ + le_bytes(self.tree@.dom().len(), 8)
                    + entries_bytes(done),
        {
            let key_bytes: [u8; 16] = u128_to_le(*entry.0);
            let stamp_bytes: [u8; 8] = u64_to_le(entry.1.timestamp);
            proof {
                let done = it.seq().unref().take(it.index());
                let more = it.seq().unref().take(it.index() + 1);
                assert(more.drop_last() =~= done);
                assert(more.last() == (*entry.0, *entry.1));
            }
            append(&mut out, key_bytes.as_slice());
            append(&mut out, stamp_bytes.as_slice());
            proof {
                let more = it.seq().unref().take(it.index() + 1);
                assert(out@ =~= self.latest_block_hash@ + le_bytes(self.tree@.dom().len(), 8)
                    + entries_bytes(more));
                done = done.push((*entry.0, *entry.1));
                assert(done =~= more);
            }
        }
        proof {
            let entries = listing.unref();
            let blocks = self.tree@;
            assert(entries.take(entries.len() as int) =~= entries);
            assert(done == entries);
            assert forall|i: int| 0 <= i < entries.len() implies blocks.contains_key(
                #[trigger] entries[i].0,
            ) && blocks[entries[i].0] == entries[i].1 by {
                assert(blocks.contains_key(*listing[i].0));
            }
            assert forall|k: u128| #[trigger] blocks.contains_key(k) implies exists|i: int|
                0 <= i < entries.len() && (#[trigger] entries[i]).0 == k by {
                assert(listing.contains((&k, &blocks[k])));
                let i = choose|i: int| 0 <= i < listing.len() && listing[i] == (&k, &blocks[k]);
                assert(entries[i].0 == k);
            }
            assert(lists(entries, blocks));
            assert(out@ == chain_bytes(self.latest_block_hash@, entries));
        }
        out
    }
}

/// A list that names every block of a map, and nothing else, makes that map.
pub proof fn lemma_map_of_listing(entries: Seq<(u128, Block)>, blocks: Map<u128, Block>)
    requires
        lists(entries, blocks),
    ensures
        map_of(entries) == blocks,
{
    lemma_map_of_entries(entries);
    assert forall|k: u128| map_of(entries).contains_key(k) == blocks.contains_key(k) by {
        if blocks.contains_key(k) {
            let i = choose|i: int| 0 <= i < entries.len() && (#[trigger] entries[i]).0 == k;
            assert(entries[i].0 == k);
        }
    }
    assert forall|k: u128| map_of(entries).contains_key(k) implies map_of(entries)[k]
        == blocks[k] by {
        let i = choose|i: int|
            0 <= i < entries.len() && (#[trigger] entries[i]) == (k, map_of(entries)[k]);
        assert(blocks[entries[i].0] == entries[i].1);
    }
    assert(map_of(entries) =~= blocks);
}

/// The map of a list holds exactly the keys of the list, each with a block
/// that the list gives it.
proof fn lemma_map_of_entries(entries: Seq<(u128, Block)>)
    ensures
        forall|k: u128| #[trigger]
            map_of(entries).contains_key(k) <==> exists|i: int|
                0 <= i < entries.len() && (#[trigger] entries[i]).0 == k,
        forall|k: u128| #[trigger]
            map_of(entries).contains_key(k) ==> exists|i: int|
                0 <= i < entries.len() && (#[trigger] entries[i]) == (k, map_of(entries)[k]),
    decreases entries.len(),
{
    if entries.len() > 0 {
        let front = entries.drop_last();
        let last = entries.last();
        lemma_map_of_entries(front);
        assert forall|k: u128| #[trigger]
            map_of(entries).contains_key(k) <==> exists|i: int|
                0 <= i < entries.len() && (#[trigger] entries[i]).0 == k by {
            if k == last.0 {
                assert(entries[entries.len() - 1].0 == k);
            } else if map_of(front).contains_key(k) {
                let i = choose|i: int| 0 <= i < front.len() && (#[trigger] front[i]).0 == k;
                assert(entries[i].0 == k);
            } else if exists|i: int| 0 <= i < entries.len() && (#[trigger] entries[i]).0 == k {
                let i = choose|i: int| 0 <= i < entries.len() && (#[trigger] entries[i]).0 == k;
                assert(front[i].0 == k);
            }
        }
        assert forall|k: u128| #[trigger] map_of(entries).contains_key(k) implies exists|i: int|
            0 <= i < entries.len() && (#[trigger] entries[i]) == (k, map_of(entries)[k]) by {
            if k == last.0 {
                assert(entries[entries.len() - 1] == (k, map_of(entries)[k]));
            } else {
                let i = choose|i: int|
                    0 <= i < front.len() && (#[trigger] front[i]) == (k, map_of(front)[k]);
                assert(entries[i] == (k, map_of(entries)[k]));
            }
        }
    }
}

/// The bytes of a list of blocks hold one field of twenty-four bytes for
/// each block: its hash, then its timestamp.
proof fn lemma_entries_bytes(entries: Seq<(u128, Block)>)
    ensures
        entries_bytes(entries).len() == ENTRY_LEN * entries.len(),
        forall|i: int|
            0 <= i < entries.len() ==> #[trigger] entries_bytes(entries).subrange(
                ENTRY_LEN * i,
                ENTRY_LEN * i + 16,
            ) == hash_of(entries[i].0),
        forall|i: int|
            0 <= i < entries.len() ==> #[trigger] entries_bytes(entries).subrange(
                ENTRY_LEN * i + 16,
                ENTRY_LEN * i + 24,
            ) == le_bytes(entries[i].1.timestamp as nat, 8),
    decreases entries.len(),
{
    if entries.len() > 0 {
        let front = entries.drop_last();
        let last = entries.last();
        let n = front.len() as int;
        lemma_entries_bytes(front);
        lemma_le_bytes_len(last.0 as nat, 16);
        lemma_le_bytes_len(last.1.timestamp as nat, 8);
        let all = entries_bytes(entries);
        let head = entries_bytes(front);
        assert(all == head + hash_of(last.0) + le_bytes(last.1.timestamp as nat, 8));
        assert forall|i: int| 0 <= i < entries.len() implies #[trigger] all.subrange(
            ENTRY_LEN * i,
            ENTRY_LEN * i + 16,
        ) == hash_of(entries[i].0) by {
            if i < n {
                assert(all.subrange(ENTRY_LEN * i, ENTRY_LEN * i + 16) =~= head.subrange(
                    ENTRY_LEN * i,
                    ENTRY_LEN * i + 16,
                ));
            } else {
                assert(all.subrange(ENTRY_LEN * i, ENTRY_LEN * i + 16) =~= hash_of(last.0));
            }
        }
        assert forall|i: int| 0 <= i < entries.len() implies #[trigger] all.subrange(
            ENTRY_LEN * i + 16,
            ENTRY_LEN * i + 24,
        ) == le_bytes(entries[i].1.timestamp as nat, 8) by {
            if i < n {
                assert(all.subrange(ENTRY_LEN * i + 16, ENTRY_LEN * i + 24) =~= head.subrange(
                    ENTRY_LEN * i + 16,
                    ENTRY_LEN * i + 24,
                ));
            } else {
                assert(all.subrange(ENTRY_LEN * i + 16, ENTRY_LEN * i + 24) =~= le_bytes(
                    last.1.timestamp as nat,
                    8,
                ));
            }
        }
    }
}

/// Decoding an encoded chain gives back the tip and the list of blocks that
/// were encoded.
pub proof fn lemma_decode_of_encode(latest: Seq<u8>, entries: Seq<(u128, Block)>)
    requires
        latest.len() == 16,
        entries.len() <= u64::MAX,
    ensures
        well_framed(chain_bytes(latest, entries)),
        chain_bytes(latest, entries).len() == HEADER_LEN + ENTRY_LEN * entries.len(),
        chain_bytes(latest, entries).subrange(0, 16) == latest,
        announced(chain_bytes(latest, entries)) == entries.len(),
        entries_of(chain_bytes(latest, entries), entries.len()) == entries,
{
    let data = chain_bytes(latest, entries);
    let body = entries_bytes(entries);
    let count = le_bytes(entries.len(), 8);
    lemma_le_bytes_len(entries.len(), 8);
    lemma_pow256_widths();
    lemma_le_value_of_bytes(entries.len(), 8);
    lemma_entries_bytes(entries);
    assert(data.subrange(0, 16) =~= latest);
    assert(data.subrange(16, 24) =~= count);
    assert forall|i: int| 0 <= i < entries.len() implies entry_at(data, i) == entries[i] by {
        let at = HEADER_LEN + ENTRY_LEN * i;
        assert(data.subrange(at, at + 16) =~= body.subrange(ENTRY_LEN * i, ENTRY_LEN * i + 16));
        assert(data.subrange(at + 16, at + 24) =~= body.subrange(
            ENTRY_LEN * i + 16,
            ENTRY_LEN * i + 24,
        ));
        lemma_le_value_of_bytes(entries[i].0 as nat, 16);
        lemma_le_value_of_bytes(entries[i].1.timestamp as nat, 8);
    }
    assert(entries_of(data, entries.len()) =~= entries);
}

/// Round trip: whatever order the blocks were written in, an encoded chain
/// store is read, and reading it gives a chain with the same tip and the
/// same blocks.
pub proof fn lemma_round_trip(chain: BlockChain, entries: Seq<(u128, Block)>, genesis: Seq<u8>)
    requires
        chain.anchored_at(genesis),
        lists(entries, chain.tree@),
    ensures
        ({
            let data = chain_bytes(chain.latest_block_hash@, entries);
            &&& format_error(data, genesis) is None
            &&& decoded_tip(data) == chain.latest_block_hash@
            &&& decoded_blocks(data) == chain.tree@
        }),
{
    assert(chain.tree@.dom().len() == chain.tree.len());
    lemma_decode_of_encode(chain.latest_block_hash@, entries);
    lemma_map_of_listing(entries, chain.tree@);
}

/// A fresh chain holds exactly one block: the genesis block, under the
/// genesis hash, which is also the chain's tip.
pub proof fn lemma_fresh_chain(chain: BlockChain)
    requires
        chain.is_fresh(),
    ensures
        chain.wf(),
        chain.tree@.dom().len() == 1,
        chain.tree@.dom() == set![key_of(genesis_digest())],
        chain.tree@[key_of(genesis_digest())] == (Block { timestamp: 0 }),
        chain.latest_block_hash@ == genesis_digest(),
{
    assert(chain.tree@.dom() =~= set![key_of(genesis_digest())]);
}

/// Two hashes are filed under the same key only if they are the same hash,
/// and the hash that is filed under a hash's key is that hash.
pub proof fn lemma_key_names_hash(a: BlockHash, b: BlockHash)
    ensures
        key_of(a@) == key_of(b@) ==> a == b,
        hash_of(key_of(a@)) == a@,
{
    lemma_le_value_bound(a@);
    lemma_le_value_bound(b@);
    lemma_pow256_widths();
    lemma_le_bytes_of_value(a@);
    if key_of(a@) == key_of(b@) {
        lemma_le_value_injective(a@, b@);
        assert(a =~= b);
    }
}

/// A transfer that someone asks to have mined. Nothing here checks the
/// signature.
#[derive(Debug, PartialEq, Eq)]
pub struct Transaction {
    /// Who pays.
    pub author: Vec<u8>,
    /// Who is paid.
    pub recipient: Vec<u8>,
    /// The amount, as the bit pattern of an IEEE 754 binary64 number.
    pub amount_bits: u64,
    /// The author's signature.
    pub signature: Vec<u8>,
}

/// What a transaction holds.
pub struct TransactionView {
    pub author: Seq<u8>,
    pub recipient: Seq<u8>,
    pub amount_bits: u64,
    pub signature: Seq<u8>,
}

impl View for Transaction {
    type V = TransactionView;

    open spec fn view(&self) -> TransactionView {
        TransactionView {
            author: self.author@,
            recipient: self.recipient@,
            amount_bits: self.amount_bits,
            signature: self.signature@,
        }
    }
}

impl Clone for Transaction {
    fn clone(&self) -> (copy: Transaction)
        ensures
            copy@ == self@,
    {
        Transaction {
            author: self.author.clone(),
            recipient: self.recipient.clone(),
            amount_bits: self.amount_bits,
            signature: self.signature.clone(),
        }
    }
}

impl Transaction {
    /// The transaction that a submission describes: each text field is taken
    /// as its UTF-8 bytes, the amount as it is.
    pub fn from_submission(author: &str, recipient: &str, amount_bits: u64, signature: &str) -> (tx:
        Transaction)
        ensures
            tx@ == (TransactionView {
                author: author.spec_bytes(),
                recipient: recipient.spec_bytes(),
                amount_bits,
                signature: signature.spec_bytes(),
            }),
    {
        Transaction {
            author: author.as_bytes_vec(),
            recipient: recipient.as_bytes_vec(),
            amount_bits,
            signature: signature.as_bytes_vec(),
        }
    }
}

} // verus!
