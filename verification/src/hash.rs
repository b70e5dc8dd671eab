//! Blocks and their proof-of-work digest.
//!
//! A block's hash is the Argon2id digest of its encoded contents under fixed
//! cost parameters and a fixed salt, so that every node obtains the same
//! sixteen bytes for the same block, at a deliberately high price.

use crate::bytes::{be_bytes, lemma_be_bytes_len, u64_to_be};
use vstd::prelude::*;

verus! {

/// The digest that identifies a block.
pub type BlockHash = [u8; 16];

/// Length of a block hash in bytes.
pub const HASH_LEN: usize = 16;

/// Memory cost of the proof-of-work digest, in KiB (about 10 MB).
pub const POW_MEMORY_KIB: u32 = 9765;

/// Number of passes of the proof-of-work digest.
pub const POW_PASSES: u32 = 5;

/// Degree of parallelism of the proof-of-work digest.
pub const POW_LANES: u32 = 4;

/// One block of the chain.
#[derive(Clone, Copy, Debug, PartialEq, Eq, Structural)]
pub struct Block {
    /// Seconds since the epoch at which the block was made.
    pub timestamp: u64,
}

/// Why a block could not be hashed.
#[derive(Clone, Copy, Debug, PartialEq, Eq, Structural)]
pub enum HashError {
    /// The hashing library refused the computation.
    Hasher,
    /// The hashing library handed back a digest of another length than asked.
    OutputLength,
}

#[verifier::external_type_specification]
#[verifier::external_body]
pub struct ExArgon2Error(argon2::Error);

/// The Argon2id digest, version 0x13, of `password` under `salt` with the
/// given costs, in `out_len` bytes.
pub uninterp spec fn argon2id_v19(
    password: Seq<u8>,
    salt: Seq<u8>,
    memory_kib: u32,
    passes: u32,
    lanes: u32,
    out_len: usize,
) -> Seq<u8>;

/// The arguments that Argon2 takes without an error: memory of at least
/// eight blocks for each lane, at least one pass, from one to 2^24 - 1
/// lanes, a digest of at least four bytes, a salt of at least eight, and
/// password and salt of less than 2^32 bytes.
pub open spec fn argon2_accepts(
    password: Seq<u8>,
    salt: Seq<u8>,
    memory_kib: u32,
    passes: u32,
    lanes: u32,
    out_len: usize,
) -> bool {
    &&& memory_kib >= 8
    &&& memory_kib >= 8 * lanes
    &&& passes >= 1
    &&& 1 <= lanes <= 0xFF_FFFF
    &&& 4 <= out_len <= 0xFFFF_FFFF
    &&& 8 <= salt.len() <= 0xFFFF_FFFF
    &&& password.len() <= 0xFFFF_FFFF
}

/// Calls `argon2::Argon2::hash_password_into` with parameters made by
/// `argon2::Params::new`, algorithm Argon2id, version 0x13, on a fresh buffer
/// of `out_len` bytes. Nothing is proved of it. The contract claims that a
/// digest that comes back fills the buffer and depends on the six arguments
/// alone, and that one comes back for the arguments that pass the checks of
/// `Params::new` and of `hash_password_into`. `lanes` is bounded because
/// the parameter check multiplies it by eight before it tests its range,
/// `memory_kib` and `out_len` because working memory and buffer are
/// allocated whole.
#[verifier::external_body]
fn argon2id(
    password: &[u8],
    salt: &[u8],
    memory_kib: u32,
    passes: u32,
    lanes: u32,
    out_len: usize,
) -> (r: Result<Vec<u8>, argon2::Error>)
    requires
        lanes < 0x2000_0000,
        memory_kib <= 0x10_0000,
        out_len <= 0x1_0000,
    ensures
        r matches Ok(digest) ==> digest@.len() == out_len && digest@ == argon2id_v19(
            password@,
            salt@,
            memory_kib,
            passes,
            lanes,
            out_len,
        ),
        argon2_accepts(password@, salt@, memory_kib, passes, lanes, out_len) ==> r is Ok,
{
    let params = argon2::Params::new(memory_kib, passes, lanes, Some(out_len))?;
    let hasher = argon2::Argon2::new(argon2::Algorithm::Argon2id, argon2::Version::V0x13, params);
    let mut out = vec![0u8; out_len];
    hasher.hash_password_into(password, salt, &mut out)?;
    Ok(out)
}

/// The salt of the proof-of-work digest: the ASCII letters `sprigpow`.
pub open spec fn pow_salt() -> Seq<u8> {
    seq![0x73u8, 0x70u8, 0x72u8, 0x69u8, 0x67u8, 0x70u8, 0x6fu8, 0x77u8]
}

/// What of a block is hashed: its timestamp, most significant byte first.
pub open spec fn block_preimage(block: Block) -> Seq<u8> {
    be_bytes(block.timestamp as nat, 8)
}

/// The proof-of-work digest of a block.
pub open spec fn block_digest(block: Block) -> Seq<u8> {
    argon2id_v19(block_preimage(block), pow_salt(), POW_MEMORY_KIB, POW_PASSES, POW_LANES, HASH_LEN)
}

/// The digest of the genesis block, which every chain starts from.
pub open spec fn genesis_digest() -> Seq<u8> {
    block_digest(Block { timestamp: 0 })
}

/// What `Block::hash` makes of the hashing library's answer.
pub open spec fn hash_of_outcome(outcome: Result<Vec<u8>, argon2::Error>) -> Result<
    Seq<u8>,
    HashError,
> {
    match outcome {
        Ok(digest) => if digest@.len() == HASH_LEN {
            Ok(digest@)
        } else {
            Err(HashError::OutputLength)
        },
        Err(_) => Err(HashError::Hasher),
    }
}

/// Turns the hashing library's answer into a block hash: a digest of sixteen
/// bytes is the hash, one of another length and a refusal are errors.
pub fn hash_from_outcome(outcome: Result<Vec<u8>, argon2::Error>) -> (r: Result<
    BlockHash,
    HashError,
>)
    ensures
        match r {
            Ok(hash) => hash_of_outcome(outcome) == Ok::<Seq<u8>, HashError>(hash@),
            Err(e) => hash_of_outcome(outcome) == Err::<Seq<u8>, HashError>(e),
        },
{
    match outcome {
        Ok(digest) => {
            if digest.len() != HASH_LEN {
                return Err(HashError::OutputLength);
            }
            let mut hash: BlockHash = [0u8; 16];
            let mut i: usize = 0;
            while i < HASH_LEN
                invariant
                    i <= HASH_LEN,
                    digest@.len() == HASH_LEN,
                    forall|j: int| 0 <= j < i ==> hash@[j] == digest@[j],
                decreases HASH_LEN - i,
            {
                hash[i] = digest[i];
                i = i + 1;
            }
            proof {
                assert(hash@ =~= digest@);
            }
            Ok(hash)
        },
        Err(_) => Err(HashError::Hasher),
    }
}

impl Block {
    /// The block that every chain starts from.
    pub fn genesis() -> (block: Block)
        ensures
            block == (Block { timestamp: 0 }),
    {
        Block { timestamp: 0 }
    }

    /// The block's proof-of-work digest. Hashing never fails: the costs,
    /// the salt and the length are fixed, and the hashing library takes
    /// them.
    pub fn hash(&self) -> (r: Result<BlockHash, HashError>)
        ensures
            r matches Ok(hash) && hash@ == block_digest(*self),
    {
        let preimage: [u8; 8] = u64_to_be(self.timestamp);
        let salt: [u8; 8] = [0x73u8, 0x70u8, 0x72u8, 0x69u8, 0x67u8, 0x70u8, 0x6fu8, 0x77u8];
        proof {
            assert(salt@ =~= pow_salt());
            lemma_be_bytes_len(self.timestamp as nat, 8);
        }
        let outcome = argon2id(
            preimage.as_slice(),
            salt.as_slice(),
            POW_MEMORY_KIB,
            POW_PASSES,
            POW_LANES,
            HASH_LEN,
        );
        hash_from_outcome(outcome)
    }
}

/// The hash of the genesis block, computed afresh. It never fails.
pub fn genesis_block_hash() -> (r: Result<BlockHash, HashError>)
    ensures
        r matches Ok(hash) && hash@ == genesis_digest(),
{
    Block::genesis().hash()
}

/// Hashing is deterministic: two hashes of blocks with the same contents are
/// the same sixteen bytes, and any hash of the genesis block is the genesis
/// digest.
pub proof fn lemma_hash_deterministic(a: Block, b: Block, hash_a: BlockHash, hash_b: BlockHash)
    requires
        a.timestamp == b.timestamp,
        hash_a@ == block_digest(a),
        hash_b@ == block_digest(b),
    ensures
        hash_a == hash_b,
        a.timestamp == 0 ==> hash_a@ == genesis_digest(),
{
    assert(hash_a =~= hash_b);
}

} // verus!
