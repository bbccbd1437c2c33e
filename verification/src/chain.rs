//! Chain-facing types around the consensus core: block headers, blocks,
//! fork tips and the adapters through which accepted blocks are handed
//! downstream. Hashes, signatures and timestamps are carried as plain
//! values; computing them is the job of collaborators outside the core,
//! and the placeholder scheme used here hashes everything to zero.

use vstd::prelude::*;

verus! {

/// Height of a block since the genesis block (height 0).
pub type BlockIndex = u64;

/// An authority's signature over a block, carried as a plain value.
pub type Signature = u64;

/// A block hash carried as a plain value.
#[derive(Debug, Clone, Copy, PartialEq, Eq, Structural)]
pub struct CryptoHash {
    pub value: u64,
}

impl Default for CryptoHash {
    fn default() -> (r: Self)
        ensures
            r.value == 0,
    {
        CryptoHash { value: 0 }
    }
}

/// The weight of a fork: the number of unique authorities approving it.
#[derive(Debug, Clone, Copy, PartialEq, PartialOrd, Eq, Ord)]
pub struct Weight {
    pub num: u64,
}

pub struct BlockHeader {
    /// Height of this block since the genesis block (height 0).
    pub height: BlockIndex,
    /// Hash of the block previous to this in the chain.
    pub prev_hash: CryptoHash,
    /// Root hash of the state at the previous block.
    pub prev_state_root: CryptoHash,
    /// Timestamp at which the block was built, in nanoseconds since the
    /// epoch; reading the wall clock is a collaborator's job.
    pub timestamp: i64,
    /// Authority signatures.
    pub signatures: Vec<Signature>,
    /// Total weight.
    pub total_weight: Weight,
}

impl BlockHeader {
    /// Hash of the header. Hashing is left to an external collaborator;
    /// the placeholder scheme hashes every header to the zero value.
    pub fn hash(&self) -> (r: CryptoHash)
        ensures
            r.value == 0,
    {
        CryptoHash::default()
    }
}

pub struct Bytes(pub Vec<u8>);

pub struct Block {
    pub header: BlockHeader,
    pub transactions: Vec<Bytes>,
}

impl Block {
    /// A block hashes as its header does.
    pub fn hash(&self) -> (r: CryptoHash)
        ensures
            r.value == 0,
    {
        self.header.hash()
    }
}

pub enum BlockStatus {
    /// Block is the "next" block, updating the chain head.
    Next,
    /// Block does not update the chain head and is a fork.
    Fork,
    /// Block updates the chain head via a (potentially disruptive)
    /// "reorg": the previous block was not the previous chain head.
    Reorg,
}

/// Bridge between the chain and the rest of the system. Handles downstream
/// processing of valid blocks by the rest of the system.
pub trait ChainAdapter {
    fn block_accepted(&self, block: &Block, status: BlockStatus);
}

pub struct NoopAdapter {}

impl ChainAdapter for NoopAdapter {
    fn block_accepted(&self, _block: &Block, _status: BlockStatus) {
    }
}

/// Bridge between the chain and the runtime. Handles updating state given
/// transactions.
pub trait RuntimeAdapter {

}

/// The tip of a fork: a handle to the fork ancestry from its leaf in the
/// blockchain tree, referencing the max height, the latest and previous
/// blocks and the total weight.
#[derive(Debug, Clone, PartialEq)]
pub struct Tip {
    /// Height of the tip (max height of the fork).
    pub height: u64,
    /// Last block pushed to the fork.
    pub last_block_hash: CryptoHash,
    /// Previous block.
    pub prev_block_hash: CryptoHash,
    /// Total weight on that fork.
    pub total_weight: Weight,
}

impl Tip {
    /// A new tip based on the provided header.
    pub fn from_header(header: &BlockHeader) -> (r: Tip)
        ensures
            r.height == header.height,
            r.last_block_hash.value == 0,
            r.prev_block_hash == header.prev_hash,
            r.total_weight == header.total_weight,
    {
        Tip {
            height: header.height,
            last_block_hash: header.hash(),
            prev_block_hash: header.prev_hash,
            total_weight: header.total_weight,
        }
    }

    /// The hash of the underlying block.
    #[allow(dead_code)]
    fn hash(&self) -> (r: CryptoHash)
        ensures
            r == self.last_block_hash,
    {
        self.last_block_hash
    }
}

} // verus!
