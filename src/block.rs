//! A batch of transactions committed under a content hash and linked to the
//! block before it.
use vstd::prelude::*;
use vstd::string::*;
use vstd::utf8::encode_utf8;
use crate::primitives::{hex_encode, hex_text, now_seconds, sha256, sha256_of};
use crate::transaction::{Transaction, TransactionView};

verus! {

#[derive(Debug)]
pub struct Block {
    pub index: u64,
    /// Creation time, in seconds since the epoch.
    pub timestamp: i64,
    pub transactions: Vec<Transaction>,
    pub previous_hash: String,
    pub hash: String,
    pub nonce: u64,
    pub miner: String,
}

/// What a block holds, as plain values.
pub struct BlockView {
    pub index: u64,
    pub timestamp: i64,
    pub transactions: Seq<TransactionView>,
    pub previous_hash: Seq<char>,
    pub hash: Seq<char>,
    pub nonce: u64,
    pub miner: Seq<char>,
}

pub open spec fn transaction_views(txs: Seq<Transaction>) -> Seq<TransactionView> {
    txs.map_values(|t: Transaction| t@)
}

impl View for Block {
    type V = BlockView;

    open spec fn view(&self) -> BlockView {
        BlockView {
            index: self.index,
            timestamp: self.timestamp,
            transactions: transaction_views(self.transactions@),
            previous_hash: self.previous_hash@,
            hash: self.hash@,
            nonce: self.nonce,
            miner: self.miner@,
        }
    }
}

/// The JSON text of the tuple `(index, timestamp, transactions, previous_hash,
/// nonce)`, each transaction written as the array of its five fields.
pub uninterp spec fn block_json(
    index: u64,
    timestamp: i64,
    transactions: Seq<TransactionView>,
    previous_hash: Seq<char>,
    nonce: u64,
) -> Seq<char>;

/// The hex SHA-256 digest of the canonical text of a block's hashed fields.
pub open spec fn block_hash(
    index: u64,
    timestamp: i64,
    transactions: Seq<TransactionView>,
    previous_hash: Seq<char>,
    nonce: u64,
) -> Seq<char> {
    hex_text(sha256_of(encode_utf8(block_json(index, timestamp, transactions, previous_hash, nonce))))
}

impl BlockView {
    /// The hash that the block's own fields determine.
    pub open spec fn computed_hash(self) -> Seq<char> {
        block_hash(self.index, self.timestamp, self.transactions, self.previous_hash, self.nonce)
    }

    pub open spec fn hash_consistent(self) -> bool {
        self.hash == self.computed_hash()
    }

    /// Equal in every field but the proof-of-work fields `nonce` and `hash`.
    pub open spec fn same_content(self, other: BlockView) -> bool {
        &&& self.index == other.index
        &&& self.timestamp == other.timestamp
        &&& self.transactions == other.transactions
        &&& self.previous_hash == other.previous_hash
        &&& self.miner == other.miner
    }
}

/// The hash is a function of the hashed fields alone: two blocks that agree on
/// index, timestamp, transactions, previous hash and nonce have the same
/// computed hash, whatever their miners or stored hashes.
pub proof fn lemma_hash_determined_by_fields(a: BlockView, b: BlockView)
    requires
        a.index == b.index,
        a.timestamp == b.timestamp,
        a.transactions == b.transactions,
        a.previous_hash == b.previous_hash,
        a.nonce == b.nonce,
    ensures
        a.computed_hash() == b.computed_hash(),
{
}

/// Relies on serde_json::to_string on a tuple of integers, strings and arrays
/// of transaction fields.
#[verifier::external_body]
fn block_json_text(
    index: u64,
    timestamp: i64,
    transactions: &Vec<Transaction>,
    previous_hash: &String,
    nonce: u64,
) -> (r: String)
    ensures
        r@ == block_json(index, timestamp, transaction_views(transactions@), previous_hash@, nonce),
{
    let records: Vec<(&String, &String, u64, u64, &Vec<u8>)> = transactions.iter().map(
        |t| (&t.from, &t.to, t.amount, t.timestamp, &t.signature),
    ).collect();
    serde_json::to_string(&(index, timestamp, records, previous_hash, nonce)).unwrap_or_default()
}

impl Clone for Block {
    fn clone(&self) -> (r: Self)
        ensures
            r@ == self@,
    {
        let mut transactions: Vec<Transaction> = Vec::new();
        let mut i: usize = 0;
        while i < self.transactions.len()
            invariant
                i <= self.transactions@.len(),
                transactions@.len() == i,
                forall|j: int| 0 <= j < i ==> #[trigger] transactions@[j]@ == self.transactions@[j]@,
            decreases self.transactions@.len() - i,
        {
            transactions.push(self.transactions[i].clone());
            i = i + 1;
        }
        assert(transaction_views(transactions@) =~= transaction_views(self.transactions@));
        Block {
            index: self.index,
            timestamp: self.timestamp,
            transactions,
            previous_hash: self.previous_hash.clone(),
            hash: self.hash.clone(),
            nonce: self.nonce,
            miner: self.miner.clone(),
        }
    }
}

impl Block {
    /// A block stamped with the current time, nonce 0 and no miner, its hash
    /// computed from its fields.
    pub fn new(index: u64, transactions: Vec<Transaction>, previous_hash: String) -> (r: Self)
        ensures
            r.index == index,
            r@.transactions == transaction_views(transactions@),
            r.previous_hash@ == previous_hash@,
            r.nonce == 0,
            r.miner@.len() == 0,
            r@.hash_consistent(),
    {
        let mut block = Block {
            index,
            timestamp: now_seconds(),
            transactions,
            previous_hash,
            hash: String::new(),
            nonce: 0,
            miner: String::new(),
        };
        block.hash = block.calculate_hash();
        block
    }

    /// The hash of the block's fields other than `hash` and `miner`.
    pub fn calculate_hash(&self) -> (r: String)
        ensures
            r@ == self@.computed_hash(),
            r@.len() == 64,
    {
        let text = block_json_text(
            self.index,
            self.timestamp,
            &self.transactions,
            &self.previous_hash,
            self.nonce,
        );
        let digest = sha256(text.as_str().as_bytes());
        hex_encode(digest.as_slice())
    }
}

} // verus!
