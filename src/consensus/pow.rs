//! Proof of work: a block is accepted when its hex hash begins with
//! `difficulty` zero digits.
use vstd::prelude::*;
use crate::block::{block_hash, transaction_views, Block, BlockView};
use crate::primitives::{has_zero_prefix, meets_difficulty};
use crate::transaction::{Transaction, TransactionView};

verus! {

pub struct ProofOfWork {
    pub difficulty: usize,
}

impl ProofOfWork {
    pub fn new(difficulty: usize) -> (r: Self)
        ensures
            r.difficulty == difficulty,
    {
        ProofOfWork { difficulty }
    }

    pub fn name(&self) -> (r: &'static str)
        ensures
            r@ == "Proof of Work"@,
    {
        "Proof of Work"
    }

    /// Linked to `previous_hash`, hash matching the fields, and the hash
    /// meeting the difficulty target.
    pub open spec fn accepts(self, b: BlockView, previous_hash: Seq<char>) -> bool {
        &&& b.previous_hash == previous_hash
        &&& b.hash_consistent()
        &&& has_zero_prefix(b.hash, self.difficulty as nat)
    }

    /// No nonce from `from` on gives a hash meeting the target.
    pub open spec fn nonces_exhausted(self, b: BlockView, from: u64) -> bool {
        forall|n: u64|
            from <= n ==> !has_zero_prefix(
                #[trigger] block_hash(b.index, b.timestamp, b.transactions, b.previous_hash, n),
                self.difficulty as nat,
            )
    }

    /// No nonce at all gives these fields a hash meeting the target.
    pub open spec fn all_nonces_fail(
        self,
        index: u64,
        timestamp: i64,
        transactions: Seq<TransactionView>,
        previous_hash: Seq<char>,
    ) -> bool {
        forall|n: u64|
            !has_zero_prefix(
                #[trigger] block_hash(index, timestamp, transactions, previous_hash, n),
                self.difficulty as nat,
            )
    }

    /// Every nonce fails for some timestamp: the only way generation fails.
    pub open spec fn generation_exhausted(
        self,
        index: u64,
        transactions: Seq<TransactionView>,
        previous_hash: Seq<char>,
    ) -> bool {
        exists|ts: i64| #[trigger] self.all_nonces_fail(index, ts, transactions, previous_hash)
    }

    /// No nonce below the block's own meets the target for its other fields.
    pub open spec fn least_nonce(self, b: BlockView) -> bool {
        forall|n: u64|
            n < b.nonce ==> !has_zero_prefix(
                #[trigger] block_hash(b.index, b.timestamp, b.transactions, b.previous_hash, n),
                self.difficulty as nat,
            )
    }

    /// Searches nonces upward from the block's own until its hash meets the
    /// target; `false` when every nonce up to `u64::MAX` fails.
    pub fn seal_block(&self, block: &mut Block) -> (r: bool)
        requires
            old(block)@.hash_consistent(),
        ensures
            final(block)@.same_content(old(block)@),
            final(block)@.hash_consistent(),
            old(block).nonce <= final(block).nonce,
            r == has_zero_prefix(final(block)@.hash, self.difficulty as nat),
            !r ==> self.nonces_exhausted(old(block)@, old(block).nonce),
            forall|n: u64|
                old(block).nonce <= n < final(block).nonce ==> !has_zero_prefix(
                    #[trigger] block_hash(
                        old(block).index,
                        old(block).timestamp,
                        old(block)@.transactions,
                        old(block)@.previous_hash,
                        n,
                    ),
                    self.difficulty as nat,
                ),
    {
        let ghost start = block@;
        while !meets_difficulty(block.hash.as_str(), self.difficulty)
            invariant
                start == old(block)@,
                block@.same_content(start),
                block@.hash_consistent(),
                start.nonce <= block.nonce,
                forall|n: u64|
                    start.nonce <= n < block.nonce ==> !has_zero_prefix(
                        #[trigger] block_hash(
                            start.index,
                            start.timestamp,
                            start.transactions,
                            start.previous_hash,
                            n,
                        ),
                        self.difficulty as nat,
                    ),
            decreases u64::MAX - block.nonce,
        {
            if block.nonce == u64::MAX {
                assert forall|n: u64| start.nonce <= n implies !has_zero_prefix(
                    #[trigger] block_hash(
                        start.index,
                        start.timestamp,
                        start.transactions,
                        start.previous_hash,
                        n,
                    ),
                    self.difficulty as nat,
                ) by {}
                return false;
            }
            block.nonce = block.nonce + 1;
            block.hash = block.calculate_hash();
        }
        true
    }

    /// A block over `transactions` whose hash meets the target, or `None` when
    /// the nonce space is exhausted.
    pub fn generate_block(
        &self,
        index: u64,
        transactions: Vec<Transaction>,
        previous_hash: String,
    ) -> (r: Option<Block>)
        ensures
            r matches Some(b) ==> {
                &&& b.index == index
                &&& b@.transactions == transaction_views(transactions@)
                &&& b@.miner.len() == 0
                &&& self.accepts(b@, previous_hash@)
                &&& self.least_nonce(b@)
            },
            r is None ==> self.generation_exhausted(
                index,
                transaction_views(transactions@),
                previous_hash@,
            ),
    {
        let mut block = Block::new(index, transactions, previous_hash);
        let ghost fresh = block@;
        if self.seal_block(&mut block) {
            Some(block)
        } else {
            assert(self.all_nonces_fail(
                index,
                fresh.timestamp,
                fresh.transactions,
                fresh.previous_hash,
            ));
            None
        }
    }

    /// Whether `block` is linked to `previous_hash`, carries the hash of its own
    /// fields, and meets the difficulty target.
    pub fn validate_block(&self, block: &Block, previous_hash: &str) -> (r: bool)
        ensures
            r == self.accepts(block@, previous_hash@),
    {
        if block.previous_hash != previous_hash.to_owned() {
            return false;
        }
        if block.hash != block.calculate_hash() {
            return false;
        }
        meets_difficulty(block.hash.as_str(), self.difficulty)
    }
}

} // verus!
