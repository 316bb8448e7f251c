//! Block-production policies behind one interface.
use vstd::prelude::*;
use crate::block::{transaction_views, Block, BlockView};
use crate::transaction::{Transaction, TransactionView};

pub mod pos;
pub mod pow;

use pos::ProofOfStake;
use pow::ProofOfWork;

verus! {

/// The policy that produces and validates blocks.
pub enum Consensus {
    ProofOfWork(ProofOfWork),
    ProofOfStake(ProofOfStake),
}

/// The available policies and their parameters.
#[derive(Debug)]
pub enum ConsensusType {
    ProofOfWorkType { difficulty: usize },
    ProofOfStakeType { min_stake: u64 },
}

impl ConsensusType {
    /// The policy that the type names; proof of stake starts with no stake
    /// registered.
    pub fn create_consensus(&self) -> (r: Consensus)
        ensures
            r.wf(),
            match *self {
                ConsensusType::ProofOfWorkType { difficulty } => r matches Consensus::ProofOfWork(
                    p,
                ) && p.difficulty == difficulty,
                ConsensusType::ProofOfStakeType { .. } => r matches Consensus::ProofOfStake(
                    p,
                ) && p@.len() == 0,
            },
    {
        match self {
            ConsensusType::ProofOfWorkType { difficulty } => Consensus::ProofOfWork(
                ProofOfWork::new(*difficulty),
            ),
            ConsensusType::ProofOfStakeType { .. } => Consensus::ProofOfStake(ProofOfStake::new()),
        }
    }
}

/// Validation is a pure check: two validations of the same unmodified block
/// against the same previous hash give the same answer.
pub proof fn lemma_validation_repeatable(
    policy: Consensus,
    block: BlockView,
    previous_hash: Seq<char>,
    first: bool,
    second: bool,
)
    requires
        first == policy.accepts(block, previous_hash),
        second == policy.accepts(block, previous_hash),
    ensures
        first == second,
{
}

impl Consensus {
    pub open spec fn wf(self) -> bool {
        match self {
            Consensus::ProofOfWork(_) => true,
            Consensus::ProofOfStake(p) => p.wf(),
        }
    }

    /// Whether the policy accepts `b` as the successor of a block hashed
    /// `previous_hash`.
    pub open spec fn accepts(self, b: BlockView, previous_hash: Seq<char>) -> bool {
        match self {
            Consensus::ProofOfWork(p) => p.accepts(b, previous_hash),
            Consensus::ProofOfStake(p) => p.accepts(b, previous_hash),
        }
    }

    /// Generation can fail only under proof of work, once every nonce fails.
    pub open spec fn generation_exhausted(
        self,
        index: u64,
        transactions: Seq<TransactionView>,
        previous_hash: Seq<char>,
    ) -> bool {
        match self {
            Consensus::ProofOfWork(p) => p.generation_exhausted(index, transactions, previous_hash),
            Consensus::ProofOfStake(_) => false,
        }
    }

    /// What the policy fixes of a block it generates: under proof of work no
    /// miner and the least nonce meeting the target; under proof of stake
    /// nonce 0 and a drawn miner.
    pub open spec fn produced_by_policy(self, b: BlockView) -> bool {
        match self {
            Consensus::ProofOfWork(p) => b.miner.len() == 0 && p.least_nonce(b),
            Consensus::ProofOfStake(p) => b.nonce == 0 && p.miner_drawn(b.miner),
        }
    }

    pub fn name(&self) -> (r: &'static str)
        ensures
            self is ProofOfWork ==> r@ == "Proof of Work"@,
            self is ProofOfStake ==> r@ == "proof of stake"@,
    {
        match self {
            Consensus::ProofOfWork(p) => p.name(),
            Consensus::ProofOfStake(p) => p.name(),
        }
    }

    /// Turns a fresh candidate into a block that the policy accepts; `false`
    /// when the nonce space of proof of work is exhausted.
    pub fn seal_block(&self, block: &mut Block) -> (r: bool)
        requires
            self.wf(),
            old(block)@.hash_consistent(),
            old(block).nonce == 0,
        ensures
            final(block)@.index == old(block)@.index,
            final(block)@.timestamp == old(block)@.timestamp,
            final(block)@.transactions == old(block)@.transactions,
            final(block)@.previous_hash == old(block)@.previous_hash,
            r ==> self.accepts(final(block)@, old(block)@.previous_hash),
            !r ==> self.generation_exhausted(
                old(block)@.index,
                old(block)@.transactions,
                old(block)@.previous_hash,
            ),
    {
        match self {
            Consensus::ProofOfWork(p) => {
                let ghost start = block@;
                let r = p.seal_block(block);
                proof {
                    if !r {
                        assert(p.all_nonces_fail(
                            start.index,
                            start.timestamp,
                            start.transactions,
                            start.previous_hash,
                        ));
                    }
                }
                r
            },
            Consensus::ProofOfStake(p) => p.seal_block(block),
        }
    }

    /// A block over `transactions` that the policy accepts after
    /// `previous_hash`; `None` only when proof of work exhausts its nonces.
    pub fn generate_block(
        &self,
        index: u64,
        transactions: Vec<Transaction>,
        previous_hash: String,
    ) -> (r: Option<Block>)
        requires
            self.wf(),
        ensures
            r matches Some(b) ==> {
                &&& b.index == index
                &&& b@.transactions == transaction_views(transactions@)
                &&& self.accepts(b@, previous_hash@)
                &&& self.produced_by_policy(b@)
            },
            r is None ==> self.generation_exhausted(
                index,
                transaction_views(transactions@),
                previous_hash@,
            ),
    {
        match self {
            Consensus::ProofOfWork(p) => p.generate_block(index, transactions, previous_hash),
            Consensus::ProofOfStake(p) => Some(p.generate_block(index, transactions, previous_hash)),
        }
    }

    /// Whether the policy accepts `block` after `previous_hash`.
    pub fn validate_block(&self, block: &Block, previous_hash: &str) -> (r: bool)
        ensures
            r == self.accepts(block@, previous_hash@),
    {
        match self {
            Consensus::ProofOfWork(p) => p.validate_block(block, previous_hash),
            Consensus::ProofOfStake(p) => p.validate_block(block, previous_hash),
        }
    }
}

} // verus!
