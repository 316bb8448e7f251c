//! An append-only ledger of signed value transfers, grouped into hash-linked
//! blocks under a pluggable production policy, with balances replayed from the
//! chain.
pub mod block;
pub mod consensus;
pub mod ledger;
pub mod primitives;
pub mod signature;
pub mod transaction;

pub use block::Block;
pub use consensus::pos::ProofOfStake;
pub use consensus::pow::ProofOfWork;
pub use consensus::{Consensus, ConsensusType};
pub use ledger::{Blockchain, FaucetReceipt};
pub use transaction::{Transaction, FAUCET_MOCKCHAIN_ADDRESS};
