//! The ledger: the chain of committed blocks, the pool of pending
//! transactions, and balances replayed from the chain.
use vstd::prelude::*;
use std::collections::VecDeque;
use secp256k1::PublicKey;
use crate::block::{transaction_views, Block, BlockView};
use crate::consensus::Consensus;
use vstd::utf8::encode_utf8;
use crate::primitives::{has_zero_prefix, hex_encode, hex_text, is_hex_encoding};
use crate::signature::serialize_public_key;
use crate::transaction::{is_faucet, lemma_hex_sender_is_not_faucet, Transaction, TransactionView, FAUCET_MOCKCHAIN_ADDRESS};

verus! {

/// The previous hash recorded in the genesis block.
pub const GENESIS_PREVIOUS_HASH: &'static str = "0";

/// Credited to the miner of each block.
pub const MINING_REWARD: u64 = 50;

/// Credited by one faucet request.
pub const FAUCET_AMOUNT: u64 = 1000;

/// Pool length above which the background producer mines.
pub const MINING_THRESHOLD: usize = 10;

/// One transfer applied to the balance of `address`: a credit saturating at
/// `u64::MAX`, then a debit floored at zero.
pub open spec fn apply_transfer(balance: u64, t: TransactionView, address: Seq<char>) -> u64 {
    let credited = if t.to == address {
        balance.saturating_add(t.amount)
    } else {
        balance
    };
    if t.from == address {
        credited.saturating_sub(t.amount)
    } else {
        credited
    }
}

pub open spec fn apply_transfers(
    balance: u64,
    txs: Seq<TransactionView>,
    address: Seq<char>,
) -> u64
    decreases txs.len(),
{
    if txs.len() == 0 {
        balance
    } else {
        apply_transfer(apply_transfers(balance, txs.drop_last(), address), txs.last(), address)
    }
}

/// One block applied to a balance: its transfers in order, then the reward
/// if `address` mined it.
pub open spec fn apply_block(balance: u64, b: BlockView, address: Seq<char>) -> u64 {
    let after = apply_transfers(balance, b.transactions, address);
    if b.miner == address {
        after.saturating_add(MINING_REWARD)
    } else {
        after
    }
}

/// The balance of `address` replayed from an empty account over `chain`.
pub open spec fn balance_of(chain: Seq<BlockView>, address: Seq<char>) -> u64
    decreases chain.len(),
{
    if chain.len() == 0 {
        0
    } else {
        apply_block(balance_of(chain.drop_last(), address), chain.last(), address)
    }
}

/// The hash that block `i` must link to.
pub open spec fn expected_previous(chain: Seq<BlockView>, i: int) -> Seq<char> {
    if i == 0 {
        GENESIS_PREVIOUS_HASH@
    } else {
        chain[i - 1].hash
    }
}

/// A non-empty chain, block `i` at index `i`, each block accepted by the policy
/// after the hash it links to.
pub open spec fn chain_valid(chain: Seq<BlockView>, policy: Consensus) -> bool {
    &&& chain.len() >= 1
    &&& forall|i: int| 0 <= i < chain.len() ==> #[trigger] chain[i].index == i
    &&& forall|i: int|
        0 <= i < chain.len() ==> policy.accepts(#[trigger] chain[i], expected_previous(chain, i))
}

/// Replaying a chain extended by one block equals applying that block to the
/// balance of the chain before it: the incremental and the full replay agree.
pub proof fn lemma_balance_incremental(chain: Seq<BlockView>, b: BlockView, address: Seq<char>)
    ensures
        balance_of(chain.push(b), address) == apply_block(balance_of(chain, address), b, address),
{
    assert(chain.push(b).drop_last() =~= chain);
}

/// Applying a block's transfers is a left fold of single transfers over them.
pub proof fn lemma_transfers_are_fold(balance: u64, txs: Seq<TransactionView>, address: Seq<char>)
    ensures
        apply_transfers(balance, txs, address) == txs.fold_left(
            balance,
            |b: u64, t: TransactionView| apply_transfer(b, t, address),
        ),
    decreases txs.len(),
{
    if txs.len() > 0 {
        lemma_transfers_are_fold(balance, txs.drop_last(), address);
    }
}

/// The balance is a left fold over the chain from zero: each block credits
/// and debits its transfers in order, then adds the reward to its miner.
pub proof fn lemma_balance_is_fold(chain: Seq<BlockView>, address: Seq<char>)
    ensures
        balance_of(chain, address) == chain.fold_left(
            0u64,
            |b: u64, blk: BlockView| apply_block(b, blk, address),
        ),
    decreases chain.len(),
{
    if chain.len() > 0 {
        lemma_balance_is_fold(chain.drop_last(), address);
    }
}

/// A transfer from a hex sender address whose replayed balance is below the
/// amount is refused, however validly it is signed: admission asks for a
/// verified signature and a covering balance, or the faucet, which a hex
/// address never is.
pub proof fn lemma_uncovered_transfer_refused(chain: Seq<BlockView>, t: TransactionView)
    requires
        is_hex_encoding(encode_utf8(t.from)),
        balance_of(chain, t.from) < t.amount,
    ensures
        !(t.verifies() && (is_faucet(t.from) || balance_of(chain, t.from) >= t.amount)),
{
    lemma_hex_sender_is_not_faucet(t.from);
}

/// Replaying a block credits each transfer to `to`, debits it from `from`
/// (floored at zero) in order, and adds the reward when `address` mined it.
pub proof fn lemma_balance_of_block(chain: Seq<BlockView>, b: BlockView, address: Seq<char>)
    requires
        b.transactions.len() == 1,
    ensures
        balance_of(chain.push(b), address) == ({
            let t = b.transactions[0];
            let start = balance_of(chain, address);
            let credited = if t.to == address { start.saturating_add(t.amount) } else { start };
            let debited = if t.from == address { credited.saturating_sub(t.amount) } else { credited };
            if b.miner == address { debited.saturating_add(MINING_REWARD) } else { debited }
        }),
{
    lemma_balance_incremental(chain, b, address);
    let start = balance_of(chain, address);
    assert(b.transactions.drop_last() =~= Seq::<TransactionView>::empty());
    assert(apply_transfers(start, b.transactions.drop_last(), address) == start);
    assert(apply_transfers(start, b.transactions, address) == apply_transfer(
        start,
        b.transactions[0],
        address,
    ));
}

/// A faucet transfer of `FAUCET_AMOUNT` to `address`, unsigned.
pub open spec fn is_faucet_credit(t: TransactionView, address: Seq<char>) -> bool {
    &&& is_faucet(t.from)
    &&& t.to == address
    &&& t.amount == FAUCET_AMOUNT
    &&& t.signature.len() == 0
}

pub struct Blockchain {
    chain: Vec<Block>,
    transaction_pool: VecDeque<Transaction>,
    consensus: Consensus,
}

/// What a faucet request did.
pub struct FaucetReceipt {
    pub success: bool,
    pub amount: u64,
    /// The block produced right after the credit, if any.
    pub block: Option<Block>,
}

impl Blockchain {
    pub closed spec fn blocks(&self) -> Seq<Block> {
        self.chain@
    }

    pub closed spec fn pending(&self) -> Seq<Transaction> {
        self.transaction_pool@
    }

    pub closed spec fn policy(&self) -> Consensus {
        self.consensus
    }

    pub open spec fn chain_view(&self) -> Seq<BlockView> {
        self.blocks().map_values(|b: Block| b@)
    }

    pub open spec fn pool_view(&self) -> Seq<TransactionView> {
        transaction_views(self.pending())
    }

    pub open spec fn wf(&self) -> bool {
        chain_valid(self.chain_view(), self.policy()) && self.policy().wf()
    }

    /// `after` is `before` with `r` produced for `miner`: the whole pool, in
    /// order, became the next block; or nothing changed.
    pub open spec fn produced(before: Self, after: Self, miner: Seq<char>, r: Option<Block>) -> bool {
        &&& after.policy() == before.policy()
        &&& before.pool_view().len() == 0 ==> r is None
        &&& r is None ==> after.blocks() == before.blocks() && after.pending() == before.pending()
        &&& r is None && before.pool_view().len() > 0 ==> {
            ||| before.chain_view().len() == u64::MAX as int + 1
            ||| before.policy().generation_exhausted(
                before.chain_view().len() as u64,
                before.pool_view(),
                before.chain_view().last().hash,
            )
        }
        &&& r matches Some(b) ==> {
            &&& after.chain_view() == before.chain_view().push(b@)
            &&& after.pool_view().len() == 0
            &&& b@.transactions == before.pool_view()
            &&& b@.index == before.chain_view().len()
            &&& b@.previous_hash == before.chain_view().last().hash
            &&& b@.miner == miner
        }
    }

    /// Every block after the first links to the hash of the block before it
    /// and carries its position as index; the first links to the genesis
    /// sentinel.
    pub proof fn lemma_chain_linked(&self)
        requires
            self.wf(),
        ensures
            self.chain_view().len() >= 1,
            self.chain_view()[0].index == 0,
            self.chain_view()[0].previous_hash == GENESIS_PREVIOUS_HASH@,
            forall|i: int|
                0 < i < self.chain_view().len() ==> (#[trigger] self.chain_view()[i]).previous_hash
                    == self.chain_view()[i - 1].hash && self.chain_view()[i].index == i,
    {
        let c = self.chain_view();
        assert(self.policy().accepts(c[0], expected_previous(c, 0)));
        assert forall|i: int| 0 < i < c.len() implies (#[trigger] c[i]).previous_hash == c[i
            - 1].hash && c[i].index == i by {
            assert(self.policy().accepts(c[i], expected_previous(c, i)));
        }
    }

    /// Under proof of work with difficulty `d`, every block of the chain has a
    /// hash beginning with `d` zero digits, and the policy's validation accepts
    /// it against the block before it.
    pub proof fn lemma_chain_meets_target(&self)
        requires
            self.wf(),
            self.policy() is ProofOfWork,
        ensures
            forall|i: int|
                0 <= i < self.chain_view().len() ==> {
                    &&& has_zero_prefix(
                        (#[trigger] self.chain_view()[i]).hash,
                        self.policy()->ProofOfWork_0.difficulty as nat,
                    )
                    &&& self.policy().accepts(
                        self.chain_view()[i],
                        expected_previous(self.chain_view(), i),
                    )
                },
    {
        let c = self.chain_view();
        assert forall|i: int| 0 <= i < c.len() implies has_zero_prefix(
            (#[trigger] c[i]).hash,
            self.policy()->ProofOfWork_0.difficulty as nat,
        ) by {
            assert(self.policy().accepts(c[i], expected_previous(c, i)));
        }
    }

    /// After a block is produced, every balance equals the balance before it
    /// with that block applied: replaying the longer chain and updating the
    /// old balance by one block agree.
    pub proof fn lemma_production_balance(
        before: Self,
        after: Self,
        miner: Seq<char>,
        b: Block,
        address: Seq<char>,
    )
        requires
            Self::produced(before, after, miner, Some(b)),
        ensures
            balance_of(after.chain_view(), address) == apply_block(
                balance_of(before.chain_view(), address),
                b@,
                address,
            ),
            b@.miner == miner,
            b@.transactions == before.pool_view(),
    {
        lemma_balance_incremental(before.chain_view(), b@, address);
    }

    /// The faucet request that queued `t` on `before` ended in `after`: the
    /// pool with `t` appended became the next block credited to `miner`; or
    /// `t` stays queued and the chain is unchanged, which happens only when
    /// the policy cannot produce the block.
    pub open spec fn faucet_outcome(
        before: Self,
        after: Self,
        t: TransactionView,
        miner: Seq<char>,
        block: Option<Block>,
    ) -> bool {
        let pool = before.pool_view().push(t);
        let len = before.chain_view().len();
        &&& after.policy() == before.policy()
        &&& block is None ==> {
            &&& after.blocks() == before.blocks()
            &&& after.pool_view() == pool
            &&& {
                ||| len == u64::MAX as int + 1
                ||| before.policy().generation_exhausted(
                    len as u64,
                    pool,
                    before.chain_view().last().hash,
                )
            }
        }
        &&& block matches Some(b) ==> {
            &&& after.chain_view() == before.chain_view().push(b@)
            &&& after.pool_view().len() == 0
            &&& b@.transactions == pool
            &&& b@.index == len
            &&& b@.previous_hash == before.chain_view().last().hash
            &&& b@.miner == miner
        }
    }

    /// A ledger whose chain holds the genesis block that `consensus` generates;
    /// `None` only when proof of work exhausts its nonces on it.
    pub fn new(consensus: Consensus) -> (r: Option<Self>)
        requires
            consensus.wf(),
        ensures
            r matches Some(l) ==> {
                &&& l.wf()
                &&& l.policy() == consensus
                &&& l.chain_view().len() == 1
                &&& l.chain_view()[0].transactions.len() == 0
                &&& consensus.produced_by_policy(l.chain_view()[0])
                &&& l.pool_view().len() == 0
            },
            r is None ==> consensus.generation_exhausted(0, Seq::empty(), GENESIS_PREVIOUS_HASH@),
    {
        assert(transaction_views(Seq::<Transaction>::empty()) =~= Seq::<TransactionView>::empty());
        match consensus.generate_block(0, Vec::new(), GENESIS_PREVIOUS_HASH.to_owned()) {
            Some(genesis) => {
                let mut chain: Vec<Block> = Vec::new();
                chain.push(genesis);
                let l = Blockchain { chain, transaction_pool: VecDeque::new(), consensus };
                assert(l.chain_view() =~= seq![genesis@]);
                assert(l.pool_view() =~= Seq::<TransactionView>::empty());
                Some(l)
            },
            None => None,
        }
    }

    pub fn chain(&self) -> (r: &Vec<Block>)
        ensures
            r@ == self.blocks(),
    {
        &self.chain
    }

    pub fn transaction_pool(&self) -> (r: &VecDeque<Transaction>)
        ensures
            r@ == self.pending(),
    {
        &self.transaction_pool
    }

    pub fn consensus(&self) -> (r: &Consensus)
        ensures
            *r == self.policy(),
    {
        &self.consensus
    }

    /// The balance of `address`, replayed over the whole chain.
    pub fn get_balance(&self, address: &str) -> (r: u64)
        ensures
            r == balance_of(self.chain_view(), address@),
    {
        let addr = address.to_owned();
        let ghost chain = self.chain_view();
        let mut balance: u64 = 0;
        let mut i: usize = 0;
        while i < self.chain.len()
            invariant
                chain == self.chain_view(),
                addr@ == address@,
                i <= self.chain@.len(),
                balance == balance_of(chain.subrange(0, i as int), address@),
            decreases self.chain@.len() - i,
        {
            let block = &self.chain[i];
            let ghost txs = block@.transactions;
            let ghost start = balance;
            let mut j: usize = 0;
            while j < block.transactions.len()
                invariant
                    txs == block@.transactions,
                    addr@ == address@,
                    j <= block.transactions@.len(),
                    balance == apply_transfers(start, txs.subrange(0, j as int), address@),
                decreases block.transactions@.len() - j,
            {
                let tx = &block.transactions[j];
                if tx.to == addr {
                    balance = balance.saturating_add(tx.amount);
                }
                if tx.from == addr {
                    balance = balance.saturating_sub(tx.amount);
                }
                assert(txs.subrange(0, j + 1).drop_last() =~= txs.subrange(0, j as int));
                j = j + 1;
            }
            assert(txs.subrange(0, txs.len() as int) =~= txs);
            if block.miner == addr {
                balance = balance.saturating_add(MINING_REWARD);
            }
            assert(chain.subrange(0, i + 1).drop_last() =~= chain.subrange(0, i as int));
            i = i + 1;
        }
        assert(chain.subrange(0, chain.len() as int) =~= chain);
        balance
    }

    /// Whether `address` holds at least `amount`.
    pub fn check_balance(&self, address: &str, amount: u64) -> (r: bool)
        ensures
            r == (balance_of(self.chain_view(), address@) >= amount),
    {
        self.get_balance(address) >= amount
    }

    /// Admission given the outcome of signature verification: faucet
    /// transfers always enter the pool; others when the signature is valid and
    /// the sender's balance covers the amount.
    pub fn admit_transaction(&mut self, transaction: Transaction, signature_valid: bool) -> (r: bool)
        requires
            old(self).wf(),
        ensures
            final(self).wf(),
            final(self).blocks() == old(self).blocks(),
            final(self).policy() == old(self).policy(),
            r == (is_faucet(transaction.from@) || (signature_valid && balance_of(
                old(self).chain_view(),
                transaction.from@,
            ) >= transaction.amount)),
            r ==> final(self).pool_view() == old(self).pool_view().push(transaction@),
            !r ==> final(self).pending() == old(self).pending(),
    {
        let faucet = FAUCET_MOCKCHAIN_ADDRESS.to_owned();
        let admitted = if transaction.from == faucet {
            true
        } else if !signature_valid {
            false
        } else {
            self.check_balance(transaction.from.as_str(), transaction.amount)
        };
        if admitted {
            let ghost t = transaction@;
            self.transaction_pool.push_back(transaction);
            assert(self.pool_view() =~= old(self).pool_view().push(t));
        }
        admitted
    }

    /// Admits a transaction into the pool: faucet transfers unconditionally,
    /// others when the signature verifies and the sender can cover the amount.
    pub fn add_transaction(&mut self, transaction: Transaction) -> (r: bool)
        requires
            old(self).wf(),
        ensures
            final(self).wf(),
            final(self).blocks() == old(self).blocks(),
            final(self).policy() == old(self).policy(),
            r == (transaction@.verifies() && (is_faucet(transaction.from@) || balance_of(
                old(self).chain_view(),
                transaction.from@,
            ) >= transaction.amount)),
            is_faucet(transaction.from@) ==> r,
            !is_faucet(transaction.from@) && !transaction@.credentials_well_formed() ==> !r,
            !is_faucet(transaction.from@) && balance_of(old(self).chain_view(), transaction.from@)
                < transaction.amount ==> !r,
            r ==> final(self).pool_view() == old(self).pool_view().push(transaction@),
            !r ==> final(self).pending() == old(self).pending(),
    {
        let valid = transaction.verify();
        self.admit_transaction(transaction, valid)
    }

    fn pending_copy(&self) -> (r: Vec<Transaction>)
        ensures
            transaction_views(r@) == self.pool_view(),
    {
        let mut r: Vec<Transaction> = Vec::new();
        let mut i: usize = 0;
        while i < self.transaction_pool.len()
            invariant
                i <= self.transaction_pool@.len(),
                r@.len() == i,
                forall|j: int| 0 <= j < i ==> #[trigger] r@[j]@ == self.transaction_pool@[j]@,
            decreases self.transaction_pool@.len() - i,
        {
            r.push(self.transaction_pool[i].clone());
            i = i + 1;
        }
        assert(transaction_views(r@) =~= self.pool_view());
        r
    }

    /// Commits the whole pool, in order, as the next block credited to
    /// `miner`; `None`, with nothing changed, when the pool is empty or the
    /// policy cannot produce the block.
    #[verifier::rlimit(40)]
    pub fn produce_block(&mut self, miner: String) -> (r: Option<Block>)
        requires
            old(self).wf(),
        ensures
            final(self).wf(),
            Self::produced(*old(self), *final(self), miner@, r),
    {
        if self.transaction_pool.len() == 0 {
            return None;
        }
        let last = self.chain.len() - 1;
        let tail_index = self.chain[last].index;
        if tail_index == u64::MAX {
            return None;
        }
        let previous_hash = self.chain[last].hash.clone();
        let transactions = self.pending_copy();
        let mut block = Block::new(tail_index + 1, transactions, previous_hash);
        if !self.consensus.seal_block(&mut block) {
            return None;
        }
        block.miner = miner;
        self.transaction_pool.clear();
        let ghost before = self.chain_view();
        self.chain.push(block.clone());
        assert(self.chain_view() =~= before.push(block@));
        assert(self.pool_view() =~= Seq::<TransactionView>::empty());
        assert(chain_valid(self.chain_view(), self.policy())) by {
            let c = self.chain_view();
            assert forall|i: int| 0 <= i < c.len() implies self.policy().accepts(
                #[trigger] c[i],
                expected_previous(c, i),
            ) by {
                if i < before.len() {
                    assert(c[i] == before[i]);
                    assert(expected_previous(c, i) == expected_previous(before, i));
                }
            }
        }
        Some(block)
    }

    /// Produces the next block credited to the hex form of `miner_key`.
    pub fn mine_pending_transactions(&mut self, miner_key: &PublicKey) -> (r: Option<Block>)
        requires
            old(self).wf(),
        ensures
            final(self).wf(),
            exists|k: Seq<u8>|
                k.len() == 33 && Self::produced(*old(self), *final(self), #[trigger] hex_text(k), r),
    {
        let key = serialize_public_key(miner_key);
        let miner = hex_encode(key.as_slice());
        let r = self.produce_block(miner);
        assert(Self::produced(*old(self), *final(self), hex_text(key@), r));
        r
    }

    /// One step of the background producer: mines when the pool holds more
    /// than `MINING_THRESHOLD` transactions, and otherwise leaves the ledger
    /// as it is.
    pub fn mine_if_pool_full(&mut self, miner_key: &PublicKey) -> (r: Option<Block>)
        requires
            old(self).wf(),
        ensures
            final(self).wf(),
            old(self).pool_view().len() <= MINING_THRESHOLD ==> r is None && *final(self) == *old(
                self,
            ),
            old(self).pool_view().len() > MINING_THRESHOLD ==> exists|k: Seq<u8>|
                k.len() == 33 && Self::produced(*old(self), *final(self), #[trigger] hex_text(k), r),
    {
        if self.transaction_pool.len() > MINING_THRESHOLD {
            self.mine_pending_transactions(miner_key)
        } else {
            None
        }
    }

    /// Credits `FAUCET_AMOUNT` to `address` from the faucet and tries to
    /// commit it at once in a block credited to `miner_key`.
    pub fn request_faucet(&mut self, address: &str, miner_key: &PublicKey) -> (r: FaucetReceipt)
        requires
            old(self).wf(),
        ensures
            final(self).wf(),
            r.success,
            r.amount == FAUCET_AMOUNT,
            exists|t: TransactionView, k: Seq<u8>|
                is_faucet_credit(t, address@) && k.len() == 33 && #[trigger] Self::faucet_outcome(
                    *old(self),
                    *final(self),
                    t,
                    hex_text(k),
                    r.block,
                ),
    {
        let transaction = Transaction::new(FAUCET_MOCKCHAIN_ADDRESS, address, FAUCET_AMOUNT);
        let ghost t = transaction@;
        let accepted = self.add_transaction(transaction);
        let ghost mid = *self;
        let block = self.mine_pending_transactions(miner_key);
        proof {
            let k = choose|k: Seq<u8>|
                k.len() == 33 && #[trigger] Self::produced(mid, *self, hex_text(k), block);
            assert(Self::faucet_outcome(*old(self), *self, t, hex_text(k), block));
        }
        let success = accepted || block.is_some();
        FaucetReceipt { success, amount: if success { FAUCET_AMOUNT } else { 0 }, block }
    }
}

} // verus!
