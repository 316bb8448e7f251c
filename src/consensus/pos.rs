//! Proof of stake: the producer of a block is drawn with probability
//! proportional to its registered stake.
use vstd::prelude::*;
use crate::block::{transaction_views, Block, BlockView};
use crate::primitives::random_below;
use crate::transaction::Transaction;

verus! {

/// Total stake of a sequence of `(address, stake)` pairs.
pub open spec fn stake_total(s: Seq<(Seq<char>, u64)>) -> nat
    decreases s.len(),
{
    if s.len() == 0 {
        0
    } else {
        stake_total(s.drop_last()) + s.last().1 as nat
    }
}

/// Stake held by the first `i` validators.
pub open spec fn stake_before(s: Seq<(Seq<char>, u64)>, i: int) -> nat {
    stake_total(s.subrange(0, i))
}

pub open spec fn addresses_unique(s: Seq<(Seq<char>, u64)>) -> bool {
    forall|i: int, j: int| 0 <= i < j < s.len() ==> s[i].0 != s[j].0
}

/// Validator `i` owns the draw: it falls within its share of the stake line.
pub open spec fn owns_draw(s: Seq<(Seq<char>, u64)>, i: int, draw: int) -> bool {
    &&& 0 <= i < s.len()
    &&& stake_before(s, i) <= draw < stake_before(s, i + 1)
}

proof fn lemma_stake_before_step(s: Seq<(Seq<char>, u64)>, i: int)
    requires
        0 <= i < s.len(),
    ensures
        stake_before(s, i + 1) == stake_before(s, i) + s[i].1,
{
    assert(s.subrange(0, i + 1).drop_last() =~= s.subrange(0, i));
}

proof fn lemma_stake_before_bounded(s: Seq<(Seq<char>, u64)>, i: int)
    requires
        0 <= i <= s.len(),
    ensures
        stake_before(s, i) <= stake_total(s),
    decreases s.len() - i,
{
    if i < s.len() {
        lemma_stake_before_step(s, i);
        lemma_stake_before_bounded(s, i + 1);
    } else {
        assert(s.subrange(0, i) =~= s);
    }
}

proof fn lemma_stake_total_bounded(s: Seq<(Seq<char>, u64)>)
    ensures
        stake_total(s) <= s.len() * (u64::MAX as int),
    decreases s.len(),
{
    if s.len() > 0 {
        lemma_stake_total_bounded(s.drop_last());
        let n = s.len() as int;
        assert((n - 1) * (u64::MAX as int) + (u64::MAX as int) == n * (u64::MAX as int))
            by (nonlinear_arith);
    }
}

/// A total over at most `u64::MAX` entries of at most `u64::MAX` each fits in
/// `u128`.
proof fn lemma_stake_total_fits(s: Seq<(Seq<char>, u64)>)
    requires
        s.len() <= u64::MAX,
    ensures
        stake_total(s) <= u128::MAX,
{
    lemma_stake_total_bounded(s);
    let n = s.len() as int;
    assert(n * (u64::MAX as int) <= (u64::MAX as int) * (u64::MAX as int)) by (nonlinear_arith)
        requires
            0 <= n <= u64::MAX,
    ;
    assert((u64::MAX as int) * (u64::MAX as int) <= u128::MAX);
}

proof fn lemma_stake_total_update(s: Seq<(Seq<char>, u64)>, i: int, v: (Seq<char>, u64))
    requires
        0 <= i < s.len(),
    ensures
        stake_total(s.update(i, v)) + s[i].1 == stake_total(s) + v.1,
    decreases s.len(),
{
    if i == s.len() - 1 {
        assert(s.update(i, v).drop_last() =~= s.drop_last());
    } else {
        assert(s.update(i, v).drop_last() =~= s.drop_last().update(i, v));
        lemma_stake_total_update(s.drop_last(), i, v);
    }
}

/// `after` is `before` with `stake` added to the entry of `address`, or with
/// `(address, stake)` appended where the address had no entry.
pub open spec fn registered(
    before: Seq<(Seq<char>, u64)>,
    address: Seq<char>,
    stake: u64,
    after: Seq<(Seq<char>, u64)>,
) -> bool {
    ||| exists|i: int|
        0 <= i < before.len() && #[trigger] before[i].0 == address && after == before.update(
            i,
            (address, (before[i].1 + stake) as u64),
        )
    ||| (forall|i: int| 0 <= i < before.len() ==> before[i].0 != address) && after == before.push(
        (address, stake),
    )
}

pub struct ProofOfStake {
    validators: Vec<(String, u64)>,
}

impl View for ProofOfStake {
    type V = Seq<(Seq<char>, u64)>;

    closed spec fn view(&self) -> Seq<(Seq<char>, u64)> {
        self.validators@.map_values(|p: (String, u64)| (p.0@, p.1))
    }
}

impl ProofOfStake {
    /// Each address registered once.
    pub open spec fn wf(&self) -> bool {
        addresses_unique(self@)
    }

    /// Linked to `previous_hash` and carrying the hash of its own fields.
    pub open spec fn accepts(self, b: BlockView, previous_hash: Seq<char>) -> bool {
        b.previous_hash == previous_hash && b.hash_consistent()
    }

    pub fn new() -> (r: Self)
        ensures
            r@.len() == 0,
            r.wf(),
    {
        let r = ProofOfStake { validators: Vec::new() };
        assert(r@ =~= Seq::<(Seq<char>, u64)>::empty());
        r
    }

    pub fn name(&self) -> (r: &'static str)
        ensures
            r@ == "proof of stake"@,
    {
        "proof of stake"
    }

    /// Adds `stake` to the address's entry, or registers the address last.
    pub fn register_stake(&mut self, validator_address: String, stake: u64)
        requires
            old(self).wf(),
            forall|i: int|
                0 <= i < old(self)@.len() && (#[trigger] old(self)@[i]).0 == validator_address@
                    ==> old(self)@[i].1 + stake <= u64::MAX,
        ensures
            final(self).wf(),
            stake_total(final(self)@) == stake_total(old(self)@) + stake,
            registered(old(self)@, validator_address@, stake, final(self)@),
    {
        let ghost s0 = self@;
        let mut i: usize = 0;
        while i < self.validators.len()
            invariant
                s0 == self@,
                s0 == old(self)@,
                addresses_unique(s0),
                forall|j: int|
                    0 <= j < s0.len() && (#[trigger] s0[j]).0 == validator_address@ ==> s0[j].1
                        + stake <= u64::MAX,
                i <= self.validators@.len(),
                self.validators@.len() == s0.len(),
                forall|j: int| 0 <= j < i ==> s0[j].0 != validator_address@,
            decreases self.validators@.len() - i,
        {
            assert(s0[i as int] == (self.validators@[i as int].0@, self.validators@[i as int].1));
            if self.validators[i].0 == validator_address {
                let cur = self.validators[i].1;
                assert(cur == s0[i as int].1);
                assert(s0[i as int].0 == validator_address@);
                assert(cur + stake <= u64::MAX);
                let entry = (validator_address, cur + stake);
                self.validators.set(i, entry);
                proof {
                    assert(self@ =~= s0.update(i as int, (entry.0@, entry.1)));
                    lemma_stake_total_update(s0, i as int, (entry.0@, entry.1));
                    assert(self@ =~= s0.update(i as int, (s0[i as int].0, entry.1)));
                    assert(addresses_unique(self@));
                }
                return;
            }
            i = i + 1;
        }
        self.validators.push((validator_address, stake));
        proof {
            assert(self@ =~= s0.push((validator_address@, stake)));
            assert(self@.drop_last() =~= s0);
        }
    }

    /// The total stake registered.
    pub fn total_stake(&self) -> (r: u128)
        requires
            self.wf(),
        ensures
            r == stake_total(self@),
    {
        let ghost s = self@;
        let n = self.validators.len();
        assert(n as int <= u64::MAX);
        proof {
            lemma_stake_total_fits(s);
        }
        let mut total: u128 = 0;
        let mut i: usize = 0;
        while i < self.validators.len()
            invariant
                s == self@,
                self.wf(),
                stake_total(s) <= u128::MAX,
                i <= self.validators@.len(),
                self.validators@.len() == s.len(),
                total == stake_before(s, i as int),
            decreases self.validators@.len() - i,
        {
            proof {
                lemma_stake_before_step(s, i as int);
                lemma_stake_before_bounded(s, i as int + 1);
            }
            assert(s[i as int].1 == self.validators@[i as int].1);
            total = total + self.validators[i].1 as u128;
            i = i + 1;
        }
        assert(s.subrange(0, s.len() as int) =~= s);
        total
    }

    /// The validator whose share of the stake line holds `draw`; `None` when
    /// the draw lies beyond the total stake.
    pub fn validator_for_draw(&self, draw: u128) -> (r: Option<String>)
        requires
            self.wf(),
        ensures
            r is None <==> draw >= stake_total(self@),
            r matches Some(a) ==> exists|i: int|
                owns_draw(self@, i, draw as int) && self@[i].1 > 0 && #[trigger] self@[i].0 == a@,
    {
        let ghost s = self@;
        let n = self.validators.len();
        assert(n as int <= u64::MAX);
        proof {
            lemma_stake_total_fits(s);
        }
        let mut before: u128 = 0;
        let mut i: usize = 0;
        while i < self.validators.len()
            invariant
                s == self@,
                self.wf(),
                i <= self.validators@.len(),
                self.validators@.len() == s.len(),
                stake_total(s) <= u128::MAX,
                before == stake_before(s, i as int),
                before <= draw,
            decreases self.validators@.len() - i,
        {
            proof {
                lemma_stake_before_step(s, i as int);
                lemma_stake_before_bounded(s, i as int + 1);
            }
            assert(s[i as int] == (self.validators@[i as int].0@, self.validators@[i as int].1));
            let stake = self.validators[i].1 as u128;
            if draw - before < stake {
                let a = self.validators[i].0.clone();
                assert(owns_draw(s, i as int, draw as int));
                assert(s[i as int].0 == a@);
                proof {
                    lemma_stake_before_bounded(s, i as int + 1);
                }
                return Some(a);
            }
            before = before + stake;
            i = i + 1;
        }
        assert(s.subrange(0, s.len() as int) =~= s);
        None
    }

    /// A validator drawn with probability proportional to its stake; `None`
    /// when no stake is registered.
    pub fn select_validator(&self) -> (r: Option<String>)
        requires
            self.wf(),
        ensures
            r is None <==> stake_total(self@) == 0,
            r matches Some(a) ==> exists|i: int|
                0 <= i < self@.len() && self@[i].1 > 0 && #[trigger] self@[i].0 == a@,
    {
        let total = self.total_stake();
        if total == 0 {
            return None;
        }
        let draw = random_below(total);
        self.validator_for_draw(draw)
    }

    /// No miner when no stake is registered; otherwise a validator holding
    /// stake.
    pub open spec fn miner_drawn(&self, miner: Seq<char>) -> bool {
        &&& stake_total(self@) == 0 ==> miner.len() == 0
        &&& stake_total(self@) > 0 ==> exists|i: int|
            0 <= i < self@.len() && self@[i].1 > 0 && #[trigger] self@[i].0 == miner
    }

    /// Seals a candidate block by naming a drawn validator as its producer.
    pub fn seal_block(&self, block: &mut Block) -> (r: bool)
        requires
            self.wf(),
            old(block)@.hash_consistent(),
        ensures
            r,
            final(block)@.hash_consistent(),
            final(block)@.index == old(block)@.index,
            final(block)@.timestamp == old(block)@.timestamp,
            final(block)@.transactions == old(block)@.transactions,
            final(block)@.previous_hash == old(block)@.previous_hash,
            final(block)@.nonce == old(block)@.nonce,
            self.miner_drawn(final(block)@.miner),
    {
        let miner = match self.select_validator() {
            Some(a) => a,
            None => String::new(),
        };
        block.miner = miner;
        block.hash = block.calculate_hash();
        true
    }

    /// A block over `transactions`, its producer drawn by stake.
    pub fn generate_block(
        &self,
        index: u64,
        transactions: Vec<Transaction>,
        previous_hash: String,
    ) -> (r: Block)
        requires
            self.wf(),
        ensures
            r.index == index,
            r@.transactions == transaction_views(transactions@),
            r.nonce == 0,
            self.miner_drawn(r@.miner),
            self.accepts(r@, previous_hash@),
    {
        let mut block = Block::new(index, transactions, previous_hash);
        self.seal_block(&mut block);
        block
    }

    /// Whether `block` is linked to `previous_hash` and carries the hash of its
    /// own fields.
    pub fn validate_block(&self, block: &Block, previous_hash: &str) -> (r: bool)
        ensures
            r == self.accepts(block@, previous_hash@),
    {
        if block.previous_hash != previous_hash.to_owned() {
            return false;
        }
        block.hash == block.calculate_hash()
    }
}

} // verus!
