use vstd::prelude::*;
use std::collections::HashMap;
use crate::attestation::{ed25519_verifies, lemma_statement_binds_outcome, vote_statement};
use crate::committee::{committee_proves, FinalizedResolution};
use crate::oracle::{proof_verifies, verify_proof, OracleType, ResolutionProof};
use crate::payout::{
    compute_payouts, lemma_side_total_concat, pays_shares, payout_sum, side_total, Payout, Stake,
};
use crate::pricing::{
    batch_amount, batch_outcome, lemma_batch_totals, lemma_sum_prefix, no_odds_for, no_odds_of, order_cost, sum_amounts,
    lemma_batch_side_sums, lemma_odds_sum_to_one, side_amount, yes_odds_for, yes_odds_of, Odds, Order, Side,
};

verus! {

broadcast use vstd::std_specs::hash::group_hash_axioms;

/// Whether a market still takes orders, or has settled on an outcome.
#[derive(Clone, Copy, Debug, PartialEq, Eq, Structural)]
pub enum MarketStatus {
    Open,
    Resolved(bool),
}

/// Why the engine turned an operation down. A rejected operation leaves the
/// market as it was.
#[derive(Clone, Copy, Debug, PartialEq, Eq, Structural)]
pub enum MarketError {
    /// The batch's nonce is not above the last one accepted from its sender.
    ReplayRejected,
    /// The market is resolved and takes nothing more.
    MarketClosed,
    /// The resolution's evidence does not verify under the market's oracle.
    InvalidProof,
    /// The pools would no longer fit the amount type.
    PoolOverflow,
}

/// What an accepted batch amounts to: the total to collect from the sender
/// and the identifiers of the orders taken, in order.
#[derive(Clone, Debug)]
pub struct BatchReceipt {
    pub total_cost: u64,
    pub order_ids: Vec<u64>,
}

/// The state of one market.
#[derive(Clone, Debug)]
pub struct MarketState {
    pub market_id: String,
    pub description: String,
    /// The chain the market runs on; payments are pulled to it.
    pub chain_id: u64,
    pub status: MarketStatus,
    pub pool_yes: u64,
    pub pool_no: u64,
    pub oracle_type: OracleType,
    pub resolution_time: u64,
    /// Last nonce accepted from each sender.
    pub last_nonce: HashMap<u64, u64>,
    /// Every order taken, as a stake, in the order of application.
    pub stakes: Vec<Stake>,
    /// After resolution: what each stake is paid, position by position.
    pub payouts: Vec<Payout>,
    /// After resolution: the rounding remainder kept by the protocol.
    pub reserve: u64,
}

/// The messages a market exchanges: order batches and resolutions come in,
/// payment pulls and confirmations go out.
#[derive(Clone, Debug)]
pub enum MarketMessage {
    /// Orders from a participant's chain, to be applied in sequence.
    BatchedOrders { user_chain_id: u64, orders: Vec<Order>, nonce: u64 },
    /// An outcome from an oracle, with its evidence.
    Resolution { outcome: bool, evidence: ResolutionProof },
    /// A payment of `amount` from one chain to another.
    Transfer { from: u64, to: u64, amount: u64 },
    /// Acknowledges a batch: the orders taken and what they cost.
    BatchConfirmed { user_chain_id: u64, order_ids: Vec<u64>, total_cost: u64 },
}

/// The stakes that `orders` from `sender` add to a market.
pub open spec fn stakes_of(orders: Seq<Order>, sender: u64) -> Seq<Stake> {
    orders.map_values(|o: Order| Stake { owner: sender, side: o.side, amount: o.amount })
}

/// The identifiers of `orders`, in order.
pub open spec fn ids_of(orders: Seq<Order>) -> Seq<u64> {
    orders.map_values(|o: Order| o.id)
}

/// Whether `nonce` is fresh for `sender`: above the last one accepted from
/// it, or any nonce when none was.
pub open spec fn nonce_fresh(ledger: Map<u64, u64>, sender: u64, nonce: u64) -> bool {
    !ledger.contains_key(sender) || nonce > ledger[sender]
}

impl MarketState {
    /// Pools fit the amount type and equal the stakes behind them; an open
    /// market has paid nothing, a resolved one has a payout table that pays
    /// each stake its share and, with the reserve, hands out both pools
    /// exactly.
    pub open spec fn wf(&self) -> bool {
        &&& self.pool_yes + self.pool_no <= u64::MAX
        &&& side_total(self.stakes@, Side::BuyYes) == self.pool_yes
        &&& side_total(self.stakes@, Side::BuyNo) == self.pool_no
        &&& match self.status {
            MarketStatus::Open => self.payouts@.len() == 0 && self.reserve == 0,
            MarketStatus::Resolved(outcome) => {
                &&& pays_shares(self.payouts@, self.stakes@, outcome, self.pool_yes as nat, self.pool_no as nat)
                &&& payout_sum(self.payouts@) + self.reserve == self.pool_yes + self.pool_no
            },
        }
    }

    /// The reason a batch is refused, if it is.
    pub open spec fn batch_error(&self, sender: u64, orders: Seq<Order>, nonce: u64) -> Option<MarketError> {
        if self.status != MarketStatus::Open {
            Some(MarketError::MarketClosed)
        } else if !nonce_fresh(self.last_nonce@, sender, nonce) {
            Some(MarketError::ReplayRejected)
        } else if self.pool_yes + self.pool_no + sum_amounts(orders) > u64::MAX {
            Some(MarketError::PoolOverflow)
        } else {
            None
        }
    }

    /// `next` is this market after taking `orders` from `sender` under
    /// `nonce`: orders priced and pooled one after another, their stakes
    /// recorded, the sender's nonce advanced, all else unchanged.
    pub open spec fn batch_applied(&self, next: MarketState, sender: u64, orders: Seq<Order>, nonce: u64) -> bool {
        let out = batch_outcome(self.pool_yes as nat, self.pool_no as nat, orders);
        &&& next.pool_yes == out.0
        &&& next.pool_no == out.1
        &&& next.stakes@ == self.stakes@ + stakes_of(orders, sender)
        &&& next.last_nonce@ == self.last_nonce@.insert(sender, nonce)
        &&& next.status == self.status
        &&& next.market_id == self.market_id
        &&& next.description == self.description
        &&& next.chain_id == self.chain_id
        &&& next.oracle_type == self.oracle_type
        &&& next.resolution_time == self.resolution_time
        &&& next.payouts == self.payouts
        &&& next.reserve == self.reserve
    }

    /// The cost of `orders` taken from this market's pools.
    pub open spec fn batch_cost(&self, orders: Seq<Order>) -> nat {
        batch_outcome(self.pool_yes as nat, self.pool_no as nat, orders).2
    }

    /// The reason a resolution is refused, if it is.
    pub open spec fn resolution_error(&self, outcome: bool, evidence: ResolutionProof) -> Option<MarketError> {
        if self.status != MarketStatus::Open {
            Some(MarketError::MarketClosed)
        } else if !proof_verifies(self.oracle_type, self.market_id@, outcome, evidence) {
            Some(MarketError::InvalidProof)
        } else {
            None
        }
    }

    /// `next` is this market resolved to `outcome`, with its payout table;
    /// pools, stakes and configuration unchanged.
    pub open spec fn resolution_applied(&self, next: MarketState, outcome: bool) -> bool {
        &&& next.status == MarketStatus::Resolved(outcome)
        &&& next.pool_yes == self.pool_yes
        &&& next.pool_no == self.pool_no
        &&& next.stakes == self.stakes
        &&& next.last_nonce == self.last_nonce
        &&& next.market_id == self.market_id
        &&& next.description == self.description
        &&& next.chain_id == self.chain_id
        &&& next.oracle_type == self.oracle_type
        &&& next.resolution_time == self.resolution_time
        &&& pays_shares(next.payouts@, self.stakes@, outcome, self.pool_yes as nat, self.pool_no as nat)
        &&& payout_sum(next.payouts@) + next.reserve == self.pool_yes + self.pool_no
    }

    /// A new open market with empty pools, even odds and no orders.
    pub fn new(
        market_id: String,
        description: String,
        chain_id: u64,
        oracle_type: OracleType,
        resolution_time: u64,
    ) -> (r: MarketState)
        ensures
            r.wf(),
            r.market_id == market_id,
            r.description == description,
            r.chain_id == chain_id,
            r.oracle_type == oracle_type,
            r.resolution_time == resolution_time,
            r.status == MarketStatus::Open,
            r.pool_yes == 0,
            r.pool_no == 0,
            r.last_nonce@ == Map::<u64, u64>::empty(),
            r.stakes@.len() == 0,
    {
        MarketState {
            market_id,
            description,
            chain_id,
            status: MarketStatus::Open,
            pool_yes: 0,
            pool_no: 0,
            oracle_type,
            resolution_time,
            last_nonce: HashMap::new(),
            stakes: Vec::new(),
            payouts: Vec::new(),
            reserve: 0,
        }
    }

    /// Takes a batch of orders from `sender` under `nonce`. Each order, in
    /// sequence, costs its amount times its side's odds as left by the orders
    /// before it, and then joins its side's pool. The batch is refused whole,
    /// with nothing changed, on a resolved market, on a nonce that is not
    /// fresh for the sender, or where the pools would overflow.
    pub fn apply_order_batch(&mut self, sender: u64, orders: &Vec<Order>, nonce: u64) -> (r: Result<BatchReceipt, MarketError>)
        requires
            old(self).wf(),
        ensures
            final(self).wf(),
            match r {
                Ok(receipt) => {
                    &&& old(self).batch_error(sender, orders@, nonce).is_none()
                    &&& old(self).batch_applied(*final(self), sender, orders@, nonce)
                    &&& receipt.total_cost == old(self).batch_cost(orders@)
                    &&& receipt.order_ids@ == ids_of(orders@)
                },
                Err(e) => {
                    &&& old(self).batch_error(sender, orders@, nonce) == Some(e)
                    &&& *final(self) == *old(self)
                },
            },
    {
        match self.status {
            MarketStatus::Resolved(_) => {
                return Err(MarketError::MarketClosed);
            },
            MarketStatus::Open => {},
        }
        match self.last_nonce.get(&sender) {
            Some(last) => {
                if nonce <= *last {
                    return Err(MarketError::ReplayRejected);
                }
            },
            None => {},
        }
        let amount = match batch_amount(orders) {
            Some(a) => a,
            None => {
                return Err(MarketError::PoolOverflow);
            },
        };
        if self.pool_yes as u128 + self.pool_no as u128 + amount as u128 > u64::MAX as u128 {
            return Err(MarketError::PoolOverflow);
        }
        let ghost y0 = self.pool_yes as nat;
        let ghost n0 = self.pool_no as nat;
        let mut pool_yes: u64 = self.pool_yes;
        let mut pool_no: u64 = self.pool_no;
        let mut total_cost: u64 = 0;
        let mut order_ids: Vec<u64> = Vec::new();
        let mut added: Vec<Stake> = Vec::new();
        let mut i: usize = 0;
        while i < orders.len()
            invariant
                i <= orders@.len(),
                y0 + n0 + sum_amounts(orders@) <= u64::MAX,
                pool_yes == batch_outcome(y0, n0, orders@.take(i as int)).0,
                pool_no == batch_outcome(y0, n0, orders@.take(i as int)).1,
                total_cost == batch_outcome(y0, n0, orders@.take(i as int)).2,
                added@ == stakes_of(orders@.take(i as int), sender),
                side_total(added@, Side::BuyYes) + y0 == pool_yes,
                side_total(added@, Side::BuyNo) + n0 == pool_no,
                order_ids@ == ids_of(orders@.take(i as int)),
            decreases orders.len() - i,
        {
            let o = orders[i];
            proof {
                let pre = orders@.take(i as int);
                let next = orders@.take(i as int + 1);
                assert(next.drop_last() == pre);
                lemma_sum_prefix(orders@, i as int + 1);
                lemma_batch_totals(y0, n0, next);
                lemma_batch_totals(y0, n0, pre);
            }
            match o.side {
                Side::BuyYes => {
                    let cost = order_cost(o.amount, pool_yes, pool_no);
                    total_cost = total_cost + cost;
                    pool_yes = pool_yes + o.amount;
                },
                Side::BuyNo => {
                    let cost = order_cost(o.amount, pool_no, pool_yes);
                    total_cost = total_cost + cost;
                    pool_no = pool_no + o.amount;
                },
            }
            let ghost before = added@;
            added.push(Stake { owner: sender, side: o.side, amount: o.amount });
            order_ids.push(o.id);
            proof {
                assert(added@.drop_last() == before);
                assert(added@ =~= stakes_of(orders@.take(i as int + 1), sender));
                assert(order_ids@ =~= ids_of(orders@.take(i as int + 1)));
            }
            i = i + 1;
        }
        proof {
            assert(orders@.take(orders@.len() as int) == orders@);
            lemma_side_total_concat(self.stakes@, added@, Side::BuyYes);
            lemma_side_total_concat(self.stakes@, added@, Side::BuyNo);
        }
        self.pool_yes = pool_yes;
        self.pool_no = pool_no;
        self.stakes.append(&mut added);
        self.last_nonce.insert(sender, nonce);
        proof {
            lemma_batch_totals(y0, n0, orders@);
            assert(self.stakes@ == old(self).stakes@ + stakes_of(orders@, sender));
            assert(side_total(self.stakes@, Side::BuyYes) == self.pool_yes);
            assert(side_total(self.stakes@, Side::BuyNo) == self.pool_no);
        }
        Ok(BatchReceipt { total_cost, order_ids })
    }

    /// Resolves the market to `outcome`. The resolution is taken only on an
    /// open market and only when `evidence` verifies under the market's
    /// oracle; the market then becomes resolved for good and records what
    /// each stake is paid. Otherwise nothing changes.
    pub fn apply_resolution(&mut self, outcome: bool, evidence: &ResolutionProof) -> (r: Result<(), MarketError>)
        requires
            old(self).wf(),
        ensures
            final(self).wf(),
            match r {
                Ok(_) => {
                    &&& old(self).resolution_error(outcome, *evidence).is_none()
                    &&& old(self).resolution_applied(*final(self), outcome)
                },
                Err(e) => {
                    &&& old(self).resolution_error(outcome, *evidence) == Some(e)
                    &&& *final(self) == *old(self)
                },
            },
    {
        match self.status {
            MarketStatus::Resolved(_) => {
                return Err(MarketError::MarketClosed);
            },
            MarketStatus::Open => {},
        }
        if !verify_proof(&self.oracle_type, self.market_id.as_str(), outcome, evidence) {
            return Err(MarketError::InvalidProof);
        }
        let (payouts, reserve) = compute_payouts(&self.stakes, outcome, self.pool_yes, self.pool_no);
        self.payouts = payouts;
        self.reserve = reserve;
        self.status = MarketStatus::Resolved(outcome);
        Ok(())
    }

    /// Handles one incoming message. An accepted batch answers with a
    /// payment pull of its total cost from the sender to this market's chain
    /// and a confirmation listing the orders taken; a resolution answers with
    /// nothing. Payment and confirmation messages are not for the market and
    /// are ignored.
    pub fn execute_message(&mut self, message: MarketMessage) -> (r: Result<Vec<MarketMessage>, MarketError>)
        requires
            old(self).wf(),
        ensures
            final(self).wf(),
            match message {
                MarketMessage::BatchedOrders { user_chain_id, orders, nonce } => match r {
                    Ok(out) => {
                        &&& old(self).batch_error(user_chain_id, orders@, nonce).is_none()
                        &&& old(self).batch_applied(*final(self), user_chain_id, orders@, nonce)
                        &&& out@.len() == 2
                        &&& out@[0] == (MarketMessage::Transfer {
                            from: user_chain_id,
                            to: old(self).chain_id,
                            amount: old(self).batch_cost(orders@) as u64,
                        })
                        &&& match out@[1] {
                            MarketMessage::BatchConfirmed { user_chain_id: u, order_ids, total_cost } => {
                                &&& u == user_chain_id
                                &&& order_ids@ == ids_of(orders@)
                                &&& total_cost == old(self).batch_cost(orders@)
                            },
                            _ => false,
                        }
                    },
                    Err(e) => {
                        &&& old(self).batch_error(user_chain_id, orders@, nonce) == Some(e)
                        &&& *final(self) == *old(self)
                    },
                },
                MarketMessage::Resolution { outcome, evidence } => match r {
                    Ok(out) => {
                        &&& old(self).resolution_error(outcome, evidence).is_none()
                        &&& old(self).resolution_applied(*final(self), outcome)
                        &&& out@.len() == 0
                    },
                    Err(e) => {
                        &&& old(self).resolution_error(outcome, evidence) == Some(e)
                        &&& *final(self) == *old(self)
                    },
                },
                _ => r.is_ok() && r.unwrap()@.len() == 0 && *final(self) == *old(self),
            },
    {
        match message {
            MarketMessage::BatchedOrders { user_chain_id, orders, nonce } => {
                let receipt = self.apply_order_batch(user_chain_id, &orders, nonce)?;
                let mut out: Vec<MarketMessage> = Vec::new();
                out.push(MarketMessage::Transfer { from: user_chain_id, to: self.chain_id, amount: receipt.total_cost });
                out.push(MarketMessage::BatchConfirmed {
                    user_chain_id,
                    order_ids: receipt.order_ids,
                    total_cost: receipt.total_cost,
                });
                Ok(out)
            },
            MarketMessage::Resolution { outcome, evidence } => {
                self.apply_resolution(outcome, &evidence)?;
                Ok(Vec::new())
            },
            _ => Ok(Vec::new()),
        }
    }

    /// The current odds of the yes side.
    pub fn yes_odds(&self) -> (r: Odds)
        requires
            self.wf(),
        ensures
            (r.num as nat, r.den as nat) == yes_odds_of(self.pool_yes as nat, self.pool_no as nat),
    {
        yes_odds_for(self.pool_yes, self.pool_no)
    }

    /// The current odds of the no side.
    pub fn no_odds(&self) -> (r: Odds)
        requires
            self.wf(),
        ensures
            (r.num as nat, r.den as nat) == no_odds_of(self.pool_yes as nat, self.pool_no as nat),
    {
        no_odds_for(self.pool_yes, self.pool_no)
    }

    /// The last nonce accepted from `sender`, if any.
    pub fn last_nonce_of(&self, sender: u64) -> (r: Option<u64>)
        ensures
            r == (if self.last_nonce@.contains_key(sender) {
                Some(self.last_nonce@[sender])
            } else {
                None::<u64>
            }),
    {
        match self.last_nonce.get(&sender) {
            Some(n) => Some(*n),
            None => None,
        }
    }
}

/// A batch whose nonce is not above the last one accepted from its sender is
/// refused; a refused batch leaves the market unchanged (see
/// `apply_order_batch`).
pub proof fn lemma_stale_nonce_rejected(m: MarketState, sender: u64, orders: Seq<Order>, nonce: u64)
    requires
        m.last_nonce@.contains_key(sender),
        nonce <= m.last_nonce@[sender],
    ensures
        m.batch_error(sender, orders, nonce).is_some(),
{
}

/// An accepted batch adds to each pool exactly the amounts of its orders on
/// that side, so it never shrinks a pool, and leaves odds that add up to
/// exactly one once a pool is non-empty.
pub proof fn lemma_batch_keeps_pools_and_odds(
    m: MarketState,
    next: MarketState,
    sender: u64,
    orders: Seq<Order>,
    nonce: u64,
)
    requires
        m.batch_applied(next, sender, orders, nonce),
    ensures
        next.pool_yes == m.pool_yes + side_amount(orders, Side::BuyYes),
        next.pool_no == m.pool_no + side_amount(orders, Side::BuyNo),
        next.pool_yes >= m.pool_yes,
        next.pool_no >= m.pool_no,
        next.pool_yes + next.pool_no > 0 ==> {
            &&& yes_odds_of(next.pool_yes as nat, next.pool_no as nat).1
                == no_odds_of(next.pool_yes as nat, next.pool_no as nat).1
            &&& yes_odds_of(next.pool_yes as nat, next.pool_no as nat).0
                + no_odds_of(next.pool_yes as nat, next.pool_no as nat).0
                == yes_odds_of(next.pool_yes as nat, next.pool_no as nat).1
        },
{
    lemma_batch_side_sums(m.pool_yes as nat, m.pool_no as nat, orders);
    if next.pool_yes + next.pool_no > 0 {
        lemma_odds_sum_to_one(next.pool_yes as nat, next.pool_no as nat);
    }
}

/// A resolved market refuses every further batch and every further
/// resolution as closed, so neither changes it.
pub proof fn lemma_resolved_market_is_terminal(
    m: MarketState,
    sender: u64,
    orders: Seq<Order>,
    nonce: u64,
    outcome: bool,
    evidence: ResolutionProof,
)
    requires
        m.status != MarketStatus::Open,
    ensures
        m.batch_error(sender, orders, nonce) == Some(MarketError::MarketClosed),
        m.resolution_error(outcome, evidence) == Some(MarketError::MarketClosed),
{
}

/// In a resolved market the payouts and the protocol reserve add up to the
/// two pools exactly, whatever the pools and the outcome.
pub proof fn lemma_payout_conservation(m: MarketState)
    requires
        m.wf(),
        m.status != MarketStatus::Open,
    ensures
        payout_sum(m.payouts@) + m.reserve == m.pool_yes + m.pool_no,
{
}

/// Attestation evidence resolves a market only with a signature that
/// verifies, over the evidence's own statement, under the enclave key the
/// market was configured with: a signature that does not verify there, an
/// altered one for instance, never changes the market.
pub proof fn lemma_unverified_attestation_rejected(m: MarketState, outcome: bool, evidence: ResolutionProof)
    requires
        evidence is Attestation,
        match m.oracle_type {
            OracleType::FastTee { public_key } => !ed25519_verifies(
                public_key@, evidence->Attestation_statement@, evidence->Attestation_signature@),
            OracleType::Hybrid { public_key, member_keys } => !ed25519_verifies(
                public_key@, evidence->Attestation_statement@, evidence->Attestation_signature@),
            OracleType::Committee { member_keys } => true,
        },
    ensures
        m.resolution_error(outcome, evidence).is_some(),
{
}

/// Committee evidence in which any vote is for another outcome, or comes
/// from no member, or carries a signature that does not verify under its
/// member's key over the vote statement, never resolves a market.
pub proof fn lemma_tampered_vote_rejected(m: MarketState, outcome: bool, evidence: ResolutionProof, i: int)
    requires
        evidence is Committee,
        0 <= i < evidence->Committee_votes@.len(),
        match m.oracle_type {
            OracleType::Committee { member_keys } => {
                let v = evidence->Committee_votes@[i];
                v.outcome != outcome || v.voter >= member_keys@.len() || !ed25519_verifies(
                    member_keys@[v.voter as int]@, vote_statement(m.market_id@, outcome), v.signature@)
            },
            OracleType::Hybrid { public_key, member_keys } => {
                let v = evidence->Committee_votes@[i];
                v.outcome != outcome || v.voter >= member_keys@.len() || !ed25519_verifies(
                    member_keys@[v.voter as int]@, vote_statement(m.market_id@, outcome), v.signature@)
            },
            OracleType::FastTee { public_key } => true,
        },
    ensures
        m.resolution_error(outcome, evidence).is_some(),
{
    let v = evidence->Committee_votes@[i];
    if v.outcome == outcome {
        assert(evidence->Committee_votes@[i].outcome == outcome);
    }
}

/// The votes of a finalized committee resolution resolve an open market
/// whose oracle is that committee.
pub proof fn lemma_finalized_votes_resolve(m: MarketState, finalized: FinalizedResolution, member_keys: Vec<Vec<u8>>)
    requires
        m.status == MarketStatus::Open,
        m.oracle_type == (OracleType::Committee { member_keys }),
        committee_proves(member_keys@, m.market_id@, finalized.votes@, finalized.outcome),
    ensures
        m.resolution_error(
            finalized.outcome,
            ResolutionProof::Committee { votes: finalized.votes },
        ).is_none(),
{
}

/// Evidence binds its outcome: evidence that proves one outcome for a
/// market never proves the other. A signed statement names its outcome, and
/// committee evidence must consist of votes for the outcome it proves.
pub proof fn lemma_evidence_binds_outcome(m: MarketState, outcome: bool, evidence: ResolutionProof)
    requires
        m.status == MarketStatus::Open,
        proof_verifies(m.oracle_type, m.market_id@, outcome, evidence),
    ensures
        m.resolution_error(!outcome, evidence) == Some(MarketError::InvalidProof),
{
    match evidence {
        ResolutionProof::Attestation { timestamp, .. } => {
            lemma_statement_binds_outcome(m.market_id@, outcome, timestamp as nat, timestamp as nat);
        },
        ResolutionProof::Committee { votes } => {
            assert(votes@[0].outcome == outcome);
        },
    }
}

} // verus!
