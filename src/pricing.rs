use vstd::prelude::*;

verus! {

/// The side of a binary market that an order buys.
#[derive(Clone, Copy, Debug, PartialEq, Eq, Structural)]
pub enum Side {
    BuyYes,
    BuyNo,
}

/// One order of a batch: an identifier unique within its batch, a side and
/// an amount in the market's smallest unit.
#[derive(Clone, Copy, Debug, PartialEq, Eq, Structural)]
pub struct Order {
    pub id: u64,
    pub side: Side,
    pub amount: u64,
}

/// An implied probability as an exact fraction `num / den`.
#[derive(Clone, Copy, Debug, PartialEq, Eq, Structural)]
pub struct Odds {
    pub num: u64,
    pub den: u64,
}

/// The odds of the yes side: the no pool's share of all stake, or one half
/// while both pools are empty.
pub open spec fn yes_odds_of(pool_yes: nat, pool_no: nat) -> (nat, nat) {
    if pool_yes + pool_no == 0 {
        (1, 2)
    } else {
        (pool_no, pool_yes + pool_no)
    }
}

/// The odds of the no side: the yes pool's share of all stake, or one half
/// while both pools are empty.
pub open spec fn no_odds_of(pool_yes: nat, pool_no: nat) -> (nat, nat) {
    if pool_yes + pool_no == 0 {
        (1, 2)
    } else {
        (pool_yes, pool_yes + pool_no)
    }
}

/// What buying `amount` on a side costs, where `own` is that side's pool and
/// `opp` the other one: the amount times the side's odds, rounded down.
pub open spec fn cost_of(amount: nat, own: nat, opp: nat) -> nat {
    if own + opp == 0 {
        amount / 2
    } else {
        (amount * opp) / (own + opp)
    }
}

/// Sum of the amounts of a sequence of orders.
pub open spec fn sum_amounts(orders: Seq<Order>) -> nat
    decreases orders.len(),
{
    if orders.len() == 0 {
        0
    } else {
        sum_amounts(orders.drop_last()) + orders.last().amount as nat
    }
}

/// Pools and accumulated cost after applying `orders` one after another to
/// pools `pool_yes` / `pool_no`: each order is priced at the odds left by the
/// orders before it, then added to its side's pool.
pub open spec fn batch_outcome(pool_yes: nat, pool_no: nat, orders: Seq<Order>) -> (nat, nat, nat)
    decreases orders.len(),
{
    if orders.len() == 0 {
        (pool_yes, pool_no, 0)
    } else {
        let prev = batch_outcome(pool_yes, pool_no, orders.drop_last());
        let o = orders.last();
        match o.side {
            Side::BuyYes => (prev.0 + o.amount as nat, prev.1, prev.2 + cost_of(o.amount as nat, prev.0, prev.1)),
            Side::BuyNo => (prev.0, prev.1 + o.amount as nat, prev.2 + cost_of(o.amount as nat, prev.1, prev.0)),
        }
    }
}

/// Sum of the amounts of the orders of `orders` on `side`.
pub open spec fn side_amount(orders: Seq<Order>, side: Side) -> nat
    decreases orders.len(),
{
    if orders.len() == 0 {
        0
    } else {
        side_amount(orders.drop_last(), side) + if orders.last().side == side {
            orders.last().amount as nat
        } else {
            0nat
        }
    }
}

/// A batch adds to each pool exactly the amounts of its orders on that side.
pub proof fn lemma_batch_side_sums(pool_yes: nat, pool_no: nat, orders: Seq<Order>)
    ensures
        batch_outcome(pool_yes, pool_no, orders).0 == pool_yes + side_amount(orders, Side::BuyYes),
        batch_outcome(pool_yes, pool_no, orders).1 == pool_no + side_amount(orders, Side::BuyNo),
    decreases orders.len(),
{
    if orders.len() > 0 {
        lemma_batch_side_sums(pool_yes, pool_no, orders.drop_last());
    }
}

/// The cost of an order never exceeds its amount: odds are at most one.
pub proof fn lemma_cost_bounded(amount: nat, own: nat, opp: nat)
    ensures
        cost_of(amount, own, opp) <= amount,
{
    if own + opp != 0 {
        let t = own + opp;
        assert(amount * opp <= amount * t) by (nonlinear_arith)
            requires opp <= t;
        assert((amount * opp) / t <= amount) by (nonlinear_arith)
            requires amount * opp <= amount * t, t > 0;
    }
}

/// Applying a batch adds exactly its total amount to the pools, and costs
/// at most that total.
pub proof fn lemma_batch_totals(pool_yes: nat, pool_no: nat, orders: Seq<Order>)
    ensures
        batch_outcome(pool_yes, pool_no, orders).0 + batch_outcome(pool_yes, pool_no, orders).1
            == pool_yes + pool_no + sum_amounts(orders),
        batch_outcome(pool_yes, pool_no, orders).2 <= sum_amounts(orders),
    decreases orders.len(),
{
    if orders.len() > 0 {
        lemma_batch_totals(pool_yes, pool_no, orders.drop_last());
        let prev = batch_outcome(pool_yes, pool_no, orders.drop_last());
        lemma_cost_bounded(orders.last().amount as nat, prev.0, prev.1);
        lemma_cost_bounded(orders.last().amount as nat, prev.1, prev.0);
    }
}

/// Both pools only grow under a batch of orders, at every step of it.
pub proof fn lemma_pools_non_decreasing(pool_yes: nat, pool_no: nat, orders: Seq<Order>, k: int)
    requires
        0 <= k <= orders.len(),
    ensures
        pool_yes <= batch_outcome(pool_yes, pool_no, orders.take(k)).0
            <= batch_outcome(pool_yes, pool_no, orders).0,
        pool_no <= batch_outcome(pool_yes, pool_no, orders.take(k)).1
            <= batch_outcome(pool_yes, pool_no, orders).1,
    decreases orders.len(),
{
    if orders.len() > 0 {
        if k == orders.len() {
            assert(orders.take(k) == orders);
            lemma_pools_non_decreasing(pool_yes, pool_no, orders.drop_last(), k - 1);
            assert(orders.drop_last().take(k - 1) == orders.drop_last());
        } else {
            lemma_pools_non_decreasing(pool_yes, pool_no, orders.drop_last(), k);
            assert(orders.drop_last().take(k) == orders.take(k));
        }
    }
}

/// Once a pool is non-empty the two odds add up to exactly one.
pub proof fn lemma_odds_sum_to_one(pool_yes: nat, pool_no: nat)
    requires
        pool_yes + pool_no > 0,
    ensures
        yes_odds_of(pool_yes, pool_no).1 == no_odds_of(pool_yes, pool_no).1,
        yes_odds_of(pool_yes, pool_no).0 + no_odds_of(pool_yes, pool_no).0
            == yes_odds_of(pool_yes, pool_no).1,
{
}

pub proof fn lemma_sum_prefix(orders: Seq<Order>, i: int)
    requires
        0 <= i <= orders.len(),
    ensures
        sum_amounts(orders.take(i)) <= sum_amounts(orders),
    decreases orders.len(),
{
    if i < orders.len() {
        lemma_sum_prefix(orders.drop_last(), i);
        assert(orders.drop_last().take(i) == orders.take(i));
    } else {
        assert(orders.take(i) == orders);
    }
}

/// The total amount of a batch, or `None` when it does not fit the amount
/// type.
pub fn batch_amount(orders: &Vec<Order>) -> (r: Option<u64>)
    ensures
        r == (if sum_amounts(orders@) <= u64::MAX {
            Some(sum_amounts(orders@) as u64)
        } else {
            None::<u64>
        }),
{
    let mut acc: u64 = 0;
    let mut i: usize = 0;
    while i < orders.len()
        invariant
            i <= orders@.len(),
            acc == sum_amounts(orders@.take(i as int)),
        decreases orders.len() - i,
    {
        proof {
            assert(orders@.take(i as int + 1).drop_last() == orders@.take(i as int));
            lemma_sum_prefix(orders@, i as int + 1);
        }
        let a = orders[i].amount;
        if acc > u64::MAX - a {
            return None;
        }
        acc = acc + a;
        i = i + 1;
    }
    proof {
        assert(orders@.take(orders@.len() as int) == orders@);
    }
    Some(acc)
}

/// Cost of buying `amount` on a side whose pool is `own` against `opp`.
pub fn order_cost(amount: u64, own: u64, opp: u64) -> (r: u64)
    requires
        own + opp <= u64::MAX,
    ensures
        r == cost_of(amount as nat, own as nat, opp as nat),
{
    proof {
        lemma_cost_bounded(amount as nat, own as nat, opp as nat);
    }
    let total: u64 = own + opp;
    if total == 0 {
        amount / 2
    } else {
        assert((amount as nat) * (opp as nat) <= u64::MAX * u64::MAX) by (nonlinear_arith)
            requires amount <= u64::MAX, opp <= u64::MAX;
        let prod: u128 = (amount as u128) * (opp as u128);
        (prod / (total as u128)) as u64
    }
}

/// Exact odds of the yes side for the given pools.
pub fn yes_odds_for(pool_yes: u64, pool_no: u64) -> (r: Odds)
    requires
        pool_yes + pool_no <= u64::MAX,
    ensures
        (r.num as nat, r.den as nat) == yes_odds_of(pool_yes as nat, pool_no as nat),
{
    if pool_yes + pool_no == 0 {
        Odds { num: 1, den: 2 }
    } else {
        Odds { num: pool_no, den: pool_yes + pool_no }
    }
}

/// Exact odds of the no side for the given pools.
pub fn no_odds_for(pool_yes: u64, pool_no: u64) -> (r: Odds)
    requires
        pool_yes + pool_no <= u64::MAX,
    ensures
        (r.num as nat, r.den as nat) == no_odds_of(pool_yes as nat, pool_no as nat),
{
    if pool_yes + pool_no == 0 {
        Odds { num: 1, den: 2 }
    } else {
        Odds { num: pool_yes, den: pool_yes + pool_no }
    }
}

} // verus!
