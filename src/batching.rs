use vstd::prelude::*;
use crate::pricing::Order;

verus! {

/// An order together with the chain of the market it is for.
#[derive(Clone, Copy, Debug, PartialEq, Eq, Structural)]
pub struct MarketOrder {
    pub market_chain: u64,
    pub order: Order,
}

/// The orders bound for one market chain, in submission order.
#[derive(Clone, Debug)]
pub struct MarketBatch {
    pub market_chain: u64,
    pub orders: Vec<Order>,
}

/// The orders of `s` bound for `market_chain`, in their order in `s`.
pub open spec fn orders_for(s: Seq<MarketOrder>, market_chain: u64) -> Seq<Order>
    decreases s.len(),
{
    if s.len() == 0 {
        seq![]
    } else if s.last().market_chain == market_chain {
        orders_for(s.drop_last(), market_chain).push(s.last().order)
    } else {
        orders_for(s.drop_last(), market_chain)
    }
}

/// Whether some order of `s` is bound for `market_chain`.
pub open spec fn names_market(s: Seq<MarketOrder>, market_chain: u64) -> bool {
    exists|j: int| 0 <= j < s.len() && (#[trigger] s[j]).market_chain == market_chain
}

/// Whether one of `batches` is for `market_chain`.
pub open spec fn has_batch_for(batches: Seq<MarketBatch>, market_chain: u64) -> bool {
    exists|k: int| 0 <= k < batches.len() && (#[trigger] batches[k]).market_chain == market_chain
}

fn contains_chain(chains: &Vec<u64>, c: u64) -> (r: bool)
    ensures
        r == chains@.contains(c),
{
    let mut i: usize = 0;
    while i < chains.len()
        invariant
            i <= chains@.len(),
            forall|k: int| 0 <= k < i ==> chains@[k] != c,
        decreases chains.len() - i,
    {
        if chains[i] == c {
            assert(chains@[i as int] == c);
            return true;
        }
        i = i + 1;
    }
    false
}

fn collect_for(orders: &Vec<MarketOrder>, market_chain: u64) -> (r: Vec<Order>)
    ensures
        r@ == orders_for(orders@, market_chain),
{
    let mut out: Vec<Order> = Vec::new();
    let mut i: usize = 0;
    while i < orders.len()
        invariant
            i <= orders@.len(),
            out@ == orders_for(orders@.take(i as int), market_chain),
        decreases orders.len() - i,
    {
        proof {
            assert(orders@.take(i as int + 1).drop_last() == orders@.take(i as int));
        }
        let o = orders[i];
        if o.market_chain == market_chain {
            out.push(o.order);
        }
        i = i + 1;
    }
    proof {
        assert(orders@.take(orders@.len() as int) == orders@);
    }
    out
}

/// Splits a submission into one batch per market chain, each chain once and
/// in the order it first appears, each batch holding that chain's orders in
/// submission order.
pub fn group_by_market(orders: &Vec<MarketOrder>) -> (r: Vec<MarketBatch>)
    ensures
        forall|k: int| 0 <= k < r@.len() ==> (#[trigger] r@[k]).orders@ == orders_for(orders@, r@[k].market_chain),
        forall|k: int| 0 <= k < r@.len() ==> names_market(orders@, (#[trigger] r@[k]).market_chain),
        forall|k1: int, k2: int|
            0 <= k1 < r@.len() && 0 <= k2 < r@.len() && k1 != k2
                ==> (#[trigger] r@[k1]).market_chain != (#[trigger] r@[k2]).market_chain,
        forall|j: int| 0 <= j < orders@.len() ==> has_batch_for(r@, (#[trigger] orders@[j]).market_chain),
{
    let mut chains: Vec<u64> = Vec::new();
    let mut i: usize = 0;
    while i < orders.len()
        invariant
            i <= orders@.len(),
            forall|k: int| 0 <= k < chains@.len() ==> names_market(orders@, #[trigger] chains@[k]),
            forall|k1: int, k2: int|
                0 <= k1 < chains@.len() && 0 <= k2 < chains@.len() && k1 != k2
                    ==> (#[trigger] chains@[k1]) != (#[trigger] chains@[k2]),
            forall|j: int| 0 <= j < i ==> chains@.contains((#[trigger] orders@[j]).market_chain),
        decreases orders.len() - i,
    {
        let c = orders[i].market_chain;
        if !contains_chain(&chains, c) {
            let ghost before = chains@;
            chains.push(c);
            proof {
                assert(orders@[i as int].market_chain == c);
                assert(names_market(orders@, c));
                assert forall|j: int| 0 <= j <= i implies chains@.contains((#[trigger] orders@[j]).market_chain) by {
                    if j < i {
                        assert(before.contains(orders@[j].market_chain));
                        let k = choose|k: int| 0 <= k < before.len() && before[k] == orders@[j].market_chain;
                        assert(chains@[k] == before[k]);
                    } else {
                        assert(chains@[chains@.len() - 1] == c);
                    }
                }
            }
        } else {
            proof {
                assert forall|j: int| 0 <= j <= i implies chains@.contains((#[trigger] orders@[j]).market_chain) by {
                    if j == i {
                        assert(orders@[j].market_chain == c);
                    }
                }
            }
        }
        i = i + 1;
    }
    let mut out: Vec<MarketBatch> = Vec::new();
    let mut k: usize = 0;
    while k < chains.len()
        invariant
            k <= chains@.len(),
            out@.len() == k,
            forall|m: int| 0 <= m < k ==> (#[trigger] out@[m]).market_chain == chains@[m],
            forall|m: int| 0 <= m < k ==> (#[trigger] out@[m]).orders@ == orders_for(orders@, out@[m].market_chain),
        decreases chains.len() - k,
    {
        let c = chains[k];
        let batch = collect_for(orders, c);
        out.push(MarketBatch { market_chain: c, orders: batch });
        k = k + 1;
    }
    proof {
        assert forall|j: int| 0 <= j < orders@.len() implies has_batch_for(out@, (#[trigger] orders@[j]).market_chain) by {
            assert(chains@.contains(orders@[j].market_chain));
            let m = choose|m: int| 0 <= m < chains@.len() && chains@[m] == orders@[j].market_chain;
            assert(out@[m].market_chain == chains@[m]);
            assert(0 <= m < out@.len() && out@[m].market_chain == orders@[j].market_chain);
        }
        assert forall|m1: int, m2: int|
            0 <= m1 < out@.len() && 0 <= m2 < out@.len() && m1 != m2
                implies (#[trigger] out@[m1]).market_chain != (#[trigger] out@[m2]).market_chain by {
            assert(chains@[m1] != chains@[m2]);
        }
        assert forall|m: int| 0 <= m < out@.len() implies names_market(orders@, (#[trigger] out@[m]).market_chain) by {
            assert(names_market(orders@, chains@[m]));
        }
    }
    out
}

} // verus!
