use vstd::prelude::*;
use crate::pricing::Side;

verus! {

/// A stake taken by one order: who placed it, on which side, how much.
#[derive(Clone, Copy, Debug, PartialEq, Eq, Structural)]
pub struct Stake {
    pub owner: u64,
    pub side: Side,
    pub amount: u64,
}

/// What a resolved market owes one stake.
#[derive(Clone, Copy, Debug, PartialEq, Eq, Structural)]
pub struct Payout {
    pub owner: u64,
    pub amount: u64,
}

/// Total amount staked on `side`.
pub open spec fn side_total(stakes: Seq<Stake>, side: Side) -> nat
    decreases stakes.len(),
{
    if stakes.len() == 0 {
        0
    } else {
        side_total(stakes.drop_last(), side) + if stakes.last().side == side {
            stakes.last().amount as nat
        } else {
            0nat
        }
    }
}

/// The side that wins on `outcome`.
pub open spec fn winning_side(outcome: bool) -> Side {
    if outcome {
        Side::BuyYes
    } else {
        Side::BuyNo
    }
}

/// A winning stake's pro-rata share of the combined pool, rounded down:
/// `amount * total / winning`. Losing stakes, and every stake when nobody
/// backed the winning side, get nothing.
pub open spec fn payout_amount(s: Stake, winner: Side, total: nat, winning: nat) -> nat {
    if s.side == winner && winning > 0 {
        (s.amount as nat * total) / winning
    } else {
        0
    }
}

/// Sum of the amounts of a payout table.
pub open spec fn payout_sum(payouts: Seq<Payout>) -> nat
    decreases payouts.len(),
{
    if payouts.len() == 0 {
        0
    } else {
        payout_sum(payouts.drop_last()) + payouts.last().amount as nat
    }
}

/// `payouts` pays each stake its share under `outcome`, position by position.
pub open spec fn pays_shares(payouts: Seq<Payout>, stakes: Seq<Stake>, outcome: bool, pool_yes: nat, pool_no: nat) -> bool {
    &&& payouts.len() == stakes.len()
    &&& forall|i: int| 0 <= i < stakes.len() ==> {
        &&& (#[trigger] payouts[i]).owner == stakes[i].owner
        &&& payouts[i].amount == payout_amount(
            stakes[i],
            winning_side(outcome),
            pool_yes + pool_no,
            if outcome { pool_yes } else { pool_no },
        )
    }
}

pub proof fn lemma_side_total_prefix(stakes: Seq<Stake>, side: Side, i: int)
    requires
        0 <= i <= stakes.len(),
    ensures
        side_total(stakes.take(i), side) <= side_total(stakes, side),
    decreases stakes.len(),
{
    if i < stakes.len() {
        lemma_side_total_prefix(stakes.drop_last(), side, i);
        assert(stakes.drop_last().take(i) == stakes.take(i));
    } else {
        assert(stakes.take(i) == stakes);
    }
}

pub proof fn lemma_side_total_concat(a: Seq<Stake>, b: Seq<Stake>, side: Side)
    ensures
        side_total(a + b, side) == side_total(a, side) + side_total(b, side),
    decreases b.len(),
{
    if b.len() > 0 {
        lemma_side_total_concat(a, b.drop_last(), side);
        assert((a + b).drop_last() == a + b.drop_last());
    } else {
        assert(a + b == a);
    }
}

/// The payout table of a market resolved to `outcome`, and the rounding
/// remainder that goes to the protocol reserve. Together they hand out the
/// combined pool exactly.
pub fn compute_payouts(stakes: &Vec<Stake>, outcome: bool, pool_yes: u64, pool_no: u64) -> (r: (Vec<Payout>, u64))
    requires
        pool_yes + pool_no <= u64::MAX,
        side_total(stakes@, Side::BuyYes) == pool_yes,
        side_total(stakes@, Side::BuyNo) == pool_no,
    ensures
        pays_shares(r.0@, stakes@, outcome, pool_yes as nat, pool_no as nat),
        payout_sum(r.0@) + r.1 == pool_yes + pool_no,
{
    let total: u64 = pool_yes + pool_no;
    let winner = if outcome { Side::BuyYes } else { Side::BuyNo };
    let winning: u64 = if outcome { pool_yes } else { pool_no };
    let mut payouts: Vec<Payout> = Vec::new();
    let mut paid: u64 = 0;
    let mut i: usize = 0;
    while i < stakes.len()
        invariant
            total == pool_yes + pool_no,
            winner == winning_side(outcome),
            winning == (if outcome { pool_yes } else { pool_no }),
            winning as nat == side_total(stakes@, winner),
            i <= stakes@.len(),
            payouts@.len() == i,
            paid == payout_sum(payouts@),
            paid <= total,
            winning as nat * paid <= total as nat * side_total(stakes@.take(i as int), winner),
            forall|k: int| 0 <= k < i ==> {
                &&& (#[trigger] payouts@[k]).owner == stakes@[k].owner
                &&& payouts@[k].amount == payout_amount(stakes@[k], winner, total as nat, winning as nat)
            },
        decreases stakes.len() - i,
    {
        let s = stakes[i];
        let ghost st = side_total(stakes@.take(i as int), winner);
        proof {
            assert(stakes@.take(i as int + 1).drop_last() == stakes@.take(i as int));
            lemma_side_total_prefix(stakes@, winner, i as int + 1);
        }
        let ghost st1 = side_total(stakes@.take(i as int + 1), winner);
        let share: u64 = if s.side == winner && winning > 0 {
            let a = s.amount as u128;
            let t = total as u128;
            let w = winning as u128;
            proof {
                assert(st1 == st + s.amount);
                assert(s.amount as nat * total as nat <= u64::MAX as nat * u64::MAX as nat) by (nonlinear_arith)
                    requires s.amount <= u64::MAX, total <= u64::MAX;
                let q = (s.amount as nat * total as nat) / (winning as nat);
                assert(winning as nat * q <= s.amount as nat * total as nat) by (nonlinear_arith)
                    requires winning > 0, q == (s.amount as nat * total as nat) / (winning as nat);
                assert(winning as nat * (paid as nat + q) <= total as nat * st1) by (nonlinear_arith)
                    requires
                        winning as nat * paid <= total as nat * st,
                        winning as nat * q <= s.amount as nat * total as nat,
                        st1 == st + s.amount;
                assert(paid as nat + q <= total) by (nonlinear_arith)
                    requires
                        winning as nat * (paid as nat + q) <= total as nat * st1,
                        st1 <= winning,
                        winning > 0;
            }
            (a * t / w) as u64
        } else {
            proof {
                if s.side == winner {
                    assert(st1 == st + s.amount);
                    assert(winning == 0);
                } else {
                    assert(st1 == st);
                }
                assert(winning as nat * paid <= total as nat * st1) by (nonlinear_arith)
                    requires winning as nat * paid <= total as nat * st, st <= st1;
            }
            0
        };
        let ghost prev = payouts@;
        payouts.push(Payout { owner: s.owner, amount: share });
        proof {
            assert(payouts@.drop_last() == prev);
        }
        paid = paid + share;
        i = i + 1;
    }
    proof {
        assert(stakes@.take(stakes@.len() as int) == stakes@);
    }
    (payouts, total - paid)
}

} // verus!
