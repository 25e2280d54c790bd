use vstd::prelude::*;
use std::collections::HashMap;
use crate::oracle::OracleType;

verus! {

broadcast use vstd::std_specs::hash::group_hash_axioms;

/// Where a market lives: its identifier, the application that runs it and
/// the chain it runs on.
#[derive(Clone, Debug)]
pub struct MarketEntry {
    pub market_id: String,
    pub application_id: u64,
    pub chain_id: u64,
}

/// The operations the registry takes.
#[derive(Clone, Debug)]
pub enum RegistryOperation {
    CreateMarket { market_id: String, description: String, oracle_type: OracleType, resolution_time: u64 },
    RegisterUserChain { user_chain_id: u64 },
    UpdateOracle { market_id: String, new_oracle: OracleType },
}

/// The registry's map from market identifier to application and chain, as
/// built by writing the entries one after another (a later entry for the
/// same identifier replaces an earlier one).
pub open spec fn market_map(entries: Seq<MarketEntry>) -> Map<Seq<char>, (u64, u64)>
    decreases entries.len(),
{
    if entries.len() == 0 {
        Map::empty()
    } else {
        let e = entries.last();
        market_map(entries.drop_last()).insert(e.market_id@, (e.application_id, e.chain_id))
    }
}

/// No two entries share a market identifier.
pub open spec fn ids_unique(entries: Seq<MarketEntry>) -> bool {
    forall|i: int, j: int|
        0 <= i < entries.len() && 0 <= j < entries.len() && i != j
            ==> (#[trigger] entries[i]).market_id@ != (#[trigger] entries[j]).market_id@
}

pub proof fn lemma_market_map_absent(entries: Seq<MarketEntry>, id: Seq<char>)
    requires
        forall|i: int| 0 <= i < entries.len() ==> (#[trigger] entries[i]).market_id@ != id,
    ensures
        !market_map(entries).contains_key(id),
    decreases entries.len(),
{
    if entries.len() > 0 {
        lemma_market_map_absent(entries.drop_last(), id);
    }
}

pub proof fn lemma_market_map_at(entries: Seq<MarketEntry>, i: int)
    requires
        ids_unique(entries),
        0 <= i < entries.len(),
    ensures
        market_map(entries).contains_key(entries[i].market_id@),
        market_map(entries)[entries[i].market_id@] == (entries[i].application_id, entries[i].chain_id),
    decreases entries.len(),
{
    if i < entries.len() - 1 {
        let d = entries.drop_last();
        assert(ids_unique(d)) by {
            assert forall|a: int, b: int| 0 <= a < d.len() && 0 <= b < d.len() && a != b
                implies (#[trigger] d[a]).market_id@ != (#[trigger] d[b]).market_id@ by {
                assert(d[a] == entries[a] && d[b] == entries[b]);
            }
        }
        lemma_market_map_at(d, i);
        assert(entries[i].market_id@ != entries[entries.len() - 1].market_id@);
    }
}

pub proof fn lemma_market_map_update(entries: Seq<MarketEntry>, i: int, e: MarketEntry)
    requires
        0 <= i < entries.len(),
        entries[i].market_id@ == e.market_id@,
        ids_unique(entries),
    ensures
        market_map(entries.update(i, e)) == market_map(entries).insert(e.market_id@, (e.application_id, e.chain_id)),
    decreases entries.len(),
{
    let s = entries.update(i, e);
    let d = entries.drop_last();
    let last = entries.len() - 1;
    if i == last {
        assert(s.drop_last() == d);
        assert(market_map(s) =~= market_map(entries).insert(e.market_id@, (e.application_id, e.chain_id)));
    } else {
        assert(s.drop_last() == d.update(i, e));
        assert(ids_unique(d)) by {
            assert forall|a: int, b: int| 0 <= a < d.len() && 0 <= b < d.len() && a != b
                implies (#[trigger] d[a]).market_id@ != (#[trigger] d[b]).market_id@ by {
                assert(d[a] == entries[a] && d[b] == entries[b]);
            }
        }
        lemma_market_map_update(d, i, e);
        assert(entries[i].market_id@ != entries[last].market_id@);
        assert(s.last() == entries.last());
        assert(market_map(s) =~= market_map(entries).insert(e.market_id@, (e.application_id, e.chain_id)));
    }
}

/// The registry: where each market lives, and which participant chains
/// have registered, with the markets each takes part in.
#[derive(Clone, Debug)]
pub struct RegistryState {
    pub markets: Vec<MarketEntry>,
    pub user_registrations: HashMap<u64, Vec<String>>,
}

impl RegistryState {
    pub open spec fn wf(&self) -> bool {
        ids_unique(self.markets@)
    }

    /// The registry's markets as a map from identifier to application and
    /// chain.
    pub open spec fn market_view(&self) -> Map<Seq<char>, (u64, u64)> {
        market_map(self.markets@)
    }

    /// An empty registry.
    pub fn new() -> (r: RegistryState)
        ensures
            r.wf(),
            r.market_view() == Map::<Seq<char>, (u64, u64)>::empty(),
            r.user_registrations@ == Map::<u64, Vec<String>>::empty(),
    {
        RegistryState { markets: Vec::new(), user_registrations: HashMap::new() }
    }

    /// Records that `market_id` runs as `application_id` on `chain_id`,
    /// replacing what was recorded for it before.
    pub fn register_market(&mut self, market_id: String, application_id: u64, chain_id: u64)
        requires
            old(self).wf(),
        ensures
            final(self).wf(),
            final(self).market_view() == old(self).market_view().insert(market_id@, (application_id, chain_id)),
            final(self).user_registrations == old(self).user_registrations,
    {
        let mut i: usize = 0;
        while i < self.markets.len()
            invariant
                i <= self.markets@.len(),
                ids_unique(self.markets@),
                self.markets@ == old(self).markets@,
                self.user_registrations == old(self).user_registrations,
                forall|k: int| 0 <= k < i ==> (#[trigger] self.markets@[k]).market_id@ != market_id@,
            decreases self.markets.len() - i,
        {
            if self.markets[i].market_id == market_id {
                let e = MarketEntry { market_id, application_id, chain_id };
                proof {
                    lemma_market_map_update(self.markets@, i as int, e);
                }
                let ghost before = self.markets@;
                self.markets.set(i, e);
                proof {
                    assert(self.markets@ == before.update(i as int, e));
                    assert forall|a: int, b: int| 0 <= a < self.markets@.len() && 0 <= b < self.markets@.len() && a != b
                        implies (#[trigger] self.markets@[a]).market_id@ != (#[trigger] self.markets@[b]).market_id@ by {
                        if a != i && b != i {
                            assert(before[a] == self.markets@[a] && before[b] == self.markets@[b]);
                        } else if a == i {
                            assert(before[b] == self.markets@[b]);
                            assert(before[b].market_id@ != before[a].market_id@);
                        } else {
                            assert(before[a] == self.markets@[a]);
                            assert(before[a].market_id@ != before[b].market_id@);
                        }
                    }
                }
                return;
            }
            i = i + 1;
        }
        let ghost before = self.markets@;
        self.markets.push(MarketEntry { market_id, application_id, chain_id });
        proof {
            assert(self.markets@.drop_last() == before);
            assert forall|a: int, b: int| 0 <= a < self.markets@.len() && 0 <= b < self.markets@.len() && a != b
                implies (#[trigger] self.markets@[a]).market_id@ != (#[trigger] self.markets@[b]).market_id@ by {
                if a < before.len() {
                    assert(before[a] == self.markets@[a]);
                }
                if b < before.len() {
                    assert(before[b] == self.markets@[b]);
                }
                if a < before.len() && b < before.len() {
                    assert(before[a].market_id@ != before[b].market_id@);
                }
            }
        }
    }

    /// Where `market_id` lives, if it is registered.
    pub fn market_location(&self, market_id: &String) -> (r: Option<(u64, u64)>)
        requires
            self.wf(),
        ensures
            r == (if self.market_view().contains_key(market_id@) {
                Some(self.market_view()[market_id@])
            } else {
                None::<(u64, u64)>
            }),
    {
        let mut i: usize = 0;
        while i < self.markets.len()
            invariant
                i <= self.markets@.len(),
                ids_unique(self.markets@),
                forall|k: int| 0 <= k < i ==> (#[trigger] self.markets@[k]).market_id@ != market_id@,
            decreases self.markets.len() - i,
        {
            if self.markets[i].market_id == *market_id {
                proof {
                    lemma_market_map_at(self.markets@, i as int);
                }
                return Some((self.markets[i].application_id, self.markets[i].chain_id));
            }
            i = i + 1;
        }
        proof {
            lemma_market_map_absent(self.markets@, market_id@);
        }
        None
    }

    /// Registers a participant chain with no markets yet; a chain already
    /// registered keeps what it has.
    pub fn register_user_chain(&mut self, user_chain_id: u64)
        ensures
            final(self).markets == old(self).markets,
            final(self).user_registrations@.dom() == old(self).user_registrations@.dom().insert(user_chain_id),
            old(self).user_registrations@.contains_key(user_chain_id)
                ==> final(self).user_registrations@ == old(self).user_registrations@,
            !old(self).user_registrations@.contains_key(user_chain_id)
                ==> final(self).user_registrations@[user_chain_id]@.len() == 0
                && forall|c: u64| c != user_chain_id && old(self).user_registrations@.contains_key(c)
                    ==> final(self).user_registrations@[c] == old(self).user_registrations@[c],
    {
        if !self.user_registrations.contains_key(&user_chain_id) {
            self.user_registrations.insert(user_chain_id, Vec::new());
        } else {
            proof {
                assert(old(self).user_registrations@.dom().insert(user_chain_id) =~= old(self).user_registrations@.dom());
            }
        }
    }
}

} // verus!
