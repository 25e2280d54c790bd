use vstd::prelude::*;
use crate::attestation::{ed25519_verifies, signature_verifies, vote_statement, vote_statement_bytes};

verus! {

/// One committee member's signed claim about a market's outcome: `voter` is
/// the member's position in the committee's key list, `signature` its
/// signature of the vote statement.
#[derive(Clone, Debug)]
pub struct Vote {
    pub voter: u64,
    pub outcome: bool,
    pub signature: Vec<u8>,
}

/// What the tally reads of a vote: voter and claimed outcome.
pub open spec fn ballot(v: Vote) -> (u64, bool) {
    (v.voter, v.outcome)
}

pub open spec fn ballots(votes: Seq<Vote>) -> Seq<(u64, bool)> {
    votes.map_values(|v: Vote| ballot(v))
}

/// A ballot counts towards `outcome` when it claims that outcome.
pub open spec fn supports(b: (u64, bool), outcome: bool) -> bool {
    b.1 == outcome
}

/// Whether a ballot before position `i` from the same voter already counts
/// towards `outcome`.
pub open spec fn counted_before(bs: Seq<(u64, bool)>, i: int, outcome: bool) -> bool {
    exists|j: int| 0 <= j < i && supports(#[trigger] bs[j], outcome) && bs[j].0 == bs[i].0
}

/// Number of distinct voters with a valid ballot for `outcome`: each voter
/// counts once, however many of their ballots agree.
pub open spec fn agreeing_count(bs: Seq<(u64, bool)>, outcome: bool) -> nat
    decreases bs.len(),
{
    if bs.len() == 0 {
        0
    } else {
        let last = bs.len() - 1;
        agreeing_count(bs.drop_last(), outcome) + if supports(bs[last], outcome)
            && !counted_before(bs, last, outcome) {
            1nat
        } else {
            0nat
        }
    }
}

/// The committee threshold: strictly more than half of its members.
pub open spec fn reaches_quorum(count: nat, committee_size: nat) -> bool {
    2 * count > committee_size
}

/// A later ballot from a voter already counted for `outcome` adds nothing
/// to that outcome's count: no voter counts twice.
pub proof fn lemma_duplicate_voter_not_recounted(bs: Seq<(u64, bool)>, b: (u64, bool), outcome: bool)
    requires
        exists|j: int| 0 <= j < bs.len() && supports(#[trigger] bs[j], outcome) && bs[j].0 == b.0,
    ensures
        agreeing_count(bs.push(b), outcome) == agreeing_count(bs, outcome),
{
    let j = choose|j: int| 0 <= j < bs.len() && supports(#[trigger] bs[j], outcome) && bs[j].0 == b.0;
    let s = bs.push(b);
    assert(s.drop_last() == bs);
    assert(s[j] == bs[j]);
    assert(counted_before(s, bs.len() as int, outcome));
}

/// A finalized committee resolution: the outcome and the votes that carried it.
#[derive(Clone, Debug)]
pub struct FinalizedResolution {
    pub outcome: bool,
    pub votes: Vec<Vote>,
}

pub proof fn lemma_agreeing_count_bounded(bs: Seq<(u64, bool)>, outcome: bool)
    ensures
        agreeing_count(bs, outcome) <= bs.len(),
    decreases bs.len(),
{
    if bs.len() > 0 {
        lemma_agreeing_count_bounded(bs.drop_last(), outcome);
    }
}

/// Number of distinct voters among `votes` with a valid vote for `outcome`.
pub fn tally(votes: &Vec<Vote>, outcome: bool) -> (r: usize)
    ensures
        r == agreeing_count(ballots(votes@), outcome),
{
    let ghost bs = ballots(votes@);
    let mut count: usize = 0;
    let mut i: usize = 0;
    while i < votes.len()
        invariant
            bs == ballots(votes@),
            i <= votes.len(),
            count == agreeing_count(bs.take(i as int), outcome),
        decreases votes.len() - i,
    {
        proof {
            lemma_agreeing_count_bounded(bs.take(i as int), outcome);
        }
        let v = &votes[i];
        assert(bs[i as int] == ballot(votes@[i as int]));
        let mut seen = false;
        if v.outcome == outcome {
            let mut j: usize = 0;
            while j < i
                invariant
                    bs == ballots(votes@),
                    j <= i < votes.len(),
                    *v == votes@[i as int],
                    seen == exists|k: int| 0 <= k < j && supports(#[trigger] bs[k], outcome) && bs[k].0 == bs[i as int].0,
                decreases i - j,
            {
                let w = &votes[j];
                assert(bs[j as int] == ballot(votes@[j as int]));
                assert(bs[i as int] == ballot(votes@[i as int]));
                let ghost was_seen = seen;
                if w.outcome == outcome && w.voter == v.voter {
                    seen = true;
                }
                proof {
                    if was_seen {
                        let k = choose|k: int| 0 <= k < j && supports(#[trigger] bs[k], outcome) && bs[k].0 == bs[i as int].0;
                        assert(0 <= k < j + 1 && supports(bs[k], outcome) && bs[k].0 == bs[i as int].0);
                    } else if seen {
                        assert(supports(bs[j as int], outcome) && bs[j as int].0 == bs[i as int].0);
                    } else {
                        assert forall|k: int| 0 <= k < j + 1 implies !(supports(#[trigger] bs[k], outcome) && bs[k].0 == bs[i as int].0) by {
                            if k < j {
                                assert(!(0 <= k < j && supports(bs[k], outcome) && bs[k].0 == bs[i as int].0));
                            }
                        }
                    }
                }
                j = j + 1;
            }
        }
        let ghost pre = bs.take(i as int + 1);
        proof {
            assert(pre.drop_last() =~= bs.take(i as int));
            assert forall|k: int| 0 <= k < i implies pre[k] == bs[k] by {}
            assert(counted_before(pre, i as int, outcome) == counted_before(bs, i as int, outcome)) by {
                if counted_before(bs, i as int, outcome) {
                    let k = choose|k: int| 0 <= k < i && supports(#[trigger] bs[k], outcome) && bs[k].0 == bs[i as int].0;
                    assert(supports(pre[k], outcome));
                }
                if counted_before(pre, i as int, outcome) {
                    let k = choose|k: int| 0 <= k < i && supports(#[trigger] pre[k], outcome) && pre[k].0 == pre[i as int].0;
                    assert(supports(bs[k], outcome));
                }
            }
        }
        if v.outcome == outcome && !seen {
            count = count + 1;
        }
        i = i + 1;
    }
    proof {
        assert(bs.take(votes@.len() as int) =~= bs);
    }
    count
}

/// Everything a vote holds, signature bytes included.
pub open spec fn vote_view(v: Vote) -> (u64, bool, Seq<u8>) {
    (v.voter, v.outcome, v.signature@)
}

pub open spec fn votes_view(votes: Seq<Vote>) -> Seq<(u64, bool, Seq<u8>)> {
    votes.map_values(|v: Vote| vote_view(v))
}

/// The votes of `vs` for `outcome`, in order.
pub open spec fn votes_for(vs: Seq<(u64, bool, Seq<u8>)>, outcome: bool) -> Seq<(u64, bool, Seq<u8>)>
    decreases vs.len(),
{
    if vs.len() == 0 {
        seq![]
    } else if vs.last().1 == outcome {
        votes_for(vs.drop_last(), outcome).push(vs.last())
    } else {
        votes_for(vs.drop_last(), outcome)
    }
}

/// Every vote is for `outcome`.
pub open spec fn all_support(votes: Seq<Vote>, outcome: bool) -> bool {
    forall|i: int| 0 <= i < votes.len() ==> (#[trigger] votes[i]).outcome == outcome
}

/// Every vote comes from a member of the committee with keys `keys` and
/// carries that member's valid signature of the vote statement for
/// `market_id` and the vote's outcome.
pub open spec fn signed_votes(keys: Seq<Vec<u8>>, market_id: Seq<char>, votes: Seq<Vote>) -> bool {
    forall|i: int| 0 <= i < votes.len() ==> {
        &&& (#[trigger] votes[i]).voter < keys.len()
        &&& ed25519_verifies(
            keys[votes[i].voter as int]@,
            vote_statement(market_id, votes[i].outcome),
            votes[i].signature@,
        )
    }
}

/// No voter appears twice.
pub open spec fn voters_distinct(votes: Seq<Vote>) -> bool {
    forall|i: int, j: int|
        0 <= i < votes.len() && 0 <= j < votes.len() && i != j
            ==> (#[trigger] votes[i]).voter != (#[trigger] votes[j]).voter
}

/// Committee votes prove `outcome` for `market_id` to the committee with
/// member keys `keys` when they are all votes for it, each signed by its
/// member, from distinct members, and strictly more than half of the
/// committee.
pub open spec fn committee_proves(keys: Seq<Vec<u8>>, market_id: Seq<char>, votes: Seq<Vote>, outcome: bool) -> bool {
    &&& all_support(votes, outcome)
    &&& signed_votes(keys, market_id, votes)
    &&& voters_distinct(votes)
    &&& reaches_quorum(votes.len(), keys.len())
}

/// Whether `votes` prove `outcome` for `market_id` to the committee with
/// member keys `keys`.
pub fn committee_evidence_holds(keys: &Vec<Vec<u8>>, market_id: &str, votes: &Vec<Vote>, outcome: bool) -> (r: bool)
    ensures
        r == committee_proves(keys@, market_id@, votes@, outcome),
{
    let statement = vote_statement_bytes(market_id, outcome);
    let mut i: usize = 0;
    while i < votes.len()
        invariant
            i <= votes@.len(),
            statement@ == vote_statement(market_id@, outcome),
            forall|k: int| 0 <= k < i ==> (#[trigger] votes@[k]).outcome == outcome,
            signed_votes(keys@, market_id@, votes@.take(i as int)),
            forall|a: int, b: int| 0 <= a < i && 0 <= b < i && a != b
                ==> (#[trigger] votes@[a]).voter != (#[trigger] votes@[b]).voter,
        decreases votes.len() - i,
    {
        let v = &votes[i];
        if v.outcome != outcome {
            return false;
        }
        if v.voter >= keys.len() as u64 {
            proof {
                assert(votes@.take(votes@.len() as int)[i as int] == votes@[i as int]);
                assert(votes@.take(votes@.len() as int) =~= votes@);
            }
            return false;
        }
        if !signature_verifies(keys[v.voter as usize].as_slice(), statement.as_slice(), v.signature.as_slice()) {
            proof {
                assert(votes@.take(votes@.len() as int) =~= votes@);
            }
            return false;
        }
        let mut j: usize = 0;
        while j < i
            invariant
                j <= i < votes@.len(),
                forall|k: int| 0 <= k < j ==> (#[trigger] votes@[k]).voter != votes@[i as int].voter,
            decreases i - j,
        {
            if votes[j].voter == votes[i].voter {
                return false;
            }
            j = j + 1;
        }
        proof {
            assert forall|k: int| 0 <= k < i + 1 implies {
                &&& (#[trigger] votes@.take(i as int + 1)[k]).voter < keys@.len()
                &&& ed25519_verifies(
                    keys@[votes@.take(i as int + 1)[k].voter as int]@,
                    vote_statement(market_id@, votes@.take(i as int + 1)[k].outcome),
                    votes@.take(i as int + 1)[k].signature@,
                )
            } by {
                if k < i {
                    assert(votes@.take(i as int + 1)[k] == votes@.take(i as int)[k]);
                }
            }
        }
        i = i + 1;
    }
    proof {
        assert(votes@.take(votes@.len() as int) =~= votes@);
    }
    (votes.len() as u128) * 2 > keys.len() as u128
}

/// A copy of a vote, signature bytes included.
fn copy_vote(v: &Vote) -> (r: Vote)
    ensures
        vote_view(r) == vote_view(*v),
{
    let mut signature: Vec<u8> = Vec::new();
    let mut i: usize = 0;
    while i < v.signature.len()
        invariant
            i <= v.signature@.len(),
            signature@ == v.signature@.take(i as int),
        decreases v.signature.len() - i,
    {
        signature.push(v.signature[i]);
        i = i + 1;
        proof {
            assert(signature@ =~= v.signature@.take(i as int));
        }
    }
    proof {
        assert(signature@ =~= v.signature@);
    }
    Vote { voter: v.voter, outcome: v.outcome, signature }
}

/// Copies of the valid votes for `outcome` among votes from distinct voters.
fn agreeing_copies(votes: &Vec<Vote>, outcome: bool) -> (r: Vec<Vote>)
    requires
        voters_distinct(votes@),
    ensures
        votes_view(r@) == votes_for(votes_view(votes@), outcome),
        r@.len() == agreeing_count(ballots(votes@), outcome),
        all_support(r@, outcome),
        voters_distinct(r@),
        forall|k: int| 0 <= k < r@.len() ==> exists|j: int| 0 <= j < votes@.len() && vote_view(#[trigger] votes@[j]) == vote_view(#[trigger] r@[k]),
{
    let ghost bs = ballots(votes@);
    let ghost vs = votes_view(votes@);
    let mut out: Vec<Vote> = Vec::new();
    let mut i: usize = 0;
    while i < votes.len()
        invariant
            bs == ballots(votes@),
            vs == votes_view(votes@),
            voters_distinct(votes@),
            i <= votes@.len(),
            votes_view(out@) == votes_for(vs.take(i as int), outcome),
            out@.len() == agreeing_count(bs.take(i as int), outcome),
            all_support(out@, outcome),
            voters_distinct(out@),
            forall|k: int| 0 <= k < out@.len() ==> exists|j: int| 0 <= j < i && vote_view(#[trigger] votes@[j]) == vote_view(#[trigger] out@[k]),
        decreases votes.len() - i,
    {
        let ghost pre = bs.take(i as int + 1);
        proof {
            assert(pre.drop_last() =~= bs.take(i as int));
            assert(vs.take(i as int + 1).drop_last() =~= vs.take(i as int));
            assert(bs[i as int] == ballot(votes@[i as int]));
            assert(vs[i as int] == vote_view(votes@[i as int]));
            assert(!counted_before(pre, i as int, outcome)) by {
                if counted_before(pre, i as int, outcome) {
                    let k = choose|k: int| 0 <= k < i && supports(#[trigger] pre[k], outcome) && pre[k].0 == pre[i as int].0;
                    assert(pre[k] == bs[k]);
                    assert(bs[k] == ballot(votes@[k]));
                    assert(votes@[k].voter != votes@[i as int].voter);
                }
            }
        }
        let v = &votes[i];
        if v.outcome == outcome {
            let c = copy_vote(v);
            let ghost before = out@;
            out.push(c);
            proof {
                assert(out@.drop_last() == before);
                assert(votes_view(out@) =~= votes_view(before).push(vote_view(c)));
                assert forall|k: int| 0 <= k < out@.len() implies exists|j: int| 0 <= j < i + 1 && vote_view(#[trigger] votes@[j]) == vote_view(#[trigger] out@[k]) by {
                    if k < before.len() {
                        assert(out@[k] == before[k]);
                        let j = choose|j: int| 0 <= j < i && vote_view(#[trigger] votes@[j]) == vote_view(#[trigger] before[k]);
                        assert(vote_view(votes@[j]) == vote_view(out@[k]));
                    } else {
                        assert(vote_view(votes@[i as int]) == vote_view(out@[k]));
                    }
                }
                assert forall|a: int, b: int| 0 <= a < out@.len() && 0 <= b < out@.len() && a != b
                    implies (#[trigger] out@[a]).voter != (#[trigger] out@[b]).voter by {
                    if a < before.len() && b < before.len() {
                        assert(out@[a] == before[a] && out@[b] == before[b]);
                    } else if a < before.len() {
                        assert(out@[a] == before[a]);
                        let j = choose|j: int| 0 <= j < i && vote_view(#[trigger] votes@[j]) == vote_view(#[trigger] before[a]);
                        assert(votes@[j].voter != votes@[i as int].voter);
                    } else if b < before.len() {
                        assert(out@[b] == before[b]);
                        let j = choose|j: int| 0 <= j < i && vote_view(#[trigger] votes@[j]) == vote_view(#[trigger] before[b]);
                        assert(votes@[j].voter != votes@[i as int].voter);
                    }
                }
                assert forall|k: int| 0 <= k < out@.len() implies (#[trigger] out@[k]).outcome == outcome by {
                    if k < before.len() {
                        assert(out@[k] == before[k]);
                    }
                }
            }
        } else {
            proof {
                assert forall|k: int| 0 <= k < out@.len() implies exists|j: int| 0 <= j < i + 1 && vote_view(#[trigger] votes@[j]) == vote_view(#[trigger] out@[k]) by {
                    let j = choose|j: int| 0 <= j < i && vote_view(#[trigger] votes@[j]) == vote_view(#[trigger] out@[k]);
                    assert(0 <= j < i + 1);
                }
            }
        }
        i = i + 1;
    }
    proof {
        assert(bs.take(votes@.len() as int) =~= bs);
        assert(vs.take(votes@.len() as int) =~= vs);
    }
    out
}

/// Whether `voter` has a vote among `votes`.
pub open spec fn has_vote(votes: Seq<Vote>, voter: u64) -> bool {
    exists|i: int| 0 <= i < votes.len() && (#[trigger] votes[i]).voter == voter
}

/// Collects the votes of one market's committee until an outcome reaches the
/// threshold. `member_keys` holds the members' public keys; a member is
/// known by its position there.
#[derive(Clone, Debug)]
pub struct CommitteeResolver {
    pub market_id: String,
    pub member_keys: Vec<Vec<u8>>,
    pub votes: Vec<Vote>,
    pub finalized: Option<bool>,
}

/// A resolver finalizes an outcome only with strictly more than half of the
/// committee behind it, counted as distinct members with valid signatures.
pub proof fn lemma_finalization_needs_majority(res: CommitteeResolver)
    requires
        res.wf(),
        res.finalized.is_some(),
    ensures
        signed_votes(res.member_keys@, res.market_id@, res.votes@),
        reaches_quorum(
            agreeing_count(ballots(res.votes@), res.finalized.unwrap()),
            res.member_keys@.len(),
        ),
{
}

impl CommitteeResolver {
    /// Recorded votes carry their members' valid signatures, one per member,
    /// and an outcome is finalized only with strictly more than half of the
    /// committee behind it.
    pub open spec fn wf(&self) -> bool {
        &&& signed_votes(self.member_keys@, self.market_id@, self.votes@)
        &&& voters_distinct(self.votes@)
        &&& match self.finalized {
            Some(o) => reaches_quorum(agreeing_count(ballots(self.votes@), o), self.member_keys@.len()),
            None => true,
        }
    }

    /// Whether a vote from `voter` for `outcome` with `signature` is signed
    /// by that member.
    pub open spec fn vote_signed(&self, voter: u64, outcome: bool, signature: Seq<u8>) -> bool {
        &&& voter < self.member_keys@.len()
        &&& ed25519_verifies(
            self.member_keys@[voter as int]@,
            vote_statement(self.market_id@, outcome),
            signature,
        )
    }

    /// A resolver for `market_id` with no votes yet.
    pub fn new(market_id: String, member_keys: Vec<Vec<u8>>) -> (r: CommitteeResolver)
        ensures
            r.wf(),
            r.market_id == market_id,
            r.member_keys == member_keys,
            r.votes@.len() == 0,
            r.finalized.is_none(),
    {
        CommitteeResolver { market_id, member_keys, votes: Vec::new(), finalized: None }
    }

    /// Whether `voter` already has a recorded vote.
    pub fn has_voted(&self, voter: u64) -> (r: bool)
        ensures
            r == has_vote(self.votes@, voter),
    {
        let mut i: usize = 0;
        while i < self.votes.len()
            invariant
                i <= self.votes@.len(),
                forall|k: int| 0 <= k < i ==> (#[trigger] self.votes@[k]).voter != voter,
            decreases self.votes.len() - i,
        {
            if self.votes[i].voter == voter {
                return true;
            }
            i = i + 1;
        }
        false
    }

    /// Records a vote. A vote is taken only while no outcome is finalized,
    /// from a member with no recorded vote, and with that member's valid
    /// signature of the vote statement; otherwise nothing changes. Once the
    /// vote's outcome has strictly more than half of the committee behind
    /// it, the resolver finalizes and returns the resolution carrying the
    /// votes for that outcome, which prove it to this committee. Votes for
    /// the other outcome stay recorded in the resolver but are not part of
    /// the proof.
    pub fn submit_vote(&mut self, voter: u64, outcome: bool, signature: Vec<u8>) -> (r: Option<FinalizedResolution>)
        requires
            old(self).wf(),
        ensures
            final(self).wf(),
            ({
                let accepted = old(self).finalized.is_none() && old(self).vote_signed(voter, outcome, signature@)
                    && !has_vote(old(self).votes@, voter);
                &&& !accepted ==> r.is_none() && *final(self) == *old(self)
                &&& accepted ==> {
                    &&& final(self).market_id == old(self).market_id
                    &&& final(self).member_keys == old(self).member_keys
                    &&& final(self).votes@ == old(self).votes@.push(Vote { voter, outcome, signature })
                    &&& r.is_some() == reaches_quorum(
                        agreeing_count(ballots(final(self).votes@), outcome),
                        old(self).member_keys@.len(),
                    )
                    &&& r.is_some() ==> final(self).finalized == Some(outcome)
                        && r.unwrap().outcome == outcome
                        && votes_view(r.unwrap().votes@) == votes_for(votes_view(final(self).votes@), outcome)
                        && committee_proves(old(self).member_keys@, old(self).market_id@, r.unwrap().votes@, outcome)
                    &&& r.is_none() ==> final(self).finalized.is_none()
                }
            }),
    {
        if self.finalized.is_some() || voter >= self.member_keys.len() as u64 {
            return None;
        }
        let statement = vote_statement_bytes(self.market_id.as_str(), outcome);
        if !signature_verifies(self.member_keys[voter as usize].as_slice(), statement.as_slice(), signature.as_slice()) {
            return None;
        }
        if self.has_voted(voter) {
            return None;
        }
        let ghost before = self.votes@;
        self.votes.push(Vote { voter, outcome, signature });
        proof {
            assert forall|i: int, j: int|
                0 <= i < self.votes@.len() && 0 <= j < self.votes@.len() && i != j
                    implies (#[trigger] self.votes@[i]).voter != (#[trigger] self.votes@[j]).voter by {
                if i == before.len() {
                    assert(before[j] == self.votes@[j]);
                } else if j == before.len() {
                    assert(before[i] == self.votes@[i]);
                }
            }
            assert forall|i: int| 0 <= i < self.votes@.len() implies {
                &&& (#[trigger] self.votes@[i]).voter < self.member_keys@.len()
                &&& ed25519_verifies(
                    self.member_keys@[self.votes@[i].voter as int]@,
                    vote_statement(self.market_id@, self.votes@[i].outcome),
                    self.votes@[i].signature@,
                )
            } by {
                if i < before.len() {
                    assert(before[i] == self.votes@[i]);
                }
            }
        }
        let count = tally(&self.votes, outcome);
        if (count as u128) * 2 > self.member_keys.len() as u128 {
            self.finalized = Some(outcome);
            let copies = agreeing_copies(&self.votes, outcome);
            proof {
                assert forall|k: int| 0 <= k < copies@.len() implies {
                    &&& (#[trigger] copies@[k]).voter < self.member_keys@.len()
                    &&& ed25519_verifies(
                        self.member_keys@[copies@[k].voter as int]@,
                        vote_statement(self.market_id@, copies@[k].outcome),
                        copies@[k].signature@,
                    )
                } by {
                    let j = choose|j: int| 0 <= j < self.votes@.len() && vote_view(#[trigger] self.votes@[j]) == vote_view(#[trigger] copies@[k]);
                    assert(self.votes@[j].voter == copies@[k].voter);
                }
            }
            Some(FinalizedResolution { outcome, votes: copies })
        } else {
            None
        }
    }
}

} // verus!
