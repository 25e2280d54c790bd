use vstd::prelude::*;
use crate::attestation::{
    attestation_accepted, attestation_holds, bytes_equal, ed25519_verifies, resolution_statement,
    signature_verifies, statement_bytes, AttestationVerdict, TeeOracle,
};
use crate::committee::{
    committee_evidence_holds, committee_proves, CommitteeResolver, FinalizedResolution, Vote,
};
use crate::market::MarketMessage;

verus! {

/// How a market is resolved: by a statement signed with the enclave key
/// `public_key`, by a committee whose members' public keys are
/// `member_keys`, or by whichever of the two delivers a valid proof first.
#[derive(Clone, Debug)]
pub enum OracleType {
    FastTee { public_key: Vec<u8> },
    Committee { member_keys: Vec<Vec<u8>> },
    Hybrid { public_key: Vec<u8>, member_keys: Vec<Vec<u8>> },
}

/// The evidence that comes with a resolution.
#[derive(Clone, Debug)]
pub enum ResolutionProof {
    /// A statement signed inside an enclave: the statement, its timestamp,
    /// the enclave's quote (kept for audit) and its signature of the
    /// statement.
    Attestation { timestamp: u64, statement: Vec<u8>, quote: Vec<u8>, signature: Vec<u8> },
    /// The committee votes gathered for the outcome.
    Committee { votes: Vec<Vote> },
}

/// A signed statement proves `outcome` for `market_id` when it is exactly
/// the statement of that market, outcome and timestamp, and `signature` is
/// a valid signature of it under the enclave key `public_key`.
pub open spec fn attestation_proves(
    public_key: Seq<u8>,
    market_id: Seq<char>,
    outcome: bool,
    timestamp: nat,
    statement: Seq<u8>,
    signature: Seq<u8>,
) -> bool {
    &&& statement == resolution_statement(market_id, outcome, timestamp)
    &&& ed25519_verifies(public_key, statement, signature)
}

/// Whether `evidence` establishes `outcome` for `market_id` under `oracle`.
pub open spec fn proof_verifies(oracle: OracleType, market_id: Seq<char>, outcome: bool, evidence: ResolutionProof) -> bool {
    match evidence {
        ResolutionProof::Attestation { timestamp, statement, quote, signature } => {
            match oracle {
                OracleType::FastTee { public_key } => attestation_proves(
                    public_key@, market_id, outcome, timestamp as nat, statement@, signature@),
                OracleType::Hybrid { public_key, member_keys } => attestation_proves(
                    public_key@, market_id, outcome, timestamp as nat, statement@, signature@),
                OracleType::Committee { member_keys } => false,
            }
        },
        ResolutionProof::Committee { votes } => {
            match oracle {
                OracleType::Committee { member_keys } => committee_proves(member_keys@, market_id, votes@, outcome),
                OracleType::Hybrid { public_key, member_keys } => committee_proves(member_keys@, market_id, votes@, outcome),
                OracleType::FastTee { public_key } => false,
            }
        },
    }
}

fn attestation_check(
    public_key: &Vec<u8>,
    market_id: &str,
    outcome: bool,
    timestamp: u64,
    statement: &Vec<u8>,
    signature: &Vec<u8>,
) -> (r: bool)
    ensures
        r == attestation_proves(public_key@, market_id@, outcome, timestamp as nat, statement@, signature@),
{
    let expected = statement_bytes(market_id, outcome, timestamp);
    bytes_equal(statement, &expected)
        && signature_verifies(public_key.as_slice(), statement.as_slice(), signature.as_slice())
}

/// Verifies resolution evidence under a market's oracle configuration: an
/// attestation only where the market accepts enclave proofs, checking the
/// signature under the market's enclave key; committee votes only where it
/// accepts committee proofs, checking each vote's signature under its
/// member's key.
pub fn verify_proof(oracle: &OracleType, market_id: &str, outcome: bool, evidence: &ResolutionProof) -> (r: bool)
    ensures
        r == proof_verifies(*oracle, market_id@, outcome, *evidence),
{
    match evidence {
        ResolutionProof::Attestation { timestamp, statement, quote: _, signature } => {
            match oracle {
                OracleType::FastTee { public_key } => attestation_check(
                    public_key, market_id, outcome, *timestamp, statement, signature),
                OracleType::Hybrid { public_key, member_keys: _ } => attestation_check(
                    public_key, market_id, outcome, *timestamp, statement, signature),
                OracleType::Committee { member_keys: _ } => false,
            }
        },
        ResolutionProof::Committee { votes } => {
            match oracle {
                OracleType::Committee { member_keys } => committee_evidence_holds(member_keys, market_id, votes, outcome),
                OracleType::Hybrid { public_key: _, member_keys } => committee_evidence_holds(member_keys, market_id, votes, outcome),
                OracleType::FastTee { public_key: _ } => false,
            }
        },
    }
}

/// A request to resolve a market, naming the event whose outcome decides it
/// and the oracle path to take.
#[derive(Clone, Debug)]
pub enum OracleRequest {
    FastTee { market_id: String, event_source: String, tee_config: TeeOracle },
    Committee { market_id: String, event_source: String, member_keys: Vec<Vec<u8>> },
}

/// What the enclave path brought back for a request: the fetched outcome,
/// the signed statement with its timestamp, the enclave's quote and
/// signature, and the attestation service's verdict on the quote.
#[derive(Clone, Debug)]
pub struct AttestedOutcome {
    pub outcome: bool,
    pub timestamp: u64,
    pub statement: Vec<u8>,
    pub quote: Vec<u8>,
    pub signature: Vec<u8>,
    pub verdict: AttestationVerdict,
}

/// The adjudicator's decision on a request.
#[derive(Clone, Debug)]
pub enum Adjudication {
    /// Send this resolution to the market `market_id`.
    Resolve { market_id: String, message: MarketMessage },
    /// Emit nothing; the caller may retry with fresh data.
    Dropped,
    /// Gather committee votes with this resolver.
    CollectVotes(CommitteeResolver),
}

/// Decides what becomes of a resolution request. On the enclave path a
/// resolution is emitted only when the signed statement is that of the
/// request's market and the fetched outcome, the quote is authentic for the
/// enclave key and the signature verifies under it; without an attestation
/// (the service was unreachable) or with a failing one, the request is
/// dropped. On the committee path vote collection starts with an empty
/// resolver for the given members.
pub fn process_request(request: OracleRequest, attested: Option<AttestedOutcome>) -> (r: Adjudication)
    ensures
        match request {
            OracleRequest::FastTee { market_id, event_source, tee_config } => match attested {
                Some(a) => if a.statement@ == resolution_statement(market_id@, a.outcome, a.timestamp as nat)
                    && attestation_accepted(a.verdict, tee_config.tee_public_key@, a.statement@, a.signature@) {
                    r == Adjudication::Resolve {
                        market_id,
                        message: MarketMessage::Resolution {
                            outcome: a.outcome,
                            evidence: ResolutionProof::Attestation {
                                timestamp: a.timestamp,
                                statement: a.statement,
                                quote: a.quote,
                                signature: a.signature,
                            },
                        },
                    }
                } else {
                    r == Adjudication::Dropped
                },
                None => r == Adjudication::Dropped,
            },
            OracleRequest::Committee { market_id, event_source, member_keys } => match r {
                Adjudication::CollectVotes(res) => {
                    &&& res.wf()
                    &&& res.market_id == market_id
                    &&& res.member_keys == member_keys
                    &&& res.votes@.len() == 0
                    &&& res.finalized.is_none()
                },
                _ => false,
            },
        },
{
    match request {
        OracleRequest::FastTee { market_id, event_source: _, tee_config } => match attested {
            Some(a) => {
                let expected = statement_bytes(market_id.as_str(), a.outcome, a.timestamp);
                if bytes_equal(&a.statement, &expected)
                    && attestation_holds(&a.verdict, &tee_config.tee_public_key, &a.statement, &a.signature)
                {
                    Adjudication::Resolve {
                        market_id,
                        message: MarketMessage::Resolution {
                            outcome: a.outcome,
                            evidence: ResolutionProof::Attestation {
                                timestamp: a.timestamp,
                                statement: a.statement,
                                quote: a.quote,
                                signature: a.signature,
                            },
                        },
                    }
                } else {
                    Adjudication::Dropped
                }
            },
            None => Adjudication::Dropped,
        },
        OracleRequest::Committee { market_id, event_source: _, member_keys } => {
            Adjudication::CollectVotes(CommitteeResolver::new(market_id, member_keys))
        },
    }
}

/// The resolution message that carries a finalized committee outcome to its
/// market, with the votes as evidence.
pub fn committee_resolution(finalized: FinalizedResolution) -> (r: MarketMessage)
    ensures
        r == (MarketMessage::Resolution {
            outcome: finalized.outcome,
            evidence: ResolutionProof::Committee { votes: finalized.votes },
        }),
{
    MarketMessage::Resolution {
        outcome: finalized.outcome,
        evidence: ResolutionProof::Committee { votes: finalized.votes },
    }
}

} // verus!
