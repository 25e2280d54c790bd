use ed25519_dalek::{Signer, SigningKey};
use oddsstream::attestation::{AttestationVerdict, TeeOracle};
use oddsstream::committee::Vote;
use oddsstream::committee::CommitteeResolver;
use oddsstream::market::{MarketError, MarketMessage, MarketState, MarketStatus};
use oddsstream::oracle::{committee_resolution, OracleType, ResolutionProof};
use oddsstream::payout::Stake;
use oddsstream::pricing::{Order, Side};

fn enclave() -> SigningKey {
    SigningKey::from_bytes(&[7u8; 32])
}

fn enclave_key() -> Vec<u8> {
    enclave().verifying_key().to_bytes().to_vec()
}

fn member(i: u64) -> SigningKey {
    SigningKey::from_bytes(&[100 + i as u8; 32])
}

fn member_keys(n: u64) -> Vec<Vec<u8>> {
    (0..n).map(|i| member(i).verifying_key().to_bytes().to_vec()).collect()
}

/// A vote of member `voter` for `outcome` on `market_id`, signed by that member.
fn signed_vote(market_id: &str, voter: u64, outcome: bool) -> Vote {
    let statement = format!("{}{}", market_id, outcome);
    Vote { voter, outcome, signature: member(voter).sign(statement.as_bytes()).to_bytes().to_vec() }
}

fn tee_market(id: &str) -> MarketState {
    MarketState::new(
        id.to_string(),
        "Will it rain?".to_string(),
        900,
        OracleType::FastTee { public_key: enclave_key() },
        1_800_000_000,
    )
}

fn oracle() -> TeeOracle {
    TeeOracle {
        tee_public_key: enclave_key(),
        attestation_service_url: "https://attest.example".to_string(),
    }
}

fn good_verdict() -> AttestationVerdict {
    AttestationVerdict { quote_authentic: true, attested_key: enclave_key() }
}

fn attestation(market_id: &str, outcome: bool, timestamp: u64) -> ResolutionProof {
    let statement = oracle().create_resolution_signature(market_id, outcome, timestamp);
    let signature = enclave().sign(&statement).to_bytes().to_vec();
    ResolutionProof::Attestation { timestamp, statement, quote: vec![0x51, 0x55], signature }
}

fn order(id: u64, side: Side, amount: u64) -> Order {
    Order { id, side, amount }
}

#[test]
fn single_buy_on_empty_market() {
    let mut m = tee_market("m");
    let yes = m.yes_odds();
    let no = m.no_odds();
    assert_eq!((yes.num, yes.den), (1, 2));
    assert_eq!((no.num, no.den), (1, 2));
    let receipt = m.apply_order_batch(7, &vec![order(1, Side::BuyYes, 100)], 1).unwrap();
    assert_eq!(receipt.total_cost, 50);
    assert_eq!(receipt.order_ids, vec![1]);
    assert_eq!(m.pool_yes, 100);
    assert_eq!(m.pool_no, 0);
    let yes = m.yes_odds();
    let no = m.no_odds();
    assert_eq!((yes.num, yes.den), (0, 100));
    assert_eq!((no.num, no.den), (100, 100));
}

#[test]
fn batch_prices_each_order_at_running_odds() {
    let mut m = tee_market("m");
    let batch = vec![order(1, Side::BuyYes, 100), order(2, Side::BuyNo, 50)];
    let receipt = m.apply_order_batch(7, &batch, 1).unwrap();
    // 100 at 1/2, then 50 at no-odds 100/100.
    assert_eq!(receipt.total_cost, 100);
    assert_eq!(receipt.order_ids, vec![1, 2]);
    assert_eq!(m.pool_yes, 100);
    assert_eq!(m.pool_no, 50);
    let yes = m.yes_odds();
    let no = m.no_odds();
    assert_eq!((yes.num, yes.den), (50, 150));
    assert_eq!((no.num, no.den), (100, 150));
}

#[test]
fn cost_rounds_down() {
    let mut m = tee_market("m");
    m.apply_order_batch(1, &vec![order(1, Side::BuyYes, 2), order(2, Side::BuyNo, 1)], 1).unwrap();
    // pools 2/1: yes odds 1/3, so 10 yes costs floor(10/3) = 3.
    let receipt = m.apply_order_batch(2, &vec![order(3, Side::BuyYes, 10)], 1).unwrap();
    assert_eq!(receipt.total_cost, 3);
    let receipt = m.apply_order_batch(3, &vec![order(4, Side::BuyYes, 1)], 1).unwrap();
    assert_eq!(receipt.total_cost, 0);
}

#[test]
fn odd_amount_on_empty_market_rounds_down() {
    let mut m = tee_market("m");
    let receipt = m.apply_order_batch(1, &vec![order(1, Side::BuyNo, 7)], 1).unwrap();
    assert_eq!(receipt.total_cost, 3);
}

#[test]
fn pools_grow_and_odds_sum_to_one() {
    let mut m = tee_market("m");
    let batches = vec![
        vec![order(1, Side::BuyYes, 30)],
        vec![order(2, Side::BuyNo, 70), order(3, Side::BuyYes, 5)],
        vec![order(4, Side::BuyNo, 1)],
    ];
    let mut last = (0u64, 0u64);
    for (k, b) in batches.iter().enumerate() {
        m.apply_order_batch(4, b, k as u64 + 1).unwrap();
        assert!(m.pool_yes >= last.0 && m.pool_no >= last.1);
        last = (m.pool_yes, m.pool_no);
        let yes = m.yes_odds();
        let no = m.no_odds();
        assert_eq!(yes.den, no.den);
        assert_eq!(yes.num + no.num, yes.den);
    }
    assert_eq!(last, (35, 71));
}

#[test]
fn replayed_nonce_is_rejected() {
    let mut m = tee_market("m");
    m.apply_order_batch(9, &vec![order(1, Side::BuyYes, 10)], 5).unwrap();
    assert_eq!(m.last_nonce_of(9), Some(5));
    let r = m.apply_order_batch(9, &vec![order(2, Side::BuyNo, 10)], 5);
    assert_eq!(r.unwrap_err(), MarketError::ReplayRejected);
    let r = m.apply_order_batch(9, &vec![order(3, Side::BuyNo, 10)], 4);
    assert_eq!(r.unwrap_err(), MarketError::ReplayRejected);
    assert_eq!((m.pool_yes, m.pool_no), (10, 0));
    assert_eq!(m.stakes.len(), 1);
    // Another sender has its own counter; a higher nonce goes through.
    assert!(m.apply_order_batch(8, &vec![order(4, Side::BuyNo, 10)], 1).is_ok());
    assert!(m.apply_order_batch(9, &vec![order(5, Side::BuyNo, 10)], 6).is_ok());
    assert_eq!(m.last_nonce_of(9), Some(6));
    assert_eq!((m.pool_yes, m.pool_no), (10, 20));
}

#[test]
fn overflowing_batch_is_rejected_whole() {
    let mut m = tee_market("m");
    m.apply_order_batch(1, &vec![order(1, Side::BuyYes, 10)], 1).unwrap();
    let r = m.apply_order_batch(2, &vec![order(2, Side::BuyNo, u64::MAX - 10), order(3, Side::BuyNo, 1)], 1);
    assert_eq!(r.unwrap_err(), MarketError::PoolOverflow);
    assert_eq!((m.pool_yes, m.pool_no), (10, 0));
    assert_eq!(m.last_nonce_of(2), None);
    assert!(m.apply_order_batch(2, &vec![order(2, Side::BuyNo, u64::MAX - 10)], 1).is_ok());
    assert_eq!(m.pool_no, u64::MAX - 10);
}

#[test]
fn empty_batch_only_advances_nonce() {
    let mut m = tee_market("m");
    let receipt = m.apply_order_batch(3, &vec![], 2).unwrap();
    assert_eq!(receipt.total_cost, 0);
    assert!(receipt.order_ids.is_empty());
    assert_eq!(m.last_nonce_of(3), Some(2));
}

#[test]
fn valid_attestation_resolves_and_pays() {
    let mut m = tee_market("m");
    m.apply_order_batch(1, &vec![order(1, Side::BuyYes, 100)], 1).unwrap();
    m.apply_order_batch(2, &vec![order(2, Side::BuyYes, 50)], 1).unwrap();
    m.apply_order_batch(3, &vec![order(3, Side::BuyNo, 30)], 1).unwrap();
    let proof = attestation("m", true, 1234);
    assert!(m.apply_resolution(true, &proof).is_ok());
    assert_eq!(m.status, MarketStatus::Resolved(true));
    let amounts: Vec<(u64, u64)> = m.payouts.iter().map(|p| (p.owner, p.amount)).collect();
    assert_eq!(amounts, vec![(1, 120), (2, 60), (3, 0)]);
    assert_eq!(m.reserve, 0);
}

#[test]
fn payout_remainder_goes_to_reserve() {
    let mut m = tee_market("m");
    m.apply_order_batch(1, &vec![order(1, Side::BuyYes, 1), order(2, Side::BuyYes, 2)], 1).unwrap();
    m.apply_order_batch(2, &vec![order(3, Side::BuyNo, 2)], 1).unwrap();
    m.apply_resolution(true, &attestation("m", true, 1)).unwrap();
    let amounts: Vec<u64> = m.payouts.iter().map(|p| p.amount).collect();
    assert_eq!(amounts, vec![1, 3, 0]);
    assert_eq!(m.reserve, 1);
    let sum: u64 = amounts.iter().sum::<u64>() + m.reserve;
    assert_eq!(sum, m.pool_yes + m.pool_no);
}

#[test]
fn unbacked_winning_side_sends_all_to_reserve() {
    let mut m = tee_market("m");
    m.apply_order_batch(1, &vec![order(1, Side::BuyNo, 40)], 1).unwrap();
    m.apply_resolution(true, &attestation("m", true, 1)).unwrap();
    assert_eq!(m.payouts[0].amount, 0);
    assert_eq!(m.reserve, 40);
}

#[test]
fn tampered_attestation_leaves_market_open() {
    let mut m = tee_market("m");
    m.apply_order_batch(1, &vec![order(1, Side::BuyYes, 10)], 1).unwrap();
    // One altered byte of the signature.
    let altered = match attestation("m", true, 5) {
        ResolutionProof::Attestation { timestamp, statement, quote, mut signature } => {
            signature[3] ^= 0x01;
            ResolutionProof::Attestation { timestamp, statement, quote, signature }
        }
        other => other,
    };
    assert_eq!(m.apply_resolution(true, &altered).unwrap_err(), MarketError::InvalidProof);
    // Signed by another key.
    let statement = oracle().create_resolution_signature("m", true, 5);
    let stranger = SigningKey::from_bytes(&[9u8; 32]).sign(&statement).to_bytes().to_vec();
    let forged = ResolutionProof::Attestation { timestamp: 5, statement, quote: vec![], signature: stranger };
    assert_eq!(m.apply_resolution(true, &forged).unwrap_err(), MarketError::InvalidProof);
    // A signature of one statement presented with another.
    let swapped = match (attestation("m", true, 5), attestation("m", true, 6)) {
        (ResolutionProof::Attestation { signature, .. }, ResolutionProof::Attestation { timestamp, statement, quote, .. }) => {
            ResolutionProof::Attestation { timestamp, statement, quote, signature }
        }
        (other, _) => other,
    };
    assert_eq!(m.apply_resolution(true, &swapped).unwrap_err(), MarketError::InvalidProof);
    // A statement for the other outcome, or for another market, proves nothing here.
    assert_eq!(m.apply_resolution(false, &attestation("m", true, 5)).unwrap_err(), MarketError::InvalidProof);
    assert_eq!(m.apply_resolution(true, &attestation("n", true, 5)).unwrap_err(), MarketError::InvalidProof);
    // Committee votes do not resolve an enclave market.
    let votes = ResolutionProof::Committee { votes: vec![] };
    assert_eq!(m.apply_resolution(true, &votes).unwrap_err(), MarketError::InvalidProof);
    assert_eq!(m.status, MarketStatus::Open);
    assert!(m.payouts.is_empty());
}

#[test]
fn resolved_market_takes_nothing_more() {
    let mut m = tee_market("m");
    m.apply_order_batch(1, &vec![order(1, Side::BuyYes, 10)], 1).unwrap();
    m.apply_resolution(false, &attestation("m", false, 2)).unwrap();
    assert_eq!(m.status, MarketStatus::Resolved(false));
    let r = m.apply_order_batch(1, &vec![order(2, Side::BuyYes, 10)], 2);
    assert_eq!(r.unwrap_err(), MarketError::MarketClosed);
    let r = m.apply_resolution(true, &attestation("m", true, 3));
    assert_eq!(r.unwrap_err(), MarketError::MarketClosed);
    assert_eq!(m.status, MarketStatus::Resolved(false));
    assert_eq!((m.pool_yes, m.pool_no), (10, 0));
    assert_eq!(m.reserve, 10);
}

#[test]
fn execute_message_answers_with_transfer_and_confirmation() {
    let mut m = tee_market("m");
    let msg = MarketMessage::BatchedOrders {
        user_chain_id: 42,
        orders: vec![order(11, Side::BuyYes, 100), order(12, Side::BuyNo, 50)],
        nonce: 1,
    };
    let out = m.execute_message(msg).unwrap();
    assert_eq!(out.len(), 2);
    match &out[0] {
        MarketMessage::Transfer { from, to, amount } => assert_eq!((*from, *to, *amount), (42, 900, 100)),
        _ => panic!("expected a transfer"),
    }
    match &out[1] {
        MarketMessage::BatchConfirmed { user_chain_id, order_ids, total_cost } => {
            assert_eq!(*user_chain_id, 42);
            assert_eq!(order_ids, &vec![11, 12]);
            assert_eq!(*total_cost, 100);
        }
        _ => panic!("expected a confirmation"),
    }
    let replay = MarketMessage::BatchedOrders { user_chain_id: 42, orders: vec![order(13, Side::BuyYes, 1)], nonce: 1 };
    assert_eq!(m.execute_message(replay).unwrap_err(), MarketError::ReplayRejected);
    let stray = MarketMessage::Transfer { from: 1, to: 2, amount: 3 };
    assert!(m.execute_message(stray).unwrap().is_empty());
    let res = MarketMessage::Resolution { outcome: true, evidence: attestation("m", true, 9) };
    assert!(m.execute_message(res).unwrap().is_empty());
    assert_eq!(m.status, MarketStatus::Resolved(true));
}

#[test]
fn committee_of_five_resolves_on_three_votes() {
    let mut m = MarketState::new("c".to_string(), "d".to_string(), 1, OracleType::Committee { member_keys: member_keys(5) }, 0);
    m.apply_order_batch(1, &vec![order(1, Side::BuyYes, 10), order(2, Side::BuyNo, 30)], 1).unwrap();
    let mut res = CommitteeResolver::new("c".to_string(), member_keys(5));
    for voter in [0u64, 1] {
        let v = signed_vote("c", voter, false);
        assert!(res.submit_vote(v.voter, v.outcome, v.signature).is_none());
    }
    let v = signed_vote("c", 2, false);
    let fin = res.submit_vote(v.voter, v.outcome, v.signature).expect("finalized");
    assert!(!fin.outcome);
    assert_eq!(fin.votes.len(), 3);
    assert_eq!(res.finalized, Some(false));
    let late = signed_vote("c", 3, true);
    assert!(res.submit_vote(late.voter, late.outcome, late.signature).is_none());
    assert_eq!(res.votes.len(), 3);
    assert!(m.execute_message(committee_resolution(fin)).is_ok());
    assert_eq!(m.status, MarketStatus::Resolved(false));
    assert_eq!(m.payouts[1].amount, 40);
}

#[test]
fn committee_ignores_duplicate_and_unsigned_votes() {
    let mut res = CommitteeResolver::new("c".to_string(), member_keys(4));
    let v1 = signed_vote("c", 1, true);
    assert!(res.submit_vote(1, true, v1.signature.clone()).is_none());
    assert!(res.submit_vote(1, true, v1.signature.clone()).is_none());
    // Member 2's signature presented as member 3's, and a vote from no member.
    let v2 = signed_vote("c", 2, true);
    assert!(res.submit_vote(3, true, v2.signature.clone()).is_none());
    assert!(res.submit_vote(9, true, v2.signature.clone()).is_none());
    // A signature for the other outcome.
    assert!(res.submit_vote(2, false, v2.signature.clone()).is_none());
    assert_eq!(res.votes.len(), 1);
    let v0 = signed_vote("c", 0, false);
    assert!(res.submit_vote(0, false, v0.signature).is_none());
    assert!(res.submit_vote(2, true, v2.signature).is_none());
    assert_eq!(res.votes.len(), 3);
    assert_eq!(res.finalized, None);
    // Three of four is a strict majority.
    let v3 = signed_vote("c", 3, true);
    assert!(res.submit_vote(3, true, v3.signature).is_some());
    assert_eq!(res.finalized, Some(true));
}

#[test]
fn committee_proof_needs_distinct_signed_agreeing_members() {
    let keys = member_keys(3);
    let mut m = MarketState::new("c".to_string(), "d".to_string(), 1, OracleType::Committee { member_keys: keys }, 0);
    let votes = |vs: Vec<Vote>| ResolutionProof::Committee { votes: vs };
    // A member listed twice counts for nothing.
    let dup = votes(vec![signed_vote("c", 1, true), signed_vote("c", 1, true)]);
    assert_eq!(m.apply_resolution(true, &dup).unwrap_err(), MarketError::InvalidProof);
    // An altered signature spoils the proof.
    let mut bad = signed_vote("c", 2, true);
    bad.signature[0] ^= 0x80;
    let tampered = votes(vec![signed_vote("c", 1, true), bad]);
    assert_eq!(m.apply_resolution(true, &tampered).unwrap_err(), MarketError::InvalidProof);
    // Votes signed for another market.
    let elsewhere = votes(vec![signed_vote("x", 1, true), signed_vote("x", 2, true)]);
    assert_eq!(m.apply_resolution(true, &elsewhere).unwrap_err(), MarketError::InvalidProof);
    // A member signing both outcomes proves neither.
    let both = votes(vec![signed_vote("c", 1, true), signed_vote("c", 1, false)]);
    assert_eq!(m.apply_resolution(true, &both).unwrap_err(), MarketError::InvalidProof);
    assert_eq!(m.apply_resolution(false, &both).unwrap_err(), MarketError::InvalidProof);
    // One vote of three is no majority.
    let short = votes(vec![signed_vote("c", 1, true)]);
    assert_eq!(m.apply_resolution(true, &short).unwrap_err(), MarketError::InvalidProof);
    assert_eq!(m.apply_resolution(true, &attestation("c", true, 1)).unwrap_err(), MarketError::InvalidProof);
    let ok = votes(vec![signed_vote("c", 0, true), signed_vote("c", 2, true)]);
    assert_eq!(m.apply_resolution(false, &ok).unwrap_err(), MarketError::InvalidProof);
    assert_eq!(m.status, MarketStatus::Open);
    assert!(m.apply_resolution(true, &ok).is_ok());
    assert_eq!(m.status, MarketStatus::Resolved(true));
}

#[test]
fn finalized_proof_holds_only_agreeing_votes() {
    let mut res = CommitteeResolver::new("c".to_string(), member_keys(3));
    let v0 = signed_vote("c", 0, false);
    let v1 = signed_vote("c", 1, true);
    let v2 = signed_vote("c", 2, true);
    assert!(res.submit_vote(0, false, v0.signature).is_none());
    assert!(res.submit_vote(1, true, v1.signature.clone()).is_none());
    let fin = res.submit_vote(2, true, v2.signature.clone()).expect("finalized");
    assert!(fin.outcome);
    let carried: Vec<(u64, bool, Vec<u8>)> = fin.votes.iter().map(|v| (v.voter, v.outcome, v.signature.clone())).collect();
    assert_eq!(carried, vec![(1, true, v1.signature), (2, true, v2.signature)]);
    // The minority vote stays recorded for audit.
    assert_eq!(res.votes.len(), 3);
    let mut m = MarketState::new("c".to_string(), "d".to_string(), 1, OracleType::Committee { member_keys: member_keys(3) }, 0);
    assert!(m.execute_message(committee_resolution(fin)).is_ok());
    assert_eq!(m.status, MarketStatus::Resolved(true));
}

#[test]
fn hybrid_market_takes_either_proof() {
    let hybrid = OracleType::Hybrid { public_key: enclave_key(), member_keys: member_keys(1) };
    let mut a = MarketState::new("h".to_string(), "d".to_string(), 1, hybrid.clone(), 0);
    assert!(a.apply_resolution(true, &attestation("h", true, 1)).is_ok());
    let mut b = MarketState::new("h".to_string(), "d".to_string(), 1, hybrid, 0);
    let votes = ResolutionProof::Committee { votes: vec![signed_vote("h", 0, false)] };
    assert!(b.apply_resolution(false, &votes).is_ok());
    assert_eq!(b.status, MarketStatus::Resolved(false));
    // First valid resolution wins; the second one is refused.
    assert_eq!(b.apply_resolution(true, &attestation("h", true, 1)).unwrap_err(), MarketError::MarketClosed);
}

#[test]
fn test_batched_orders() {
    let mut m1 = tee_market("market-1");
    let mut m2 = tee_market("market-2");
    assert!(m1.apply_order_batch(1, &vec![order(1, Side::BuyYes, 100)], 1).is_ok());
    assert!(m2.apply_order_batch(1, &vec![order(2, Side::BuyNo, 50)], 1).is_ok());
    assert_eq!(m1.pool_yes, 100);
    assert_eq!(m2.pool_no, 50);
}

#[test]
fn test_tee_oracle_resolution() {
    let mut m = tee_market("test-market");
    let proof = attestation("test-market", true, 77);
    if let ResolutionProof::Attestation { statement, signature, .. } = &proof {
        assert!(oracle().verify_attestation(&good_verdict(), statement, signature));
    }
    assert!(m.apply_resolution(true, &proof).is_ok());
    assert!(m.status == MarketStatus::Resolved(true));
    let _ = Stake { owner: 0, side: Side::BuyYes, amount: 0 };
}
