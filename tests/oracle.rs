use ed25519_dalek::{Signer, SigningKey};
use oddsstream::attestation::{AttestationVerdict, TeeOracle};
use oddsstream::market::MarketMessage;
use oddsstream::oracle::{process_request, Adjudication, AttestedOutcome, OracleRequest, ResolutionProof};

fn enclave() -> SigningKey {
    SigningKey::from_bytes(&[3u8; 32])
}

fn tee() -> TeeOracle {
    TeeOracle {
        tee_public_key: enclave().verifying_key().to_bytes().to_vec(),
        attestation_service_url: "https://a.example".to_string(),
    }
}

fn verdict(authentic: bool) -> AttestationVerdict {
    AttestationVerdict { quote_authentic: authentic, attested_key: tee().tee_public_key }
}

#[test]
fn statement_spells_market_outcome_and_timestamp() {
    assert_eq!(tee().create_resolution_signature("m1", true, 1700), b"m1true1700".to_vec());
    assert_eq!(tee().create_resolution_signature("", false, 0), b"false0".to_vec());
    assert_eq!(tee().create_resolution_signature("x", false, u64::MAX), b"xfalse18446744073709551615".to_vec());
}

#[test]
fn attestation_request_hex_encodes_quote_and_key() {
    let req = tee().attestation_request(&[0xde, 0xad, 0x01, 0xff]);
    assert_eq!(req.quote, "dead01ff");
    assert_eq!(req.public_key, hex::encode(tee().tee_public_key));
    assert_eq!(req.public_key.len(), 64);
    assert_eq!(tee().attestation_request(&[]).quote, "");
}

#[test]
fn attestation_needs_both_checks() {
    let data = b"event".to_vec();
    let sig = enclave().sign(&data).to_bytes().to_vec();
    assert!(tee().verify_attestation(&verdict(true), &data, &sig));
    assert!(!tee().verify_attestation(&verdict(false), &data, &sig));
    let other_key = AttestationVerdict { attested_key: vec![1; 32], ..verdict(true) };
    assert!(!tee().verify_attestation(&other_key, &data, &sig));
    let mut altered = sig.clone();
    altered[10] ^= 0x04;
    assert!(!tee().verify_attestation(&verdict(true), &data, &altered));
    assert!(!tee().verify_attestation(&verdict(true), &b"other".to_vec(), &sig));
    assert!(!tee().verify_attestation(&verdict(true), &data, &vec![0u8; 3]));
}

fn attested(outcome: bool, timestamp: u64) -> AttestedOutcome {
    let statement = tee().create_resolution_signature("m", outcome, timestamp);
    let signature = enclave().sign(&statement).to_bytes().to_vec();
    AttestedOutcome { outcome, timestamp, statement, quote: vec![1, 2], signature, verdict: verdict(true) }
}

#[test]
fn fast_tee_request_emits_verified_resolution() {
    let req = OracleRequest::FastTee { market_id: "m".to_string(), event_source: "feed".to_string(), tee_config: tee() };
    let a = attested(true, 10);
    match process_request(req.clone(), Some(a.clone())) {
        Adjudication::Resolve { market_id, message: MarketMessage::Resolution { outcome, evidence } } => {
            assert_eq!(market_id, "m");
            assert!(outcome);
            match evidence {
                ResolutionProof::Attestation { timestamp, quote, signature, .. } => {
                    assert_eq!((timestamp, quote, signature), (10, vec![1, 2], a.signature.clone()));
                }
                _ => panic!("expected an attestation"),
            }
        }
        other => panic!("unexpected {:?}", other),
    }
    let bad = AttestedOutcome { verdict: verdict(false), ..a.clone() };
    assert!(matches!(process_request(req.clone(), Some(bad)), Adjudication::Dropped));
    let mut sig = a.signature.clone();
    sig[0] ^= 1;
    let altered = AttestedOutcome { signature: sig, ..a.clone() };
    assert!(matches!(process_request(req.clone(), Some(altered)), Adjudication::Dropped));
    let mismatched = AttestedOutcome { outcome: false, ..a };
    assert!(matches!(process_request(req.clone(), Some(mismatched)), Adjudication::Dropped));
    assert!(matches!(process_request(req, None), Adjudication::Dropped));
}

#[test]
fn committee_request_starts_empty_resolver() {
    let keys = vec![vec![1u8; 32], vec![2u8; 32]];
    let req = OracleRequest::Committee { market_id: "c".to_string(), event_source: "feed".to_string(), member_keys: keys.clone() };
    match process_request(req, None) {
        Adjudication::CollectVotes(res) => {
            assert_eq!(res.market_id, "c");
            assert_eq!(res.member_keys, keys);
            assert!(res.votes.is_empty());
            assert_eq!(res.finalized, None);
        }
        other => panic!("unexpected {:?}", other),
    }
}
