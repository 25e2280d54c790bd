use vstd::prelude::*;
use vstd::utf8::encode_utf8;

verus! {

/// The sixteen lower-case hexadecimal digits, in order.
pub open spec fn hex_digits() -> Seq<char> {
    seq!['0', '1', '2', '3', '4', '5', '6', '7', '8', '9', 'a', 'b', 'c', 'd', 'e', 'f']
}

/// Lower-case hexadecimal text of a byte string, two digits per byte, high
/// nibble first.
pub open spec fn hex_lower(b: Seq<u8>) -> Seq<char>
    decreases b.len(),
{
    if b.len() == 0 {
        seq![]
    } else {
        hex_lower(b.drop_last()) + seq![
            hex_digits()[(b.last() / 16) as int],
            hex_digits()[(b.last() % 16) as int],
        ]
    }
}

/// Relies on hex::encode: lower-case hexadecimal, two digits per byte, high
/// nibble first.
#[verifier::external_body]
fn encode_hex(b: &[u8]) -> (r: String)
    ensures
        r@ == hex_lower(b@),
{
    hex::encode(b)
}

/// Decimal digits of `n` as ASCII bytes, most significant first.
pub open spec fn decimal_bytes(n: nat) -> Seq<u8>
    decreases n,
{
    if n < 10 {
        seq![(48 + n) as u8]
    } else {
        decimal_bytes(n / 10).push((48 + n % 10) as u8)
    }
}

/// ASCII text of a boolean outcome.
pub open spec fn outcome_bytes(outcome: bool) -> Seq<u8> {
    if outcome {
        seq![116u8, 114u8, 117u8, 101u8]
    } else {
        seq![102u8, 97u8, 108u8, 115u8, 101u8]
    }
}

/// The statement an enclave signs to resolve a market: the market
/// identifier, the outcome as `true` / `false` and the decimal timestamp,
/// written one after another.
pub open spec fn resolution_statement(market_id: Seq<char>, outcome: bool, timestamp: nat) -> Seq<u8> {
    encode_utf8(market_id) + outcome_bytes(outcome) + decimal_bytes(timestamp)
}

/// Statements for opposite outcomes differ, whatever their timestamps.
pub proof fn lemma_statement_binds_outcome(market_id: Seq<char>, outcome: bool, timestamp: nat, other: nat)
    ensures
        resolution_statement(market_id, outcome, timestamp) != resolution_statement(market_id, !outcome, other),
{
    let k = encode_utf8(market_id).len() as int;
    let a = resolution_statement(market_id, outcome, timestamp);
    let b = resolution_statement(market_id, !outcome, other);
    assert(a[k] == outcome_bytes(outcome)[0]);
    assert(b[k] == outcome_bytes(!outcome)[0]);
}

fn push_decimal(out: &mut Vec<u8>, n: u64)
    ensures
        final(out)@ == old(out)@ + decimal_bytes(n as nat),
    decreases n,
{
    if n >= 10 {
        push_decimal(out, n / 10);
    }
    out.push((48 + n % 10) as u8);
    proof {
        assert(final(out)@ =~= old(out)@ + decimal_bytes(n as nat));
    }
}

/// The bytes of the resolution statement for `market_id`, `outcome` and
/// `timestamp`.
pub fn statement_bytes(market_id: &str, outcome: bool, timestamp: u64) -> (r: Vec<u8>)
    ensures
        r@ == resolution_statement(market_id@, outcome, timestamp as nat),
{
    let mut out: Vec<u8> = Vec::new();
    out.extend_from_slice(market_id.as_bytes());
    if outcome {
        out.push(116u8);
        out.push(114u8);
        out.push(117u8);
        out.push(101u8);
    } else {
        out.push(102u8);
        out.push(97u8);
        out.push(108u8);
        out.push(115u8);
        out.push(101u8);
    }
    push_decimal(&mut out, timestamp);
    proof {
        assert(out@ =~= resolution_statement(market_id@, outcome, timestamp as nat));
    }
    out
}

/// The statement a committee member signs to vote: the market identifier
/// followed by the outcome as `true` / `false`.
pub open spec fn vote_statement(market_id: Seq<char>, outcome: bool) -> Seq<u8> {
    encode_utf8(market_id) + outcome_bytes(outcome)
}

/// The bytes of the vote statement for `market_id` and `outcome`.
pub fn vote_statement_bytes(market_id: &str, outcome: bool) -> (r: Vec<u8>)
    ensures
        r@ == vote_statement(market_id@, outcome),
{
    let mut out: Vec<u8> = Vec::new();
    out.extend_from_slice(market_id.as_bytes());
    if outcome {
        out.push(116u8);
        out.push(114u8);
        out.push(117u8);
        out.push(101u8);
    } else {
        out.push(102u8);
        out.push(97u8);
        out.push(108u8);
        out.push(115u8);
        out.push(101u8);
    }
    proof {
        assert(out@ =~= vote_statement(market_id@, outcome));
    }
    out
}

/// Whether `sig` is a valid Ed25519 signature of `msg` under the public key
/// `key` (strict verification). Malformed keys and signatures are no valid
/// signature.
pub uninterp spec fn ed25519_verifies(key: Seq<u8>, msg: Seq<u8>, sig: Seq<u8>) -> bool;

/// Relies on ed25519_dalek::VerifyingKey::verify_strict, with
/// VerifyingKey::from_bytes and Signature::from_slice reading the key and
/// the signature: the verdict depends on the three byte strings alone, and
/// a key that is not 32 valid bytes or a signature that is not 64 bytes
/// fails.
#[verifier::external_body]
pub(crate) fn signature_verifies(key: &[u8], msg: &[u8], sig: &[u8]) -> (r: bool)
    ensures
        r == ed25519_verifies(key@, msg@, sig@),
{
    let key: [u8; 32] = match key.try_into() {
        Ok(k) => k,
        Err(_) => return false,
    };
    let key = match ed25519_dalek::VerifyingKey::from_bytes(&key) {
        Ok(k) => k,
        Err(_) => return false,
    };
    match ed25519_dalek::Signature::from_slice(sig) {
        Ok(sig) => key.verify_strict(msg, &sig).is_ok(),
        Err(_) => false,
    }
}

/// Byte-wise equality of two byte strings.
pub fn bytes_equal(a: &Vec<u8>, b: &Vec<u8>) -> (r: bool)
    ensures
        r == (a@ == b@),
{
    if a.len() != b.len() {
        return false;
    }
    let mut i: usize = 0;
    while i < a.len()
        invariant
            a@.len() == b@.len(),
            i <= a@.len(),
            forall|k: int| 0 <= k < i ==> a@[k] == b@[k],
        decreases a.len() - i,
    {
        if a[i] != b[i] {
            return false;
        }
        i = i + 1;
    }
    proof {
        assert(a@ =~= b@);
    }
    true
}

/// What the attestation service reported of a quote: whether it
/// authenticates as issued by a recognised enclave, and the public key it
/// attests to.
#[derive(Clone, Debug)]
pub struct AttestationVerdict {
    pub quote_authentic: bool,
    pub attested_key: Vec<u8>,
}

/// An attestation is accepted only when both checks pass: the quote is
/// authentic for the expected key, and `signature` is a valid signature of
/// `event_data` under that key.
pub open spec fn attestation_accepted(
    v: AttestationVerdict,
    tee_public_key: Seq<u8>,
    event_data: Seq<u8>,
    signature: Seq<u8>,
) -> bool {
    &&& v.quote_authentic
    &&& v.attested_key@ == tee_public_key
    &&& ed25519_verifies(tee_public_key, event_data, signature)
}

/// Whether an attestation for the enclave key `tee_public_key` stands.
pub fn attestation_holds(
    verdict: &AttestationVerdict,
    tee_public_key: &Vec<u8>,
    event_data: &Vec<u8>,
    signature: &Vec<u8>,
) -> (r: bool)
    ensures
        r == attestation_accepted(*verdict, tee_public_key@, event_data@, signature@),
{
    verdict.quote_authentic && bytes_equal(&verdict.attested_key, tee_public_key)
        && signature_verifies(tee_public_key.as_slice(), event_data.as_slice(), signature.as_slice())
}

/// The body of a request to the attestation service.
#[derive(Clone, Debug)]
pub struct AttestationRequest {
    pub quote: String,
    pub public_key: String,
}

/// A trusted-execution oracle: the enclave's Ed25519 public key and the
/// service that authenticates quotes.
#[derive(Clone, Debug)]
pub struct TeeOracle {
    pub tee_public_key: Vec<u8>,
    pub attestation_service_url: String,
}

impl TeeOracle {
    /// The request that asks the attestation service about `quote`: the
    /// quote and the expected enclave key, both in lower-case hexadecimal.
    pub fn attestation_request(&self, quote: &[u8]) -> (r: AttestationRequest)
        ensures
            r.quote@ == hex_lower(quote@),
            r.public_key@ == hex_lower(self.tee_public_key@),
    {
        AttestationRequest { quote: encode_hex(quote), public_key: encode_hex(self.tee_public_key.as_slice()) }
    }

    /// Whether an attestation stands: the attestation service found the
    /// quote authentic for this oracle's key, and `signature` verifies over
    /// `event_data` under that key. A transport failure is reported by the
    /// caller as an inauthentic quote, so it never counts as success.
    pub fn verify_attestation(&self, verdict: &AttestationVerdict, event_data: &Vec<u8>, signature: &Vec<u8>) -> (r: bool)
        ensures
            r == attestation_accepted(*verdict, self.tee_public_key@, event_data@, signature@),
    {
        attestation_holds(verdict, &self.tee_public_key, event_data, signature)
    }

    /// The resolution statement for `market_id`, `outcome` and `timestamp`,
    /// which the enclave signs with its private key.
    pub fn create_resolution_signature(&self, market_id: &str, outcome: bool, timestamp: u64) -> (r: Vec<u8>)
        ensures
            r@ == resolution_statement(market_id@, outcome, timestamp as nat),
    {
        statement_bytes(market_id, outcome, timestamp)
    }
}

} // verus!
