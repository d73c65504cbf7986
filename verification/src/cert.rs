//! Detached Ed25519 signatures over a certificate's canonical bytes.
//! Anyone holding a public key can verify a certificate offline: the
//! signature block records the signer's key id, the SHA-256 of the signed
//! bytes, and the signature.

use vstd::prelude::*;

use crate::crypto::{b64_decode, b64_decode_of, b64_error_of, ed_key_error_of, ed_verify_error_of, b64_encode, b64_spec, ed25519_check_key, ed25519_public_key, ed25519_sign, ed25519_verify, ed_key_valid, ed_public_of, ed_sign_of, ed_verify_ok, hex_digit, hex_encode, hex_spec, random_seed, sha256, sha256_of};
use crate::text::append_str;

verus! {

/// Errors of signing and verification.
#[derive(Debug, PartialEq, Eq)]
pub enum CertError {
    Signing(String),
    Verification(String),
    Serialization(String),
    Invalid(String),
}

/// The text of a certificate error.
pub open spec fn cert_error_text(e: CertError) -> Seq<char> {
    match e {
        CertError::Signing(s) => "signing failed: "@ + s@,
        CertError::Verification(s) => "verification failed: "@ + s@,
        CertError::Serialization(s) => "serialization failed: "@ + s@,
        CertError::Invalid(s) => "invalid input: "@ + s@,
    }
}

impl CertError {
    /// The operator-facing text of this error.
    pub fn message(&self) -> (r: String)
        ensures
            r@ == cert_error_text(*self),
    {
        let (prefix, s) = match self {
            CertError::Signing(s) => ("signing failed: ", s),
            CertError::Verification(s) => ("verification failed: ", s),
            CertError::Serialization(s) => ("serialization failed: ", s),
            CertError::Invalid(s) => ("invalid input: ", s),
        };
        let mut out = String::from_str(prefix);
        append_str(&mut out, s.as_str());
        out
    }
}

/// A private signing key, held as its 32-byte secret seed.
pub struct SigningKey {
    seed: [u8; 32],
}

/// A public verifying key, held as its 32-byte encoding.
pub struct VerifyingKey {
    bytes: [u8; 32],
}

impl View for SigningKey {
    type V = Seq<u8>;

    closed spec fn view(&self) -> Seq<u8> {
        self.seed@
    }
}

impl View for VerifyingKey {
    type V = Seq<u8>;

    closed spec fn view(&self) -> Seq<u8> {
        self.bytes@
    }
}

/// Key id text: `ed25519:` and the unpadded base64 of the first sixteen
/// bytes of the key's SHA-256.
pub open spec fn key_id_of(pk: Seq<u8>) -> Seq<char> {
    "ed25519:"@ + b64_spec(sha256_of(pk).subrange(0, 16))
}

/// The first sixteen bytes of a hash, as a vector.
fn first16(h: &Vec<u8>) -> (r: Vec<u8>)
    requires
        h@.len() >= 16,
    ensures
        r@ == h@.subrange(0, 16),
{
    let mut out: Vec<u8> = Vec::new();
    for i in 0..16usize
        invariant
            h@.len() >= 16,
            out@ == h@.subrange(0, i as int),
    {
        out.push(h[i]);
        assert(out@ == h@.subrange(0, i + 1));
    }
    out
}

fn key_id_text(pk: &[u8; 32]) -> (r: String)
    ensures
        r@ == key_id_of(pk@),
{
    let h = sha256(pk);
    let head = first16(&h);
    let enc = b64_encode(head.as_slice());
    let mut out = String::from_str("ed25519:");
    append_str(&mut out, enc.as_str());
    out
}

impl SigningKey {
    /// A fresh key from the operating system's random generator.
    pub fn generate() -> (r: Self) {
        SigningKey { seed: random_seed() }
    }

    /// The key with this secret seed.
    pub fn from_seed(seed: [u8; 32]) -> (r: Self)
        ensures
            r@ == seed@,
    {
        SigningKey { seed }
    }

    /// The secret seed, for writing to an offline signer's key file.
    pub fn seed_bytes(&self) -> (r: [u8; 32])
        ensures
            r@ == self@,
    {
        self.seed
    }

    /// The matching public key.
    pub fn verifying_key(&self) -> (r: VerifyingKey)
        ensures
            r@ == ed_public_of(self@),
            ed_key_valid(r@),
    {
        VerifyingKey { bytes: ed25519_public_key(&self.seed) }
    }

    /// The id of the matching public key.
    pub fn public_key_id(&self) -> (r: String)
        ensures
            r@ == key_id_of(ed_public_of(self@)),
    {
        self.verifying_key().public_key_id()
    }
}

impl VerifyingKey {
    /// Accept 32 bytes as a public key when they encode one.
    pub fn from_bytes(bytes: &[u8; 32]) -> (r: Result<VerifyingKey, CertError>)
        ensures
            match r {
                Ok(k) => ed_key_valid(bytes@) && k@ == bytes@,
                Err(e) => !ed_key_valid(bytes@) && (e matches CertError::Invalid(m) && m@ == ed_key_error_of(bytes@)),
            },
    {
        match ed25519_check_key(bytes) {
            Ok(()) => Ok(VerifyingKey { bytes: *bytes }),
            Err(msg) => Err(CertError::Invalid(msg)),
        }
    }

    /// The key's 32 bytes.
    pub fn to_bytes(&self) -> (r: [u8; 32])
        ensures
            r@ == self@,
    {
        self.bytes
    }

    /// Short stable identifier suitable for embedding in certificates.
    pub fn public_key_id(&self) -> (r: String)
        ensures
            r@ == key_id_of(self@),
    {
        key_id_text(&self.bytes)
    }

    /// The key's bytes as unpadded base64.
    pub fn to_base64(&self) -> (r: String)
        ensures
            r@ == b64_spec(self@),
    {
        b64_encode(&self.bytes)
    }
}

/// The signature algorithm every block names.
pub open spec fn algorithm_name() -> Seq<char> {
    "ed25519"@
}

/// A detached signature over canonical bytes.
#[derive(Debug, PartialEq, Eq)]
pub struct SignatureBlock {
    pub algorithm: String,
    pub public_key_id: String,
    pub canonical_sha256_hex: String,
    pub signature_b64: String,
}

impl Clone for SignatureBlock {
    fn clone(&self) -> (r: Self)
        ensures
            r == *self,
    {
        SignatureBlock {
            algorithm: self.algorithm.clone(),
            public_key_id: self.public_key_id.clone(),
            canonical_sha256_hex: self.canonical_sha256_hex.clone(),
            signature_b64: self.signature_b64.clone(),
        }
    }
}

/// Spec-level image of a signature block.
pub struct SignatureBlockV {
    pub algorithm: Seq<char>,
    pub public_key_id: Seq<char>,
    pub canonical_sha256_hex: Seq<char>,
    pub signature_b64: Seq<char>,
}

impl View for SignatureBlock {
    type V = SignatureBlockV;

    open spec fn view(&self) -> SignatureBlockV {
        SignatureBlockV {
            algorithm: self.algorithm@,
            public_key_id: self.public_key_id@,
            canonical_sha256_hex: self.canonical_sha256_hex@,
            signature_b64: self.signature_b64@,
        }
    }
}

/// The block a seed produces over some bytes.
pub open spec fn block_of(seed: Seq<u8>, bytes: Seq<u8>) -> SignatureBlockV {
    SignatureBlockV {
        algorithm: algorithm_name(),
        public_key_id: key_id_of(ed_public_of(seed)),
        canonical_sha256_hex: hex_spec(sha256_of(bytes)),
        signature_b64: b64_spec(ed_sign_of(seed, bytes)),
    }
}

/// What checking a detached signature over bytes finds, once the algorithm
/// is known to be Ed25519.
pub enum Finding {
    /// Verified by the trusted key with this id.
    Accepted(Seq<char>),
    /// The bytes hash to a different digest than the block records.
    DigestMismatch,
    /// The signature text is not base64, for the decoder's reason.
    Undecodable(Seq<char>),
    /// The signature is not 64 bytes.
    Malformed,
    /// The trusted key with the named id rejects the signature, for the
    /// library's reason.
    Rejected(Seq<char>),
    /// No trusted key has the named id.
    UnknownKey,
}

/// The first trusted key whose id is `id`.
pub open spec fn first_key_with_id(keys: Seq<Seq<u8>>, id: Seq<char>, j: int) -> Option<int>
    decreases keys.len() - j,
{
    if j < 0 || j >= keys.len() {
        None
    } else if key_id_of(keys[j]) == id {
        Some(j)
    } else {
        first_key_with_id(keys, id, j + 1)
    }
}

/// Check the digest first, so a modified payload reports as tampering
/// rather than as an opaque signature failure; then decode the signature
/// and verify it with the first trusted key carrying the named id.
pub open spec fn spec_check(bytes: Seq<u8>, digest_hex: Seq<char>, sig_b64: Seq<char>, key_id: Seq<char>, keys: Seq<Seq<u8>>) -> Finding {
    if hex_spec(sha256_of(bytes)) != digest_hex {
        Finding::DigestMismatch
    } else {
        match b64_decode_of(sig_b64) {
            None => Finding::Undecodable(b64_error_of(sig_b64)),
            Some(sig) => if sig.len() != 64 {
                Finding::Malformed
            } else {
                match first_key_with_id(keys, key_id, 0) {
                    None => Finding::UnknownKey,
                    Some(j) => if ed_verify_ok(keys[j], bytes, sig) {
                        Finding::Accepted(key_id_of(keys[j]))
                    } else {
                        Finding::Rejected(ed_verify_error_of(keys[j], bytes, sig))
                    },
                }
            },
        }
    }
}

/// Keys seen through their bytes.
pub open spec fn keys_view(keys: Seq<VerifyingKey>) -> Seq<Seq<u8>> {
    keys.map_values(|k: VerifyingKey| k@)
}

/// The outcome of checking a detached signature, with the outside
/// library's explanation where it gave one.
pub enum CheckOutcome {
    Accepted(String),
    DigestMismatch,
    Undecodable(String),
    Malformed,
    Rejected(String),
    UnknownKey,
}

/// The outcome agrees with the finding.
pub open spec fn outcome_matches(o: CheckOutcome, f: Finding) -> bool {
    match (o, f) {
        (CheckOutcome::Accepted(a), Finding::Accepted(b)) => a@ == b,
        (CheckOutcome::DigestMismatch, Finding::DigestMismatch) => true,
        (CheckOutcome::Undecodable(m), Finding::Undecodable(t)) => m@ == t,
        (CheckOutcome::Malformed, Finding::Malformed) => true,
        (CheckOutcome::Rejected(m), Finding::Rejected(t)) => m@ == t,
        (CheckOutcome::UnknownKey, Finding::UnknownKey) => true,
        _ => false,
    }
}

fn to_signature_array(v: &Vec<u8>) -> (r: [u8; 64])
    requires
        v@.len() == 64,
    ensures
        r@ == v@,
{
    let mut a: [u8; 64] = [0u8; 64];
    for i in 0..64usize
        invariant
            v@.len() == 64,
            a@.len() == 64,
            forall|j: int| 0 <= j < i ==> a@[j] == v@[j],
    {
        a[i] = v[i];
    }
    assert(a@ =~= v@);
    a
}

/// Check a detached signature over `bytes` against trusted keys.
pub fn check_detached(bytes: &[u8], digest_hex: &str, sig_b64: &str, key_id: &str, trusted: &[VerifyingKey]) -> (r: CheckOutcome)
    ensures
        outcome_matches(r, spec_check(bytes@, digest_hex@, sig_b64@, key_id@, keys_view(trusted@))),
{
    let ghost keys = keys_view(trusted@);
    let h = sha256(bytes);
    let actual = hex_encode(h.as_slice());
    if !crate::text::str_eq(actual.as_str(), digest_hex) {
        return CheckOutcome::DigestMismatch;
    }
    let sig = match b64_decode(sig_b64) {
        Ok(v) => v,
        Err(msg) => {
            return CheckOutcome::Undecodable(msg);
        },
    };
    if sig.len() != 64 {
        return CheckOutcome::Malformed;
    }
    let sig_arr = to_signature_array(&sig);
    for j in 0..trusted.len()
        invariant
            keys == keys_view(trusted@),
            first_key_with_id(keys, key_id@, 0) == first_key_with_id(keys, key_id@, j as int),
            hex_spec(sha256_of(bytes@)) == digest_hex@,
            b64_decode_of(sig_b64@) == Some(sig@),
            sig@.len() == 64,
            sig_arr@ == sig@,
    {
        assert(keys[j as int] == trusted@[j as int]@);
        let id = trusted[j].public_key_id();
        if crate::text::str_eq(id.as_str(), key_id) {
            return match ed25519_verify(&trusted[j].bytes, bytes, &sig_arr) {
                Ok(()) => CheckOutcome::Accepted(id),
                Err(msg) => CheckOutcome::Rejected(msg),
            };
        }
    }
    CheckOutcome::UnknownKey
}

/// Sign canonical bytes. The block verifies under the signer's own public
/// key: checking it against that key accepts it with the signer's id.
pub fn sign_canonical(bytes: &[u8], key: &SigningKey) -> (r: SignatureBlock)
    ensures
        r@ == block_of(key@, bytes@),
        spec_check(bytes@, r@.canonical_sha256_hex, r@.signature_b64, r@.public_key_id, seq![ed_public_of(key@)])
            == Finding::Accepted(key_id_of(ed_public_of(key@))),
{
    let sig = ed25519_sign(&key.seed, bytes);
    let digest = sha256(bytes);
    let sig_text = b64_encode(&sig);
    let block = SignatureBlock {
        algorithm: String::from_str("ed25519"),
        public_key_id: key.public_key_id(),
        canonical_sha256_hex: hex_encode(digest.as_slice()),
        signature_b64: sig_text,
    };
    proof {
        let keys = seq![ed_public_of(key@)];
        assert(first_key_with_id(keys, key_id_of(ed_public_of(key@)), 0) == Some(0int));
    }
    block
}

/// The block's digest no longer matches bytes whose SHA-256 differs from
/// the signed ones: a payload changed after signing is reported as such,
/// whatever the signature.
pub proof fn law_changed_payload_is_detected(signed: Seq<u8>, changed: Seq<u8>, seed: Seq<u8>, keys: Seq<Seq<u8>>)
    requires
        sha256_of(signed) != sha256_of(changed),
    ensures
        spec_check(changed, block_of(seed, signed).canonical_sha256_hex, block_of(seed, signed).signature_b64,
            block_of(seed, signed).public_key_id, keys) == Finding::DigestMismatch,
{
    if hex_spec(sha256_of(signed)) == hex_spec(sha256_of(changed)) {
        lemma_hex_injective(sha256_of(signed), sha256_of(changed));
    }
}

proof fn lemma_hex_digit_injective(a: int, b: int)
    requires
        0 <= a < 16,
        0 <= b < 16,
        hex_digit(a) == hex_digit(b),
    ensures
        a == b,
{
}

/// Distinct byte strings have distinct hex text.
pub proof fn lemma_hex_injective(a: Seq<u8>, b: Seq<u8>)
    requires
        hex_spec(a) == hex_spec(b),
    ensures
        a == b,
    decreases a.len(),
{
    lemma_hex_len(a);
    lemma_hex_len(b);
    if a.len() > 0 {
        let ha = hex_spec(a);
        let hb = hex_spec(b);
        let n = ha.len();
        assert(ha[n - 2] == hex_digit(a.last() as int / 16));
        assert(hb[n - 2] == hex_digit(b.last() as int / 16));
        assert(ha[n - 1] == hex_digit(a.last() as int % 16));
        assert(hb[n - 1] == hex_digit(b.last() as int % 16));
        lemma_hex_digit_injective(a.last() as int / 16, b.last() as int / 16);
        lemma_hex_digit_injective(a.last() as int % 16, b.last() as int % 16);
        assert(hex_spec(a.drop_last()) =~= ha.subrange(0, n - 2));
        assert(hex_spec(b.drop_last()) =~= hb.subrange(0, n - 2));
        lemma_hex_injective(a.drop_last(), b.drop_last());
        assert(a =~= a.drop_last().push(a.last()));
        assert(b =~= b.drop_last().push(b.last()));
    } else {
        assert(a =~= b);
    }
}

proof fn lemma_hex_len(a: Seq<u8>)
    ensures
        hex_spec(a).len() == 2 * a.len(),
    decreases a.len(),
{
    if a.len() > 0 {
        lemma_hex_len(a.drop_last());
    }
}

/// Who added a co-signature.
#[derive(Debug, Clone, Copy, PartialEq, Eq, Structural)]
pub enum CoSignerRole {
    /// Supervisor co-sign on destroyed-asset certificates.
    Supervisor,
    /// Auditor attestation.
    Auditor,
}

/// The key id that verifying one signature block over bytes reports, when
/// it verifies.
pub open spec fn verify_result_ok(bytes: Seq<u8>, sig: SignatureBlockV, keys: Seq<Seq<u8>>) -> Option<Seq<char>> {
    if sig.algorithm != algorithm_name() {
        None
    } else {
        match spec_check(bytes, sig.canonical_sha256_hex, sig.signature_b64, sig.public_key_id, keys) {
            Finding::Accepted(id) => Some(id),
            _ => None,
        }
    }
}

/// The text a failed verification carries; `None` when it verifies. An
/// undecodable or rejected signature carries the outside library's
/// explanation after `base64: ` or `signature: `.
pub open spec fn verify_error_text(bytes: Seq<u8>, sig: SignatureBlockV, keys: Seq<Seq<u8>>) -> Option<Seq<char>> {
    if sig.algorithm != algorithm_name() {
        Some("unsupported algorithm: "@ + sig.algorithm)
    } else {
        match spec_check(bytes, sig.canonical_sha256_hex, sig.signature_b64, sig.public_key_id, keys) {
            Finding::DigestMismatch => Some("canonical SHA-256 mismatch — cert payload was modified after signing"@),
            Finding::Undecodable(t) => Some("base64: "@ + t),
            Finding::Malformed => Some("signature error"@),
            Finding::Rejected(t) => Some("signature: "@ + t),
            Finding::UnknownKey => Some("no trusted key matches public_key_id "@ + sig.public_key_id),
            Finding::Accepted(_) => None,
        }
    }
}

/// The error a failed verification reports: a verification error carrying
/// the failure's text.
pub open spec fn failure_matches(e: CertError, bytes: Seq<u8>, sig: SignatureBlockV, keys: Seq<Seq<u8>>) -> bool {
    e matches CertError::Verification(m) && verify_error_text(bytes, sig, keys) == Some(m@)
}

/// The contract of verifying one block: accepted exactly when the check
/// accepts, with the key id; otherwise the matching failure.
pub open spec fn verify_outcome(r: Result<String, CertError>, bytes: Seq<u8>, sig: SignatureBlockV, keys: Seq<Seq<u8>>) -> bool {
    match verify_result_ok(bytes, sig, keys) {
        Some(id) => r matches Ok(k) && k@ == id,
        None => r matches Err(e) && failure_matches(e, bytes, sig, keys),
    }
}

fn prefixed(prefix: &str, s: &str) -> (r: String)
    ensures
        r@ == prefix@ + s@,
{
    let mut out = String::from_str(prefix);
    append_str(&mut out, s);
    out
}

/// Verify one signature block over canonical bytes against trusted keys,
/// returning the id of the key that verified it.
pub fn verify_canonical(bytes: &[u8], sig: &SignatureBlock, trusted: &[VerifyingKey]) -> (r: Result<String, CertError>)
    ensures
        verify_outcome(r, bytes@, sig@, keys_view(trusted@)),
{
    if !crate::text::str_eq(sig.algorithm.as_str(), "ed25519") {
        return Err(CertError::Verification(prefixed("unsupported algorithm: ", sig.algorithm.as_str())));
    }
    let out = check_detached(
        bytes,
        sig.canonical_sha256_hex.as_str(),
        sig.signature_b64.as_str(),
        sig.public_key_id.as_str(),
        trusted,
    );
    match out {
        CheckOutcome::Accepted(id) => Ok(id),
        CheckOutcome::DigestMismatch => Err(CertError::Verification(
            String::from_str("canonical SHA-256 mismatch — cert payload was modified after signing"),
        )),
        CheckOutcome::Undecodable(e) => {
            Err(CertError::Verification(prefixed("base64: ", e.as_str())))
        },
        CheckOutcome::Malformed => Err(CertError::Verification(String::from_str("signature error"))),
        CheckOutcome::Rejected(e) => {
            Err(CertError::Verification(prefixed("signature: ", e.as_str())))
        },
        CheckOutcome::UnknownKey => Err(CertError::Verification(
            prefixed("no trusted key matches public_key_id ", sig.public_key_id.as_str()),
        )),
    }
}

/// Verify every co-signature over the same bytes, in order; the first
/// failure is the result.
pub fn verify_all(bytes: &[u8], sigs: &[SignatureBlock], trusted: &[VerifyingKey]) -> (r: Result<Vec<String>, CertError>)
    ensures
        match r {
            Ok(ids) => ids@.len() == sigs@.len() && forall|i: int| 0 <= i < sigs@.len() ==>
                verify_result_ok(bytes@, (#[trigger] sigs@[i])@, keys_view(trusted@)) == Some(ids@[i]@),
            Err(e) => exists|i: int| 0 <= i < sigs@.len() && verify_result_ok(bytes@, (#[trigger] sigs@[i])@, keys_view(trusted@)) is None
                && failure_matches(e, bytes@, sigs@[i]@, keys_view(trusted@))
                && forall|j: int| 0 <= j < i ==> verify_result_ok(bytes@, (#[trigger] sigs@[j])@, keys_view(trusted@)) is Some,
        },
{
    let mut ids: Vec<String> = Vec::new();
    for i in 0..sigs.len()
        invariant
            ids@.len() == i,
            forall|j: int| 0 <= j < i ==> verify_result_ok(bytes@, (#[trigger] sigs@[j])@, keys_view(trusted@)) == Some(ids@[j]@),
    {
        match verify_canonical(bytes, &sigs[i], trusted) {
            Ok(id) => {
                ids.push(id);
            },
            Err(e) => {
                return Err(e);
            },
        }
    }
    Ok(ids)
}

} // verus!
