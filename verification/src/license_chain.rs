//! The attestation chain: a vendor root key signs a licence naming an
//! instance key, and that instance key signs erasure certificates. The
//! licence travels inside every certificate, so an auditor holding only the
//! root public key can check, offline, who was licensed to sign it.
//!
//! Signatures cover the canonical bytes of the licence body; whoever holds
//! the body as a document supplies those bytes.

use vstd::prelude::*;

use crate::cert::{Finding, SigningKey, VerifyingKey, CheckOutcome, algorithm_name, block_of, check_detached, keys_view, sign_canonical, spec_check};
use crate::crypto::{hex_encode, sha256, hex_spec, sha256_of, ed_public_of};
use crate::license::{Entitlements, LicenseError, license_error_text};
use crate::text::{append_str, decimal, decimal_string, str_eq};

verus! {

/// The licence document format this build understands.
pub const LICENSE_FORMAT_VERSION: u32 = 1;

/// What a vendor signs.
#[derive(Debug, PartialEq, Eq)]
pub struct LicenseBody {
    pub license_format_version: u32,
    pub license_id: String,
    /// The vendor root that signed this licence.
    pub root_key_id: String,
    /// The instance key this licence entitles.
    pub instance_public_key_id: String,
    pub entitlements: Entitlements,
    pub issued_at: i128,
}

/// The vendor's signature over a licence body.
#[derive(Debug, PartialEq, Eq)]
pub struct LicenseSignature {
    pub algorithm: String,
    pub public_key_id: String,
    pub canonical_sha256_hex: String,
    pub signature_b64: String,
}

/// A vendor-signed licence.
#[derive(Debug, PartialEq, Eq)]
pub struct LicenseCertificate {
    pub body: LicenseBody,
    pub signature: LicenseSignature,
}

/// The parts of a licence signature the checks read.
pub open spec fn sig_parts(s: LicenseSignature) -> (Seq<char>, Seq<char>, Seq<char>, Seq<char>) {
    (s.algorithm@, s.public_key_id@, s.canonical_sha256_hex@, s.signature_b64@)
}

/// The vendor root. In production its private half never leaves an
/// offline signer.
pub struct VendorRoot {
    key: SigningKey,
}

impl View for VendorRoot {
    type V = Seq<u8>;

    closed spec fn view(&self) -> Seq<u8> {
        self.key@
    }
}

impl VendorRoot {
    pub fn from_signing_key(key: SigningKey) -> (r: Self)
        ensures
            r@ == key@,
    {
        VendorRoot { key }
    }

    /// A fresh root from the operating system's random generator.
    pub fn generate() -> (r: Self) {
        VendorRoot { key: SigningKey::generate() }
    }

    pub fn public_key_id(&self) -> (r: String)
        ensures
            r@ == crate::cert::key_id_of(ed_public_of(self@)),
    {
        self.key.public_key_id()
    }

    pub fn verifying_key(&self) -> (r: VerifyingKey)
        ensures
            r@ == ed_public_of(self@),
    {
        self.key.verifying_key()
    }

    /// The raw seed, for the issuance tool's key file.
    pub fn seed_bytes(&self) -> (r: [u8; 32])
        ensures
            r@ == self@,
    {
        self.key.seed_bytes()
    }

    /// Sign the canonical bytes of a licence body.
    pub fn sign_body(&self, body_bytes: &[u8]) -> (r: LicenseSignature)
        ensures
            r.algorithm@ == block_of(self@, body_bytes@).algorithm,
            r.public_key_id@ == block_of(self@, body_bytes@).public_key_id,
            r.canonical_sha256_hex@ == block_of(self@, body_bytes@).canonical_sha256_hex,
            r.signature_b64@ == block_of(self@, body_bytes@).signature_b64,
            spec_check(body_bytes@, r.canonical_sha256_hex@, r.signature_b64@, r.public_key_id@, seq![ed_public_of(self@)])
                == Finding::Accepted(crate::cert::key_id_of(ed_public_of(self@))),
    {
        let b = sign_canonical(body_bytes, &self.key);
        LicenseSignature {
            algorithm: b.algorithm,
            public_key_id: b.public_key_id,
            canonical_sha256_hex: b.canonical_sha256_hex,
            signature_b64: b.signature_b64,
        }
    }

    /// The body of a licence this root issues to an instance key.
    pub fn license_body(&self, license_id: &str, instance_public_key_id: String, entitlements: Entitlements, issued_at: i128) -> (r: LicenseBody)
        ensures
            r.license_format_version == LICENSE_FORMAT_VERSION,
            r.license_id@ == license_id@,
            r.root_key_id@ == crate::cert::key_id_of(ed_public_of(self@)),
            r.instance_public_key_id == instance_public_key_id,
            r.entitlements == entitlements,
            r.issued_at == issued_at,
    {
        LicenseBody {
            license_format_version: LICENSE_FORMAT_VERSION,
            license_id: String::from_str(license_id),
            root_key_id: self.public_key_id(),
            instance_public_key_id,
            entitlements,
            issued_at,
        }
    }

    /// Issue a licence: the body, signed over its canonical encoding
    /// `body_bytes`.
    pub fn issue(&self, body: LicenseBody, body_bytes: &[u8]) -> (r: LicenseCertificate)
        ensures
            r.body == body,
            r.signature.algorithm@ == block_of(self@, body_bytes@).algorithm,
            r.signature.public_key_id@ == block_of(self@, body_bytes@).public_key_id,
            r.signature.canonical_sha256_hex@ == block_of(self@, body_bytes@).canonical_sha256_hex,
            r.signature.signature_b64@ == block_of(self@, body_bytes@).signature_b64,
            body.license_format_version == LICENSE_FORMAT_VERSION ==> license_root_ok(body_bytes@, body.license_format_version, r.signature, seq![ed_public_of(self@)])
                == Some(crate::cert::key_id_of(ed_public_of(self@))),
    {
        let signature = self.sign_body(body_bytes);
        LicenseCertificate { body, signature }
    }
}

/// The root id a licence verifies to, if it verifies: the algorithm and
/// format version are checked first, then the body digest (so an edit
/// reports as tampering), then the signature by the named trusted root.
pub open spec fn license_root_ok(bytes: Seq<u8>, version: u32, s: LicenseSignature, roots: Seq<Seq<u8>>) -> Option<Seq<char>> {
    if s.algorithm@ != algorithm_name() || version != LICENSE_FORMAT_VERSION {
        None
    } else {
        match spec_check(bytes, s.canonical_sha256_hex@, s.signature_b64@, s.public_key_id@, roots) {
            Finding::Accepted(id) => Some(id),
            _ => None,
        }
    }
}

/// The error a licence that does not verify reports.
pub open spec fn license_failure_matches(e: LicenseError, bytes: Seq<u8>, version: u32, s: LicenseSignature, roots: Seq<Seq<u8>>) -> bool {
    if s.algorithm@ != algorithm_name() {
        e matches LicenseError::Verification(m) && m@ == "unsupported algorithm: "@ + s.algorithm@
    } else if version != LICENSE_FORMAT_VERSION {
        e matches LicenseError::Verification(m) && m@ == "license_format_version "@ + decimal(version as nat)
            + " but this build understands "@ + decimal(LICENSE_FORMAT_VERSION as nat)
    } else {
        match spec_check(bytes, s.canonical_sha256_hex@, s.signature_b64@, s.public_key_id@, roots) {
            Finding::DigestMismatch => e matches LicenseError::Tampered(m) && m@ == "license payload was modified after signing"@,
            Finding::Undecodable(t) => e matches LicenseError::Verification(m) && m@ == "base64: "@ + t,
            Finding::Malformed => e matches LicenseError::Verification(m) && m@ == "signature error"@,
            Finding::Rejected(t) => e matches LicenseError::Tampered(m) && m@ == "license signature: "@ + t,
            Finding::UnknownKey => e matches LicenseError::UntrustedRoot(m) && m@ == s.public_key_id@,
            Finding::Accepted(_) => false,
        }
    }
}

/// The failure a licence reports is determined by the licence, its bytes
/// and the roots: two errors that both match it read the same.
pub proof fn law_licence_failure_is_determined(e1: LicenseError, e2: LicenseError, bytes: Seq<u8>, version: u32, s: LicenseSignature, roots: Seq<Seq<u8>>)
    requires
        license_failure_matches(e1, bytes, version, s, roots),
        license_failure_matches(e2, bytes, version, s, roots),
    ensures
        license_error_text(e1) == license_error_text(e2),
{
}

fn prefixed(prefix: &str, s: &str) -> (r: String)
    ensures
        r@ == prefix@ + s@,
{
    let mut out = String::from_str(prefix);
    append_str(&mut out, s);
    out
}

impl LicenseCertificate {
    /// Verify this licence against trusted vendor roots, given the
    /// canonical bytes of its body; returns the id of the root that
    /// verified it.
    pub fn verify(&self, body_bytes: &[u8], roots: &[VerifyingKey]) -> (r: Result<String, LicenseError>)
        ensures
            match license_root_ok(body_bytes@, self.body.license_format_version, self.signature, keys_view(roots@)) {
                Some(id) => r matches Ok(k) && k@ == id,
                None => r matches Err(e) && license_failure_matches(e, body_bytes@, self.body.license_format_version, self.signature, keys_view(roots@)),
            },
    {
        let s = &self.signature;
        if !str_eq(s.algorithm.as_str(), "ed25519") {
            return Err(LicenseError::Verification(prefixed("unsupported algorithm: ", s.algorithm.as_str())));
        }
        if self.body.license_format_version != LICENSE_FORMAT_VERSION {
            let mut m = String::from_str("license_format_version ");
            let v = decimal_string(self.body.license_format_version as u64);
            append_str(&mut m, v.as_str());
            append_str(&mut m, " but this build understands ");
            let w = decimal_string(LICENSE_FORMAT_VERSION as u64);
            append_str(&mut m, w.as_str());
            return Err(LicenseError::Verification(m));
        }
        match check_detached(body_bytes, s.canonical_sha256_hex.as_str(), s.signature_b64.as_str(), s.public_key_id.as_str(), roots) {
            CheckOutcome::Accepted(id) => Ok(id),
            CheckOutcome::DigestMismatch => Err(LicenseError::Tampered(String::from_str("license payload was modified after signing"))),
            CheckOutcome::Undecodable(e) => {
                Err(LicenseError::Verification(prefixed("base64: ", e.as_str())))
            },
            CheckOutcome::Malformed => Err(LicenseError::Verification(String::from_str("signature error"))),
            CheckOutcome::Rejected(e) => {
                Err(LicenseError::Tampered(prefixed("license signature: ", e.as_str())))
            },
            CheckOutcome::UnknownKey => Err(LicenseError::UntrustedRoot(s.public_key_id.clone())),
        }
    }
}

/// What rides inside an erasure certificate so the chain travels with it.
#[derive(Debug, PartialEq, Eq)]
pub struct AttestationChain {
    pub license: LicenseCertificate,
    /// Mirror of the body's root id, so a reader can pick the published
    /// root without parsing the licence first.
    pub root_key_id: String,
}

impl AttestationChain {
    pub fn new(license: LicenseCertificate) -> (r: Self)
        ensures
            r.license == license,
            r.root_key_id@ == license.body.root_key_id@,
    {
        let root_key_id = license.body.root_key_id.clone();
        AttestationChain { license, root_key_id }
    }
}

/// The outcome of verifying a certificate's attestation chain. A typed
/// verdict, so "unlicensed" and "tampered" cannot be conflated.
#[derive(Debug, PartialEq, Eq)]
pub enum ChainVerdict {
    /// Verified to a trusted root.
    Licensed {
        customer_id: String,
        customer_name: String,
        license_id: String,
        root_key_id: String,
        /// The lease had lapsed when the certificate was signed; the chain
        /// is still authentic.
        expired_at_signing: bool,
    },
    /// No chain: a valid evaluation certificate, not an error.
    Unlicensed,
    /// A chain is present but does not hold.
    Invalid { reason: String },
}

impl ChainVerdict {
    pub fn is_licensed(&self) -> (r: bool)
        ensures
            r == (*self is Licensed),
    {
        match self {
            ChainVerdict::Licensed { .. } => true,
            _ => false,
        }
    }

    pub fn is_invalid(&self) -> (r: bool)
        ensures
            r == (*self is Invalid),
    {
        match self {
            ChainVerdict::Invalid { .. } => true,
            _ => false,
        }
    }
}

/// The verdict on a chain, given the canonical bytes of its licence body,
/// the id of the key that signed the certificate, and when it was signed.
/// The link that makes it a chain: the licence must entitle exactly the
/// key that signed the certificate.
pub open spec fn verdict_holds(v: ChainVerdict, chain: Option<AttestationChain>, bytes: Seq<u8>, signed_by: Seq<char>, signed_at: i128, roots: Seq<Seq<u8>>) -> bool {
    match chain {
        None => v is Unlicensed,
        Some(c) => {
            let body = c.license.body;
            match license_root_ok(bytes, body.license_format_version, c.license.signature, roots) {
                None => v matches ChainVerdict::Invalid { reason } && exists|e: LicenseError|
                    license_failure_matches(e, bytes, body.license_format_version, c.license.signature, roots)
                    && reason@ == license_error_text(e),
                Some(root_id) => if body.instance_public_key_id@ != signed_by {
                    v matches ChainVerdict::Invalid { reason } && reason@ == "license entitles instance key "@
                        + body.instance_public_key_id@ + " but this certificate was signed by "@ + signed_by
                } else if c.root_key_id@ != body.root_key_id@ {
                    v matches ChainVerdict::Invalid { reason } && reason@ == "attestation root_key_id does not match the license body"@
                } else {
                    v matches ChainVerdict::Licensed { customer_id, customer_name, license_id, root_key_id, expired_at_signing }
                        && customer_id@ == body.entitlements.customer_id@
                        && customer_name@ == body.entitlements.customer_name@
                        && license_id@ == body.license_id@
                        && root_key_id@ == root_id
                        && expired_at_signing == !(body.entitlements.not_before <= signed_at && signed_at <= body.entitlements.not_after)
                },
            }
        },
    }
}

/// Verify the chain carried by a signed erasure certificate.
pub fn verify_chain(chain: Option<&AttestationChain>, body_bytes: &[u8], signed_by: &str, signed_at: i128, roots: &[VerifyingKey]) -> (r: ChainVerdict)
    ensures
        verdict_holds(r, match chain {
            Some(c) => Some(*c),
            None => None,
        }, body_bytes@, signed_by@, signed_at, keys_view(roots@)),
{
    let c = match chain {
        None => {
            return ChainVerdict::Unlicensed;
        },
        Some(c) => c,
    };
    let root_id = match c.license.verify(body_bytes, roots) {
        Ok(id) => id,
        Err(e) => {
            let reason = e.message();
            return ChainVerdict::Invalid { reason };
        },
    };
    let body = &c.license.body;
    if !str_eq(body.instance_public_key_id.as_str(), signed_by) {
        let mut reason = String::from_str("license entitles instance key ");
        append_str(&mut reason, body.instance_public_key_id.as_str());
        append_str(&mut reason, " but this certificate was signed by ");
        append_str(&mut reason, signed_by);
        return ChainVerdict::Invalid { reason };
    }
    if !str_eq(c.root_key_id.as_str(), body.root_key_id.as_str()) {
        return ChainVerdict::Invalid { reason: String::from_str("attestation root_key_id does not match the license body") };
    }
    let ent = &body.entitlements;
    ChainVerdict::Licensed {
        customer_id: ent.customer_id.clone(),
        customer_name: ent.customer_name.clone(),
        license_id: body.license_id.clone(),
        root_key_id: root_id,
        expired_at_signing: !ent.within_window(signed_at),
    }
}

/// Why a licence cannot be installed on this station.
#[derive(Debug, PartialEq, Eq)]
pub enum InstallProblem {
    /// The licence names a different instance key.
    WrongInstanceKey { expected: String, found: String },
    /// The licence does not verify against any supplied root.
    NotTrusted(String),
}

impl InstallProblem {
    /// The operator-facing explanation.
    pub fn message(&self) -> (r: String)
        ensures
            r@ == match *self {
                InstallProblem::WrongInstanceKey { expected, found } => "licence was issued to instance key "@ + found@
                    + ", but this station's signing key is "@ + expected@
                    + ". A licence is bound to one key; reissue it for this station."@,
                InstallProblem::NotTrusted(reason) => "licence did not verify: "@ + reason@,
            },
    {
        match self {
            InstallProblem::WrongInstanceKey { expected, found } => {
                let mut m = String::from_str("licence was issued to instance key ");
                append_str(&mut m, found.as_str());
                append_str(&mut m, ", but this station's signing key is ");
                append_str(&mut m, expected.as_str());
                append_str(&mut m, ". A licence is bound to one key; reissue it for this station.");
                m
            },
            InstallProblem::NotTrusted(reason) => prefixed("licence did not verify: ", reason.as_str()),
        }
    }
}

/// Check that a licence can be installed on the station holding
/// `station_key_id`: it must verify against a trusted root, and it must
/// name this station's key.
pub fn check_installable(license: &LicenseCertificate, body_bytes: &[u8], station_key_id: &str, roots: &[VerifyingKey]) -> (r: Result<(), InstallProblem>)
    ensures
        match license_root_ok(body_bytes@, license.body.license_format_version, license.signature, keys_view(roots@)) {
            None => r matches Err(InstallProblem::NotTrusted(reason)) && exists|e: LicenseError|
                license_failure_matches(e, body_bytes@, license.body.license_format_version, license.signature, keys_view(roots@))
                && reason@ == license_error_text(e),
            Some(_) => if license.body.instance_public_key_id@ != station_key_id@ {
                r matches Err(InstallProblem::WrongInstanceKey { expected, found }) && expected@ == station_key_id@
                    && found@ == license.body.instance_public_key_id@
            } else {
                r is Ok
            },
        },
{
    if let Err(e) = license.verify(body_bytes, roots) {
        return Err(InstallProblem::NotTrusted(e.message()));
    }
    if !str_eq(license.body.instance_public_key_id.as_str(), station_key_id) {
        return Err(InstallProblem::WrongInstanceKey {
            expected: String::from_str(station_key_id),
            found: license.body.instance_public_key_id.clone(),
        });
    }
    Ok(())
}

/// A licence stapled to a certificate signed by a key it does not name is
/// never accepted, however genuine the licence: a stolen licence cannot
/// launder another station's certificates.
pub proof fn law_stolen_licence_is_invalid(v: ChainVerdict, c: AttestationChain, bytes: Seq<u8>, signed_by: Seq<char>, signed_at: i128, roots: Seq<Seq<u8>>)
    requires
        verdict_holds(v, Some(c), bytes, signed_by, signed_at, roots),
        c.license.body.instance_public_key_id@ != signed_by,
    ensures
        v is Invalid,
{
}

/// A licensed verdict means the licence verified to a trusted root, names
/// the signing key, and agrees with the chain's root id.
pub proof fn law_licensed_means_the_chain_holds(v: ChainVerdict, c: AttestationChain, bytes: Seq<u8>, signed_by: Seq<char>, signed_at: i128, roots: Seq<Seq<u8>>)
    requires
        verdict_holds(v, Some(c), bytes, signed_by, signed_at, roots),
        v is Licensed,
    ensures
        license_root_ok(bytes, c.license.body.license_format_version, c.license.signature, roots) is Some,
        c.license.body.instance_public_key_id@ == signed_by,
        c.root_key_id@ == c.license.body.root_key_id@,
{
}

/// No chain is an evaluation certificate, never an error.
pub proof fn law_no_chain_is_unlicensed(v: ChainVerdict, bytes: Seq<u8>, signed_by: Seq<char>, signed_at: i128, roots: Seq<Seq<u8>>)
    requires
        verdict_holds(v, None, bytes, signed_by, signed_at, roots),
    ensures
        v is Unlicensed,
        !(v is Invalid),
{
}

/// An edited licence body never verifies: its digest no longer matches,
/// and the failure is reported as tampering.
pub proof fn law_edited_licence_is_tampered(signed: Seq<u8>, edited: Seq<u8>, seed: Seq<u8>, version: u32, s: LicenseSignature, roots: Seq<Seq<u8>>, e: LicenseError)
    requires
        sha256_of(signed) != sha256_of(edited),
        s.algorithm@ == algorithm_name(),
        version == LICENSE_FORMAT_VERSION,
        s.canonical_sha256_hex@ == hex_spec(sha256_of(signed)),
        license_failure_matches(e, edited, version, s, roots),
    ensures
        license_root_ok(edited, version, s, roots) is None,
        e is Tampered,
{
    if hex_spec(sha256_of(signed)) == hex_spec(sha256_of(edited)) {
        crate::cert::lemma_hex_injective(sha256_of(signed), sha256_of(edited));
    }
}

} // verus!
