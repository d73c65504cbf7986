//! The station side of licensing: its machine fingerprint, the operator's
//! view of the lease, and the one decision the certificate generator needs
//! at signing time. Nothing here can stop an erasure: an unlicensed or
//! lapsed station still wipes and still signs a valid, offline-verifiable
//! certificate, marked as evaluation.

use vstd::prelude::*;
use vstd::string::*;

use crate::crypto::{hex_encode, hex_spec, sha256, sha256_of};
use crate::license::{CLOCK_SKEW_ALLOWANCE, Entitlements, LeaseState, LeaseStatus, LeaseStatusV, LicenseError, representable, spec_evaluate, evaluate};
use crate::license_chain::AttestationChain;
use crate::text::{append_str, decimal, decimal_string, strip_slashes};

verus! {

/// The calendar date of an instant, as the time library prints it.
pub uninterp spec fn date_text_of(nanos: i128) -> Seq<char>;

/// The UTC calendar date of an instant (`time::OffsetDateTime::from_unix_timestamp_nanos`,
/// `date`, `Display`), a function of the instant alone.
#[verifier::external_body]
fn date_text(nanos: i128) -> (r: String)
    requires
        representable(nanos as int),
    ensures
        r@ == date_text_of(nanos),
{
    match time::OffsetDateTime::from_unix_timestamp_nanos(nanos) {
        Ok(t) => t.date().to_string(),
        Err(e) => e.to_string(),
    }
}

/// Decimal text of a signed number.
pub open spec fn signed_decimal(n: int) -> Seq<char> {
    if n < 0 { "-"@ + decimal((-n) as nat) } else { decimal(n as nat) }
}

fn signed_decimal_string(n: i64) -> (r: String)
    ensures
        r@ == signed_decimal(n as int),
{
    if n < 0 {
        let m: u64 = (-(n as i128)) as u64;
        let mut s = String::from_str("-");
        let d = decimal_string(m);
        append_str(&mut s, d.as_str());
        s
    } else {
        decimal_string(n as u64)
    }
}

/// What the operator is told about a lease.
pub open spec fn message_of(s: LeaseStatusV) -> Seq<char> {
    match s {
        LeaseStatusV::Valid { remaining_erasures, days_remaining } => match remaining_erasures {
            Some(n) => "Licensed - "@ + decimal(n as nat) + " erasures remaining, "@ + signed_decimal(days_remaining) + " days left"@,
            None => "Licensed - unlimited, "@ + signed_decimal(days_remaining) + " days left"@,
        },
        LeaseStatusV::Expired { not_after } => "Licence expired on "@ + date_text_of(not_after)
            + ". Certificates will be marked evaluation until it is renewed."@,
        LeaseStatusV::NotYetValid { not_before } => "Licence is not valid until "@ + date_text_of(not_before) + "."@,
        LeaseStatusV::QuotaExhausted { used, allowed } => "Licence quota used ("@ + decimal(used as nat) + " of "@
            + decimal(allowed as nat) + "). Erasure still works; certificates will be marked evaluation."@,
        LeaseStatusV::WrongMachine { expected, actual } => "Licence is bound to machine "@ + expected
            + ", but this station is "@ + actual + "."@,
        LeaseStatusV::ClockRollback { watermark, observed } => "System clock reads "@ + date_text_of(observed)
            + " but this station has previously seen "@ + date_text_of(watermark)
            + ". Time appears to have moved backwards; fix the clock to restore licensed signing."@,
        LeaseStatusV::Unlicensed => "No licence installed - running in evaluation mode. Erasure works normally and certificates are valid, but are marked as unlicensed."@,
    }
}

/// The instants a status names can be printed.
pub open spec fn printable(s: LeaseStatusV) -> bool {
    match s {
        LeaseStatusV::Expired { not_after } => representable(not_after as int),
        LeaseStatusV::NotYetValid { not_before } => representable(not_before as int),
        LeaseStatusV::ClockRollback { watermark, observed } => representable(watermark as int) && representable(observed as int),
        _ => true,
    }
}

impl LeaseStatus {
    /// The status in words an operator can act on.
    pub fn operator_message(&self) -> (r: String)
        requires
            printable(self@),
        ensures
            r@ == message_of(self@),
    {
        match self {
            LeaseStatus::Valid { remaining_erasures, days_remaining } => {
                let days = signed_decimal_string(*days_remaining);
                match remaining_erasures {
                    Some(n) => {
                        let mut m = String::from_str("Licensed - ");
                        let ns = decimal_string(*n);
                        append_str(&mut m, ns.as_str());
                        append_str(&mut m, " erasures remaining, ");
                        append_str(&mut m, days.as_str());
                        append_str(&mut m, " days left");
                        m
                    },
                    None => {
                        let mut m = String::from_str("Licensed - unlimited, ");
                        append_str(&mut m, days.as_str());
                        append_str(&mut m, " days left");
                        m
                    },
                }
            },
            LeaseStatus::Expired { not_after } => {
                let mut m = String::from_str("Licence expired on ");
                let d = date_text(*not_after);
                append_str(&mut m, d.as_str());
                append_str(&mut m, ". Certificates will be marked evaluation until it is renewed.");
                m
            },
            LeaseStatus::NotYetValid { not_before } => {
                let mut m = String::from_str("Licence is not valid until ");
                let d = date_text(*not_before);
                append_str(&mut m, d.as_str());
                append_str(&mut m, ".");
                m
            },
            LeaseStatus::QuotaExhausted { used, allowed } => {
                let mut m = String::from_str("Licence quota used (");
                let u = decimal_string(*used);
                append_str(&mut m, u.as_str());
                append_str(&mut m, " of ");
                let a = decimal_string(*allowed);
                append_str(&mut m, a.as_str());
                append_str(&mut m, "). Erasure still works; certificates will be marked evaluation.");
                m
            },
            LeaseStatus::WrongMachine { expected, actual } => {
                let mut m = String::from_str("Licence is bound to machine ");
                append_str(&mut m, expected.as_str());
                append_str(&mut m, ", but this station is ");
                append_str(&mut m, actual.as_str());
                append_str(&mut m, ".");
                m
            },
            LeaseStatus::ClockRollback { watermark, observed } => {
                let mut m = String::from_str("System clock reads ");
                let o = date_text(*observed);
                append_str(&mut m, o.as_str());
                append_str(&mut m, " but this station has previously seen ");
                let w = date_text(*watermark);
                append_str(&mut m, w.as_str());
                append_str(&mut m, ". Time appears to have moved backwards; fix the clock to restore licensed signing.");
                m
            },
            LeaseStatus::Unlicensed => String::from_str(
                "No licence installed - running in evaluation mode. Erasure works normally and certificates are valid, but are marked as unlicensed.",
            ),
        }
    }
}

/// The domain separator hashed ahead of the station id.
pub open spec fn fingerprint_domain() -> Seq<char> {
    "wipestation/machine-fingerprint/v1"@
}

/// `mf1:` and the hex of the first twelve bytes of the SHA-256 of the
/// domain separator followed by the station id.
pub open spec fn fingerprint_of(station_id: &str) -> Seq<char> {
    "mf1:"@ + hex_spec(sha256_of("wipestation/machine-fingerprint/v1".spec_bytes() + station_id.spec_bytes()).subrange(0, 12))
}

fn push_all(out: &mut Vec<u8>, bytes: &[u8])
    ensures
        final(out)@ == old(out)@ + bytes@,
{
    let ghost start = out@;
    for i in 0..bytes.len()
        invariant
            out@ == start + bytes@.subrange(0, i as int),
    {
        out.push(bytes[i]);
        assert(out@ == start + bytes@.subrange(0, i + 1));
    }
    assert(bytes@.subrange(0, bytes@.len() as int) =~= bytes@);
}

/// This station's machine fingerprint: stable and station-specific, but
/// derived from an identifier the customer controls, not from attested
/// hardware.
pub fn machine_fingerprint(station_id: &str) -> (r: String)
    ensures
        r@ == fingerprint_of(station_id),
{
    let domain: &str = "wipestation/machine-fingerprint/v1";
    let mut data: Vec<u8> = Vec::new();
    push_all(&mut data, domain.as_bytes());
    push_all(&mut data, station_id.as_bytes());
    let h = sha256(data.as_slice());
    let mut head: Vec<u8> = Vec::new();
    for i in 0..12usize
        invariant
            h@.len() == 32,
            head@ == h@.subrange(0, i as int),
    {
        head.push(h[i]);
        assert(head@ == h@.subrange(0, i + 1));
    }
    let mut out = String::from_str("mf1:");
    let hx = hex_encode(head.as_slice());
    append_str(&mut out, hx.as_str());
    out
}

/// What the certificate generator needs at signing time.
pub struct SigningDecision {
    /// Goes inside the signed payload, so it cannot be stripped.
    pub evaluation: bool,
    /// Staple the station's attestation chain alongside the signature.
    pub attach_chain: bool,
    pub status: LeaseStatus,
}

/// The station's licensing state.
pub struct LicenseContext {
    pub chain: Option<AttestationChain>,
    pub fingerprint: String,
    pub lease: LeaseState,
}

/// The lease after observing `now`: the watermark only moves forward.
pub open spec fn observed(st: LeaseState, now: i128) -> LeaseState {
    LeaseState {
        time_watermark: if now > st.time_watermark { now } else { st.time_watermark },
        erasures_used: st.erasures_used,
        counter_is_monotonic: st.counter_is_monotonic,
    }
}

impl LicenseContext {
    /// An unlicensed station: the free-tier default.
    pub fn unlicensed(station_id: &str, now: i128) -> (r: Self)
        ensures
            r.chain is None,
            r.fingerprint@ == fingerprint_of(station_id),
            r.lease.time_watermark == now,
            r.lease.erasures_used == 0,
            !r.lease.counter_is_monotonic,
    {
        LicenseContext { chain: None, fingerprint: machine_fingerprint(station_id), lease: LeaseState::new(now) }
    }

    /// A licensed station.
    pub fn licensed(station_id: &str, chain: AttestationChain, lease: LeaseState) -> (r: Self)
        ensures
            r.chain == Some(chain),
            r.fingerprint@ == fingerprint_of(station_id),
            r.lease == lease,
    {
        LicenseContext { chain: Some(chain), fingerprint: machine_fingerprint(station_id), lease }
    }

    pub fn fingerprint(&self) -> (r: &str)
        ensures
            r@ == self.fingerprint@,
    {
        self.fingerprint.as_str()
    }

    /// The installed licence's entitlements, if any.
    pub fn entitlements(&self) -> (r: Option<&Entitlements>)
        ensures
            match self.chain {
                Some(c) => r == Some(&c.license.body.entitlements),
                None => r is None,
            },
    {
        match &self.chain {
            Some(c) => Some(&c.license.body.entitlements),
            None => None,
        }
    }

    pub fn lease_state(&self) -> (r: LeaseState)
        ensures
            r == self.lease,
    {
        self.lease
    }

    /// Fold an observed clock reading into the watermark.
    pub fn observe_now(&mut self, now: i128)
        ensures
            final(self).lease == observed(old(self).lease, now),
            final(self).chain == old(self).chain,
            final(self).fingerprint == old(self).fingerprint,
    {
        self.lease.observe(now);
    }

    /// Record a successful erasure against the local count, which saturates
    /// rather than wrapping.
    pub fn record_erasure(&mut self)
        ensures
            final(self).lease.erasures_used == if old(self).lease.erasures_used == u64::MAX {
                u64::MAX
            } else {
                (old(self).lease.erasures_used + 1) as u64
            },
            final(self).lease.time_watermark == old(self).lease.time_watermark,
            final(self).lease.counter_is_monotonic == old(self).lease.counter_is_monotonic,
            final(self).chain == old(self).chain,
            final(self).fingerprint == old(self).fingerprint,
    {
        self.lease.erasures_used = self.lease.erasures_used.saturating_add(1);
    }

    /// Evaluate against the watermark as it stood, then fold `now` in: a
    /// rolled-back clock must not silently become the new normal.
    pub fn status(&mut self, now: i128) -> (r: LeaseStatus)
        requires
            representable(old(self).lease.time_watermark - CLOCK_SKEW_ALLOWANCE),
            representable(now as int),
            old(self).chain matches Some(c) ==> representable(c.license.body.entitlements.not_after as int),
        ensures
            r@ == spec_evaluate(match old(self).chain {
                Some(c) => Some(c.license.body.entitlements),
                None => None,
            }, old(self).lease, old(self).fingerprint@, now),
            final(self).lease == observed(old(self).lease, now),
            final(self).chain == old(self).chain,
            final(self).fingerprint == old(self).fingerprint,
    {
        let state = self.lease;
        let st = evaluate(self.entitlements(), &state, self.fingerprint.as_str(), now);
        self.observe_now(now);
        st
    }

    /// Whether the certificate is marked evaluation, and whether the chain
    /// rides along: only a valid lease with a chain installed signs
    /// licensed.
    pub fn signing_decision(&mut self, now: i128) -> (r: SigningDecision)
        requires
            representable(old(self).lease.time_watermark - CLOCK_SKEW_ALLOWANCE),
            representable(now as int),
            old(self).chain matches Some(c) ==> representable(c.license.body.entitlements.not_after as int),
        ensures
            r.status@ == spec_evaluate(match old(self).chain {
                Some(c) => Some(c.license.body.entitlements),
                None => None,
            }, old(self).lease, old(self).fingerprint@, now),
            r.evaluation == !(r.status is Valid && old(self).chain is Some),
            r.attach_chain == !r.evaluation,
            final(self).lease == observed(old(self).lease, now),
            final(self).chain == old(self).chain,
    {
        let status = self.status(now);
        let licensed = status.permits_licensed_signing() && self.chain.is_some();
        SigningDecision { evaluation: !licensed, attach_chain: licensed, status }
    }
}

/// Where check-in would go, and its honest failure: no transport is wired
/// in, so both calls report the server unreachable rather than pretending.
pub struct HttpLicenseClient {
    base_url: String,
}

/// `{base}/api/licenses/{id}/{action}`, the base without trailing slashes.
pub open spec fn licence_url(base: Seq<char>, id: Seq<char>, action: Seq<char>) -> Seq<char> {
    strip_slashes(base) + "/api/licenses/"@ + id + "/"@ + action
}

impl HttpLicenseClient {
    pub fn new(base_url: &str) -> (r: Self)
        ensures
            r.endpoint_spec() == base_url@,
    {
        HttpLicenseClient { base_url: String::from_str(base_url) }
    }

    /// The configured base URL.
    pub closed spec fn endpoint_spec(&self) -> Seq<char> {
        self.base_url@
    }

    pub fn endpoint(&self) -> (r: String)
        ensures
            r@ == self.endpoint_spec(),
    {
        self.base_url.clone()
    }

    fn url(&self, license_id: &str, action: &str) -> (r: String)
        ensures
            r@ == licence_url(self.endpoint_spec(), license_id@, action@),
    {
        let mut u = crate::text::strip_slashes_text(self.base_url.as_str());
        append_str(&mut u, "/api/licenses/");
        append_str(&mut u, license_id);
        append_str(&mut u, "/");
        append_str(&mut u, action);
        u
    }

    pub fn activate_url(&self, license_id: &str) -> (r: String)
        ensures
            r@ == licence_url(self.endpoint_spec(), license_id@, "activate"@),
    {
        self.url(license_id, "activate")
    }

    pub fn checkin_url(&self, license_id: &str) -> (r: String)
        ensures
            r@ == licence_url(self.endpoint_spec(), license_id@, "checkin"@),
    {
        self.url(license_id, "checkin")
    }

    /// Binding a licence on first use: not built, so unreachable.
    pub fn activate(&self, license_id: &str, fingerprint: &str) -> (r: Result<(), LicenseError>)
        ensures
            r matches Err(LicenseError::Unreachable(m)) && m@ == unbuilt_text(),
    {
        Err(self.unbuilt())
    }

    fn unbuilt(&self) -> (r: LicenseError)
        ensures
            r matches LicenseError::Unreachable(m) && m@ == unbuilt_text(),
    {
        LicenseError::Unreachable(String::from_str("licensing-server transport is not implemented yet"))
    }
}

/// What an unbuilt transport reports.
pub open spec fn unbuilt_text() -> Seq<char> {
    "licensing-server transport is not implemented yet"@
}

/// The seam for public anchoring of certificate hashes. Not configured: it
/// fails rather than fabricating a receipt, because a receipt's whole value
/// is that a third party can check it.
pub struct UnconfiguredAnchor;

impl UnconfiguredAnchor {
    pub fn anchor(&self, cert_sha256_hex: &str) -> (r: Result<(), LicenseError>)
        ensures
            r matches Err(LicenseError::Unsupported(m))
                && m@ == "no certificate anchor is configured (optional, not built)"@,
    {
        Err(LicenseError::Unsupported(String::from_str("no certificate anchor is configured (optional, not built)")))
    }

    pub fn verify(&self) -> (r: Result<bool, LicenseError>)
        ensures
            r matches Err(LicenseError::Unsupported(m)) && m@ == "no certificate anchor is configured"@,
    {
        Err(LicenseError::Unsupported(String::from_str("no certificate anchor is configured")))
    }

    pub fn network(&self) -> (r: &'static str)
        ensures
            r@ == "none"@,
    {
        "none"
    }
}

/// Checking the status never moves the watermark backwards, and a
/// rolled-back clock leaves it where it was.
pub proof fn law_status_never_rewinds_the_watermark(st: LeaseState, now: i128)
    ensures
        observed(st, now).time_watermark >= st.time_watermark,
        now <= st.time_watermark ==> observed(st, now).time_watermark == st.time_watermark,
        observed(st, now).erasures_used == st.erasures_used,
{
}

} // verus!
