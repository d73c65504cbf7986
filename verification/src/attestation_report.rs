//! What a verifier of a signed certificate is told about its attestation
//! chain, and when the check fails. The erasure signature is checked
//! separately; this concerns only the licence half.

use vstd::prelude::*;

use crate::cert::{VerifyingKey, keys_view};
use crate::license_chain::{AttestationChain, ChainVerdict, verdict_holds, verify_chain};
use crate::text::append_str;

verus! {

/// Lines to show, in order, and the failure that ends the check, if any.
pub struct AttestationReport {
    pub lines: Vec<String>,
    pub failure: Option<String>,
}

pub open spec fn lines_view(ls: Seq<String>) -> Seq<Seq<char>> {
    ls.map_values(|l: String| l@)
}

/// The report when no vendor root was given to check against.
pub open spec fn unchecked_lines(chain_present: bool, evaluation: bool) -> Seq<Seq<char>> {
    if chain_present {
        seq!["\n  attestation: present but NOT CHECKED — pass --vendor-root-b64 to verify it"@]
    } else if evaluation {
        seq!["\n  attestation: none — EVALUATION certificate (unlicensed station)"@]
    } else {
        seq!["\n  attestation: none, but the certificate does not claim evaluation status"@]
    }
}

/// The lines shown for a verdict.
pub open spec fn verdict_lines(v: ChainVerdict, evaluation: bool) -> Seq<Seq<char>> {
    match v {
        ChainVerdict::Licensed { customer_id, customer_name, license_id, root_key_id, expired_at_signing } => {
            let head = seq![
                "\nLICENSED — attestation chain verified to vendor root "@ + root_key_id@,
                "  customer: "@ + customer_name@ + " ("@ + customer_id@ + ")"@,
                "  license:  "@ + license_id@,
            ];
            let with_note = if expired_at_signing {
                head.push("  NOTE: the licence had expired when this certificate was signed. \nThe chain is authentic; the licence had lapsed."@)
            } else {
                head
            };
            if evaluation {
                with_note.push("  WARNING: certificate is marked `evaluation` yet carries a valid chain."@)
            } else {
                with_note
            }
        },
        ChainVerdict::Unlicensed => {
            let head = seq![
                "\nEVALUATION — no attestation chain (unlicensed station)"@,
                "  The erasure and its signature are valid. This certificate was not produced\nunder a vendor licence and is not evidence of a licensed deployment."@,
            ];
            if !evaluation {
                head.push("  WARNING: no chain, yet the certificate does not mark itself `evaluation`."@)
            } else {
                head
            }
        },
        ChainVerdict::Invalid { .. } => Seq::empty(),
    }
}

/// The failure a verdict ends the check with.
pub open spec fn verdict_failure(v: ChainVerdict, require_licensed: bool) -> Option<Seq<char>> {
    match v {
        ChainVerdict::Licensed { .. } => None,
        ChainVerdict::Unlicensed => if require_licensed {
            Some("--require-licensed was set but this certificate is unlicensed"@)
        } else {
            None
        },
        ChainVerdict::Invalid { reason } => Some("attestation chain INVALID: "@ + reason@),
    }
}

fn joined(a: &str, b: &str) -> (r: String)
    ensures
        r@ == a@ + b@,
{
    let mut s = String::from_str(a);
    append_str(&mut s, b);
    s
}

/// The report on a verdict, saying what to show and whether the check fails.
pub fn verdict_report(verdict: &ChainVerdict, evaluation: bool, require_licensed: bool) -> (r: AttestationReport)
    ensures
        lines_view(r.lines@) == verdict_lines(*verdict, evaluation),
        match verdict_failure(*verdict, require_licensed) {
            Some(m) => r.failure matches Some(f) && f@ == m,
            None => r.failure is None,
        },
{
    let mut lines: Vec<String> = Vec::new();
    match verdict {
        ChainVerdict::Licensed { customer_id, customer_name, license_id, root_key_id, expired_at_signing } => {
            lines.push(joined("\nLICENSED — attestation chain verified to vendor root ", root_key_id.as_str()));
            let mut c = joined("  customer: ", customer_name.as_str());
            append_str(&mut c, " (");
            append_str(&mut c, customer_id.as_str());
            append_str(&mut c, ")");
            lines.push(c);
            lines.push(joined("  license:  ", license_id.as_str()));
            if *expired_at_signing {
                lines.push(String::from_str(
                    "  NOTE: the licence had expired when this certificate was signed. \nThe chain is authentic; the licence had lapsed.",
                ));
            }
            if evaluation {
                lines.push(String::from_str("  WARNING: certificate is marked `evaluation` yet carries a valid chain."));
            }
            proof {
                assert(lines_view(lines@) =~= verdict_lines(*verdict, evaluation));
            }
            AttestationReport { lines, failure: None }
        },
        ChainVerdict::Unlicensed => {
            lines.push(String::from_str("\nEVALUATION — no attestation chain (unlicensed station)"));
            lines.push(String::from_str(
                "  The erasure and its signature are valid. This certificate was not produced\nunder a vendor licence and is not evidence of a licensed deployment.",
            ));
            if !evaluation {
                lines.push(String::from_str("  WARNING: no chain, yet the certificate does not mark itself `evaluation`."));
            }
            proof {
                assert(lines_view(lines@) =~= verdict_lines(*verdict, evaluation));
            }
            let failure = if require_licensed {
                Some(String::from_str("--require-licensed was set but this certificate is unlicensed"))
            } else {
                None
            };
            AttestationReport { lines, failure }
        },
        ChainVerdict::Invalid { reason } => {
            proof {
                assert(lines_view(lines@) =~= verdict_lines(*verdict, evaluation));
            }
            AttestationReport { lines, failure: Some(joined("attestation chain INVALID: ", reason.as_str())) }
        },
    }
}

/// Check a certificate's attestation chain against the vendor roots and
/// report on it. `body_bytes` is the canonical encoding of the licence
/// body, `signed_by` the key id that signed the certificate, `issued_at`
/// the instant it was issued, `evaluation` whether it marks itself so.
/// With no roots the chain is not checked and the check never fails.
pub fn report_attestation(
    chain: Option<&AttestationChain>,
    body_bytes: &[u8],
    signed_by: &str,
    issued_at: i128,
    evaluation: bool,
    roots: &[VerifyingKey],
    require_licensed: bool,
) -> (r: AttestationReport)
    ensures
        roots@.len() == 0 ==> lines_view(r.lines@) == unchecked_lines(chain is Some, evaluation) && r.failure is None,
        roots@.len() > 0 ==> exists|v: ChainVerdict|
            verdict_holds(v, match chain {
                Some(c) => Some(*c),
                None => None,
            }, body_bytes@, signed_by@, issued_at, keys_view(roots@))
            && lines_view(r.lines@) == verdict_lines(v, evaluation)
            && match verdict_failure(v, require_licensed) {
                Some(m) => r.failure matches Some(f) && f@ == m,
                None => r.failure is None,
            },
{
    if roots.len() == 0 {
        let mut lines: Vec<String> = Vec::new();
        let text: &str = if chain.is_some() {
            "\n  attestation: present but NOT CHECKED — pass --vendor-root-b64 to verify it"
        } else if evaluation {
            "\n  attestation: none — EVALUATION certificate (unlicensed station)"
        } else {
            "\n  attestation: none, but the certificate does not claim evaluation status"
        };
        lines.push(String::from_str(text));
        proof {
            assert(lines_view(lines@) =~= unchecked_lines(chain is Some, evaluation));
        }
        return AttestationReport { lines, failure: None };
    }
    let verdict = verify_chain(chain, body_bytes, signed_by, issued_at, roots);
    verdict_report(&verdict, evaluation, require_licensed)
}

/// A chain that fails to verify always fails the check, whatever the
/// certificate claims and whether or not a licence was required.
pub proof fn law_invalid_chain_fails_the_check(v: ChainVerdict, evaluation: bool, require_licensed: bool)
    requires
        v is Invalid,
    ensures
        verdict_failure(v, require_licensed) is Some,
{
}

/// A licensed chain never fails the check.
pub proof fn law_licensed_chain_passes(v: ChainVerdict, require_licensed: bool)
    requires
        v is Licensed,
    ensures
        verdict_failure(v, require_licensed) is None,
{
}

} // verus!
