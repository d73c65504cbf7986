//! Licensing: what a vendor-signed licence grants, and the offline levers
//! that decide whether a station may sign licensed certificates right now.
//! Instants are nanoseconds since the Unix epoch.

use vstd::prelude::*;

use crate::method::Method;
use crate::text::{append_str, str_eq};

verus! {

/// Errors of the licensing layer.
#[derive(Debug, PartialEq, Eq)]
pub enum LicenseError {
    Verification(String),
    /// The payload itself was altered: never reported as a generic failure.
    Tampered(String),
    UntrustedRoot(String),
    Encoding(String),
    Unsupported(String),
    Unreachable(String),
}

/// The text of a licensing error.
pub open spec fn license_error_text(e: LicenseError) -> Seq<char> {
    match e {
        LicenseError::Verification(s) => "licence verification failed: "@ + s@,
        LicenseError::Tampered(s) => "licence was tampered with: "@ + s@,
        LicenseError::UntrustedRoot(s) => "licence was signed by an untrusted root key: "@ + s@,
        LicenseError::Encoding(s) => "encoding failed: "@ + s@,
        LicenseError::Unsupported(s) => "not supported on this build: "@ + s@,
        LicenseError::Unreachable(s) => "licensing server unreachable: "@ + s@,
    }
}

impl LicenseError {
    /// The operator-facing text of this error.
    pub fn message(&self) -> (r: String)
        ensures
            r@ == license_error_text(*self),
    {
        let (prefix, s) = match self {
            LicenseError::Verification(s) => ("licence verification failed: ", s),
            LicenseError::Tampered(s) => ("licence was tampered with: ", s),
            LicenseError::UntrustedRoot(s) => ("licence was signed by an untrusted root key: ", s),
            LicenseError::Encoding(s) => ("encoding failed: ", s),
            LicenseError::Unsupported(s) => ("not supported on this build: ", s),
            LicenseError::Unreachable(s) => ("licensing server unreachable: ", s),
        };
        let mut out = String::from_str(prefix);
        append_str(&mut out, s.as_str());
        out
    }
}

/// How many erasures a licence permits.
#[derive(Debug, Clone, Copy, PartialEq, Eq, Structural)]
pub enum Quota {
    /// Annual-unlimited per station.
    Unlimited,
    /// A hard count.
    Count { erasures: u64 },
}

impl Quota {
    /// May another erasure run after `used`?
    pub fn permits(&self, used: u64) -> (r: bool)
        ensures
            r == match *self {
                Quota::Unlimited => true,
                Quota::Count { erasures } => used < erasures,
            },
    {
        match self {
            Quota::Unlimited => true,
            Quota::Count { erasures } => used < *erasures,
        }
    }

    /// Erasures left after `used`; `None` when unlimited.
    pub fn remaining(&self, used: u64) -> (r: Option<u64>)
        ensures
            r == match *self {
                Quota::Unlimited => None,
                Quota::Count { erasures } => Some(if used <= erasures { (erasures - used) as u64 } else { 0u64 }),
            },
    {
        match self {
            Quota::Unlimited => None,
            Quota::Count { erasures } => Some(erasures.saturating_sub(used)),
        }
    }
}

/// What a licence covers.
#[derive(Debug, PartialEq, Eq)]
pub enum Scope {
    /// One machine, identified by fingerprint.
    Machine { fingerprint: String },
    /// Every station at a site.
    Site { site_id: String },
}

/// Features a licence may grant.
#[derive(Debug, Clone, Copy, PartialEq, Eq, Structural, PartialOrd, Ord)]
pub enum Feature {
    EnterpriseMode,
    HubSync,
    ErpIntegration,
    PdfCertificates,
    CertAnchoring,
}

/// Families of sanitization methods a licence may permit.
#[derive(Debug, Clone, Copy, PartialEq, Eq, Structural, PartialOrd, Ord)]
pub enum MethodClass {
    NvmeSanitize,
    AtaSecureErase,
    BlockOverwrite,
    OpalRevert,
    Destroy,
}

/// The family of a method.
pub open spec fn class_of(m: Method) -> MethodClass {
    match m {
        Method::NvmeSanitizeBlockErase { .. } | Method::NvmeSanitizeCryptoErase { .. }
        | Method::NvmeSanitizeOverwrite { .. } => MethodClass::NvmeSanitize,
        Method::AtaSecureErase { .. } => MethodClass::AtaSecureErase,
        Method::BlockOverwrite { .. } => MethodClass::BlockOverwrite,
        Method::OpalRevert => MethodClass::OpalRevert,
        Method::Destroy { .. } => MethodClass::Destroy,
    }
}

impl MethodClass {
    /// Classify a concrete method for entitlement checks.
    pub fn of(method: &Method) -> (r: MethodClass)
        ensures
            r == class_of(*method),
    {
        match method {
            Method::NvmeSanitizeBlockErase { .. } | Method::NvmeSanitizeCryptoErase { .. }
            | Method::NvmeSanitizeOverwrite { .. } => MethodClass::NvmeSanitize,
            Method::AtaSecureErase { .. } => MethodClass::AtaSecureErase,
            Method::BlockOverwrite { .. } => MethodClass::BlockOverwrite,
            Method::OpalRevert => MethodClass::OpalRevert,
            Method::Destroy { .. } => MethodClass::Destroy,
        }
    }
}

/// Which methods a licence permits.
#[derive(Debug, PartialEq, Eq)]
pub enum AllowedMethods {
    All,
    Only { classes: Vec<MethodClass> },
}

/// Does the allowance permit this method?
pub open spec fn allows(a: AllowedMethods, m: Method) -> bool {
    match a {
        AllowedMethods::All => true,
        AllowedMethods::Only { classes } => classes@.contains(class_of(m)),
    }
}

fn contains_class(classes: &Vec<MethodClass>, c: MethodClass) -> (r: bool)
    ensures
        r == classes@.contains(c),
{
    for i in 0..classes.len()
        invariant
            forall|j: int| 0 <= j < i ==> classes@[j] != c,
    {
        if classes[i] == c {
            assert(classes@[i as int] == c);
            return true;
        }
    }
    false
}

impl AllowedMethods {
    pub fn permits(&self, method: &Method) -> (r: bool)
        ensures
            r == allows(*self, *method),
    {
        match self {
            AllowedMethods::All => true,
            AllowedMethods::Only { classes } => contains_class(classes, MethodClass::of(method)),
        }
    }
}

/// The vendor-signed grant. `not_before` and `not_after` bound the lease
/// window.
#[derive(Debug, PartialEq, Eq)]
pub struct Entitlements {
    pub customer_id: String,
    pub customer_name: String,
    pub quota: Quota,
    pub scope: Scope,
    pub not_before: i128,
    pub not_after: i128,
    pub features: Vec<Feature>,
    pub allowed_methods: AllowedMethods,
    /// A fingerprint the station must match, independent of the scope.
    pub machine_binding: Option<String>,
}

/// The fingerprint a station must present, if any: an explicit binding
/// wins, and a machine scope implies its own.
pub open spec fn spec_required_fingerprint(e: Entitlements) -> Option<Seq<char>> {
    match e.machine_binding {
        Some(b) => Some(b@),
        None => match e.scope {
            Scope::Machine { fingerprint } => Some(fingerprint@),
            Scope::Site { .. } => None,
        },
    }
}

impl Entitlements {
    /// Does the licence grant this feature?
    pub fn grants(&self, feature: Feature) -> (r: bool)
        ensures
            r == self.features@.contains(feature),
    {
        for i in 0..self.features.len()
            invariant
                forall|j: int| 0 <= j < i ==> self.features@[j] != feature,
        {
            if self.features[i] == feature {
                assert(self.features@[i as int] == feature);
                return true;
            }
        }
        false
    }

    /// Is `now` inside the lease window (both ends included)?
    pub fn within_window(&self, now: i128) -> (r: bool)
        ensures
            r == (self.not_before <= now && now <= self.not_after),
    {
        now >= self.not_before && now <= self.not_after
    }

    /// The fingerprint this licence requires a station to present, if any.
    pub fn required_fingerprint(&self) -> (r: Option<&str>)
        ensures
            match spec_required_fingerprint(*self) {
                Some(f) => r is Some && r->0@ == f,
                None => r is None,
            },
    {
        match &self.machine_binding {
            Some(b) => Some(b.as_str()),
            None => match &self.scope {
                Scope::Machine { fingerprint } => Some(fingerprint.as_str()),
                Scope::Site { .. } => None,
            },
        }
    }
}

/// Nanoseconds in a second.
pub const NANOS_PER_SECOND: i128 = 1_000_000_000;

/// Nanoseconds in a day.
pub const NANOS_PER_DAY: i128 = 86_400_000_000_000;

/// Backwards clock movement tolerated before it counts as rollback: five
/// minutes, enough for NTP steps and suspend/resume.
pub const CLOCK_SKEW_ALLOWANCE: i128 = 300_000_000_000;

/// Earliest instant a station's clock can report.
pub const MIN_INSTANT: i128 = -377_705_116_800_000_000_000;

/// Latest instant a station's clock can report.
pub const MAX_INSTANT: i128 = 253_402_300_799_999_999_999;

/// An instant a clock can report.
pub open spec fn representable(t: int) -> bool {
    MIN_INSTANT <= t <= MAX_INSTANT
}

/// Persisted anti-rollback state.
#[derive(Debug, Clone, Copy, PartialEq, Eq, Structural)]
pub struct LeaseState {
    /// Highest wall-clock time ever observed.
    pub time_watermark: i128,
    /// Erasures observed locally under the current licence.
    pub erasures_used: u64,
    /// Set once the counter is anchored somewhere the customer cannot rewind.
    pub counter_is_monotonic: bool,
}

/// The clock moved backwards past the skew allowance.
pub open spec fn spec_rollback(watermark: i128, now: i128) -> bool {
    now < watermark - CLOCK_SKEW_ALLOWANCE
}

impl LeaseState {
    /// Fresh state first observed at `now`.
    pub fn new(now: i128) -> (r: Self)
        ensures
            r.time_watermark == now,
            r.erasures_used == 0,
            !r.counter_is_monotonic,
    {
        LeaseState { time_watermark: now, erasures_used: 0, counter_is_monotonic: false }
    }

    /// Fold an observed time into the watermark, which only moves forward.
    pub fn observe(&mut self, now: i128)
        ensures
            final(self).time_watermark == if now > old(self).time_watermark { now } else { old(self).time_watermark },
            final(self).erasures_used == old(self).erasures_used,
            final(self).counter_is_monotonic == old(self).counter_is_monotonic,
    {
        if now > self.time_watermark {
            self.time_watermark = now;
        }
    }

    /// Has the clock moved backwards past the skew allowance?
    pub fn rollback_detected(&self, now: i128) -> (r: bool)
        requires
            representable(self.time_watermark - CLOCK_SKEW_ALLOWANCE),
        ensures
            r == spec_rollback(self.time_watermark, now),
    {
        now < self.time_watermark - CLOCK_SKEW_ALLOWANCE
    }
}

/// Why a licence check passed or failed, in terms an operator can act on.
#[derive(Debug, PartialEq, Eq)]
pub enum LeaseStatus {
    Valid { remaining_erasures: Option<u64>, days_remaining: i64 },
    Expired { not_after: i128 },
    NotYetValid { not_before: i128 },
    QuotaExhausted { used: u64, allowed: u64 },
    WrongMachine { expected: String, actual: String },
    ClockRollback { watermark: i128, observed: i128 },
    Unlicensed,
}

impl LeaseStatus {
    /// Only a valid lease permits signing a licensed certificate. An
    /// unlicensed station still erases and still signs evaluation
    /// certificates.
    pub fn permits_licensed_signing(&self) -> (r: bool)
        ensures
            r == (*self is Valid),
    {
        match self {
            LeaseStatus::Valid { .. } => true,
            _ => false,
        }
    }
}

/// Whole days from `now` to `until`, rounded toward zero.
pub open spec fn whole_days(now: int, until: int) -> int {
    let d = until - now;
    if d >= 0 { d / (NANOS_PER_DAY as int) } else { -((-d) / (NANOS_PER_DAY as int)) }
}

/// What an offline licence check concludes. The clock is checked first:
/// every later check reads it, so a moved clock makes them all
/// untrustworthy. Then the machine binding, the window, and the quota.
pub open spec fn spec_evaluate(e: Option<Entitlements>, st: LeaseState, fingerprint: Seq<char>, now: i128) -> LeaseStatusV {
    match e {
        None => LeaseStatusV::Unlicensed,
        Some(ent) => if spec_rollback(st.time_watermark, now) {
            LeaseStatusV::ClockRollback { watermark: st.time_watermark, observed: now }
        } else if spec_required_fingerprint(ent) is Some && spec_required_fingerprint(ent)->0 != fingerprint {
            LeaseStatusV::WrongMachine { expected: spec_required_fingerprint(ent)->0, actual: fingerprint }
        } else if now < ent.not_before {
            LeaseStatusV::NotYetValid { not_before: ent.not_before }
        } else if now > ent.not_after {
            LeaseStatusV::Expired { not_after: ent.not_after }
        } else {
            match ent.quota {
                Quota::Count { erasures } => if st.erasures_used >= erasures {
                    LeaseStatusV::QuotaExhausted { used: st.erasures_used, allowed: erasures }
                } else {
                    LeaseStatusV::Valid {
                        remaining_erasures: Some((erasures - st.erasures_used) as u64),
                        days_remaining: whole_days(now as int, ent.not_after as int),
                    }
                },
                Quota::Unlimited => LeaseStatusV::Valid {
                    remaining_erasures: None,
                    days_remaining: whole_days(now as int, ent.not_after as int),
                },
            }
        },
    }
}

/// Spec-level image of a lease status.
pub enum LeaseStatusV {
    Valid { remaining_erasures: Option<u64>, days_remaining: int },
    Expired { not_after: i128 },
    NotYetValid { not_before: i128 },
    QuotaExhausted { used: u64, allowed: u64 },
    WrongMachine { expected: Seq<char>, actual: Seq<char> },
    ClockRollback { watermark: i128, observed: i128 },
    Unlicensed,
}

impl View for LeaseStatus {
    type V = LeaseStatusV;

    open spec fn view(&self) -> LeaseStatusV {
        match *self {
            LeaseStatus::Valid { remaining_erasures, days_remaining } => LeaseStatusV::Valid {
                remaining_erasures,
                days_remaining: days_remaining as int,
            },
            LeaseStatus::Expired { not_after } => LeaseStatusV::Expired { not_after },
            LeaseStatus::NotYetValid { not_before } => LeaseStatusV::NotYetValid { not_before },
            LeaseStatus::QuotaExhausted { used, allowed } => LeaseStatusV::QuotaExhausted { used, allowed },
            LeaseStatus::WrongMachine { expected, actual } => LeaseStatusV::WrongMachine {
                expected: expected@,
                actual: actual@,
            },
            LeaseStatus::ClockRollback { watermark, observed } => LeaseStatusV::ClockRollback { watermark, observed },
            LeaseStatus::Unlicensed => LeaseStatusV::Unlicensed,
        }
    }
}

/// Evaluate a licence offline against this station's fingerprint and
/// clock. `state` supplies the watermark and local usage and is not
/// changed: callers decide when to record usage.
pub fn evaluate(entitlements: Option<&Entitlements>, state: &LeaseState, fingerprint: &str, now: i128) -> (r: LeaseStatus)
    requires
        representable(state.time_watermark - CLOCK_SKEW_ALLOWANCE),
        representable(now as int),
        entitlements matches Some(e) ==> representable(e.not_after as int),
    ensures
        r@ == spec_evaluate(match entitlements {
            Some(e) => Some(*e),
            None => None,
        }, *state, fingerprint@, now),
{
    let ent = match entitlements {
        None => {
            return LeaseStatus::Unlicensed;
        },
        Some(e) => e,
    };
    if state.rollback_detected(now) {
        return LeaseStatus::ClockRollback { watermark: state.time_watermark, observed: now };
    }
    if let Some(expected) = ent.required_fingerprint() {
        if !str_eq(expected, fingerprint) {
            return LeaseStatus::WrongMachine { expected: String::from_str(expected), actual: String::from_str(fingerprint) };
        }
    }
    if now < ent.not_before {
        return LeaseStatus::NotYetValid { not_before: ent.not_before };
    }
    if now > ent.not_after {
        return LeaseStatus::Expired { not_after: ent.not_after };
    }
    if !ent.quota.permits(state.erasures_used) {
        if let Quota::Count { erasures } = ent.quota {
            return LeaseStatus::QuotaExhausted { used: state.erasures_used, allowed: erasures };
        }
    }
    let diff: i128 = ent.not_after - now;
    let days: i128 = diff / NANOS_PER_DAY;
    assert(0 <= days <= 8_000_000) by (nonlinear_arith)
        requires
            0 <= diff <= MAX_INSTANT - MIN_INSTANT,
            days == diff / NANOS_PER_DAY,
            NANOS_PER_DAY == 86_400_000_000_000;
    LeaseStatus::Valid { remaining_erasures: ent.quota.remaining(state.erasures_used), days_remaining: days as i64 }
}

/// A feature is available only with both the grant and a currently valid
/// lease: an expired licence does not keep unlocking features.
pub fn feature_available(entitlements: Option<&Entitlements>, status: &LeaseStatus, feature: Feature) -> (r: bool)
    ensures
        r == (*status is Valid && match entitlements {
            Some(e) => e.features@.contains(feature),
            None => false,
        }),
{
    status.permits_licensed_signing() && match entitlements {
        Some(e) => e.grants(feature),
        None => false,
    }
}

/// A counter the station cannot rewind.
pub trait MonotonicCounter {
    fn read(&self) -> Result<u64, LicenseError>;

    fn increment(&self) -> Result<u64, LicenseError>;

    /// False means the customer can roll the counter back, and the screen
    /// must say so rather than imply hardware backing.
    fn is_hardware_backed(&self) -> (r: bool)
        default_ensures
            !r,
    {
        false
    }
}

/// The seam for TPM 2.0 counters. It fails rather than inventing a value:
/// a counter that silently pretends to be monotonic is worse than none.
pub struct TpmCounter;

/// What the TPM seam reports.
pub open spec fn tpm_unsupported_text() -> Seq<char> {
    "TPM monotonic counter needs the Linux backend (/dev/tpmrm0)"@
}

impl MonotonicCounter for TpmCounter {
    fn read(&self) -> (r: Result<u64, LicenseError>)
        ensures
            r matches Err(LicenseError::Unsupported(m)) && m@ == tpm_unsupported_text(),
    {
        Err(LicenseError::Unsupported(String::from_str("TPM monotonic counter needs the Linux backend (/dev/tpmrm0)")))
    }

    fn increment(&self) -> (r: Result<u64, LicenseError>)
        ensures
            r matches Err(LicenseError::Unsupported(m)) && m@ == tpm_unsupported_text(),
    {
        self.read()
    }

    fn is_hardware_backed(&self) -> (r: bool)
        ensures
            r,
    {
        true
    }
}

/// The watermark never moves backwards, whatever is observed.
pub proof fn law_watermark_only_moves_forward(before: i128, now: i128)
    ensures
        (if now > before { now } else { before }) >= before,
        (if now > before { now } else { before }) >= now,
{
}

/// A rolled-back clock beats every other finding: whatever the licence
/// says, a clock more than the allowance behind the watermark is reported
/// as rollback.
pub proof fn law_rollback_beats_every_other_check(e: Entitlements, st: LeaseState, fingerprint: Seq<char>, now: i128)
    requires
        spec_rollback(st.time_watermark, now),
    ensures
        spec_evaluate(Some(e), st, fingerprint, now) == (LeaseStatusV::ClockRollback { watermark: st.time_watermark, observed: now }),
{
}

/// Small backwards jumps, within the allowance, are never rollback.
pub proof fn law_small_backwards_jumps_are_tolerated(watermark: i128, now: i128)
    requires
        watermark - CLOCK_SKEW_ALLOWANCE <= now,
    ensures
        !spec_rollback(watermark, now),
{
}

/// With no licence a station is unlicensed, never in error.
pub proof fn law_no_licence_is_unlicensed(st: LeaseState, fingerprint: Seq<char>, now: i128)
    ensures
        spec_evaluate(None, st, fingerprint, now) == LeaseStatusV::Unlicensed,
{
}

/// A valid verdict means every check passed: the clock, the binding, the
/// window and the quota.
pub proof fn law_valid_means_every_check_passed(e: Entitlements, st: LeaseState, fingerprint: Seq<char>, now: i128)
    requires
        spec_evaluate(Some(e), st, fingerprint, now) is Valid,
    ensures
        !spec_rollback(st.time_watermark, now),
        spec_required_fingerprint(e) matches Some(f) ==> f == fingerprint,
        e.not_before <= now <= e.not_after,
        e.quota matches Quota::Count { erasures } ==> st.erasures_used < erasures,
{
}

/// The quota counts down: what is used plus what remains is the count, and
/// an unlimited quota never runs out.
pub proof fn law_quota_counts_down(q: Quota, used: u64)
    ensures
        q matches Quota::Count { erasures } ==> ((used < erasures) ==> used + (erasures - used) == erasures),
        q is Unlimited ==> true,
{
}

} // verus!
