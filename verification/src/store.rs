//! Where station configuration lives. The tier is detected, not
//! configured: a writable local file, else a control plane, else memory for
//! this boot only, with the operator asked rather than silently downgraded.
//! The filesystem probe itself is the caller's; the decisions are here.

use vstd::prelude::*;

use crate::bay::{BayTopology, TopologyV};

use crate::text::{append_str, decimal, decimal_string, strip_slashes, strip_slashes_text};

verus! {

/// Why configuration could not be loaded or saved.
#[derive(Debug, PartialEq, Eq)]
pub enum StoreError {
    Unavailable,
    RevisionConflict { stored: u32, sent: u32 },
    Io(String),
    Parse(String),
    ControlPlane(String),
}

/// The text of a store error.
pub open spec fn store_error_text(e: StoreError) -> Seq<char> {
    match e {
        StoreError::Unavailable => "no writable location for station configuration"@,
        StoreError::RevisionConflict { stored, sent } => "configuration was changed by someone else (stored revision "@
            + decimal(stored as nat) + ", you sent "@ + decimal(sent as nat) + ")"@,
        StoreError::Io(s) => "io error: "@ + s@,
        StoreError::Parse(s) => "could not parse stored configuration: "@ + s@,
        StoreError::ControlPlane(s) => "control plane unreachable: "@ + s@,
    }
}

fn prefixed(prefix: &str, s: &str) -> (r: String)
    ensures
        r@ == prefix@ + s@,
{
    let mut out = String::from_str(prefix);
    append_str(&mut out, s);
    out
}

impl StoreError {
    /// The operator-facing text of this error.
    pub fn message(&self) -> (r: String)
        ensures
            r@ == store_error_text(*self),
    {
        match self {
            StoreError::Unavailable => String::from_str("no writable location for station configuration"),
            StoreError::RevisionConflict { stored, sent } => {
                let mut m = String::from_str("configuration was changed by someone else (stored revision ");
                let a = decimal_string(*stored as u64);
                append_str(&mut m, a.as_str());
                append_str(&mut m, ", you sent ");
                let b = decimal_string(*sent as u64);
                append_str(&mut m, b.as_str());
                append_str(&mut m, ")");
                m
            },
            StoreError::Io(s) => prefixed("io error: ", s.as_str()),
            StoreError::Parse(s) => prefixed("could not parse stored configuration: ", s.as_str()),
            StoreError::ControlPlane(s) => prefixed("control plane unreachable: ", s.as_str()),
        }
    }
}

/// Which backend is in play.
#[derive(Debug, Clone, Copy, PartialEq, Eq, Structural)]
pub enum StoreTier {
    /// Writable local file; survives reboot.
    LocalFile,
    /// A control plane keyed by station id; survives reboot centrally.
    ControlPlane,
    /// Memory only; lost on reboot.
    Ephemeral,
}

impl StoreTier {
    pub fn survives_reboot(self) -> (r: bool)
        ensures
            r == !(self is Ephemeral),
    {
        match self {
            StoreTier::Ephemeral => false,
            _ => true,
        }
    }
}

/// What the screen needs to tell the operator the truth about persistence.
#[derive(Debug, PartialEq, Eq)]
pub struct StoreStatus {
    pub tier: StoreTier,
    pub survives_reboot: bool,
    /// A path, a URL, or "memory".
    pub location: String,
    /// The station cannot persist and no one has said what to do about it.
    pub needs_operator_decision: bool,
    /// Why the station ended up on this tier, for the operator.
    pub detail: String,
}

/// A writable file on this station. Reading and writing it is the
/// caller's; this holds its path and what to tell the operator.
pub struct LocalFileStore {
    pub path: String,
}

impl LocalFileStore {
    pub fn new(path: &str) -> (r: Self)
        ensures
            r.path@ == path@,
    {
        LocalFileStore { path: String::from_str(path) }
    }

    pub fn tier(&self) -> (r: StoreTier)
        ensures
            r == StoreTier::LocalFile,
    {
        StoreTier::LocalFile
    }

    pub fn location(&self) -> (r: String)
        ensures
            r@ == self.path@,
    {
        self.path.clone()
    }

    pub fn detail(&self) -> (r: String)
        ensures
            r@ == "Saved to "@ + self.path@ + " on this station. Survives reboot."@,
    {
        let mut m = prefixed("Saved to ", self.path.as_str());
        append_str(&mut m, " on this station. Survives reboot.");
        m
    }
}

/// A central control plane keyed by station id. No transport is wired in,
/// so it reports itself unavailable rather than pretending to save.
pub struct ControlPlaneStore {
    pub base_url: String,
    pub station_id: String,
}

/// `{base}/api/stations/{station}/bay-topology`, the base without trailing
/// slashes.
pub open spec fn endpoint_of(base: Seq<char>, station: Seq<char>) -> Seq<char> {
    strip_slashes(base) + "/api/stations/"@ + station + "/bay-topology"@
}

/// What the unbuilt transport reports.
pub open spec fn control_plane_unbuilt() -> Seq<char> {
    "control-plane transport is not implemented yet (the hub is future work)"@
}

impl ControlPlaneStore {
    pub fn new(base_url: &str, station_id: &str) -> (r: Self)
        ensures
            r.base_url@ == base_url@,
            r.station_id@ == station_id@,
    {
        ControlPlaneStore { base_url: String::from_str(base_url), station_id: String::from_str(station_id) }
    }

    pub fn endpoint(&self) -> (r: String)
        ensures
            r@ == endpoint_of(self.base_url@, self.station_id@),
    {
        let mut u = strip_slashes_text(self.base_url.as_str());
        append_str(&mut u, "/api/stations/");
        append_str(&mut u, self.station_id.as_str());
        append_str(&mut u, "/bay-topology");
        u
    }

    /// Is the control plane reachable? Not knowable yet, so no.
    pub fn probe(&self) -> (r: Result<(), StoreError>)
        ensures
            r matches Err(StoreError::ControlPlane(m)) && m@ == control_plane_unbuilt(),
    {
        Err(StoreError::ControlPlane(String::from_str("control-plane transport is not implemented yet (the hub is future work)")))
    }

    pub fn tier(&self) -> (r: StoreTier)
        ensures
            r == StoreTier::ControlPlane,
    {
        StoreTier::ControlPlane
    }

    pub fn location(&self) -> (r: String)
        ensures
            r@ == endpoint_of(self.base_url@, self.station_id@),
    {
        self.endpoint()
    }

    pub fn detail(&self) -> (r: String)
        ensures
            r@ == "Saved centrally to "@ + self.base_url@ + " for station `"@ + self.station_id@ + "`."@,
    {
        let mut m = prefixed("Saved centrally to ", self.base_url.as_str());
        append_str(&mut m, " for station `");
        append_str(&mut m, self.station_id.as_str());
        append_str(&mut m, "`.");
        m
    }

    /// Loading fails honestly while the transport is unbuilt.
    pub fn load(&self) -> (r: Result<Option<BayTopology>, StoreError>)
        ensures
            r matches Err(StoreError::ControlPlane(m)) && m@ == control_plane_unbuilt(),
    {
        match self.probe() {
            Ok(()) => Ok(None),
            Err(e) => Err(e),
        }
    }

    /// Saving fails honestly while the transport is unbuilt: a stub that
    /// silently succeeded would lose an operator's work.
    pub fn save(&self, topology: &BayTopology) -> (r: Result<(), StoreError>)
        ensures
            r matches Err(StoreError::ControlPlane(m)) && m@ == control_plane_unbuilt(),
    {
        self.probe()
    }
}

/// Memory only: fully functional for this boot, and honest that it will
/// not survive a reboot.
pub struct EphemeralStore {
    held: Option<BayTopology>,
    reason: String,
    awaiting_decision: bool,
}

/// What an ephemeral store tells the operator.
pub open spec fn ephemeral_detail(reason: Seq<char>) -> Seq<char> {
    reason + " Configuration works normally but is lost when this station reboots. Use Export to keep a copy."@
}

impl EphemeralStore {
    pub fn new(reason: &str, awaiting_decision: bool) -> (r: Self)
        ensures
            r.held_spec() is None,
            r.reason_spec() == reason@,
            r.awaiting_spec() == awaiting_decision,
    {
        EphemeralStore { held: None, reason: String::from_str(reason), awaiting_decision }
    }

    /// What is held, by view.
    pub closed spec fn held_spec(&self) -> Option<TopologyV> {
        match self.held {
            Some(t) => Some(t@),
            None => None,
        }
    }

    pub closed spec fn reason_spec(&self) -> Seq<char> {
        self.reason@
    }

    pub closed spec fn awaiting_spec(&self) -> bool {
        self.awaiting_decision
    }

    pub fn tier(&self) -> (r: StoreTier)
        ensures
            r == StoreTier::Ephemeral,
    {
        StoreTier::Ephemeral
    }

    pub fn location(&self) -> (r: String)
        ensures
            r@ == "memory (this boot only)"@,
    {
        String::from_str("memory (this boot only)")
    }

    pub fn detail(&self) -> (r: String)
        ensures
            r@ == ephemeral_detail(self.reason_spec()),
    {
        let mut m = self.reason.clone();
        append_str(&mut m, " Configuration works normally but is lost when this station reboots. Use Export to keep a copy.");
        m
    }

    /// What was saved this boot, if anything.
    pub fn load(&self) -> (r: Result<Option<BayTopology>, StoreError>)
        ensures
            r matches Ok(o) && match o {
                Some(t) => self.held_spec() == Some(t@),
                None => self.held_spec() is None,
            },
    {
        match &self.held {
            Some(t) => Ok(Some(t.clone())),
            None => Ok(None),
        }
    }

    /// Hold a topology for this boot.
    pub fn save(&mut self, topology: &BayTopology) -> (r: Result<(), StoreError>)
        ensures
            r is Ok,
            final(self).held_spec() == Some(topology@),
            final(self).reason_spec() == old(self).reason_spec(),
            final(self).awaiting_spec() == old(self).awaiting_spec(),
    {
        self.held = Some(topology.clone());
        Ok(())
    }

    pub fn awaiting_decision(&self) -> (r: bool)
        ensures
            r == self.awaiting_spec(),
    {
        self.awaiting_decision
    }

    /// The operator accepted that configuration will not survive reboot.
    pub fn acknowledge(&mut self)
        ensures
            !final(self).awaiting_spec(),
            final(self).held_spec() == old(self).held_spec(),
            final(self).reason_spec() == old(self).reason_spec(),
    {
        self.awaiting_decision = false;
    }
}

/// How the station was told to find its configuration.
pub struct StoreConfig {
    /// Explicit configuration path, read and written.
    pub explicit_path: Option<String>,
    /// Control-plane base URL.
    pub control_plane_url: Option<String>,
    pub station_id: String,
}

/// The backend detection picked.
pub enum DetectedStore {
    LocalFile(LocalFileStore),
    ControlPlane(ControlPlaneStore),
    Ephemeral(EphemeralStore),
}

/// The path detection probes: the explicit one, else the default.
pub open spec fn chosen_path(cfg: StoreConfig, default_path: Seq<char>) -> Seq<char> {
    match cfg.explicit_path {
        Some(p) => p@,
        None => default_path,
    }
}

/// The reason recorded when the control plane could not be used.
pub open spec fn control_plane_reason(url: Seq<char>) -> Seq<char> {
    "This station has no writable storage, and the configured control plane at "@ + url + " could not be used ("@
        + "control plane unreachable: "@ + control_plane_unbuilt() + ")."@
}

/// The reason recorded when nothing can persist and nothing is configured.
pub open spec fn nowhere_reason(path: Seq<char>) -> Seq<char> {
    "This station has no writable storage ("@ + path + ") and no control plane is configured."@
}

impl DetectedStore {
    pub fn tier(&self) -> (r: StoreTier)
        ensures
            r == match *self {
                DetectedStore::LocalFile(_) => StoreTier::LocalFile,
                DetectedStore::ControlPlane(_) => StoreTier::ControlPlane,
                DetectedStore::Ephemeral(_) => StoreTier::Ephemeral,
            },
    {
        match self {
            DetectedStore::LocalFile(s) => s.tier(),
            DetectedStore::ControlPlane(s) => s.tier(),
            DetectedStore::Ephemeral(s) => s.tier(),
        }
    }

    pub fn location(&self) -> (r: String)
        ensures
            r@ == match *self {
                DetectedStore::LocalFile(s) => s.path@,
                DetectedStore::ControlPlane(s) => endpoint_of(s.base_url@, s.station_id@),
                DetectedStore::Ephemeral(_) => "memory (this boot only)"@,
            },
    {
        match self {
            DetectedStore::LocalFile(s) => s.location(),
            DetectedStore::ControlPlane(s) => s.location(),
            DetectedStore::Ephemeral(s) => s.location(),
        }
    }

    pub fn detail(&self) -> (r: String)
        ensures
            r@ == self.detail_spec(),
    {
        match self {
            DetectedStore::LocalFile(s) => s.detail(),
            DetectedStore::ControlPlane(s) => s.detail(),
            DetectedStore::Ephemeral(s) => s.detail(),
        }
    }

    /// Only an ephemeral store can be waiting for the operator; the others
    /// answered by existing.
    pub fn awaiting_decision(&self) -> (r: bool)
        ensures
            r == match *self {
                DetectedStore::Ephemeral(s) => s.awaiting_spec(),
                _ => false,
            },
    {
        match self {
            DetectedStore::Ephemeral(s) => s.awaiting_decision(),
            _ => false,
        }
    }

    /// The operator accepted an ephemeral store; other tiers ignore this.
    pub fn acknowledge(&mut self)
        ensures
            !final(self).awaiting_decision_spec(),
            final(self).tier_spec() == old(self).tier_spec(),
    {
        match self {
            DetectedStore::Ephemeral(s) => s.acknowledge(),
            _ => {},
        }
    }

    /// Where configuration goes, as the operator is told.
    pub open spec fn location_spec(&self) -> Seq<char> {
        match *self {
            DetectedStore::LocalFile(s) => s.path@,
            DetectedStore::ControlPlane(s) => endpoint_of(s.base_url@, s.station_id@),
            DetectedStore::Ephemeral(_) => "memory (this boot only)"@,
        }
    }

    /// Why this tier was chosen, as the operator is told.
    pub open spec fn detail_spec(&self) -> Seq<char> {
        match *self {
            DetectedStore::LocalFile(s) => "Saved to "@ + s.path@ + " on this station. Survives reboot."@,
            DetectedStore::ControlPlane(s) => "Saved centrally to "@ + s.base_url@ + " for station `"@ + s.station_id@ + "`."@,
            DetectedStore::Ephemeral(s) => ephemeral_detail(s.reason_spec()),
        }
    }

    pub open spec fn tier_spec(&self) -> StoreTier {
        match *self {
            DetectedStore::LocalFile(_) => StoreTier::LocalFile,
            DetectedStore::ControlPlane(_) => StoreTier::ControlPlane,
            DetectedStore::Ephemeral(_) => StoreTier::Ephemeral,
        }
    }

    pub open spec fn awaiting_decision_spec(&self) -> bool {
        match *self {
            DetectedStore::Ephemeral(s) => s.awaiting_spec(),
            _ => false,
        }
    }
}

/// Walk the tiers and return the first that can hold configuration, given
/// the outcome of probing the chosen path for writability. Never fails:
/// the floor is memory, with the operator asked.
pub fn detect_store(cfg: &StoreConfig, default_path: &str, local_probe: Result<(), String>) -> (r: DetectedStore)
    ensures
        local_probe is Ok ==> (r matches DetectedStore::LocalFile(s) && s.path@ == chosen_path(*cfg, default_path@)),
        local_probe is Err ==> (r matches DetectedStore::Ephemeral(s) && s.awaiting_spec() && s.held_spec() is None
            && s.reason_spec() == match cfg.control_plane_url {
                Some(url) => control_plane_reason(url@),
                None => nowhere_reason(chosen_path(*cfg, default_path@)),
            }),
{
    let path: &str = match &cfg.explicit_path {
        Some(p) => p.as_str(),
        None => default_path,
    };
    if local_probe.is_ok() {
        return DetectedStore::LocalFile(LocalFileStore::new(path));
    }
    match &cfg.control_plane_url {
        Some(url) => {
            let cp = ControlPlaneStore::new(url.as_str(), cfg.station_id.as_str());
            match cp.probe() {
                Ok(()) => DetectedStore::ControlPlane(cp),
                Err(e) => {
                    let mut reason = prefixed("This station has no writable storage, and the configured control plane at ", url.as_str());
                    append_str(&mut reason, " could not be used (");
                    let em = e.message();
                    append_str(&mut reason, em.as_str());
                    append_str(&mut reason, ").");
                    DetectedStore::Ephemeral(EphemeralStore::new(reason.as_str(), true))
                },
            }
        },
        None => {
            let mut reason = prefixed("This station has no writable storage (", path);
            append_str(&mut reason, ") and no control plane is configured.");
            DetectedStore::Ephemeral(EphemeralStore::new(reason.as_str(), true))
        },
    }
}

/// What the API reports about a store.
pub fn status_of(store: &DetectedStore) -> (r: StoreStatus)
    ensures
        r.tier == store.tier_spec(),
        r.survives_reboot == !(store.tier_spec() is Ephemeral),
        r.needs_operator_decision == store.awaiting_decision_spec(),
        r.location@ == store.location_spec(),
        r.detail@ == store.detail_spec(),
{
    let tier = store.tier();
    StoreStatus {
        tier,
        survives_reboot: tier.survives_reboot(),
        location: store.location(),
        needs_operator_decision: store.awaiting_decision(),
        detail: store.detail(),
    }
}

/// Accept a save made against revision `current` (when a topology is
/// stored): a stale revision is refused; an accepted save bumps the
/// revision, saturating, and is no longer marked generated.
pub fn prepare_save(current: Option<u32>, topology: BayTopology) -> (r: Result<BayTopology, StoreError>)
    ensures
        match current {
            Some(stored) => if topology.revision != stored {
                r == Err::<BayTopology, StoreError>(StoreError::RevisionConflict { stored, sent: topology.revision })
            } else {
                r matches Ok(t) && saved_as(t@, topology@)
            },
            None => r matches Ok(t) && saved_as(t@, topology@),
        },
{
    if let Some(stored) = current {
        if topology.revision != stored {
            return Err(StoreError::RevisionConflict { stored, sent: topology.revision });
        }
    }
    let mut t = topology;
    t.revision = t.revision.saturating_add(1);
    t.generated = false;
    Ok(t)
}

/// `t` is `before` as saved: revision bumped (saturating), no longer
/// generated, everything else unchanged.
pub open spec fn saved_as(t: TopologyV, before: TopologyV) -> bool {
    &&& t.revision == if before.revision == u32::MAX { u32::MAX } else { (before.revision + 1) as u32 }
    &&& !t.generated
    &&& t.schema_version == before.schema_version
    &&& t.label == before.label
    &&& t.auto_fill_unbound == before.auto_fill_unbound
    &&& t.enclosures == before.enclosures
}

/// A saved topology carries a strictly higher revision, unless the counter
/// is already at its maximum.
pub proof fn law_accepted_saves_advance_the_revision(t: TopologyV, before: TopologyV)
    requires
        saved_as(t, before),
        before.revision < u32::MAX,
    ensures
        t.revision == before.revision + 1,
{
}

/// An ephemeral store gives back what was saved to it: after `save(t)`
/// it holds `t`, and `load` returns what it holds.
pub proof fn law_load_returns_what_was_saved(after: EphemeralStore, saved: BayTopology, loaded: BayTopology)
    requires
        after.held_spec() == Some(saved@),
        after.held_spec() == Some(loaded@),
    ensures
        loaded@ == saved@,
{
}

} // verus!
