//! Destruction manifests: a batch of jobs on the destroy path, assembled by
//! a floor lead and co-signed by a supervisor in one go.

use vstd::prelude::*;

use crate::certificate::{fresh_uuid_text, now_utc_nanos};
use crate::job::{ManifestState, OperatorRef};
use crate::license::representable;
use crate::text::append_str;

verus! {

/// A batch of jobs awaiting (or past) a supervisor's co-signature.
#[derive(Debug, PartialEq, Eq)]
pub struct DestructionManifest {
    /// Hyphenated UUID text.
    pub id: String,
    /// Nanoseconds since the Unix epoch.
    pub created_at: i128,
    /// Operator who assembled the manifest (typically the floor lead).
    pub assembled_by: OperatorRef,
    /// Jobs included in this manifest, by id.
    pub job_ids: Vec<String>,
    pub state: ManifestState,
    /// Free-form note attached at assembly (e.g. a shredder run id).
    pub note: Option<String>,
    /// The supervisor who co-signed, once one has.
    pub supervisor: Option<OperatorRef>,
    /// When the supervisor co-signed.
    pub signed_at: Option<i128>,
}

/// The name of a manifest state as operators see it.
pub open spec fn manifest_state_name(s: ManifestState) -> Seq<char> {
    match s {
        ManifestState::Pending => "Pending"@,
        ManifestState::Signed => "Signed"@,
        ManifestState::Rejected => "Rejected"@,
    }
}

fn manifest_state_text(s: ManifestState) -> (r: &'static str)
    ensures
        r@ == manifest_state_name(s),
{
    match s {
        ManifestState::Pending => "Pending",
        ManifestState::Signed => "Signed",
        ManifestState::Rejected => "Rejected",
    }
}

/// Why a co-signature was refused: the manifest is no longer pending.
pub open spec fn not_pending_message(id: Seq<char>, s: ManifestState) -> Seq<char> {
    "manifest "@ + id + " is not pending (state "@ + manifest_state_name(s) + ")"@
}

impl DestructionManifest {
    /// A freshly assembled manifest with the given id and creation instant:
    /// pending, not yet co-signed.
    pub fn assemble(id: String, created_at: i128, assembled_by: OperatorRef, job_ids: Vec<String>, note: Option<String>) -> (r: Self)
        ensures
            r.id == id,
            r.created_at == created_at,
            r.assembled_by == assembled_by,
            r.job_ids == job_ids,
            r.state == ManifestState::Pending,
            r.note == note,
            r.supervisor is None,
            r.signed_at is None,
    {
        DestructionManifest {
            id,
            created_at,
            assembled_by,
            job_ids,
            state: ManifestState::Pending,
            note,
            supervisor: None,
            signed_at: None,
        }
    }

    /// Assemble a manifest now, under a fresh random id.
    pub fn new(assembled_by: OperatorRef, job_ids: Vec<String>, note: Option<String>) -> (r: Self)
        ensures
            r.id@.len() == 36,
            representable(r.created_at as int),
            r.assembled_by == assembled_by,
            r.job_ids == job_ids,
            r.state == ManifestState::Pending,
            r.note == note,
            r.supervisor is None,
            r.signed_at is None,
    {
        let id = fresh_uuid_text();
        let created_at = now_utc_nanos();
        Self::assemble(id, created_at, assembled_by, job_ids, note)
    }

    /// Record a supervisor's co-signature at `at`. Only a pending manifest
    /// can be co-signed; any other is refused and left as it was.
    pub fn cosign(&mut self, supervisor: OperatorRef, at: i128) -> (r: Result<(), String>)
        ensures
            old(self).state == ManifestState::Pending ==> r is Ok && final(self).state == ManifestState::Signed
                && final(self).supervisor == Some(supervisor) && final(self).signed_at == Some(at)
                && final(self).id == old(self).id && final(self).created_at == old(self).created_at
                && final(self).assembled_by == old(self).assembled_by && final(self).job_ids == old(self).job_ids
                && final(self).note == old(self).note,
            old(self).state != ManifestState::Pending ==> (r matches Err(m)
                && m@ == not_pending_message(old(self).id@, old(self).state)) && *final(self) == *old(self),
    {
        if self.state != ManifestState::Pending {
            let mut m = String::from_str("manifest ");
            append_str(&mut m, self.id.as_str());
            append_str(&mut m, " is not pending (state ");
            append_str(&mut m, manifest_state_text(self.state));
            append_str(&mut m, ")");
            return Err(m);
        }
        self.state = ManifestState::Signed;
        self.supervisor = Some(supervisor);
        self.signed_at = Some(at);
        Ok(())
    }
}

} // verus!
