//! Destruction manifests: assembly and the supervisor's co-signature.

use wipestation::job::{ManifestState, OperatorRef};
use wipestation::manifest::DestructionManifest;

fn operator(id: &str) -> OperatorRef {
    OperatorRef {
        id: id.into(),
        display_name: format!("Operator {id}"),
        email: format!("{id}@example.com"),
    }
}

#[test]
fn a_new_manifest_is_pending_under_a_fresh_id() {
    let m = DestructionManifest::new(operator("lead"), vec!["job-1".into(), "job-2".into()], Some("shred run 7".into()));
    assert_eq!(m.id.len(), 36);
    assert_eq!(m.state, ManifestState::Pending);
    assert_eq!(m.job_ids, vec!["job-1".to_string(), "job-2".to_string()]);
    assert_eq!(m.note.as_deref(), Some("shred run 7"));
    assert!(m.supervisor.is_none() && m.signed_at.is_none());
    let other = DestructionManifest::new(operator("lead"), Vec::new(), None);
    assert_ne!(m.id, other.id);
}

#[test]
fn a_supervisor_cosigns_a_pending_manifest_once() {
    let mut m = DestructionManifest::assemble("m-1".into(), 10, operator("lead"), vec!["job-1".into()], None);
    assert_eq!(m.cosign(operator("sup"), 20), Ok(()));
    assert_eq!(m.state, ManifestState::Signed);
    assert_eq!(m.supervisor, Some(operator("sup")));
    assert_eq!(m.signed_at, Some(20));
    assert_eq!(m.created_at, 10);

    let err = m.cosign(operator("someone-else"), 30).unwrap_err();
    assert_eq!(err, "manifest m-1 is not pending (state Signed)");
    assert_eq!(m.supervisor, Some(operator("sup")));
    assert_eq!(m.signed_at, Some(20));
}

#[test]
fn a_rejected_manifest_cannot_be_cosigned() {
    let mut m = DestructionManifest::assemble("m-2".into(), 10, operator("lead"), Vec::new(), None);
    m.state = ManifestState::Rejected;
    assert_eq!(
        m.cosign(operator("sup"), 20).unwrap_err(),
        "manifest m-2 is not pending (state Rejected)"
    );
    assert!(m.supervisor.is_none());
}
