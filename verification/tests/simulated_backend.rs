//! The simulated backend's devices, capabilities and command evidence.

use wipestation::device::MediaType;
use wipestation::method::{select_method, Classification, DestructMethod, Intent, Method, Pattern};
use wipestation::mock::{complete_evidence, default_caps_for, default_devices_public, issue_evidence};

#[test]
fn enumerate_returns_default_catalog() {
    let devices = default_devices_public();
    assert_eq!(devices.len(), 4);
    assert_eq!(devices[0].id.as_str(), "dev-nvme-0");
    assert_eq!(devices[0].path, "/dev/nvme0n1");
    assert_eq!(devices[0].media_type, MediaType::SsdNvme);
    assert_eq!(devices[1].id.as_str(), "dev-nvme-1");
}

#[test]
fn every_simulated_device_has_a_method_for_every_classification() {
    for d in default_devices_public() {
        let caps = default_caps_for(&d);
        for c in [Classification::Low, Classification::Moderate, Classification::High] {
            assert!(
                select_method(&caps, d.media_type, c, Intent::Reuse).is_some(),
                "{:?} at {c:?}",
                d.id
            );
        }
    }
}

#[test]
fn nvme_sanitize_evidence_records_the_admin_command() {
    let ev = issue_evidence(&Method::NvmeSanitizeCryptoErase { ause: true, no_deallocate: false });
    assert_eq!(ev.interface, "nvme-admin");
    assert_eq!(ev.opcode, Some(0x84));
    assert_eq!(ev.action, Some(0x04));
    assert_eq!(ev.raw_cdb, Some(vec![0x84, 0x01, 0x04, 0x00]));
}

#[test]
fn overwrite_evidence_carries_the_pattern_little_endian() {
    let ev = issue_evidence(&Method::NvmeSanitizeOverwrite {
        ause: false,
        no_deallocate: false,
        pattern_u32: 0x1122_3344,
    });
    assert_eq!(ev.action, Some(0x03));
    assert_eq!(ev.raw_cdb, Some(vec![0x44, 0x33, 0x22, 0x11]));
}

#[test]
fn ata_evidence_distinguishes_enhanced_erase() {
    assert_eq!(issue_evidence(&Method::AtaSecureErase { enhanced: true }).opcode, Some(0xF4));
    assert_eq!(issue_evidence(&Method::AtaSecureErase { enhanced: false }).opcode, Some(0xF1));
}

#[test]
fn non_command_methods_are_noted_in_words() {
    let ev = issue_evidence(&Method::BlockOverwrite { pattern: Pattern::Zeros, passes: 3 });
    assert_eq!(ev.interface, "block-write");
    assert_eq!(ev.note.as_deref(), Some("block overwrite, 3 pass(es) (mock)"));
    let ev = issue_evidence(&Method::Destroy { method: DestructMethod::Shred });
    assert_eq!(ev.interface, "manual");
}

#[test]
fn completion_evidence_adds_the_status_log_page() {
    let m = Method::NvmeSanitizeBlockErase { ause: false, no_deallocate: false };
    let ev = complete_evidence(&m, "sanitize complete");
    assert_eq!(ev.note.as_deref(), Some("sanitize complete (mock)"));
    assert_eq!(ev.log_page, Some(vec![0xff, 0xff, 0x01, 0, 0, 0, 0, 0]));
    assert_eq!(ev.duration_ms, 0);
    assert_eq!(ev.raw_cdb, issue_evidence(&m).raw_cdb);
}
