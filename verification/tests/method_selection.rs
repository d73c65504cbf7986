//! Method selection across media, classification and intent.

use wipestation::device::{AtaSecurityCaps, Capabilities, MediaType, NvmeSanitizeCaps, SedStatus};
use wipestation::method::{select_method, Category, Classification, Intent, Method};


fn nvme_caps() -> Capabilities {
    Capabilities {
        ata_security: None,
        nvme_sanitize: Some(NvmeSanitizeCaps {
            block_erase: true,
            overwrite: true,
            crypto_erase: true,
            ndi_inhibited: false,
            nodmmas: 0,
            estimated_block_erase_secs: Some(2),
            estimated_crypto_erase_secs: Some(1),
            estimated_overwrite_secs: Some(600),
        }),
        trim: true,
        crypto_erase_supported: true,
        sed: SedStatus::Provisioned,
        hpa_present: false,
        dco_present: false,
        frozen: false,
    }
}

fn sata_ssd_caps() -> Capabilities {
    Capabilities {
        ata_security: Some(AtaSecurityCaps {
            supported: true,
            enhanced_supported: true,
            estimated_minutes: Some(2),
            enhanced_estimated_minutes: Some(2),
            frozen: false,
        }),
        nvme_sanitize: None,
        trim: true,
        crypto_erase_supported: false,
        sed: SedStatus::Absent,
        hpa_present: false,
        dco_present: false,
        frozen: false,
    }
}

#[test]
fn high_class_nvme_picks_crypto_erase_when_sed_provisioned() {
    let m = select_method(
        &nvme_caps(),
        MediaType::SsdNvme,
        Classification::High,
        Intent::Reuse,
    )
    .unwrap();
    assert!(matches!(m, Method::NvmeSanitizeCryptoErase { .. }));
    assert_eq!(m.category(), Category::Purge);
}

#[test]
fn high_class_nvme_no_sed_picks_block_erase() {
    let mut caps = nvme_caps();
    caps.sed = SedStatus::Absent;
    let m = select_method(
        &caps,
        MediaType::SsdNvme,
        Classification::High,
        Intent::Reuse,
    )
    .unwrap();
    assert!(matches!(m, Method::NvmeSanitizeBlockErase { .. }));
    assert_eq!(m.category(), Category::Purge);
}

#[test]
fn moderate_class_sata_picks_ata_secure_erase_enhanced() {
    let m = select_method(
        &sata_ssd_caps(),
        MediaType::SsdSata,
        Classification::Moderate,
        Intent::Reuse,
    )
    .unwrap();
    assert!(matches!(m, Method::AtaSecureErase { enhanced: true }));
    assert_eq!(m.category(), Category::Purge);
}

#[test]
fn low_class_sata_picks_basic_secure_erase() {
    let m = select_method(
        &sata_ssd_caps(),
        MediaType::SsdSata,
        Classification::Low,
        Intent::Reuse,
    )
    .unwrap();
    // Current selector prefers ATA Secure Erase (basic) for Low → Clear.
    match m {
        Method::AtaSecureErase { enhanced: false } => {}
        other => panic!("expected basic ATA secure erase, got {other:?}"),
    }
    assert_eq!(m.category(), Category::Clear);
}

#[test]
fn destroy_intent_routes_to_destroy() {
    let m = select_method(
        &nvme_caps(),
        MediaType::SsdNvme,
        Classification::High,
        Intent::Destroy,
    )
    .unwrap();
    assert!(matches!(m, Method::Destroy { .. }));
    assert_eq!(m.category(), Category::Destroy);
}

#[test]
fn frozen_ata_with_no_nvme_fails_for_purge() {
    let mut caps = sata_ssd_caps();
    caps.ata_security.as_mut().unwrap().frozen = true;
    let m = select_method(
        &caps,
        MediaType::SsdSata,
        Classification::High,
        Intent::Reuse,
    );
    assert!(m.is_none(), "frozen device without alternative should not select a Purge method");
}
