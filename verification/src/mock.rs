//! The simulated bench used by tests, demos and headless runs: a fixed set
//! of realistic devices, the capabilities each kind reports, and the
//! command evidence a simulated erase records.

use vstd::prelude::*;

use crate::device::{AtaSecurityCaps, BusType, Capabilities, Device, DeviceId, MediaType, NvmeSanitizeCaps, SedStatus};
use crate::method::{DestructMethod, Method};
use crate::text::{append_str, decimal, decimal_string};

verus! {

/// One command-level evidence record: the command actually issued and what
/// the device answered.
#[derive(Debug, PartialEq, Eq)]
pub struct CommandEvidence {
    /// Logical interface: "nvme-admin", "ata-passthrough", "block-write", ….
    pub interface: String,
    pub opcode: Option<u8>,
    pub action: Option<u8>,
    pub raw_cdb: Option<Vec<u8>>,
    pub status: Option<u16>,
    pub sense: Option<Vec<u8>>,
    pub log_page: Option<Vec<u8>>,
    pub duration_ms: u64,
    pub note: Option<String>,
}

/// Spec-level image of an evidence record.
pub struct EvidenceV {
    pub interface: Seq<char>,
    pub opcode: Option<u8>,
    pub action: Option<u8>,
    pub raw_cdb: Option<Seq<u8>>,
    pub status: Option<u16>,
    pub sense: Option<Seq<u8>>,
    pub log_page: Option<Seq<u8>>,
    pub duration_ms: u64,
    pub note: Option<Seq<char>>,
}

/// Bytes of an optional vector.
pub open spec fn opt_bytes(v: Option<Vec<u8>>) -> Option<Seq<u8>> {
    match v {
        Some(b) => Some(b@),
        None => None,
    }
}

fn clone_opt_bytes(v: &Option<Vec<u8>>) -> (r: Option<Vec<u8>>)
    ensures
        opt_bytes(r) == opt_bytes(*v),
{
    match v {
        Some(b) => {
            let c = b.clone();
            assert(c@ =~= b@);
            Some(c)
        },
        None => None,
    }
}

impl Clone for CommandEvidence {
    fn clone(&self) -> (r: Self)
        ensures
            r@ == self@,
    {
        CommandEvidence {
            interface: self.interface.clone(),
            opcode: self.opcode,
            action: self.action,
            raw_cdb: clone_opt_bytes(&self.raw_cdb),
            status: self.status,
            sense: clone_opt_bytes(&self.sense),
            log_page: clone_opt_bytes(&self.log_page),
            duration_ms: self.duration_ms,
            note: crate::device::clone_opt_string(&self.note),
        }
    }
}

impl View for CommandEvidence {
    type V = EvidenceV;

    open spec fn view(&self) -> EvidenceV {
        EvidenceV {
            interface: self.interface@,
            opcode: self.opcode,
            action: self.action,
            raw_cdb: opt_bytes(self.raw_cdb),
            status: self.status,
            sense: opt_bytes(self.sense),
            log_page: opt_bytes(self.log_page),
            duration_ms: self.duration_ms,
            note: match self.note {
                Some(n) => Some(n@),
                None => None,
            },
        }
    }
}

/// The name a destruction method prints as.
pub open spec fn destruct_name(m: DestructMethod) -> Seq<char> {
    match m {
        DestructMethod::Shred => "Shred"@,
        DestructMethod::Disintegrate => "Disintegrate"@,
        DestructMethod::Incinerate => "Incinerate"@,
        DestructMethod::Pulverize => "Pulverize"@,
        DestructMethod::Melt => "Melt"@,
    }
}

/// A flag as a byte.
pub open spec fn flag(b: bool) -> u8 {
    if b { 1 } else { 0 }
}

/// Little-endian bytes of a 32-bit value.
pub open spec fn le_bytes(p: u32) -> Seq<u8> {
    seq![(p % 256) as u8, ((p / 256) % 256) as u8, ((p / 65536) % 256) as u8, (p / 16777216) as u8]
}

/// An evidence record with only the given fields set and status zero.
pub open spec fn evidence(interface: Seq<char>, opcode: Option<u8>, action: Option<u8>, raw_cdb: Option<Seq<u8>>, note: Seq<char>) -> EvidenceV {
    EvidenceV {
        interface,
        opcode,
        action,
        raw_cdb,
        status: Some(0),
        sense: None,
        log_page: None,
        duration_ms: 0,
        note: Some(note),
    }
}

/// What the simulated backend records when it issues a method.
pub open spec fn issue_evidence_of(m: Method) -> EvidenceV {
    match m {
        Method::NvmeSanitizeBlockErase { ause, no_deallocate } => evidence(
            "nvme-admin"@, Some(0x84), Some(0x02), Some(seq![0x84u8, flag(ause), 0x02u8, flag(no_deallocate)]), "issued (mock)"@),
        Method::NvmeSanitizeCryptoErase { ause, no_deallocate } => evidence(
            "nvme-admin"@, Some(0x84), Some(0x04), Some(seq![0x84u8, flag(ause), 0x04u8, flag(no_deallocate)]), "issued (mock)"@),
        Method::NvmeSanitizeOverwrite { pattern_u32, .. } => evidence(
            "nvme-admin"@, Some(0x84), Some(0x03), Some(le_bytes(pattern_u32)), "issued (mock)"@),
        Method::AtaSecureErase { enhanced } => evidence(
            "ata-passthrough"@, Some(if enhanced { 0xF4u8 } else { 0xF1u8 }), None,
            Some(seq![if enhanced { 0xF4u8 } else { 0xF1u8 }, 0x00u8]), "issued (mock)"@),
        Method::BlockOverwrite { passes, .. } => evidence(
            "block-write"@, None, None, None, "block overwrite, "@ + decimal(passes as nat) + " pass(es) (mock)"@),
        Method::OpalRevert => evidence("tcg-opal"@, None, None, None, "opal revert (mock)"@),
        Method::Destroy { method } => evidence(
            "manual"@, None, None, None, "destroy intent: "@ + destruct_name(method) + " (mock)"@),
    }
}

fn flag_byte(b: bool) -> (r: u8)
    ensures
        r == flag(b),
{
    if b { 1 } else { 0 }
}

fn destruct_text(m: DestructMethod) -> (r: &'static str)
    ensures
        r@ == destruct_name(m),
{
    match m {
        DestructMethod::Shred => "Shred",
        DestructMethod::Disintegrate => "Disintegrate",
        DestructMethod::Incinerate => "Incinerate",
        DestructMethod::Pulverize => "Pulverize",
        DestructMethod::Melt => "Melt",
    }
}

fn record(interface: &str, opcode: Option<u8>, action: Option<u8>, raw_cdb: Option<Vec<u8>>, note: String) -> (r: CommandEvidence)
    ensures
        r@ == evidence(interface@, opcode, action, opt_bytes(raw_cdb), note@),
{
    CommandEvidence {
        interface: String::from_str(interface),
        opcode,
        action,
        raw_cdb,
        status: Some(0),
        sense: None,
        log_page: None,
        duration_ms: 0,
        note: Some(note),
    }
}

/// The evidence the simulated backend records on issuing a method.
pub fn issue_evidence(method: &Method) -> (r: CommandEvidence)
    ensures
        r@ == issue_evidence_of(*method),
{
    match method {
        Method::NvmeSanitizeBlockErase { ause, no_deallocate } => {
            let cdb = vec![0x84u8, flag_byte(*ause), 0x02u8, flag_byte(*no_deallocate)];
            let r = record("nvme-admin", Some(0x84), Some(0x02), Some(cdb), String::from_str("issued (mock)"));
            assert(r@.raw_cdb == Some(seq![0x84u8, flag(*ause), 0x02u8, flag(*no_deallocate)]));
            r
        },
        Method::NvmeSanitizeCryptoErase { ause, no_deallocate } => {
            let cdb = vec![0x84u8, flag_byte(*ause), 0x04u8, flag_byte(*no_deallocate)];
            let r = record("nvme-admin", Some(0x84), Some(0x04), Some(cdb), String::from_str("issued (mock)"));
            assert(r@.raw_cdb == Some(seq![0x84u8, flag(*ause), 0x04u8, flag(*no_deallocate)]));
            r
        },
        Method::NvmeSanitizeOverwrite { pattern_u32, .. } => {
            let p = *pattern_u32;
            let cdb = vec![(p % 256) as u8, ((p / 256) % 256) as u8, ((p / 65536) % 256) as u8, (p / 16777216) as u8];
            let r = record("nvme-admin", Some(0x84), Some(0x03), Some(cdb), String::from_str("issued (mock)"));
            assert(r@.raw_cdb == Some(le_bytes(p)));
            r
        },
        Method::AtaSecureErase { enhanced } => {
            let op: u8 = if *enhanced { 0xF4 } else { 0xF1 };
            let cdb = vec![op, 0x00u8];
            let r = record("ata-passthrough", Some(op), None, Some(cdb), String::from_str("issued (mock)"));
            assert(r@.raw_cdb == Some(seq![op, 0x00u8]));
            r
        },
        Method::BlockOverwrite { passes, .. } => {
            let mut note = String::from_str("block overwrite, ");
            let n = decimal_string(*passes as u64);
            append_str(&mut note, n.as_str());
            append_str(&mut note, " pass(es) (mock)");
            record("block-write", None, None, None, note)
        },
        Method::OpalRevert => record("tcg-opal", None, None, None, String::from_str("opal revert (mock)")),
        Method::Destroy { method } => {
            let mut note = String::from_str("destroy intent: ");
            append_str(&mut note, destruct_text(*method));
            append_str(&mut note, " (mock)");
            record("manual", None, None, None, note)
        },
    }
}

/// The sanitize status log page of a finished operation: progress at its
/// maximum, status "completed".
pub open spec fn completed_log_page() -> Seq<u8> {
    seq![0xffu8, 0xffu8, 0x01u8, 0u8, 0u8, 0u8, 0u8, 0u8]
}

/// The evidence the simulated backend records when an operation completes.
pub fn complete_evidence(method: &Method, note: &str) -> (r: CommandEvidence)
    ensures
        r@ == (EvidenceV {
            note: Some(note@ + " (mock)"@),
            log_page: Some(completed_log_page()),
            duration_ms: 0,
            ..issue_evidence_of(*method)
        }),
{
    let mut ev = issue_evidence(method);
    let mut n = String::from_str(note);
    append_str(&mut n, " (mock)");
    ev.note = Some(n);
    let page = vec![0xffu8, 0xffu8, 0x01u8, 0u8, 0u8, 0u8, 0u8, 0u8];
    assert(page@ == completed_log_page());
    ev.log_page = Some(page);
    ev.duration_ms = 0;
    ev
}

/// A simulated device.
pub open spec fn device_spec(
    id: Seq<char>,
    vendor: Seq<char>,
    model: Seq<char>,
    serial: Seq<char>,
    wwn: Option<Seq<char>>,
    capacity_bytes: u64,
    media_type: MediaType,
    bus: BusType,
    firmware: Seq<char>,
    block_size: u32,
    path: Seq<char>,
    d: Device,
) -> bool {
    &&& d.id.0@ == id
    &&& d.vendor@ == vendor
    &&& d.model@ == model
    &&& d.serial@ == serial
    &&& match (d.wwn, wwn) {
        (Some(a), Some(b)) => a@ == b,
        (None, None) => true,
        _ => false,
    }
    &&& d.capacity_bytes == capacity_bytes
    &&& d.media_type == media_type
    &&& d.bus == bus
    &&& d.firmware matches Some(f) && f@ == firmware
    &&& !d.removable
    &&& d.block_size == block_size
    &&& d.path@ == path
}

fn make_device(
    id: &str,
    vendor: &str,
    model: &str,
    serial: &str,
    wwn: Option<&str>,
    capacity_bytes: u64,
    media_type: MediaType,
    bus: BusType,
    firmware: &str,
    block_size: u32,
    path: &str,
) -> (r: Device)
    ensures
        device_spec(id@, vendor@, model@, serial@, match wwn {
            Some(w) => Some(w@),
            None => None,
        }, capacity_bytes, media_type, bus, firmware@, block_size, path@, r),
{
    Device {
        id: DeviceId(String::from_str(id)),
        vendor: String::from_str(vendor),
        model: String::from_str(model),
        serial: String::from_str(serial),
        wwn: match wwn {
            Some(w) => Some(String::from_str(w)),
            None => None,
        },
        capacity_bytes,
        media_type,
        bus,
        firmware: Some(String::from_str(firmware)),
        removable: false,
        block_size,
        path: String::from_str(path),
    }
}

/// The simulated bench: two NVMe drives, a SATA SSD marked for simulated
/// failure, and a hard disk.
pub fn default_devices_public() -> (r: Vec<Device>)
    ensures
        r@.len() == 4,
        device_spec("dev-nvme-0"@, "Samsung"@, "MZ-V9P2T0"@, "S6ABNX0W123456"@, Some("eui.0025385811b1d567"@),
            2_000_000_000_000, MediaType::SsdNvme, BusType::Nvme, "4B2QGXA7"@, 512, "/dev/nvme0n1"@, r@[0]),
        device_spec("dev-nvme-1"@, "Western Digital"@, "WDS500G3X0E"@, "21030L800123"@, Some("eui.0014ee21ab12cd34"@),
            500_000_000_000, MediaType::SsdNvme, BusType::Nvme, "613300WD"@, 512, "/dev/nvme1n1"@, r@[1]),
        device_spec("dev-sata-0"@, "Crucial"@, "MX500 1TB"@, "203440FAILSIM"@, None,
            1_000_000_000_000, MediaType::SsdSata, BusType::Sata, "M3CR046"@, 512, "/dev/sda"@, r@[2]),
        device_spec("dev-hdd-0"@, "Seagate"@, "ST8000NM0055"@, "ZA1FH123"@, None,
            8_000_000_000_000, MediaType::HddMagnetic, BusType::Sata, "SN03"@, 4096, "/dev/sdb"@, r@[3]),
{
    let mut v: Vec<Device> = Vec::new();
    v.push(make_device("dev-nvme-0", "Samsung", "MZ-V9P2T0", "S6ABNX0W123456", Some("eui.0025385811b1d567"),
        2_000_000_000_000, MediaType::SsdNvme, BusType::Nvme, "4B2QGXA7", 512, "/dev/nvme0n1"));
    v.push(make_device("dev-nvme-1", "Western Digital", "WDS500G3X0E", "21030L800123", Some("eui.0014ee21ab12cd34"),
        500_000_000_000, MediaType::SsdNvme, BusType::Nvme, "613300WD", 512, "/dev/nvme1n1"));
    v.push(make_device("dev-sata-0", "Crucial", "MX500 1TB", "203440FAILSIM", None,
        1_000_000_000_000, MediaType::SsdSata, BusType::Sata, "M3CR046", 512, "/dev/sda"));
    v.push(make_device("dev-hdd-0", "Seagate", "ST8000NM0055", "ZA1FH123", None,
        8_000_000_000_000, MediaType::HddMagnetic, BusType::Sata, "SN03", 4096, "/dev/sdb"));
    v
}

/// What each kind of simulated device reports: NVMe drives sanitize and
/// are provisioned self-encrypting; SATA drives offer ATA secure erase;
/// anything else reports nothing.
pub open spec fn default_caps_of(media: MediaType) -> Capabilities {
    match media {
        MediaType::SsdNvme => Capabilities {
            ata_security: None,
            nvme_sanitize: Some(NvmeSanitizeCaps {
                block_erase: true,
                overwrite: true,
                crypto_erase: true,
                ndi_inhibited: false,
                nodmmas: 0,
                estimated_block_erase_secs: Some(2),
                estimated_crypto_erase_secs: Some(1),
                estimated_overwrite_secs: Some(900),
            }),
            trim: true,
            crypto_erase_supported: true,
            sed: SedStatus::Provisioned,
            hpa_present: false,
            dco_present: false,
            frozen: false,
        },
        MediaType::SsdSata => Capabilities {
            ata_security: Some(AtaSecurityCaps {
                supported: true,
                enhanced_supported: true,
                estimated_minutes: Some(2),
                enhanced_estimated_minutes: Some(2),
                frozen: false,
            }),
            nvme_sanitize: None,
            trim: true,
            crypto_erase_supported: false,
            sed: SedStatus::Absent,
            hpa_present: false,
            dco_present: false,
            frozen: false,
        },
        MediaType::HddMagnetic => Capabilities {
            ata_security: Some(AtaSecurityCaps {
                supported: true,
                enhanced_supported: true,
                estimated_minutes: Some(420),
                enhanced_estimated_minutes: Some(450),
                frozen: false,
            }),
            nvme_sanitize: None,
            trim: false,
            crypto_erase_supported: false,
            sed: SedStatus::Absent,
            hpa_present: false,
            dco_present: false,
            frozen: false,
        },
        _ => Capabilities {
            ata_security: None,
            nvme_sanitize: None,
            trim: false,
            crypto_erase_supported: false,
            sed: SedStatus::Absent,
            hpa_present: false,
            dco_present: false,
            frozen: false,
        },
    }
}

/// The capabilities a simulated device reports.
pub fn default_caps_for(device: &Device) -> (r: Capabilities)
    ensures
        r == default_caps_of(device.media_type),
{
    match device.media_type {
        MediaType::SsdNvme => Capabilities {
            ata_security: None,
            nvme_sanitize: Some(NvmeSanitizeCaps {
                block_erase: true,
                overwrite: true,
                crypto_erase: true,
                ndi_inhibited: false,
                nodmmas: 0,
                estimated_block_erase_secs: Some(2),
                estimated_crypto_erase_secs: Some(1),
                estimated_overwrite_secs: Some(900),
            }),
            trim: true,
            crypto_erase_supported: true,
            sed: SedStatus::Provisioned,
            hpa_present: false,
            dco_present: false,
            frozen: false,
        },
        MediaType::SsdSata => Capabilities {
            ata_security: Some(AtaSecurityCaps {
                supported: true,
                enhanced_supported: true,
                estimated_minutes: Some(2),
                enhanced_estimated_minutes: Some(2),
                frozen: false,
            }),
            nvme_sanitize: None,
            trim: true,
            crypto_erase_supported: false,
            sed: SedStatus::Absent,
            hpa_present: false,
            dco_present: false,
            frozen: false,
        },
        MediaType::HddMagnetic => Capabilities {
            ata_security: Some(AtaSecurityCaps {
                supported: true,
                enhanced_supported: true,
                estimated_minutes: Some(420),
                enhanced_estimated_minutes: Some(450),
                frozen: false,
            }),
            nvme_sanitize: None,
            trim: false,
            crypto_erase_supported: false,
            sed: SedStatus::Absent,
            hpa_present: false,
            dco_present: false,
            frozen: false,
        },
        _ => Capabilities::default(),
    }
}

} // verus!
