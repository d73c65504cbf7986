//! Storage devices and what they can do.

use vstd::prelude::*;

verus! {

/// Stable identifier of a device as the backend reports it.
#[derive(Debug, PartialEq, Eq, Hash)]
pub struct DeviceId(pub String);

impl Clone for DeviceId {
    fn clone(&self) -> (r: Self)
        ensures
            r == *self,
    {
        DeviceId(self.0.clone())
    }
}

impl DeviceId {
    /// Build an id from its text.
    pub fn from(s: &str) -> (r: DeviceId)
        ensures
            r.0@ == s@,
    {
        DeviceId(s.to_string())
    }

    /// The id's text.
    pub fn as_str(&self) -> (r: &str)
        ensures
            r@ == self.0@,
    {
        self.0.as_str()
    }
}

/// The physical medium of a device.
#[derive(Debug, Clone, Copy, PartialEq, Eq, Structural)]
pub enum MediaType {
    HddMagnetic,
    SsdSata,
    SsdNvme,
    Emmc,
    Ufs,
    UsbFlash,
    Optical,
    Tape,
    Unknown,
}

/// The media-class label used by the Validate registry.
pub open spec fn class_label_of(m: MediaType) -> Seq<char> {
    match m {
        MediaType::HddMagnetic => "magnetic-hdd"@,
        MediaType::SsdSata => "ssd-sata"@,
        MediaType::SsdNvme => "ssd-nvme"@,
        MediaType::Emmc => "emmc"@,
        MediaType::Ufs => "ufs"@,
        MediaType::UsbFlash => "usb-flash"@,
        MediaType::Optical => "optical"@,
        MediaType::Tape => "tape"@,
        MediaType::Unknown => "unknown"@,
    }
}

impl MediaType {
    /// Flash media: SATA and NVMe SSDs, eMMC, UFS and USB flash.
    pub fn is_flash(self) -> (r: bool)
        ensures
            r == (self is SsdSata || self is SsdNvme || self is Emmc || self is Ufs
                || self is UsbFlash),
    {
        match self {
            MediaType::SsdSata | MediaType::SsdNvme | MediaType::Emmc | MediaType::Ufs
            | MediaType::UsbFlash => true,
            _ => false,
        }
    }

    /// The media-class label, e.g. `"ssd-nvme"`.
    pub fn class_label(self) -> (r: &'static str)
        ensures
            r@ == class_label_of(self),
    {
        match self {
            MediaType::HddMagnetic => "magnetic-hdd",
            MediaType::SsdSata => "ssd-sata",
            MediaType::SsdNvme => "ssd-nvme",
            MediaType::Emmc => "emmc",
            MediaType::Ufs => "ufs",
            MediaType::UsbFlash => "usb-flash",
            MediaType::Optical => "optical",
            MediaType::Tape => "tape",
            MediaType::Unknown => "unknown",
        }
    }
}

/// The bus a device hangs off.
#[derive(Debug, Clone, Copy, PartialEq, Eq, Structural)]
pub enum BusType {
    Sata,
    Nvme,
    Scsi,
    Sas,
    Usb,
    Mmc,
    Unknown,
}

/// One addressable storage device.
#[derive(Debug, PartialEq, Eq)]
pub struct Device {
    pub id: DeviceId,
    pub vendor: String,
    pub model: String,
    pub serial: String,
    pub wwn: Option<String>,
    pub capacity_bytes: u64,
    pub media_type: MediaType,
    pub bus: BusType,
    pub firmware: Option<String>,
    pub removable: bool,
    pub block_size: u32,
    pub path: String,
}

pub(crate) fn clone_opt_string(s: &Option<String>) -> (r: Option<String>)
    ensures
        r == *s,
{
    match s {
        Some(x) => Some(x.clone()),
        None => None,
    }
}

impl Clone for Device {
    fn clone(&self) -> (r: Self)
        ensures
            r == *self,
    {
        Device {
            id: self.id.clone(),
            vendor: self.vendor.clone(),
            model: self.model.clone(),
            serial: self.serial.clone(),
            wwn: clone_opt_string(&self.wwn),
            capacity_bytes: self.capacity_bytes,
            media_type: self.media_type,
            bus: self.bus,
            firmware: clone_opt_string(&self.firmware),
            removable: self.removable,
            block_size: self.block_size,
            path: self.path.clone(),
        }
    }
}

/// ATA Security feature set as reported by IDENTIFY DEVICE.
#[derive(Debug, Clone, Copy, PartialEq, Eq, Structural)]
pub struct AtaSecurityCaps {
    pub supported: bool,
    pub enhanced_supported: bool,
    pub estimated_minutes: Option<u32>,
    pub enhanced_estimated_minutes: Option<u32>,
    pub frozen: bool,
}

/// NVMe Sanitize capabilities (SANICAP).
#[derive(Debug, Clone, Copy, PartialEq, Eq, Structural)]
pub struct NvmeSanitizeCaps {
    pub block_erase: bool,
    pub overwrite: bool,
    pub crypto_erase: bool,
    pub ndi_inhibited: bool,
    pub nodmmas: u8,
    pub estimated_block_erase_secs: Option<u32>,
    pub estimated_crypto_erase_secs: Option<u32>,
    pub estimated_overwrite_secs: Option<u32>,
}

/// Self-encrypting-drive state.
#[derive(Debug, Clone, Copy, PartialEq, Eq, Structural)]
pub enum SedStatus {
    /// No self-encryption support.
    Absent,
    SupportedNotProvisioned,
    Provisioned,
    Locked,
}

impl Default for SedStatus {
    fn default() -> (r: Self)
        ensures
            r == SedStatus::Absent,
    {
        SedStatus::Absent
    }
}

/// Everything a device supports that matters for method selection.
#[derive(Debug, Clone, Copy, PartialEq, Eq, Structural)]
pub struct Capabilities {
    pub ata_security: Option<AtaSecurityCaps>,
    pub nvme_sanitize: Option<NvmeSanitizeCaps>,
    pub trim: bool,
    pub crypto_erase_supported: bool,
    pub sed: SedStatus,
    pub hpa_present: bool,
    pub dco_present: bool,
    pub frozen: bool,
}

impl Default for Capabilities {
    fn default() -> (r: Self)
        ensures
            r.ata_security is None,
            r.nvme_sanitize is None,
            !r.trim,
            !r.crypto_erase_supported,
            r.sed == SedStatus::Absent,
            !r.hpa_present,
            !r.dco_present,
            !r.frozen,
    {
        Capabilities {
            ata_security: None,
            nvme_sanitize: None,
            trim: false,
            crypto_erase_supported: false,
            sed: SedStatus::Absent,
            hpa_present: false,
            dco_present: false,
            frozen: false,
        }
    }
}

/// Plugging and unplugging devices by hand, which a simulated backend
/// offers and a real one never does.
pub trait DeviceSimulator {
    /// Plug a previously unplugged device back in, or the next spare;
    /// returns the device that appeared.
    fn attach(&self, id: Option<&DeviceId>) -> Option<Device>;

    /// Pull a device out; returns the device that disappeared.
    fn detach(&self, id: &DeviceId) -> Option<Device>;

    /// Devices currently unplugged and available to plug back in.
    fn detached(&self) -> Vec<Device>;
}

} // verus!
