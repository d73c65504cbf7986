//! NIST SP 800-88 Rev. 2 categories, concrete sanitization methods, and the
//! automatic method selector.

use vstd::prelude::*;

use crate::device::{Capabilities, MediaType, SedStatus};

verus! {

/// NIST SP 800-88 Rev. 2 sanitization category.
#[derive(Debug, Clone, Copy, PartialEq, Eq, Structural)]
pub enum Category {
    Clear,
    Purge,
    Destroy,
}

/// FIPS 199 confidentiality classification.
#[derive(Debug, Clone, Copy, PartialEq, Eq, Structural)]
pub enum Classification {
    Low,
    Moderate,
    High,
}

/// What happens to the media afterwards.
#[derive(Debug, Clone, Copy, PartialEq, Eq, Structural)]
pub enum Intent {
    Reuse,
    Recycle,
    Destroy,
}

/// Overwrite pattern for block-level overwrites.
#[derive(Debug, Clone, Copy, PartialEq, Eq, Structural)]
pub enum Pattern {
    Zeros,
    Ones,
    Random,
    Fixed(u8),
}

/// How a device is physically destroyed.
#[derive(Debug, Clone, Copy, PartialEq, Eq, Structural)]
pub enum DestructMethod {
    Shred,
    Disintegrate,
    Incinerate,
    Pulverize,
    Melt,
}

/// A concrete sanitization technique.
#[derive(Debug, Clone, Copy, PartialEq, Eq, Structural)]
pub enum Method {
    /// NVMe Sanitize action 0x02 (Block Erase).
    NvmeSanitizeBlockErase { ause: bool, no_deallocate: bool },
    /// NVMe Sanitize action 0x04 (Crypto Erase).
    NvmeSanitizeCryptoErase { ause: bool, no_deallocate: bool },
    /// NVMe Sanitize action 0x03 (Overwrite).
    NvmeSanitizeOverwrite { ause: bool, no_deallocate: bool, pattern_u32: u32 },
    /// ATA SECURITY ERASE UNIT; `enhanced` reaches reallocated sectors.
    AtaSecureErase { enhanced: bool },
    /// Generic block-level overwrite.
    BlockOverwrite { pattern: Pattern, passes: u8 },
    /// TCG Opal revert.
    OpalRevert,
    /// Physical destruction.
    Destroy { method: DestructMethod },
}

/// The category a method achieves.
pub open spec fn category_of(m: Method) -> Category {
    match m {
        Method::NvmeSanitizeBlockErase { .. } | Method::NvmeSanitizeCryptoErase { .. }
        | Method::NvmeSanitizeOverwrite { .. } | Method::OpalRevert => Category::Purge,
        Method::AtaSecureErase { enhanced } => if enhanced {
            Category::Purge
        } else {
            Category::Clear
        },
        Method::BlockOverwrite { .. } => Category::Clear,
        Method::Destroy { .. } => Category::Destroy,
    }
}

/// The operator-facing name of a method.
pub open spec fn human_name_of(m: Method) -> Seq<char> {
    match m {
        Method::NvmeSanitizeBlockErase { .. } => "NVMe Sanitize — Block Erase"@,
        Method::NvmeSanitizeCryptoErase { .. } => "NVMe Sanitize — Crypto Erase"@,
        Method::NvmeSanitizeOverwrite { .. } => "NVMe Sanitize — Overwrite"@,
        Method::AtaSecureErase { enhanced } => if enhanced {
            "ATA Secure Erase (Enhanced)"@
        } else {
            "ATA Secure Erase"@
        },
        Method::BlockOverwrite { .. } => "Block Overwrite"@,
        Method::OpalRevert => "TCG Opal Revert"@,
        Method::Destroy { .. } => "Physical Destruction"@,
    }
}

impl Method {
    pub fn category(&self) -> (r: Category)
        ensures
            r == category_of(*self),
    {
        match self {
            Method::NvmeSanitizeBlockErase { .. } | Method::NvmeSanitizeCryptoErase { .. }
            | Method::NvmeSanitizeOverwrite { .. } | Method::OpalRevert => Category::Purge,
            Method::AtaSecureErase { enhanced } => if *enhanced {
                Category::Purge
            } else {
                Category::Clear
            },
            Method::BlockOverwrite { .. } => Category::Clear,
            Method::Destroy { .. } => Category::Destroy,
        }
    }

    pub fn human_name(&self) -> (r: &'static str)
        ensures
            r@ == human_name_of(*self),
    {
        match self {
            Method::NvmeSanitizeBlockErase { .. } => "NVMe Sanitize — Block Erase",
            Method::NvmeSanitizeCryptoErase { .. } => "NVMe Sanitize — Crypto Erase",
            Method::NvmeSanitizeOverwrite { .. } => "NVMe Sanitize — Overwrite",
            Method::AtaSecureErase { enhanced } => if *enhanced {
                "ATA Secure Erase (Enhanced)"
            } else {
                "ATA Secure Erase"
            },
            Method::BlockOverwrite { .. } => "Block Overwrite",
            Method::OpalRevert => "TCG Opal Revert",
            Method::Destroy { .. } => "Physical Destruction",
        }
    }
}

/// Moderate and High data need a Purge-grade method.
pub open spec fn wants_purge(c: Classification) -> bool {
    c is Moderate || c is High
}

/// The NVMe Sanitize action the decision flow picks, if any applies.
pub open spec fn nvme_choice(caps: Capabilities, media: MediaType, c: Classification) -> Option<Method> {
    if media is SsdNvme && caps.nvme_sanitize is Some {
        let n = caps.nvme_sanitize->0;
        if wants_purge(c) {
            if n.crypto_erase && caps.sed != SedStatus::Absent {
                Some(Method::NvmeSanitizeCryptoErase { ause: false, no_deallocate: false })
            } else if n.block_erase {
                Some(Method::NvmeSanitizeBlockErase { ause: false, no_deallocate: false })
            } else if n.overwrite {
                Some(Method::NvmeSanitizeOverwrite { ause: false, no_deallocate: false, pattern_u32: 0 })
            } else {
                None
            }
        } else if n.block_erase {
            Some(Method::NvmeSanitizeBlockErase { ause: false, no_deallocate: false })
        } else {
            None
        }
    } else {
        None
    }
}

/// The NIST 800-88 Rev. 2 decision flow: intent first, then NVMe Sanitize
/// on NVMe flash, then ATA Security Erase on an unfrozen ATA device, then a
/// single-pass zero overwrite for Clear; Purge with none of these is `None`.
pub open spec fn spec_select_method(
    caps: Capabilities,
    media: MediaType,
    c: Classification,
    intent: Intent,
) -> Option<Method> {
    if intent is Destroy {
        Some(Method::Destroy { method: DestructMethod::Disintegrate })
    } else if nvme_choice(caps, media, c) is Some {
        nvme_choice(caps, media, c)
    } else if caps.ata_security is Some && caps.ata_security->0.supported
        && !caps.ata_security->0.frozen {
        Some(Method::AtaSecureErase {
            enhanced: wants_purge(c) && caps.ata_security->0.enhanced_supported,
        })
    } else if !wants_purge(c) {
        Some(Method::BlockOverwrite { pattern: Pattern::Zeros, passes: 1 })
    } else {
        None
    }
}

/// Pick a method for a device from its capabilities, the data
/// classification and the operator's intent.
pub fn select_method(
    caps: &Capabilities,
    media: MediaType,
    classification: Classification,
    intent: Intent,
) -> (r: Option<Method>)
    ensures
        r == spec_select_method(*caps, media, classification, intent),
{
    if intent == Intent::Destroy {
        return Some(Method::Destroy { method: DestructMethod::Disintegrate });
    }
    let want_purge = match classification {
        Classification::Moderate | Classification::High => true,
        Classification::Low => false,
    };
    if media == MediaType::SsdNvme {
        if let Some(nvme) = &caps.nvme_sanitize {
            if want_purge {
                if nvme.crypto_erase && caps.sed != SedStatus::Absent {
                    return Some(Method::NvmeSanitizeCryptoErase { ause: false, no_deallocate: false });
                }
                if nvme.block_erase {
                    return Some(Method::NvmeSanitizeBlockErase { ause: false, no_deallocate: false });
                }
                if nvme.overwrite {
                    return Some(
                        Method::NvmeSanitizeOverwrite { ause: false, no_deallocate: false, pattern_u32: 0 },
                    );
                }
            } else if nvme.block_erase {
                return Some(Method::NvmeSanitizeBlockErase { ause: false, no_deallocate: false });
            }
        }
    }
    if let Some(ata) = &caps.ata_security {
        if ata.supported && !ata.frozen {
            return Some(Method::AtaSecureErase { enhanced: want_purge && ata.enhanced_supported });
        }
    }
    if !want_purge {
        return Some(Method::BlockOverwrite { pattern: Pattern::Zeros, passes: 1 });
    }
    None
}

/// Destroy intent always routes to physical destruction, whatever the
/// device supports.
pub proof fn law_destroy_intent_destroys(caps: Capabilities, media: MediaType, c: Classification)
    ensures
        spec_select_method(caps, media, c, Intent::Destroy)
            == Some(Method::Destroy { method: DestructMethod::Disintegrate }),
{
}

/// Low-classification data always gets a method: Clear can always fall back
/// to a single-pass overwrite.
pub proof fn law_low_always_has_a_method(caps: Capabilities, media: MediaType, intent: Intent)
    ensures
        spec_select_method(caps, media, Classification::Low, intent) is Some,
{
}

/// Data that needs Purge never falls back to a Clear-grade block overwrite,
/// and without an intent to destroy it is never routed to destruction.
pub proof fn law_purge_never_block_overwrite(
    caps: Capabilities,
    media: MediaType,
    c: Classification,
    intent: Intent,
)
    requires
        wants_purge(c),
        !(intent is Destroy),
    ensures
        spec_select_method(caps, media, c, intent) matches Some(m) ==> !(m is BlockOverwrite) && !(m is Destroy),
{
}

/// An NVMe Sanitize method is only ever chosen for an NVMe device whose
/// Sanitize capabilities include that action, and crypto erase only when the
/// drive has self-encryption.
pub proof fn law_nvme_actions_are_supported(
    caps: Capabilities,
    media: MediaType,
    c: Classification,
    intent: Intent,
)
    ensures
        spec_select_method(caps, media, c, intent) matches Some(m) ==> {
            &&& (m is NvmeSanitizeCryptoErase) ==> media is SsdNvme && caps.nvme_sanitize is Some
                && caps.nvme_sanitize->0.crypto_erase && caps.sed != SedStatus::Absent
            &&& (m is NvmeSanitizeBlockErase) ==> media is SsdNvme && caps.nvme_sanitize is Some
                && caps.nvme_sanitize->0.block_erase
            &&& (m is NvmeSanitizeOverwrite) ==> media is SsdNvme && caps.nvme_sanitize is Some
                && caps.nvme_sanitize->0.overwrite
        },
{
}

/// The NIST category of each method: every NVMe Sanitize action, an Opal
/// revert and an enhanced ATA Secure Erase purge; a basic ATA Secure Erase
/// and a block overwrite clear; physical destruction destroys.
pub proof fn law_category_of_each_method(m: Method)
    ensures
        m is NvmeSanitizeBlockErase ==> category_of(m) == Category::Purge,
        m is NvmeSanitizeCryptoErase ==> category_of(m) == Category::Purge,
        m is NvmeSanitizeOverwrite ==> category_of(m) == Category::Purge,
        m is OpalRevert ==> category_of(m) == Category::Purge,
        m == (Method::AtaSecureErase { enhanced: true }) ==> category_of(m) == Category::Purge,
        m == (Method::AtaSecureErase { enhanced: false }) ==> category_of(m) == Category::Clear,
        m is BlockOverwrite ==> category_of(m) == Category::Clear,
        m is Destroy ==> category_of(m) == Category::Destroy,
{
}

/// Clear on NVMe flash uses the drive's own Sanitize block erase whenever
/// the drive offers it, ahead of ATA security and of a block overwrite.
pub proof fn law_clear_on_nvme_uses_block_erase(caps: Capabilities, intent: Intent)
    requires
        !(intent is Destroy),
        caps.nvme_sanitize matches Some(n) && n.block_erase,
    ensures
        spec_select_method(caps, MediaType::SsdNvme, Classification::Low, intent)
            == Some(Method::NvmeSanitizeBlockErase { ause: false, no_deallocate: false }),
{
}

/// Purge on NVMe flash uses an NVMe Sanitize action whenever the drive
/// offers a usable one (crypto erase counts only on a self-encrypting
/// drive): crypto erase when it is usable, else block erase,
/// else overwrite; it never falls back to ATA security or an overwrite
/// from the host.
pub proof fn law_purge_on_nvme_uses_sanitize(caps: Capabilities, c: Classification, intent: Intent)
    requires
        !(intent is Destroy),
        c is Moderate || c is High,
        caps.nvme_sanitize matches Some(n)
            && ((n.crypto_erase && caps.sed != SedStatus::Absent) || n.block_erase || n.overwrite),
    ensures
        ({
            let n = caps.nvme_sanitize->0;
            let r = spec_select_method(caps, MediaType::SsdNvme, c, intent);
            &&& n.crypto_erase && caps.sed != SedStatus::Absent
                ==> r == Some(Method::NvmeSanitizeCryptoErase { ause: false, no_deallocate: false })
            &&& !(n.crypto_erase && caps.sed != SedStatus::Absent) && n.block_erase
                ==> r == Some(Method::NvmeSanitizeBlockErase { ause: false, no_deallocate: false })
            &&& !(n.crypto_erase && caps.sed != SedStatus::Absent) && !n.block_erase
                ==> r == Some(Method::NvmeSanitizeOverwrite { ause: false, no_deallocate: false, pattern_u32: 0 })
            &&& r matches Some(m) && (m is NvmeSanitizeCryptoErase || m is NvmeSanitizeBlockErase || m is NvmeSanitizeOverwrite)
        }),
{
}

/// Off NVMe flash (or on a drive without NVMe Sanitize), an unfrozen ATA
/// device that supports Security Erase gets it, enhanced exactly when the
/// data needs Purge and the drive supports the enhanced form.
pub proof fn law_ata_secure_erase_when_no_sanitize(caps: Capabilities, media: MediaType, c: Classification, intent: Intent)
    requires
        !(intent is Destroy),
        !(media is SsdNvme) || caps.nvme_sanitize is None,
        caps.ata_security matches Some(a) && a.supported && !a.frozen,
    ensures
        spec_select_method(caps, media, c, intent) == Some(Method::AtaSecureErase {
            enhanced: (c is Moderate || c is High) && caps.ata_security->0.enhanced_supported,
        }),
{
}

/// Without NVMe Sanitize and usable ATA security, Clear overwrites once
/// with zeros and Purge has no method.
pub proof fn law_fallback_without_device_commands(caps: Capabilities, media: MediaType, c: Classification, intent: Intent)
    requires
        !(intent is Destroy),
        !(media is SsdNvme) || caps.nvme_sanitize is None,
        !(caps.ata_security matches Some(a) && a.supported && !a.frozen),
    ensures
        c is Low ==> spec_select_method(caps, media, c, intent) == Some(Method::BlockOverwrite { pattern: Pattern::Zeros, passes: 1 }),
        !(c is Low) ==> spec_select_method(caps, media, c, intent) is None,
{
}

/// The name each method is shown under on a certificate.
pub proof fn law_human_name_of_each_method(m: Method)
    ensures
        m is NvmeSanitizeBlockErase ==> human_name_of(m) == "NVMe Sanitize — Block Erase"@,
        m is NvmeSanitizeCryptoErase ==> human_name_of(m) == "NVMe Sanitize — Crypto Erase"@,
        m is NvmeSanitizeOverwrite ==> human_name_of(m) == "NVMe Sanitize — Overwrite"@,
        m == (Method::AtaSecureErase { enhanced: true }) ==> human_name_of(m) == "ATA Secure Erase (Enhanced)"@,
        m == (Method::AtaSecureErase { enhanced: false }) ==> human_name_of(m) == "ATA Secure Erase"@,
        m is BlockOverwrite ==> human_name_of(m) == "Block Overwrite"@,
        m is OpalRevert ==> human_name_of(m) == "TCG Opal Revert"@,
        m is Destroy ==> human_name_of(m) == "Physical Destruction"@,
{
}

} // verus!
