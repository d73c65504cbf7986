//! Errors of the erasure engine, with their operator-facing text.

use vstd::prelude::*;

use crate::text::append_str;

verus! {

/// What can go wrong while erasing.
#[derive(Debug, PartialEq, Eq)]
pub enum WipeError {
    DeviceNotFound(String),
    DeviceFrozen,
    MethodUnsupported(String),
    Aborted,
    VerificationFailed(String),
    Io(String),
    Backend(String),
    InvalidState(String),
    Cert(String),
    License(String),
}

/// The text of an error.
pub open spec fn wipe_error_text(e: WipeError) -> Seq<char> {
    match e {
        WipeError::DeviceNotFound(s) => "device not found: "@ + s@,
        WipeError::DeviceFrozen => "device frozen — issue ATA security freeze unlock first"@,
        WipeError::MethodUnsupported(s) => "method "@ + s@ + " not supported by this device"@,
        WipeError::Aborted => "operation aborted by operator"@,
        WipeError::VerificationFailed(s) => "verification failed: "@ + s@,
        WipeError::Io(s) => "io error: "@ + s@,
        WipeError::Backend(s) => "backend error: "@ + s@,
        WipeError::InvalidState(s) => "invalid state: "@ + s@,
        WipeError::Cert(s) => "cert generation failed: "@ + s@,
        WipeError::License(s) => "license check failed: "@ + s@,
    }
}

fn prefixed(prefix: &str, s: &String) -> (r: String)
    ensures
        r@ == prefix@ + s@,
{
    let mut out = String::from_str(prefix);
    append_str(&mut out, s.as_str());
    out
}

impl WipeError {
    /// The operator-facing text of this error.
    pub fn message(&self) -> (r: String)
        ensures
            r@ == wipe_error_text(*self),
    {
        match self {
            WipeError::DeviceNotFound(s) => prefixed("device not found: ", s),
            WipeError::DeviceFrozen => String::from_str("device frozen — issue ATA security freeze unlock first"),
            WipeError::MethodUnsupported(s) => {
                let mut out = prefixed("method ", s);
                append_str(&mut out, " not supported by this device");
                out
            },
            WipeError::Aborted => String::from_str("operation aborted by operator"),
            WipeError::VerificationFailed(s) => prefixed("verification failed: ", s),
            WipeError::Io(s) => prefixed("io error: ", s),
            WipeError::Backend(s) => prefixed("backend error: ", s),
            WipeError::InvalidState(s) => prefixed("invalid state: ", s),
            WipeError::Cert(s) => prefixed("cert generation failed: ", s),
            WipeError::License(s) => prefixed("license check failed: ", s),
        }
    }
}

/// A backend failure carrying the given text.
pub fn backend_err(text: &str) -> (r: WipeError)
    ensures
        r matches WipeError::Backend(s) && s@ == text@,
{
    WipeError::Backend(String::from_str(text))
}

} // verus!
