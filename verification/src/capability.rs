//! The typed error shared by every capability contract, and the value types and
//! traits of the one-shot capabilities.
//!
//! Capability methods return `Result<T, CapabilityError>`. A scaffolded but unimplemented
//! platform leaf returns `Unimplemented`; nothing panics across the platform boundary.
use vstd::prelude::*;
use crate::style::int_text;
use crate::style::push_int;

verus! {

/// Why a capability call failed.
#[derive(Clone, Debug, PartialEq, Eq)]
pub enum CapabilityError {
    /// Scaffolded but not implemented yet on this platform.
    Unimplemented { capability: &'static str, platform: &'static str },
    /// The platform has no such concept.
    Unsupported { capability: &'static str, platform: &'static str },
    /// The native call failed at run time.
    Platform { code: i32, message: String },
}

impl CapabilityError {
    /// Shorthand for `Unimplemented` (what stubs return).
    pub fn unimplemented(capability: &'static str, platform: &'static str) -> (r: Self)
        ensures
            r == (CapabilityError::Unimplemented { capability, platform }),
    {
        CapabilityError::Unimplemented { capability, platform }
    }

    /// Shorthand for `Unsupported`.
    pub fn unsupported(capability: &'static str, platform: &'static str) -> (r: Self)
        ensures
            r == (CapabilityError::Unsupported { capability, platform }),
    {
        CapabilityError::Unsupported { capability, platform }
    }
}

/// The human-readable text of an error.
pub open spec fn error_message(e: CapabilityError) -> Seq<char> {
    match e {
        CapabilityError::Unimplemented { capability, platform } => "capability `"@ + capability@
            + "` is not yet implemented on "@ + platform@,
        CapabilityError::Unsupported { capability, platform } => "capability `"@ + capability@
            + "` is not supported on "@ + platform@,
        CapabilityError::Platform { code, message } => "platform error "@ + int_text(code as int)
            + ": "@ + message@,
    }
}

impl CapabilityError {
    /// The error's text: which capability is missing on which platform, or the
    /// platform's error code and message.
    pub fn message(&self) -> (r: String)
        ensures
            r@ == error_message(*self),
    {
        match self {
            CapabilityError::Unimplemented { capability, platform } => {
                let mut out = "capability `".to_owned();
                out.append(capability);
                out.append("` is not yet implemented on ");
                out.append(platform);
                out
            },
            CapabilityError::Unsupported { capability, platform } => {
                let mut out = "capability `".to_owned();
                out.append(capability);
                out.append("` is not supported on ");
                out.append(platform);
                out
            },
            CapabilityError::Platform { code, message } => {
                let mut out = "platform error ".to_owned();
                push_int(&mut out, *code as i64);
                out.append(": ");
                out.append(message.as_str());
                out
            },
        }
    }
}

/// The battery state every platform reports.
#[derive(Clone, Copy, Debug, PartialEq, Eq, Structural)]
pub struct BatteryStatus {
    /// Charge level in percent (`0..=100`).
    pub level: u8,
    /// Whether the device is charging.
    pub charging: bool,
}

/// The default status is empty and not charging.
impl Default for BatteryStatus {
    fn default() -> (r: Self)
        ensures
            r.level == 0,
            !r.charging,
    {
        BatteryStatus { level: 0, charging: false }
    }
}

/// The network connection kind every platform reports.
#[derive(Clone, Copy, Debug, PartialEq, Eq, Structural)]
pub enum Connectivity {
    /// No connection.
    Offline,
    Wifi,
    Cellular,
}

/// The default is no connection.
impl Default for Connectivity {
    fn default() -> (r: Self)
        ensures
            r == Connectivity::Offline,
    {
        Connectivity::Offline
    }
}

/// The device information every platform reports.
#[derive(Clone, Debug, PartialEq, Eq)]
pub struct DeviceInfo {
    pub os_name: String,
    pub os_version: String,
    pub model: String,
    pub manufacturer: String,
}

/// The default information is all empty.
impl Default for DeviceInfo {
    fn default() -> (r: Self)
        ensures
            r.os_name@ == Seq::<char>::empty(),
            r.os_version@ == Seq::<char>::empty(),
            r.model@ == Seq::<char>::empty(),
            r.manufacturer@ == Seq::<char>::empty(),
    {
        DeviceInfo {
            os_name: String::new(),
            os_version: String::new(),
            model: String::new(),
            manufacturer: String::new(),
        }
    }
}

/// One-shot device information query, implemented by each platform leaf.
pub trait DeviceInfoProvider {
    fn query(&self) -> Result<DeviceInfo, CapabilityError>;
}

/// Local biometric authentication, implemented by each platform leaf. The `bool` of
/// `authenticate` says whether authentication succeeded.
pub trait Biometric {
    fn is_available(&self) -> Result<bool, CapabilityError>;

    fn authenticate(&mut self, reason: &str) -> Result<bool, CapabilityError>;
}

/// The platform clipboard the core writes selected text to, implemented by each
/// platform adapter. Writing is fire-and-forget.
pub trait Clipboard {
    /// Writes `text` to the system clipboard, replacing its content.
    fn write_text(&self, text: &str);

    /// Reads the clipboard's current text for paste; write-only adapters keep the
    /// default, which reads nothing (`None`).
    fn read_text(&self) -> (r: Option<String>)
        default_ensures
            r is None,
    {
        None
    }
}

/// The platform font fetching seam: asked to fetch a missing family, it reports back
/// asynchronously through the font registration path.
pub trait FontFetcher {
    fn request(&mut self, family: &str);
}

} // verus!
