//! The errors that the commands report, and the message shown for each.
use vstd::prelude::*;
use vstd::string::*;
use crate::text::{cat2, cat3};

verus! {

/// Everything that can make a command fail. Paths are held as text.
#[derive(Debug, Clone, PartialEq, Eq)]
pub enum QvmError {
    MissingDependency(String),
    InvalidVmName(String),
    IsoNotFound(String),
    VirtioIsoNotFound(String),
    VmAlreadyExists(String),
    VmNotFound(String),
    VmNotFoundPlain(String),
    VmAlreadyLaunching(String),
    VmNotRunning(String),
    FailedToStopVm(String),
    VmStoppedUnexpectedly(String),
    OvmfCodeNotFound,
    OvmfVarsNotFound,
    OvmfCodeStoredNotFound(String),
    OvmfVarsStoredNotFound(String),
    MissingVmConf(String),
    FailedToStartTpm,
    QemuExitedImmediately(String),
    RdpPortNotFound(String),
    FreeRdpNotFound,
    Aborted,
    Custom(String),
    /// An input/output failure, carried as the text of the underlying error.
    Io(String),
}

/// The text shown to the user for `e`.
pub open spec fn error_message(e: QvmError) -> Seq<char> {
    match e {
        QvmError::MissingDependency(s) => "Missing: "@ + s@ + ". Install it with your package manager."@,
        QvmError::InvalidVmName(s) => "Invalid VM name '"@ + s@ + "'."@,
        QvmError::IsoNotFound(s) => "Windows ISO not found: "@ + s@,
        QvmError::VirtioIsoNotFound(s) => "VirtIO ISO not found: "@ + s@,
        QvmError::VmAlreadyExists(s) => "VM '"@ + s@ + "' already exists"@,
        QvmError::VmNotFound(s) => "VM '"@ + s@ + "' not found. Run: qvm list"@,
        QvmError::VmNotFoundPlain(s) => "VM '"@ + s@ + "' not found"@,
        QvmError::VmAlreadyLaunching(s) => "VM '"@ + s@ + "' is already launching."@,
        QvmError::VmNotRunning(s) => "VM '"@ + s@ + "' is not running"@,
        QvmError::FailedToStopVm(s) => "Failed to stop VM '"@ + s@ + "'"@,
        QvmError::VmStoppedUnexpectedly(s) => "VM '"@ + s@ + "' stopped unexpectedly."@,
        QvmError::OvmfCodeNotFound => "OVMF_CODE not found. Install: edk2-ovmf"@,
        QvmError::OvmfVarsNotFound => "OVMF_VARS not found. Install: edk2-ovmf"@,
        QvmError::OvmfCodeStoredNotFound(s) => "OVMF_CODE not found at "@ + s@ + " (stored in vm.conf)"@,
        QvmError::OvmfVarsStoredNotFound(s) => "OVMF_VARS not found at "@ + s@ + " (stored in vm.conf)"@,
        QvmError::MissingVmConf(s) => "Missing vm.conf in "@ + s@,
        QvmError::FailedToStartTpm => "Failed to start swtpm"@,
        QvmError::QemuExitedImmediately(s) => "QEMU exited immediately. Check: "@ + s@,
        QvmError::RdpPortNotFound(s) => "Could not determine RDP port for VM '"@ + s@ + "'"@,
        QvmError::FreeRdpNotFound => "FreeRDP not found. Install 'freerdp' (wlfreerdp or xfreerdp)."@,
        QvmError::Aborted => "Aborted"@,
        QvmError::Custom(s) => s@,
        QvmError::Io(s) => s@,
    }
}

impl QvmError {
    /// The text shown to the user for this error.
    pub fn message(&self) -> (r: String)
        ensures
            r@ == error_message(*self),
    {
        match self {
            QvmError::MissingDependency(s) => cat3("Missing: ", s.as_str(), ". Install it with your package manager."),
            QvmError::InvalidVmName(s) => cat3("Invalid VM name '", s.as_str(), "'."),
            QvmError::IsoNotFound(s) => cat2("Windows ISO not found: ", s.as_str()),
            QvmError::VirtioIsoNotFound(s) => cat2("VirtIO ISO not found: ", s.as_str()),
            QvmError::VmAlreadyExists(s) => cat3("VM '", s.as_str(), "' already exists"),
            QvmError::VmNotFound(s) => cat3("VM '", s.as_str(), "' not found. Run: qvm list"),
            QvmError::VmNotFoundPlain(s) => cat3("VM '", s.as_str(), "' not found"),
            QvmError::VmAlreadyLaunching(s) => cat3("VM '", s.as_str(), "' is already launching."),
            QvmError::VmNotRunning(s) => cat3("VM '", s.as_str(), "' is not running"),
            QvmError::FailedToStopVm(s) => cat3("Failed to stop VM '", s.as_str(), "'"),
            QvmError::VmStoppedUnexpectedly(s) => cat3("VM '", s.as_str(), "' stopped unexpectedly."),
            QvmError::OvmfCodeNotFound => String::from_str("OVMF_CODE not found. Install: edk2-ovmf"),
            QvmError::OvmfVarsNotFound => String::from_str("OVMF_VARS not found. Install: edk2-ovmf"),
            QvmError::OvmfCodeStoredNotFound(s) => cat3("OVMF_CODE not found at ", s.as_str(), " (stored in vm.conf)"),
            QvmError::OvmfVarsStoredNotFound(s) => cat3("OVMF_VARS not found at ", s.as_str(), " (stored in vm.conf)"),
            QvmError::MissingVmConf(s) => cat2("Missing vm.conf in ", s.as_str()),
            QvmError::FailedToStartTpm => String::from_str("Failed to start swtpm"),
            QvmError::QemuExitedImmediately(s) => cat2("QEMU exited immediately. Check: ", s.as_str()),
            QvmError::RdpPortNotFound(s) => cat3("Could not determine RDP port for VM '", s.as_str(), "'"),
            QvmError::FreeRdpNotFound => String::from_str(
                "FreeRDP not found. Install 'freerdp' (wlfreerdp or xfreerdp).",
            ),
            QvmError::Aborted => String::from_str("Aborted"),
            QvmError::Custom(s) => s.clone(),
            QvmError::Io(s) => s.clone(),
        }
    }
}

} // verus!
