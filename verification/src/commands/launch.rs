//! Booting a VM: the decisions around starting QEMU.
use vstd::prelude::*;
use vstd::string::*;
use crate::config::{VmConfig, opt_text};
use crate::display::{Note, Tone, notes_view, push_note};
use crate::error::QvmError;
use crate::qemu::LaunchParams;
use crate::text::texts;
use crate::text::{decimal, push_char, push_decimal, push_signed_decimal, signed_decimal, trim, trim_str};
use crate::vm::{vm_tpm_socket, vm_tpm_socket_spec};

verus! {

/// Checks that the firmware files recorded in the VM's configuration exist
/// (`code_present`, `vars_present`).
pub fn check_stored_firmware(config: &VmConfig, code_present: bool, vars_present: bool) -> (r: Result<(), QvmError>)
    ensures
        !code_present ==> (r matches Err(QvmError::OvmfCodeStoredNotFound(p)) && p@ == config.ovmf_code@),
        code_present && !vars_present ==> (r matches Err(QvmError::OvmfVarsStoredNotFound(p)) && p@ == config.ovmf_vars@),
        code_present && vars_present ==> r is Ok,
{
    if !code_present {
        return Err(QvmError::OvmfCodeStoredNotFound(config.ovmf_code.clone()));
    }
    if !vars_present {
        return Err(QvmError::OvmfVarsStoredNotFound(config.ovmf_vars.clone()));
    }
    Ok(())
}

/// The text of a port file: the port and a line break.
pub fn port_file_content(port: u16) -> (r: String)
    ensures
        r@ == decimal(port as nat).push('\n'),
{
    let mut s = String::new();
    push_decimal(&mut s, port as u64);
    push_char(&mut s, '\n');
    assert(s@ =~= decimal(port as nat).push('\n'));
    s
}

/// How a port file is shown: its trimmed contents, or `?` when it cannot be read.
pub fn port_label(content: Option<&str>) -> (r: String)
    ensures
        r@ == trim(
            match content {
                Some(t) => t@,
                None => "?"@,
            },
        ),
{
    match content {
        Some(t) => trim_str(t),
        None => trim_str("?"),
    }
}

/// The warning given when the VM already runs.
pub fn already_running_message(spice_label: &str, rdp_label: &str) -> (r: String)
    ensures
        r@ == "Already running → spice://localhost:"@ + spice_label@ + " | rdp://localhost:"@
            + rdp_label@,
{
    let mut s = String::from_str("Already running → spice://localhost:");
    s.append(spice_label);
    s.append(" | rdp://localhost:");
    s.append(rdp_label);
    s
}

/// What the VM `name` under `base` is booted with: its configuration, the chosen
/// ports, its TPM socket, and the installer ISO unless `no_iso`.
pub fn launch_params(
    config: &VmConfig,
    base: &str,
    name: &str,
    spice_port: u16,
    rdp_port: u16,
    no_iso: bool,
) -> (r: LaunchParams)
    ensures
        r.vcpus == config.vcpus,
        r.ram_mb == config.ram_mb,
        r.ovmf_code@ == config.ovmf_code@,
        r.ovmf_vars@ == config.ovmf_vars@,
        r.tpm_socket@ == vm_tpm_socket_spec(base@, name@),
        r.spice_port == spice_port,
        r.rdp_port == rdp_port,
        r.disk@ == config.disk@,
        r.attach_iso == !no_iso,
        r.iso@ == config.iso@,
        opt_text(r.driver_iso) == opt_text(config.driver_iso),
{
    let driver_iso = match &config.driver_iso {
        Some(d) => Some(d.clone()),
        None => None,
    };
    LaunchParams {
        vcpus: config.vcpus,
        ram_mb: config.ram_mb,
        ovmf_code: config.ovmf_code.clone(),
        ovmf_vars: config.ovmf_vars.clone(),
        tpm_socket: vm_tpm_socket(base, name),
        spice_port,
        rdp_port,
        disk: config.disk.clone(),
        attach_iso: !no_iso,
        iso: config.iso.clone(),
        driver_iso,
    }
}

/// The messages about boot media: whether the installer ISO is attached (it is when
/// wanted and present), and whether a driver ISO is attached (it is when ISOs are wanted
/// and one is configured and present).
pub open spec fn boot_media_notes_spec(
    no_iso: bool,
    iso: Seq<char>,
    iso_present: bool,
    driver_iso_present: bool,
) -> Seq<(Tone, Seq<char>)> {
    let first = if !no_iso && iso_present {
        seq![(Tone::Info, "Windows ISO attached"@)]
    } else if !no_iso {
        seq![(Tone::Warn, "ISO not found at "@ + iso), (Tone::Info, "Booting from disk"@)]
    } else {
        seq![(Tone::Info, "Booting from disk"@)]
    };
    if !no_iso && driver_iso_present {
        first.push((Tone::Info, "VirtIO driver ISO attached"@))
    } else {
        first
    }
}

/// The messages about boot media. `driver_iso_present` tells whether a driver ISO is
/// configured and exists.
pub fn boot_media_notes(no_iso: bool, iso: &str, iso_present: bool, driver_iso_present: bool) -> (r: Vec<Note>)
    ensures
        notes_view(r@) == boot_media_notes_spec(no_iso, iso@, iso_present, driver_iso_present),
{
    let mut notes: Vec<Note> = Vec::new();
    if !no_iso && iso_present {
        push_note(&mut notes, Tone::Info, String::from_str("Windows ISO attached"));
    } else if !no_iso {
        let mut t = String::from_str("ISO not found at ");
        t.append(iso);
        push_note(&mut notes, Tone::Warn, t);
        push_note(&mut notes, Tone::Info, String::from_str("Booting from disk"));
    } else {
        push_note(&mut notes, Tone::Info, String::from_str("Booting from disk"));
    }
    if !no_iso && driver_iso_present {
        push_note(&mut notes, Tone::Info, String::from_str("VirtIO driver ISO attached"));
    }
    assert(notes_view(notes@) =~= boot_media_notes_spec(no_iso, iso@, iso_present, driver_iso_present));
    notes
}

/// The message given once QEMU runs.
pub fn running_message(pid: i32, spice_port: u16, rdp_port: u16) -> (r: String)
    ensures
        r@ == "Running → PID "@ + signed_decimal(pid as int) + " | spice://localhost:"@
            + decimal(spice_port as nat) + " | rdp://localhost:"@ + decimal(rdp_port as nat),
{
    let mut s = String::from_str("Running → PID ");
    push_signed_decimal(&mut s, pid as i64);
    s.append(" | spice://localhost:");
    push_decimal(&mut s, spice_port as u64);
    s.append(" | rdp://localhost:");
    push_decimal(&mut s, rdp_port as u64);
    s
}

/// The SPICE address of the VM's display.
pub fn viewer_url(spice_port: u16) -> (r: String)
    ensures
        r@ == "spice://localhost:"@ + decimal(spice_port as nat),
{
    let mut s = String::from_str("spice://localhost:");
    push_decimal(&mut s, spice_port as u64);
    s
}

/// The SPICE viewer to open.
#[derive(Debug, Clone, Copy, PartialEq, Eq, Structural)]
pub enum ViewerChoice {
    RemoteViewer,
    VirtViewer,
    NoViewer,
}

/// `remote-viewer` when installed, else `virt-viewer` when installed, else none.
pub fn choose_viewer(remote_viewer_found: bool, virt_viewer_found: bool) -> (r: ViewerChoice)
    ensures
        r == if remote_viewer_found {
            ViewerChoice::RemoteViewer
        } else if virt_viewer_found {
            ViewerChoice::VirtViewer
        } else {
            ViewerChoice::NoViewer
        },
{
    if remote_viewer_found {
        ViewerChoice::RemoteViewer
    } else if virt_viewer_found {
        ViewerChoice::VirtViewer
    } else {
        ViewerChoice::NoViewer
    }
}

/// The arguments of the chosen viewer for the address `url` (none when no viewer was found).
pub fn viewer_args(choice: ViewerChoice, url: &str) -> (r: Vec<String>)
    ensures
        texts(r@) == match choice {
            ViewerChoice::RemoteViewer => seq![url@],
            ViewerChoice::VirtViewer => seq!["--connect"@, url@],
            ViewerChoice::NoViewer => Seq::<Seq<char>>::empty(),
        },
{
    let mut r: Vec<String> = Vec::new();
    match choice {
        ViewerChoice::RemoteViewer => {
            r.push(String::from_str(url));
        },
        ViewerChoice::VirtViewer => {
            r.push(String::from_str("--connect"));
            r.push(String::from_str(url));
        },
        ViewerChoice::NoViewer => {},
    }
    assert(texts(r@) =~= match choice {
        ViewerChoice::RemoteViewer => seq![url@],
        ViewerChoice::VirtViewer => seq!["--connect"@, url@],
        ViewerChoice::NoViewer => Seq::<Seq<char>>::empty(),
    });
    r
}

} // verus!
