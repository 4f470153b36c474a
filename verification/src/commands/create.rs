//! Creating a VM: the checks on the request, and the configuration and disk it gets.
use vstd::prelude::*;
use vstd::string::*;
use crate::config::{EnvDefaults, VmConfig, opt_str};
use crate::display::{Note, Tone, notes_view, push_note};
use crate::error::QvmError;
use crate::ovmf::OvmfInfo;
use crate::paths::{join_path, path_join};
use crate::text::texts;
use crate::text::{decimal, push_decimal, trim, trim_str};
use crate::vm::{VmName, is_valid_vm_name};

verus! {

/// Checks a request to create a VM, in order: the name must be valid, the installer
/// ISO must exist (`iso_present`), the driver ISO, when given, must exist
/// (`driver_iso_present`), and the VM's directory must not exist yet (`vm_dir_exists`).
pub fn check_create_request(
    name: &str,
    iso: &str,
    iso_present: bool,
    driver_iso: Option<&str>,
    driver_iso_present: bool,
    vm_dir_exists: bool,
) -> (r: Result<VmName, QvmError>)
    ensures
        !is_valid_vm_name(name@) ==> (r matches Err(QvmError::InvalidVmName(n)) && n@ == name@),
        is_valid_vm_name(name@) && !iso_present ==> (r matches Err(QvmError::IsoNotFound(p))
            && p@ == iso@),
        is_valid_vm_name(name@) && iso_present && driver_iso is Some && !driver_iso_present ==> (
        r matches Err(QvmError::VirtioIsoNotFound(p)) && p@ == driver_iso.unwrap()@),
        is_valid_vm_name(name@) && iso_present && (driver_iso is None || driver_iso_present)
            && vm_dir_exists ==> (r matches Err(QvmError::VmAlreadyExists(n)) && n@ == name@),
        is_valid_vm_name(name@) && iso_present && (driver_iso is None || driver_iso_present)
            && !vm_dir_exists ==> (r matches Ok(n) && n@ == name@),
{
    let vm_name = VmName::try_from(name)?;
    if !iso_present {
        return Err(QvmError::IsoNotFound(String::from_str(iso)));
    }
    if let Some(d) = driver_iso {
        if !driver_iso_present {
            return Err(QvmError::VirtioIsoNotFound(String::from_str(d)));
        }
    }
    if vm_dir_exists {
        return Err(QvmError::VmAlreadyExists(String::from_str(name)));
    }
    Ok(vm_name)
}

/// The disk image of a new VM whose directory is `vmdir`.
pub fn disk_image_path(vmdir: &str) -> (r: String)
    ensures
        r@ == path_join(vmdir@, "disk.qcow2"@),
{
    join_path(vmdir, "disk.qcow2")
}

/// The VM's own copy of the firmware variables.
pub fn vars_copy_path(vmdir: &str) -> (r: String)
    ensures
        r@ == path_join(vmdir@, "ovmf-vars.fd"@),
{
    join_path(vmdir, "ovmf-vars.fd")
}

/// The configuration of a new VM: the given name, ISOs and creation time, its disk and
/// firmware variables in `vmdir`, the chosen firmware code, and the default RAM and
/// vCPU count; no RDP credentials.
pub fn new_vm_config(
    name: &VmName,
    iso: &str,
    driver_iso: Option<&str>,
    vmdir: &str,
    ovmf: &OvmfInfo,
    defaults: &EnvDefaults,
    created: &str,
) -> (r: VmConfig)
    ensures
        r.name@ == name@,
        r.iso@ == iso@,
        crate::config::opt_text(r.driver_iso) == opt_str(driver_iso),
        r.disk@ == path_join(vmdir@, "disk.qcow2"@),
        r.ovmf_code@ == ovmf.code@,
        r.ovmf_vars@ == path_join(vmdir@, "ovmf-vars.fd"@),
        r.ram_mb == defaults.ram_mb,
        r.vcpus == defaults.vcpus,
        r.created@ == created@,
        r.rdp_user is None,
        r.rdp_pass is None,
{
    VmConfig {
        name: String::from_str(name.as_str()),
        iso: String::from_str(iso),
        driver_iso: match driver_iso {
            Some(d) => Some(String::from_str(d)),
            None => None,
        },
        disk: disk_image_path(vmdir),
        ovmf_code: ovmf.code.clone(),
        ovmf_vars: vars_copy_path(vmdir),
        ram_mb: defaults.ram_mb,
        vcpus: defaults.vcpus,
        created: String::from_str(created),
        rdp_user: None,
        rdp_pass: None,
    }
}

/// The arguments of `qemu-img` that create the sparse disk image `disk` of `size`.
pub fn qemu_img_args(disk: &str, size: &str) -> (r: Vec<String>)
    ensures
        texts(r@) == seq!["create"@, "-f"@, "qcow2"@, disk@, size@, "-q"@],
{
    let mut r: Vec<String> = Vec::new();
    r.push(String::from_str("create"));
    r.push(String::from_str("-f"));
    r.push(String::from_str("qcow2"));
    r.push(String::from_str(disk));
    r.push(String::from_str(size));
    r.push(String::from_str("-q"));
    assert(texts(r@) =~= seq!["create"@, "-f"@, "qcow2"@, disk@, size@, "-q"@]);
    r
}

/// The creation time recorded: what `date -Iseconds` printed, trimmed, or `unknown`
/// when it could not be run.
pub fn creation_time(date_output: Option<&str>) -> (r: String)
    ensures
        r@ == match date_output {
            Some(t) => trim(t@),
            None => "unknown"@,
        },
{
    match date_output {
        Some(t) => trim_str(t),
        None => String::from_str("unknown"),
    }
}

/// The messages given once a VM is created.
pub open spec fn create_summary_spec(
    name: Seq<char>,
    ram_mb: u32,
    vcpus: u32,
    disk_size: Seq<char>,
    secure_boot: bool,
    driver_iso: Option<Seq<char>>,
) -> Seq<(Tone, Seq<char>)> {
    let base = seq![
        (Tone::Success, "Created VM: "@ + name),
        (Tone::Info, "RAM: "@ + decimal(ram_mb as nat) + " MB"@),
        (Tone::Info, "vCPUs: "@ + decimal(vcpus as nat)),
        (Tone::Info, "Disk: "@ + disk_size),
        if secure_boot {
            (Tone::Success, "Secure Boot-capable OVMF detected"@)
        } else {
            (Tone::Warn, "Secure Boot OVMF not detected"@)
        },
    ];
    match driver_iso {
        Some(d) => base.push((Tone::Info, "VirtIO drivers: "@ + d)),
        None => base,
    }
}

/// The messages given once a VM is created.
pub fn create_summary(
    name: &str,
    defaults: &EnvDefaults,
    secure_boot: bool,
    driver_iso: Option<&str>,
) -> (r: Vec<Note>)
    ensures
        notes_view(r@) == create_summary_spec(
            name@,
            defaults.ram_mb,
            defaults.vcpus,
            defaults.disk_size@,
            secure_boot,
            opt_str(driver_iso),
        ),
{
    let mut notes: Vec<Note> = Vec::new();
    let mut t1 = String::from_str("Created VM: ");
    t1.append(name);
    push_note(&mut notes, Tone::Success, t1);
    let mut t2 = String::from_str("RAM: ");
    push_decimal(&mut t2, defaults.ram_mb as u64);
    t2.append(" MB");
    push_note(&mut notes, Tone::Info, t2);
    let mut t3 = String::from_str("vCPUs: ");
    push_decimal(&mut t3, defaults.vcpus as u64);
    push_note(&mut notes, Tone::Info, t3);
    let mut t4 = String::from_str("Disk: ");
    t4.append(defaults.disk_size.as_str());
    push_note(&mut notes, Tone::Info, t4);
    if secure_boot {
        push_note(&mut notes, Tone::Success, String::from_str("Secure Boot-capable OVMF detected"));
    } else {
        push_note(&mut notes, Tone::Warn, String::from_str("Secure Boot OVMF not detected"));
    }
    if let Some(d) = driver_iso {
        let mut t6 = String::from_str("VirtIO drivers: ");
        t6.append(d);
        push_note(&mut notes, Tone::Info, t6);
    }
    assert(notes_view(notes@) =~= create_summary_spec(
        name@,
        defaults.ram_mb,
        defaults.vcpus,
        defaults.disk_size@,
        secure_boot,
        opt_str(driver_iso),
    ));
    notes
}

} // verus!
