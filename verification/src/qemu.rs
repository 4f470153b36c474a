//! The QEMU command line that boots a VM.
use vstd::prelude::*;
use vstd::string::*;
use crate::config::opt_text;
use crate::text::{cat2, cat3, decimal, push_decimal, texts};

verus! {

/// What a VM is booted with. Paths are held as text.
#[derive(Debug, Clone)]
pub struct LaunchParams {
    pub vcpus: u32,
    pub ram_mb: u32,
    pub ovmf_code: String,
    pub ovmf_vars: String,
    pub tpm_socket: String,
    pub spice_port: u16,
    pub rdp_port: u16,
    pub disk: String,
    pub attach_iso: bool,
    pub iso: String,
    pub driver_iso: Option<String>,
}

/// The mathematical value of [`LaunchParams`].
pub struct LaunchParamsView {
    pub vcpus: u32,
    pub ram_mb: u32,
    pub ovmf_code: Seq<char>,
    pub ovmf_vars: Seq<char>,
    pub tpm_socket: Seq<char>,
    pub spice_port: u16,
    pub rdp_port: u16,
    pub disk: Seq<char>,
    pub attach_iso: bool,
    pub iso: Seq<char>,
    pub driver_iso: Option<Seq<char>>,
}

impl View for LaunchParams {
    type V = LaunchParamsView;

    open spec fn view(&self) -> LaunchParamsView {
        LaunchParamsView {
            vcpus: self.vcpus,
            ram_mb: self.ram_mb,
            ovmf_code: self.ovmf_code@,
            ovmf_vars: self.ovmf_vars@,
            tpm_socket: self.tpm_socket@,
            spice_port: self.spice_port,
            rdp_port: self.rdp_port,
            disk: self.disk@,
            attach_iso: self.attach_iso,
            iso: self.iso@,
            driver_iso: opt_text(self.driver_iso),
        }
    }
}

/// Machine type, CPU, vCPU count and memory.
pub open spec fn machine_args(p: LaunchParamsView) -> Seq<Seq<char>> {
    seq![
        "-machine"@,
        "q35,accel=kvm"@,
        "-cpu"@,
        "host"@,
        "-smp"@,
        decimal(p.vcpus as nat),
        "-m"@,
        decimal(p.ram_mb as nat),
    ]
}

/// UEFI firmware: the read-only code and the VM's own variable store.
pub open spec fn firmware_args(p: LaunchParamsView) -> Seq<Seq<char>> {
    seq![
        "-drive"@,
        "if=pflash,format=raw,readonly=on,file="@ + p.ovmf_code,
        "-drive"@,
        "if=pflash,format=raw,file="@ + p.ovmf_vars,
    ]
}

/// The TPM 2.0 emulator's socket.
pub open spec fn tpm_args(p: LaunchParamsView) -> Seq<Seq<char>> {
    seq![
        "-chardev"@,
        "socket,id=chrtpm,path="@ + p.tpm_socket,
        "-tpmdev"@,
        "emulator,id=tpm0,chardev=chrtpm"@,
        "-device"@,
        "tpm-crb,tpmdev=tpm0"@,
    ]
}

/// Graphics served over SPICE on the local host, and the SPICE agent channel.
pub open spec fn display_args(p: LaunchParamsView) -> Seq<Seq<char>> {
    seq![
        "-device"@,
        "virtio-gpu-pci"@,
        "-spice"@,
        "addr=127.0.0.1,port="@ + decimal(p.spice_port as nat) + ",disable-ticketing=on"@,
        "-device"@,
        "virtio-serial-pci"@,
        "-chardev"@,
        "spicevmc,id=vdagent,name=vdagent"@,
        "-device"@,
        "virtserialport,chardev=vdagent,name=com.redhat.spice.0"@,
    ]
}

/// User networking, with the guest's RDP port forwarded from the host's `rdp_port`.
pub open spec fn network_args(p: LaunchParamsView) -> Seq<Seq<char>> {
    seq![
        "-nic"@,
        "user,model=virtio-net-pci,hostfwd=tcp:127.0.0.1:"@ + decimal(p.rdp_port as nat)
            + "-:3389"@,
    ]
}

/// The system disk, USB tablet, no local window, and the boot order.
pub open spec fn disk_args(p: LaunchParamsView) -> Seq<Seq<char>> {
    seq![
        "-drive"@,
        "file="@ + p.disk + ",if=virtio,format=qcow2,cache=none"@,
        "-device"@,
        "usb-ehci"@,
        "-device"@,
        "usb-tablet"@,
        "-display"@,
        "none"@,
        "-boot"@,
        "order=dc"@,
    ]
}

/// A read-only CD-ROM drive holding `image`.
pub open spec fn cdrom_args(image: Seq<char>) -> Seq<Seq<char>> {
    seq!["-drive"@, "file="@ + image + ",media=cdrom,readonly=on"@]
}

/// The installer ISO, when it is to be attached and is present.
pub open spec fn iso_args(p: LaunchParamsView, iso_present: bool) -> Seq<Seq<char>> {
    if p.attach_iso && iso_present {
        cdrom_args(p.iso)
    } else {
        Seq::empty()
    }
}

/// The driver ISO, when ISOs are to be attached and one is configured and present.
pub open spec fn driver_iso_args(p: LaunchParamsView, driver_iso_present: bool) -> Seq<Seq<char>> {
    match p.driver_iso {
        Some(d) => if p.attach_iso && driver_iso_present {
            cdrom_args(d)
        } else {
            Seq::empty()
        },
        None => Seq::empty(),
    }
}

/// The arguments of the QEMU command that boots a VM with `p`.
pub open spec fn qemu_args(p: LaunchParamsView, iso_present: bool, driver_iso_present: bool) -> Seq<
    Seq<char>,
> {
    machine_args(p) + firmware_args(p) + tpm_args(p) + display_args(p) + network_args(p)
        + disk_args(p) + iso_args(p, iso_present) + driver_iso_args(p, driver_iso_present)
}

/// The command has forty arguments, two more for the installer ISO when it is to be
/// attached and is present, and two more for the driver ISO when ISOs are to be attached
/// and one is configured and present.
pub proof fn lemma_qemu_arg_count(p: LaunchParamsView, iso_present: bool, driver_iso_present: bool)
    ensures
        qemu_args(p, iso_present, driver_iso_present).len() == 40 + (if p.attach_iso
            && iso_present {
            2int
        } else {
            0int
        }) + (if p.attach_iso && p.driver_iso is Some && driver_iso_present {
            2int
        } else {
            0int
        }),
{
}

/// Booting without ISOs boots from the disk alone: when ISOs are not to be attached, no
/// CD-ROM drive is added, neither the installer ISO nor the driver ISO, whatever files
/// exist.
pub proof fn lemma_no_iso_mounts_no_cdrom(
    p: LaunchParamsView,
    iso_present: bool,
    driver_iso_present: bool,
)
    requires
        !p.attach_iso,
    ensures
        qemu_args(p, iso_present, driver_iso_present) == machine_args(p) + firmware_args(p)
            + tpm_args(p) + display_args(p) + network_args(p) + disk_args(p),
        qemu_args(p, iso_present, driver_iso_present) == qemu_args(p, false, false),
{
    assert(iso_args(p, iso_present) =~= Seq::<Seq<char>>::empty());
    assert(driver_iso_args(p, driver_iso_present) =~= Seq::<Seq<char>>::empty());
    assert(iso_args(p, false) =~= Seq::<Seq<char>>::empty());
    assert(driver_iso_args(p, false) =~= Seq::<Seq<char>>::empty());
}

/// The command depends on nothing but the parameters and the two presence answers:
/// parameters that are equal as values, with the same answers, give the same command.
pub proof fn lemma_qemu_command_determined(
    p1: LaunchParamsView,
    p2: LaunchParamsView,
    iso_present: bool,
    driver_iso_present: bool,
)
    requires
        p1 == p2,
    ensures
        qemu_args(p1, iso_present, driver_iso_present) == qemu_args(
            p2,
            iso_present,
            driver_iso_present,
        ),
{
}

fn push_arg(args: &mut Vec<String>, a: String)
    ensures
        texts(final(args)@) == texts(old(args)@).push(a@),
{
    args.push(a);
    assert(texts(final(args)@) =~= texts(old(args)@).push(a@));
}

fn push_lit(args: &mut Vec<String>, a: &str)
    ensures
        texts(final(args)@) == texts(old(args)@).push(a@),
{
    push_arg(args, String::from_str(a));
}

fn lit_number_lit(a: &str, n: u16, c: &str) -> (r: String)
    ensures
        r@ == a@ + decimal(n as nat) + c@,
{
    let mut r = String::from_str(a);
    push_decimal(&mut r, n as u64);
    r.append(c);
    r
}

/// Builds the program name and the arguments of the QEMU command that boots a VM with
/// `params`. `iso_present` and `driver_iso_present` tell whether the installer ISO and
/// the driver ISO exist as files; nothing else is looked at.
pub fn build_qemu_command(params: &LaunchParams, iso_present: bool, driver_iso_present: bool) -> (r: (
    String,
    Vec<String>,
))
    ensures
        r.0@ == "qemu-system-x86_64"@,
        texts(r.1@) == qemu_args(params@, iso_present, driver_iso_present),
{
    let program = String::from_str("qemu-system-x86_64");
    let p = params;
    let mut args: Vec<String> = Vec::new();
    let ghost start = texts(args@);

    push_lit(&mut args, "-machine");
    push_lit(&mut args, "q35,accel=kvm");
    push_lit(&mut args, "-cpu");
    push_lit(&mut args, "host");
    push_lit(&mut args, "-smp");
    push_arg(&mut args, crate::text::decimal_string(p.vcpus as u64));
    push_lit(&mut args, "-m");
    push_arg(&mut args, crate::text::decimal_string(p.ram_mb as u64));
    let ghost a1 = texts(args@);
    assert(a1 =~= machine_args(p@));

    push_lit(&mut args, "-drive");
    push_arg(&mut args, cat2("if=pflash,format=raw,readonly=on,file=", p.ovmf_code.as_str()));
    push_lit(&mut args, "-drive");
    push_arg(&mut args, cat2("if=pflash,format=raw,file=", p.ovmf_vars.as_str()));
    let ghost a2 = texts(args@);
    assert(a2 =~= a1 + firmware_args(p@));

    push_lit(&mut args, "-chardev");
    push_arg(&mut args, cat2("socket,id=chrtpm,path=", p.tpm_socket.as_str()));
    push_lit(&mut args, "-tpmdev");
    push_lit(&mut args, "emulator,id=tpm0,chardev=chrtpm");
    push_lit(&mut args, "-device");
    push_lit(&mut args, "tpm-crb,tpmdev=tpm0");
    let ghost a3 = texts(args@);
    assert(a3 =~= a2 + tpm_args(p@));

    push_lit(&mut args, "-device");
    push_lit(&mut args, "virtio-gpu-pci");
    push_lit(&mut args, "-spice");
    push_arg(
        &mut args,
        lit_number_lit("addr=127.0.0.1,port=", p.spice_port, ",disable-ticketing=on"),
    );
    push_lit(&mut args, "-device");
    push_lit(&mut args, "virtio-serial-pci");
    push_lit(&mut args, "-chardev");
    push_lit(&mut args, "spicevmc,id=vdagent,name=vdagent");
    push_lit(&mut args, "-device");
    push_lit(&mut args, "virtserialport,chardev=vdagent,name=com.redhat.spice.0");
    let ghost a4 = texts(args@);
    assert(a4 =~= a3 + display_args(p@));

    push_lit(&mut args, "-nic");
    push_arg(
        &mut args,
        lit_number_lit("user,model=virtio-net-pci,hostfwd=tcp:127.0.0.1:", p.rdp_port, "-:3389"),
    );
    let ghost a5 = texts(args@);
    assert(a5 =~= a4 + network_args(p@));

    push_lit(&mut args, "-drive");
    push_arg(&mut args, cat3("file=", p.disk.as_str(), ",if=virtio,format=qcow2,cache=none"));
    push_lit(&mut args, "-device");
    push_lit(&mut args, "usb-ehci");
    push_lit(&mut args, "-device");
    push_lit(&mut args, "usb-tablet");
    push_lit(&mut args, "-display");
    push_lit(&mut args, "none");
    push_lit(&mut args, "-boot");
    push_lit(&mut args, "order=dc");
    let ghost a6 = texts(args@);
    assert(a6 =~= a5 + disk_args(p@));

    if p.attach_iso && iso_present {
        push_lit(&mut args, "-drive");
        push_arg(&mut args, cat3("file=", p.iso.as_str(), ",media=cdrom,readonly=on"));
    }
    let ghost a7 = texts(args@);
    assert(a7 =~= a6 + iso_args(p@, iso_present));

    if let Some(d) = &p.driver_iso {
        if p.attach_iso && driver_iso_present {
            push_lit(&mut args, "-drive");
            push_arg(&mut args, cat3("file=", d.as_str(), ",media=cdrom,readonly=on"));
        }
    }
    assert(texts(args@) =~= a7 + driver_iso_args(p@, driver_iso_present));
    (program, args)
}

} // verus!
