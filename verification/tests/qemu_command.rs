use qvm_ctl::qemu::{build_qemu_command, LaunchParams};
use std::path::Path;

fn params() -> LaunchParams {
    LaunchParams {
        vcpus: 4,
        ram_mb: 8192,
        ovmf_code: "/usr/share/OVMF/OVMF_CODE.fd".to_string(),
        ovmf_vars: "/tmp/ovmf-vars.fd".to_string(),
        tpm_socket: "/tmp/swtpm.sock".to_string(),
        spice_port: 5900,
        rdp_port: 3389,
        disk: "/tmp/disk.qcow2".to_string(),
        attach_iso: false,
        iso: "/tmp/fake.iso".to_string(),
        driver_iso: None,
    }
}

#[test]
fn test_pure_qemu_command_builder() {
    let params = params();
    let iso_present = Path::new(&params.iso).is_file();
    let (prog, args) = build_qemu_command(&params, iso_present, false);
    assert_eq!(prog, "qemu-system-x86_64");

    let args_str: Vec<String> = args;
    assert!(args_str.contains(&"-machine".to_string()));
    assert!(args_str.contains(&"q35,accel=kvm".to_string()));
    assert!(args_str.contains(&"-cpu".to_string()));
    assert!(args_str.contains(&"host".to_string()));
    assert!(args_str.contains(&"-smp".to_string()));
    assert!(args_str.contains(&"4".to_string()));
    assert!(args_str.contains(&"-m".to_string()));
    assert!(args_str.contains(&"8192".to_string()));
    assert!(args_str.contains(&"addr=127.0.0.1,port=5900,disable-ticketing=on".to_string()));
    assert!(args_str
        .contains(&"user,model=virtio-net-pci,hostfwd=tcp:127.0.0.1:3389-:3389".to_string()));
}

#[test]
fn qemu_command_in_full() {
    let (_, args) = build_qemu_command(&params(), false, false);
    let expected = vec![
        "-machine", "q35,accel=kvm", "-cpu", "host", "-smp", "4", "-m", "8192",
        "-drive", "if=pflash,format=raw,readonly=on,file=/usr/share/OVMF/OVMF_CODE.fd",
        "-drive", "if=pflash,format=raw,file=/tmp/ovmf-vars.fd",
        "-chardev", "socket,id=chrtpm,path=/tmp/swtpm.sock",
        "-tpmdev", "emulator,id=tpm0,chardev=chrtpm", "-device", "tpm-crb,tpmdev=tpm0",
        "-device", "virtio-gpu-pci", "-spice", "addr=127.0.0.1,port=5900,disable-ticketing=on",
        "-device", "virtio-serial-pci", "-chardev", "spicevmc,id=vdagent,name=vdagent",
        "-device", "virtserialport,chardev=vdagent,name=com.redhat.spice.0",
        "-nic", "user,model=virtio-net-pci,hostfwd=tcp:127.0.0.1:3389-:3389",
        "-drive", "file=/tmp/disk.qcow2,if=virtio,format=qcow2,cache=none",
        "-device", "usb-ehci", "-device", "usb-tablet", "-display", "none", "-boot", "order=dc",
    ];
    assert_eq!(args, expected);
}

#[test]
fn iso_drives_are_attached_only_when_wanted_and_present() {
    let mut p = params();
    p.attach_iso = true;
    p.driver_iso = Some("/tmp/virtio.iso".to_string());
    let (_, base) = build_qemu_command(&params(), true, true);
    assert_eq!(base.len(), 40);
    let (_, both) = build_qemu_command(&p, true, true);
    assert_eq!(both.len(), 44);
    assert_eq!(both[40..], ["-drive", "file=/tmp/fake.iso,media=cdrom,readonly=on", "-drive", "file=/tmp/virtio.iso,media=cdrom,readonly=on"]);
    let (_, no_iso_file) = build_qemu_command(&p, false, true);
    assert_eq!(no_iso_file.len(), 42);
    assert_eq!(no_iso_file[41], "file=/tmp/virtio.iso,media=cdrom,readonly=on");
    let (_, none) = build_qemu_command(&p, false, false);
    assert_eq!(none.len(), 40);
}

#[test]
fn no_iso_boot_mounts_no_cdrom() {
    let mut p = params();
    p.attach_iso = false;
    p.driver_iso = Some("/tmp/virtio.iso".to_string());
    let (_, args) = build_qemu_command(&p, true, true);
    assert_eq!(args.len(), 40);
    assert!(args.iter().all(|a| !a.contains("media=cdrom")));
    let (_, again) = build_qemu_command(&p, true, true);
    assert_eq!(args, again);
}

#[test]
fn large_numbers_are_rendered_in_full() {
    let mut p = params();
    p.vcpus = 4294967295;
    p.ram_mb = 0;
    p.spice_port = 65535;
    p.rdp_port = 10;
    let (_, args) = build_qemu_command(&p, false, false);
    assert_eq!(args[5], "4294967295");
    assert_eq!(args[7], "0");
    assert_eq!(args[21], "addr=127.0.0.1,port=65535,disable-ticketing=on");
    assert_eq!(args[29], "user,model=virtio-net-pci,hostfwd=tcp:127.0.0.1:10-:3389");
}
