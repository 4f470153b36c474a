use qvm_ctl::error::QvmError;
use qvm_ctl::vm::{
    tpm_is_running, vm_dir, vm_is_running, vm_log_file, vm_pid_file, vm_port_file,
    vm_rdp_port_file, vm_tpm_pid_file, vm_tpm_socket, stale_files, VmName,
};

#[test]
fn test_vm_name_validation() {
    assert!(VmName::try_from("win11").is_ok());
    assert!(VmName::try_from("vm-1_test").is_ok());
    assert!(VmName::try_from("-invalid").is_err());
    assert!(VmName::try_from("").is_err());
    assert!(VmName::try_from("bad name").is_err());
    assert!(VmName::try_from(".hidden").is_err());
}

#[test]
fn vm_name_rejections_carry_the_name() {
    match VmName::try_from("bad name") {
        Err(QvmError::InvalidVmName(n)) => assert_eq!(n, "bad name"),
        other => panic!("unexpected {:?}", other),
    }
    assert!(VmName::try_from("_lead").is_err());
    assert!(VmName::try_from("é").is_err());
    assert!(VmName::try_from("a").is_ok());
    assert!(VmName::try_from("Z9").is_ok());
    assert_eq!(VmName::try_from("vm-1_test").unwrap().as_str(), "vm-1_test");
}

#[test]
fn vm_files_live_in_the_vm_directory() {
    assert_eq!(vm_dir("/home/u/vms", "win11"), "/home/u/vms/win11");
    assert_eq!(vm_dir("/home/u/vms/", "win11"), "/home/u/vms/win11");
    assert_eq!(vm_pid_file("/home/u/vms", "win11"), "/home/u/vms/win11/win11.pid");
    assert_eq!(vm_log_file("/b", "x"), "/b/x/qemu.log");
    assert_eq!(vm_port_file("/b", "x"), "/b/x/spice.port");
    assert_eq!(vm_rdp_port_file("/b", "x"), "/b/x/rdp.port");
    assert_eq!(vm_tpm_pid_file("/b", "x"), "/b/x/swtpm.pid");
    assert_eq!(vm_tpm_socket("/b", "x"), "/b/x/swtpm.sock");
    for f in [
        vm_pid_file("vms", "a"),
        vm_log_file("vms", "a"),
        vm_port_file("vms", "a"),
        vm_rdp_port_file("vms", "a"),
        vm_tpm_pid_file("vms", "a"),
        vm_tpm_socket("vms", "a"),
    ] {
        assert!(f.starts_with(&vm_dir("vms", "a")));
    }
}

#[test]
fn a_vm_named_swtpm_shares_its_pid_file_with_the_tpm() {
    assert_eq!(vm_pid_file("/b", "swtpm"), vm_tpm_pid_file("/b", "swtpm"));
    assert_ne!(vm_pid_file("/b", "swtpm2"), vm_tpm_pid_file("/b", "swtpm2"));
}

#[test]
fn running_needs_a_live_qemu_process() {
    assert!(vm_is_running(Some(42), Some("qemu-system-x86_64\n")));
    assert!(!vm_is_running(Some(42), Some("bash\n")));
    assert!(!vm_is_running(Some(42), None));
    assert!(!vm_is_running(None, Some("qemu-system-x86_64")));
    assert!(tpm_is_running(Some(1)));
    assert!(!tpm_is_running(None));
}

#[test]
fn stale_files_are_the_ones_of_dead_processes() {
    assert_eq!(
        stale_files("/b", "x", true, false, true, false),
        vec!["/b/x/x.pid", "/b/x/spice.port", "/b/x/rdp.port", "/b/x/swtpm.pid"]
    );
    assert!(stale_files("/b", "x", true, true, true, true).is_empty());
    assert!(stale_files("/b", "x", false, false, false, false).is_empty());
    assert_eq!(stale_files("/b", "x", false, false, true, false), vec!["/b/x/swtpm.pid"]);
}
