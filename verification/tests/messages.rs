use qvm_ctl::cli::{version_line, wants_custom_help};
use qvm_ctl::commands::app::{
    choose_rdp_client, freerdp_args, join_words, rdp_pass, rdp_port_from_file, rdp_user,
    remote_app_message,
};
use qvm_ctl::commands::disable::{confirm_prompt, confirms_deletion};
use qvm_ctl::commands::list::{list_closing_notes, sort_names, vm_list_line};
use qvm_ctl::display::{
    color_choice, is_color_enabled, is_error_color_enabled, message_line, separator, Tone,
};
use qvm_ctl::error::QvmError;

#[test]
fn message_lines() {
    assert_eq!(message_line(Tone::Info, "hi", false), "→ hi");
    assert_eq!(message_line(Tone::Success, "hi", false), "✓ hi");
    assert_eq!(message_line(Tone::Warn, "hi", false), "! hi");
    assert_eq!(message_line(Tone::Error, "hi", false), "✗ hi");
    assert_eq!(message_line(Tone::Info, "hi", true), "\x1b[0;36m→\x1b[0m hi");
    assert_eq!(message_line(Tone::Error, "hi", true), "\x1b[0;31m✗\x1b[0m hi");
    assert!(!separator(false).contains('\x1b'));
    assert_eq!(separator(true), "\x1b[1m────────────────────────────────────────\x1b[0m");
    for t in [Tone::Info, Tone::Success, Tone::Warn, Tone::Error] {
        assert!(!message_line(t, "No VMs found.", false).contains("\x1b["));
    }
    assert!(!is_color_enabled(true));
    assert!(color_choice(false, true));
    assert!(!color_choice(true, true));
    assert!(!color_choice(false, false));
    assert!(!is_error_color_enabled(true));
}

#[test]
fn list_lines() {
    assert_eq!(vm_list_line("testvm", false, "?", "?", false), "  testvm  stopped");
    assert_eq!(
        vm_list_line("w", true, "5900", "3389", false),
        "  w  running  spice://localhost:5900  rdp://localhost:3389"
    );
    assert_eq!(
        vm_list_line("w", false, "", "", true),
        "  \x1b[1mw\x1b[0m  \x1b[1;33mstopped\x1b[0m"
    );
}

#[test]
fn error_messages() {
    let s = |x: &str| x.to_string();
    let cases = vec![
        (QvmError::MissingDependency(s("qemu-img")), "Missing: qemu-img. Install it with your package manager."),
        (QvmError::InvalidVmName(s("-x")), "Invalid VM name '-x'."),
        (QvmError::IsoNotFound(s("/a.iso")), "Windows ISO not found: /a.iso"),
        (QvmError::VirtioIsoNotFound(s("/v.iso")), "VirtIO ISO not found: /v.iso"),
        (QvmError::VmAlreadyExists(s("w")), "VM 'w' already exists"),
        (QvmError::VmNotFound(s("w")), "VM 'w' not found. Run: qvm list"),
        (QvmError::VmNotFoundPlain(s("w")), "VM 'w' not found"),
        (QvmError::VmAlreadyLaunching(s("w")), "VM 'w' is already launching."),
        (QvmError::VmNotRunning(s("w")), "VM 'w' is not running"),
        (QvmError::FailedToStopVm(s("w")), "Failed to stop VM 'w'"),
        (QvmError::VmStoppedUnexpectedly(s("w")), "VM 'w' stopped unexpectedly."),
        (QvmError::OvmfCodeNotFound, "OVMF_CODE not found. Install: edk2-ovmf"),
        (QvmError::OvmfVarsNotFound, "OVMF_VARS not found. Install: edk2-ovmf"),
        (QvmError::OvmfCodeStoredNotFound(s("/c")), "OVMF_CODE not found at /c (stored in vm.conf)"),
        (QvmError::OvmfVarsStoredNotFound(s("/v")), "OVMF_VARS not found at /v (stored in vm.conf)"),
        (QvmError::MissingVmConf(s("/d")), "Missing vm.conf in /d"),
        (QvmError::FailedToStartTpm, "Failed to start swtpm"),
        (QvmError::QemuExitedImmediately(s("/l")), "QEMU exited immediately. Check: /l"),
        (QvmError::RdpPortNotFound(s("w")), "Could not determine RDP port for VM 'w'"),
        (QvmError::FreeRdpNotFound, "FreeRDP not found. Install 'freerdp' (wlfreerdp or xfreerdp)."),
        (QvmError::Aborted, "Aborted"),
        (QvmError::Custom(s("boom")), "boom"),
        (QvmError::Io(s("disk full")), "disk full"),
    ];
    for (e, m) in cases {
        assert_eq!(e.message(), m);
    }
}

#[test]
fn remote_app_choices() {
    assert_eq!(choose_rdp_client(true, true, true).unwrap(), "wlfreerdp");
    assert_eq!(choose_rdp_client(false, true, true).unwrap(), "xfreerdp");
    assert_eq!(choose_rdp_client(true, false, true).unwrap(), "xfreerdp");
    assert_eq!(choose_rdp_client(false, true, false).unwrap(), "wlfreerdp");
    assert_eq!(choose_rdp_client(true, false, false), Err(QvmError::FreeRdpNotFound));
    assert_eq!(rdp_user(Some("env"), Some("conf"), Some("me")), "env");
    assert_eq!(rdp_user(None, Some("conf"), Some("me")), "conf");
    assert_eq!(rdp_user(None, None, Some("me")), "me");
    assert_eq!(rdp_user(None, None, None), "user");
    assert_eq!(rdp_pass(None, Some("c")), Some("c".to_string()));
    assert_eq!(rdp_pass(Some("e"), Some("c")), Some("e".to_string()));
    assert_eq!(rdp_pass(None, None), None);
    assert_eq!(rdp_port_from_file("w", Some(" 3390\n")), Ok(3390));
    assert_eq!(rdp_port_from_file("w", Some("x")), Err(QvmError::RdpPortNotFound("w".to_string())));
    assert_eq!(rdp_port_from_file("w", None), Err(QvmError::RdpPortNotFound("w".to_string())));
}

#[test]
fn freerdp_command_line() {
    let args = vec!["C:\\notes.txt".to_string(), "-x".to_string()];
    assert_eq!(join_words(&args), "C:\\notes.txt -x");
    assert_eq!(join_words(&vec![]), "");
    assert_eq!(
        freerdp_args(3389, "me", "notepad.exe", Some("pw"), &args),
        vec![
            "/v:127.0.0.1:3389", "/u:me", "/app:notepad.exe", "/cert:ignore", "+clipboard",
            "+dynamic-resolution", "/p:pw", "/app-cmd:C:\\notes.txt -x",
        ]
    );
    assert_eq!(freerdp_args(1, "u", "a", None, &vec![]).len(), 6);
    assert_eq!(
        remote_app_message("cmd.exe", "win11", "xfreerdp", 3390),
        "Launching 'cmd.exe' on 'win11' via xfreerdp (127.0.0.1:3390)..."
    );
}

#[test]
fn deletion_confirmation() {
    assert_eq!(confirm_prompt("w"), "Type 'w' to confirm deletion: ");
    assert!(confirms_deletion("testvm\n", "testvm"));
    assert!(!confirms_deletion("test\n", "testvm"));
    assert!(!confirms_deletion("", "testvm"));
}

#[test]
fn command_line_helpers() {
    assert!(wants_custom_help(&vec!["qvm".to_string(), "help".to_string()]));
    assert!(!wants_custom_help(&vec!["qvm".to_string(), "--help".to_string()]));
    assert!(!wants_custom_help(&vec!["qvm".to_string()]));
    assert!(version_line().contains("1.2.0"));
}

#[test]
fn vm_names_are_listed_in_order() {
    let names: Vec<String> = ["win11", "arch", "Zeta", "ab", "a", "win10", "é"].iter().map(|s| s.to_string()).collect();
    let mut expected = names.clone();
    expected.sort();
    assert_eq!(sort_names(&names), expected);
    assert!(sort_names(&vec![]).is_empty());
}

#[test]
fn list_warns_only_when_no_vm_was_found() {
    let notes: Vec<(Tone, String)> = list_closing_notes(false).into_iter().map(|n| (n.tone, n.text)).collect();
    assert_eq!(notes, vec![(Tone::Warn, "No VMs found.".to_string())]);
    assert!(list_closing_notes(true).is_empty());
}
