use qvm_ctl::commands::create::{
    check_create_request, create_summary, creation_time, new_vm_config, qemu_img_args,
};
use qvm_ctl::commands::launch::{
    already_running_message, boot_media_notes, check_stored_firmware, choose_viewer,
    launch_params, port_file_content, port_label, running_message, viewer_args, viewer_url,
    ViewerChoice,
};
use qvm_ctl::config::{EnvDefaults, VmConfig};
use qvm_ctl::display::Tone;
use qvm_ctl::error::QvmError;
use qvm_ctl::ovmf::{find_ovmf, ovmf_code_candidates, ovmf_vars_candidates, OvmfInfo};
use qvm_ctl::poll::{poll_step, PollStep, RDP_PROBES, TPM_SOCKET_LOOKS};
use qvm_ctl::port::{next_port_to_try, RDP_PORT_START, SPICE_PORT_START};
use qvm_ctl::tpm::{first_listed_pid, pgrep_pattern, swtpm_args, swtpm_save_args, tpm_state_dir};

#[test]
fn create_checks_in_order() {
    assert_eq!(
        check_create_request("-x", "i", false, None, false, true),
        Err(QvmError::InvalidVmName("-x".to_string()))
    );
    assert_eq!(
        check_create_request("badvm", "/nonexistent.iso", false, None, false, false),
        Err(QvmError::IsoNotFound("/nonexistent.iso".to_string()))
    );
    assert_eq!(
        check_create_request("vm", "i", true, Some("/v"), false, true),
        Err(QvmError::VirtioIsoNotFound("/v".to_string()))
    );
    assert_eq!(
        check_create_request("testvm", "i", true, None, false, true),
        Err(QvmError::VmAlreadyExists("testvm".to_string()))
    );
    assert_eq!(check_create_request("testvm", "i", true, Some("/v"), true, false).unwrap().as_str(), "testvm");
}

#[test]
fn new_vm_configuration() {
    let name = qvm_ctl::vm::VmName::try_from("testvm").unwrap();
    let ovmf = OvmfInfo { code: "/c".to_string(), vars: "/v".to_string(), secure_boot: true };
    let defaults = EnvDefaults::load(Some("/h"), None, None, None, None);
    let c = new_vm_config(&name, "/i.iso", None, "/h/vms/testvm", &ovmf, &defaults, "now");
    assert_eq!(c.disk, "/h/vms/testvm/disk.qcow2");
    assert_eq!(c.ovmf_vars, "/h/vms/testvm/ovmf-vars.fd");
    assert_eq!(c.ovmf_code, "/c");
    assert_eq!(c.ram_mb, 8192);
    assert_eq!(c.vcpus, 4);
    let back = VmConfig::load("/h/vms/testvm", Some(&c.conf_text())).unwrap();
    assert_eq!(format!("{:?}", back), format!("{:?}", c));
    assert_eq!(qemu_img_args("/d.qcow2", "40G"), vec!["create", "-f", "qcow2", "/d.qcow2", "40G", "-q"]);
    assert_eq!(creation_time(Some("2026-01-01T00:00:00+00:00\n")), "2026-01-01T00:00:00+00:00");
    assert_eq!(creation_time(None), "unknown");
    let notes = create_summary("w", &defaults, false, Some("/v.iso"));
    let texts: Vec<(Tone, String)> = notes.into_iter().map(|n| (n.tone, n.text)).collect();
    assert_eq!(
        texts,
        vec![
            (Tone::Success, "Created VM: w".to_string()),
            (Tone::Info, "RAM: 8192 MB".to_string()),
            (Tone::Info, "vCPUs: 4".to_string()),
            (Tone::Info, "Disk: 40G".to_string()),
            (Tone::Warn, "Secure Boot OVMF not detected".to_string()),
            (Tone::Info, "VirtIO drivers: /v.iso".to_string()),
        ]
    );
}

#[test]
fn firmware_choice() {
    let codes = ovmf_code_candidates();
    let vars = ovmf_vars_candidates();
    assert_eq!(codes.len(), 13);
    assert_eq!(vars.len(), 12);
    let mut code_present = vec![false; 13];
    let mut vars_present = vec![false; 12];
    assert_eq!(find_ovmf(&code_present, &vars_present).err(), Some(QvmError::OvmfCodeNotFound));
    code_present[10] = true;
    code_present[12] = true;
    assert_eq!(find_ovmf(&code_present, &vars_present).err(), Some(QvmError::OvmfVarsNotFound));
    vars_present[9] = true;
    let info = find_ovmf(&code_present, &vars_present).ok().unwrap();
    assert_eq!(info.code, "/usr/share/OVMF/OVMF_CODE.fd");
    assert_eq!(info.vars, "/usr/share/OVMF/OVMF_VARS.fd");
    assert!(!info.secure_boot);
    code_present[4] = true;
    let info = find_ovmf(&code_present, &vars_present).ok().unwrap();
    assert_eq!(info.code, "/usr/share/OVMF/OVMF_CODE_4M.secboot.fd");
    assert!(info.secure_boot);
}

#[test]
fn launch_decisions() {
    let config = VmConfig::load("/d", Some("OVMF_CODE=/c\nOVMF_VARS=/v\nISO=/i\nDISK=/disk\nVCPUS=2\nRAM_MB=512\nDRIVER_ISO=/drv\n")).unwrap();
    assert_eq!(check_stored_firmware(&config, false, false), Err(QvmError::OvmfCodeStoredNotFound("/c".to_string())));
    assert_eq!(check_stored_firmware(&config, true, false), Err(QvmError::OvmfVarsStoredNotFound("/v".to_string())));
    assert_eq!(check_stored_firmware(&config, true, true), Ok(()));
    let p = launch_params(&config, "/b", "w", 5901, 3390, true);
    assert_eq!(p.tpm_socket, "/b/w/swtpm.sock");
    assert!(!p.attach_iso);
    assert_eq!(p.vcpus, 2);
    assert_eq!(p.driver_iso, Some("/drv".to_string()));
    assert_eq!(port_file_content(5900), "5900\n");
    assert_eq!(port_label(Some("5900\n")), "5900");
    assert_eq!(port_label(None), "?");
    assert_eq!(already_running_message("5900", "?"), "Already running → spice://localhost:5900 | rdp://localhost:?");
    assert_eq!(running_message(123, 5900, 3389), "Running → PID 123 | spice://localhost:5900 | rdp://localhost:3389");
    let notes: Vec<(Tone, String)> = boot_media_notes(false, "/i", false, true).into_iter().map(|n| (n.tone, n.text)).collect();
    assert_eq!(notes, vec![
        (Tone::Warn, "ISO not found at /i".to_string()),
        (Tone::Info, "Booting from disk".to_string()),
        (Tone::Info, "VirtIO driver ISO attached".to_string()),
    ]);
    assert_eq!(boot_media_notes(false, "/i", true, false)[0].text, "Windows ISO attached");
    assert_eq!(boot_media_notes(true, "/i", true, false)[0].text, "Booting from disk");
    let no_iso_notes: Vec<String> = boot_media_notes(true, "/i", true, true).into_iter().map(|n| n.text).collect();
    assert_eq!(no_iso_notes, vec!["Booting from disk".to_string()]);
    assert_eq!(choose_viewer(true, true), ViewerChoice::RemoteViewer);
    assert_eq!(choose_viewer(false, true), ViewerChoice::VirtViewer);
    assert_eq!(choose_viewer(false, false), ViewerChoice::NoViewer);
    let url = viewer_url(5900);
    assert_eq!(url, "spice://localhost:5900");
    assert_eq!(viewer_args(ViewerChoice::VirtViewer, &url), vec!["--connect", "spice://localhost:5900"]);
    assert!(viewer_args(ViewerChoice::NoViewer, &url).is_empty());
}

#[test]
fn ports_and_tpm() {
    assert_eq!(SPICE_PORT_START, 5900);
    assert_eq!(RDP_PORT_START, 3389);
    assert_eq!(next_port_to_try(15900), 15901);
    assert_eq!(next_port_to_try(65535), 65535);
    assert_eq!(tpm_state_dir("/b", "w"), "/b/w/tpm");
    assert_eq!(
        swtpm_args("/b/w/tpm", "/b/w/swtpm.sock"),
        vec!["socket", "--tpm2", "--tpmstate", "dir=/b/w/tpm", "--ctrl", "type=unixio,path=/b/w/swtpm.sock", "--daemon"]
    );
    assert_eq!(pgrep_pattern("/s"), "swtpm.*path=/s");
    assert_eq!(first_listed_pid("123\n456\n"), Some(123));
    assert_eq!(first_listed_pid(""), None);
    assert_eq!(first_listed_pid("\n5\n"), None);
    assert_eq!(swtpm_save_args("/s"), vec!["--unix", "/s", "--save"]);
}

#[test]
fn bounded_waits() {
    let mut looks = 0;
    let mut steps = Vec::new();
    loop {
        let s = poll_step(looks, TPM_SOCKET_LOOKS, false);
        steps.push(s);
        match s {
            PollStep::WaitAndRetry => looks += 1,
            _ => break,
        }
    }
    assert_eq!(steps.len(), 20);
    assert_eq!(steps.last(), Some(&PollStep::WaitAndGiveUp));
    assert_eq!(poll_step(3, RDP_PROBES, true), PollStep::Ready);
    assert_eq!(poll_step(28, RDP_PROBES, false), PollStep::WaitAndRetry);
    assert_eq!(poll_step(29, RDP_PROBES, false), PollStep::WaitAndGiveUp);
    assert_eq!(poll_step(0, 0, false), PollStep::WaitAndGiveUp);
}
