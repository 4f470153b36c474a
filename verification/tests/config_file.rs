use qvm_ctl::config::{EnvDefaults, VmConfig};
use qvm_ctl::error::QvmError;

#[test]
fn test_load_and_save_config() {
    let dir = "/tmp/qvm-config-test";
    let config = VmConfig {
        name: "testvm".to_string(),
        iso: "/path/to/test.iso".to_string(),
        driver_iso: Some("/path/to/virtio.iso".to_string()),
        disk: qvm_ctl::paths::join_path(dir, "disk.qcow2"),
        ovmf_code: "/usr/share/OVMF/OVMF_CODE.fd".to_string(),
        ovmf_vars: qvm_ctl::paths::join_path(dir, "ovmf-vars.fd"),
        ram_mb: 4096,
        vcpus: 2,
        created: "2026-09-13T18:00:00Z".to_string(),
        rdp_user: Some("testuser".to_string()),
        rdp_pass: Some("testpass".to_string()),
    };

    let text = config.conf_text();
    let loaded = VmConfig::load(dir, Some(&text)).unwrap();

    assert_eq!(loaded.name, "testvm");
    assert_eq!(loaded.iso, "/path/to/test.iso");
    assert_eq!(loaded.driver_iso, Some("/path/to/virtio.iso".to_string()));
    assert_eq!(loaded.ram_mb, 4096);
    assert_eq!(loaded.vcpus, 2);
    assert_eq!(loaded.rdp_user.as_deref(), Some("testuser"));
    assert_eq!(loaded.rdp_pass.as_deref(), Some("testpass"));
}

#[test]
fn saved_text_has_the_documented_layout() {
    let config = VmConfig {
        name: "win11".to_string(),
        iso: "/i.iso".to_string(),
        driver_iso: None,
        disk: "/d".to_string(),
        ovmf_code: "/c".to_string(),
        ovmf_vars: "/v".to_string(),
        ram_mb: 8192,
        vcpus: 4,
        created: "now".to_string(),
        rdp_user: None,
        rdp_pass: Some("p".to_string()),
    };
    assert_eq!(
        config.conf_text(),
        "NAME=win11\nISO=/i.iso\nDRIVER_ISO=\nDISK=/d\nOVMF_CODE=/c\nOVMF_VARS=/v\nRAM_MB=8192\nVCPUS=4\nCREATED=now\nRDP_PASS=p\n"
    );
}

#[test]
fn round_trip_keeps_every_field() {
    let config = VmConfig {
        name: "a".to_string(),
        iso: "x=y".to_string(),
        driver_iso: None,
        disk: "".to_string(),
        ovmf_code: "c d".to_string(),
        ovmf_vars: "#v".to_string(),
        ram_mb: 4294967295,
        vcpus: 0,
        created: "t".to_string(),
        rdp_user: Some("u".to_string()),
        rdp_pass: None,
    };
    let loaded = VmConfig::load("/d", Some(&config.conf_text())).unwrap();
    assert_eq!(format!("{:?}", loaded), format!("{:?}", config));
}

#[test]
fn missing_file_is_reported_with_the_directory() {
    match VmConfig::load("/vms/x", None) {
        Err(QvmError::MissingVmConf(d)) => assert_eq!(d, "/vms/x"),
        other => panic!("unexpected {:?}", other),
    }
}

#[test]
fn parsing_ignores_comments_blanks_and_unknown_keys() {
    let text = "# comment\n\n  NAME = my vm  \r\nFOO=bar\nnot a setting\nRAM_MB=abc\nVCPUS=+8\nRAM_MB=1024\n";
    let c = VmConfig::load("/d", Some(text)).unwrap();
    assert_eq!(c.name, "my vm");
    assert_eq!(c.ram_mb, 1024);
    assert_eq!(c.vcpus, 8);
    assert_eq!(c.iso, "");
    assert_eq!(c.driver_iso, None);
}

#[test]
fn later_settings_win_and_bad_numbers_keep_earlier_ones() {
    let text = "NAME=a\nNAME=b\nRAM_MB=100\nRAM_MB=4294967296\nVCPUS=-1\nDRIVER_ISO=/x\nDRIVER_ISO=\nRDP_USER=u\nRDP_USER=\nRDP_PASS= p ";
    let c = VmConfig::load("/d", Some(text)).unwrap();
    assert_eq!(c.name, "b");
    assert_eq!(c.ram_mb, 100);
    assert_eq!(c.vcpus, 0);
    assert_eq!(c.driver_iso, Some("/x".to_string()));
    assert_eq!(c.rdp_user, None);
    assert_eq!(c.rdp_pass, Some("p".to_string()));
}

#[test]
fn environment_defaults() {
    let d = EnvDefaults::load(Some("/home/u"), None, None, None, None);
    assert_eq!(d.vm_dir, "/home/u/vms");
    assert_eq!(d.ram_mb, 8192);
    assert_eq!(d.vcpus, 4);
    assert_eq!(d.disk_size, "40G");
    let d = EnvDefaults::load(None, None, Some("x"), Some("16"), Some("80G"));
    assert_eq!(d.vm_dir, "./vms");
    assert_eq!(d.ram_mb, 8192);
    assert_eq!(d.vcpus, 16);
    assert_eq!(d.disk_size, "80G");
    let d = EnvDefaults::load(Some("/home/u/"), Some("/mnt/vms"), Some("16384"), None, None);
    assert_eq!(d.vm_dir, "/mnt/vms");
    assert_eq!(d.ram_mb, 16384);
}
