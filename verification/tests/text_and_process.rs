use qvm_ctl::paths::join_path;
use qvm_ctl::process::{
    comm_matches, is_executable_mode, pid_if_alive, is_process_alive, live_pid, parse_pid, pid_file_content,
    which_candidates,
};
use qvm_ctl::text::{decimal_string, parse_i32, parse_u16, parse_u32, trim_str, contains_str};

#[test]
fn numbers_parse_like_str_parse() {
    assert_eq!(parse_u32("4096"), Some(4096));
    assert_eq!(parse_u32("+5"), Some(5));
    assert_eq!(parse_u32("007"), Some(7));
    assert_eq!(parse_u32("4294967295"), Some(4294967295));
    assert_eq!(parse_u32("4294967296"), None);
    assert_eq!(parse_u32(""), None);
    assert_eq!(parse_u32("+"), None);
    assert_eq!(parse_u32("-1"), None);
    assert_eq!(parse_u32(" 1"), None);
    assert_eq!(parse_u16("65535"), Some(65535));
    assert_eq!(parse_u16("65536"), None);
    assert_eq!(parse_i32("-2147483648"), Some(i32::MIN));
    assert_eq!(parse_i32("-2147483649"), None);
    assert_eq!(parse_i32("2147483647"), Some(i32::MAX));
    assert_eq!(parse_i32("-"), None);
    assert_eq!(parse_i32("+12"), Some(12));
    for s in ["0", "+0", "-0", "12a", "99999999999", "-7"] {
        assert_eq!(parse_i32(s), s.parse::<i32>().ok(), "{}", s);
        assert_eq!(parse_u32(s), s.parse::<u32>().ok(), "{}", s);
    }
}

#[test]
fn decimals_and_trimming() {
    assert_eq!(decimal_string(0), "0");
    assert_eq!(decimal_string(18446744073709551615), "18446744073709551615");
    assert_eq!(trim_str(" \t a b \r\n"), "a b");
    assert_eq!(trim_str("\u{3000}x\u{a0}"), "x");
    assert_eq!(trim_str("   "), "");
    assert!(contains_str("/usr/OVMF_CODE.secboot.fd", "secboot"));
    assert!(!contains_str("/usr/OVMF_CODE.fd", "secboot"));
    assert!(contains_str("abc", ""));
}

#[test]
fn pid_files_round_trip() {
    for pid in [0, 1, 4242, -3, i32::MAX, i32::MIN] {
        let text = pid_file_content(pid);
        assert_eq!(text, format!("{}\n", pid));
        assert_eq!(parse_pid(&text), Some(pid));
    }
    assert_eq!(parse_pid("  77 \n"), Some(77));
    assert_eq!(parse_pid("x"), None);
}

#[test]
fn liveness_comes_from_the_kernel() {
    let me = nix::unistd::getpid().as_raw();
    assert!(is_process_alive(me));
    assert_eq!(live_pid(Some(&format!("{}\n", me))), Some(me));
    assert_eq!(live_pid(Some("not a pid")), None);
    assert_eq!(live_pid(None), None);
    assert_eq!(pid_if_alive(Some(5), true), Some(5));
    assert_eq!(pid_if_alive(Some(5), false), None);
}

#[test]
fn comm_and_modes() {
    assert!(comm_matches("qemu-system-x86_64\n", "qemu-system-x86_64"));
    assert!(!comm_matches("qemu", "qemu-system-x86_64"));
    assert!(is_executable_mode(true, 0o755));
    assert!(is_executable_mode(true, 0o010));
    assert!(!is_executable_mode(true, 0o644));
    assert!(!is_executable_mode(false, 0o755));
}

#[test]
fn path_joining() {
    assert_eq!(join_path("/a", "b"), "/a/b");
    assert_eq!(join_path("/a/", "b"), "/a/b");
    assert_eq!(join_path("", "b"), "b");
    assert_eq!(join_path("/a", "/etc"), "/etc");
    assert_eq!(join_path("/a", ""), "/a/");
    assert_eq!(
        which_candidates("ls", "/usr/bin::/bin"),
        vec!["/usr/bin/ls", "ls", "/bin/ls"]
    );
    assert_eq!(which_candidates("ls", ""), vec!["ls"]);
}
