//! VM names, the files that make up a VM directory, and whether a VM is running.
use vstd::prelude::*;
use vstd::string::*;
use crate::error::QvmError;
use crate::paths::{join_path, path_join};
use crate::process::comm_matches;
use crate::text::trim;

verus! {

/// An ASCII letter or digit.
pub open spec fn is_ascii_alnum(c: char) -> bool {
    ('a' <= c && c <= 'z') || ('A' <= c && c <= 'Z') || ('0' <= c && c <= '9')
}

/// A valid VM name: an ASCII letter or digit, followed by ASCII letters, digits, `_` and `-`.
pub open spec fn is_valid_vm_name(s: Seq<char>) -> bool {
    &&& s.len() > 0
    &&& is_ascii_alnum(s[0])
    &&& forall|i: int|
        1 <= i < s.len() ==> (is_ascii_alnum(#[trigger] s[i]) || s[i] == '_' || s[i] == '-')
}

/// The name of a VM, checked to be valid.
#[derive(Debug, PartialEq, Eq)]
pub struct VmName(String);

impl View for VmName {
    type V = Seq<char>;

    closed spec fn view(&self) -> Seq<char> {
        self.0@
    }
}

impl Clone for VmName {
    fn clone(&self) -> (r: VmName)
        ensures
            r@ == self@,
    {
        proof {
            use_type_invariant(self);
        }
        VmName(self.0.clone())
    }
}

impl VmName {
    #[verifier::type_invariant]
    closed spec fn well_formed(self) -> bool {
        is_valid_vm_name(self.0@)
    }

    /// The name as text.
    pub fn as_str(&self) -> (r: &str)
        ensures
            r@ == self@,
            is_valid_vm_name(r@),
    {
        proof {
            use_type_invariant(self);
        }
        self.0.as_str()
    }

    /// Checks `value` as a VM name.
    pub fn try_from(value: &str) -> (r: Result<VmName, QvmError>)
        ensures
            r is Ok <==> is_valid_vm_name(value@),
            r matches Ok(n) ==> n@ == value@,
            r matches Err(e) ==> (e matches QvmError::InvalidVmName(s) && s@ == value@),
    {
        let v = crate::text::chars_of(value);
        if v.len() == 0 || !ascii_alnum(v[0]) {
            return Err(QvmError::InvalidVmName(String::from_str(value)));
        }
        let mut i: usize = 1;
        while i < v.len()
            invariant
                1 <= i <= v.len(),
                v@ == value@,
                is_ascii_alnum(v@[0]),
                forall|k: int|
                    1 <= k < i ==> (is_ascii_alnum(#[trigger] v@[k]) || v@[k] == '_' || v@[k]
                        == '-'),
            decreases v.len() - i,
        {
            let c = v[i];
            if !ascii_alnum(c) && c != '_' && c != '-' {
                return Err(QvmError::InvalidVmName(String::from_str(value)));
            }
            i = i + 1;
        }
        Ok(VmName(String::from_str(value)))
    }
}

fn ascii_alnum(c: char) -> (r: bool)
    ensures
        r == is_ascii_alnum(c),
{
    ('a' <= c && c <= 'z') || ('A' <= c && c <= 'Z') || ('0' <= c && c <= '9')
}

// ---------------------------------------------------------------------------
// The files of a VM
// ---------------------------------------------------------------------------

/// The directory of the VM `name` under `base`.
pub open spec fn vm_dir_spec(base: Seq<char>, name: Seq<char>) -> Seq<char> {
    path_join(base, name)
}

/// The QEMU pid file of the VM `name` under `base`.
pub open spec fn vm_pid_file_spec(base: Seq<char>, name: Seq<char>) -> Seq<char> {
    path_join(vm_dir_spec(base, name), name + ".pid"@)
}

/// The QEMU log of the VM.
pub open spec fn vm_log_file_spec(base: Seq<char>, name: Seq<char>) -> Seq<char> {
    path_join(vm_dir_spec(base, name), "qemu.log"@)
}

/// The file that records the VM's SPICE port.
pub open spec fn vm_port_file_spec(base: Seq<char>, name: Seq<char>) -> Seq<char> {
    path_join(vm_dir_spec(base, name), "spice.port"@)
}

/// The file that records the VM's forwarded RDP port.
pub open spec fn vm_rdp_port_file_spec(base: Seq<char>, name: Seq<char>) -> Seq<char> {
    path_join(vm_dir_spec(base, name), "rdp.port"@)
}

/// The pid file of the VM's TPM emulator.
pub open spec fn vm_tpm_pid_file_spec(base: Seq<char>, name: Seq<char>) -> Seq<char> {
    path_join(vm_dir_spec(base, name), "swtpm.pid"@)
}

/// The control socket of the VM's TPM emulator.
pub open spec fn vm_tpm_socket_spec(base: Seq<char>, name: Seq<char>) -> Seq<char> {
    path_join(vm_dir_spec(base, name), "swtpm.sock"@)
}

/// The directory of the VM `name` under `base`.
pub fn vm_dir(base: &str, name: &str) -> (r: String)
    ensures
        r@ == vm_dir_spec(base@, name@),
{
    join_path(base, name)
}

/// The QEMU pid file, `<name>.pid` in the VM directory.
pub fn vm_pid_file(base: &str, name: &str) -> (r: String)
    ensures
        r@ == vm_pid_file_spec(base@, name@),
{
    let dir = vm_dir(base, name);
    let mut file = String::from_str(name);
    file.append(".pid");
    join_path(dir.as_str(), file.as_str())
}

/// The QEMU log, `qemu.log` in the VM directory.
pub fn vm_log_file(base: &str, name: &str) -> (r: String)
    ensures
        r@ == vm_log_file_spec(base@, name@),
{
    let dir = vm_dir(base, name);
    join_path(dir.as_str(), "qemu.log")
}

/// The SPICE port file, `spice.port` in the VM directory.
pub fn vm_port_file(base: &str, name: &str) -> (r: String)
    ensures
        r@ == vm_port_file_spec(base@, name@),
{
    let dir = vm_dir(base, name);
    join_path(dir.as_str(), "spice.port")
}

/// The RDP port file, `rdp.port` in the VM directory.
pub fn vm_rdp_port_file(base: &str, name: &str) -> (r: String)
    ensures
        r@ == vm_rdp_port_file_spec(base@, name@),
{
    let dir = vm_dir(base, name);
    join_path(dir.as_str(), "rdp.port")
}

/// The TPM emulator's pid file, `swtpm.pid` in the VM directory.
pub fn vm_tpm_pid_file(base: &str, name: &str) -> (r: String)
    ensures
        r@ == vm_tpm_pid_file_spec(base@, name@),
{
    let dir = vm_dir(base, name);
    join_path(dir.as_str(), "swtpm.pid")
}

/// The TPM emulator's socket, `swtpm.sock` in the VM directory.
pub fn vm_tpm_socket(base: &str, name: &str) -> (r: String)
    ensures
        r@ == vm_tpm_socket_spec(base@, name@),
{
    let dir = vm_dir(base, name);
    join_path(dir.as_str(), "swtpm.sock")
}

/// Whether a relative path names something: `part` does not start with `/`.
pub open spec fn is_relative(part: Seq<char>) -> bool {
    !(part.len() > 0 && part[0] == '/')
}

proof fn lemma_join_relative(dir: Seq<char>, part: Seq<char>)
    requires
        is_relative(part),
    ensures
        dir.is_prefix_of(path_join(dir, part)),
        path_join(dir, part).len() >= dir.len() + part.len(),
        path_join(dir, part) == path_join(dir, Seq::<char>::empty()) + part,
{
    let e = Seq::<char>::empty();
    if dir.len() > 0 && dir.last() != '/' {
        assert(path_join(dir, part) =~= dir.push('/') + part);
        assert(path_join(dir, e) =~= dir.push('/'));
        assert(dir.is_prefix_of(dir.push('/') + part)) by {
            assert((dir.push('/') + part).take(dir.len() as int) =~= dir);
        }
    } else {
        assert(path_join(dir, e) =~= dir);
        assert(dir.is_prefix_of(dir + part)) by {
            assert((dir + part).take(dir.len() as int) =~= dir);
        }
    }
}

/// Every file of a VM whose name is a relative path lies inside the VM's directory.
pub proof fn lemma_vm_files_inside_dir(base: Seq<char>, name: Seq<char>)
    requires
        is_relative(name),
    ensures
        vm_dir_spec(base, name).is_prefix_of(vm_pid_file_spec(base, name)),
        vm_dir_spec(base, name).is_prefix_of(vm_log_file_spec(base, name)),
        vm_dir_spec(base, name).is_prefix_of(vm_port_file_spec(base, name)),
        vm_dir_spec(base, name).is_prefix_of(vm_rdp_port_file_spec(base, name)),
        vm_dir_spec(base, name).is_prefix_of(vm_tpm_pid_file_spec(base, name)),
        vm_dir_spec(base, name).is_prefix_of(vm_tpm_socket_spec(base, name)),
{
    let d = vm_dir_spec(base, name);
    reveal_strlit(".pid");
    if name.len() > 0 {
        assert((name + ".pid"@)[0] == name[0]);
    }
    reveal_strlit("qemu.log");
    reveal_strlit("spice.port");
    reveal_strlit("rdp.port");
    reveal_strlit("swtpm.pid");
    reveal_strlit("swtpm.sock");
    if name.len() == 0 {
        assert(name + ".pid"@ =~= ".pid"@);
    }
    lemma_join_relative(d, name + ".pid"@);
    lemma_join_relative(d, "qemu.log"@);
    lemma_join_relative(d, "spice.port"@);
    lemma_join_relative(d, "rdp.port"@);
    lemma_join_relative(d, "swtpm.pid"@);
    lemma_join_relative(d, "swtpm.sock"@);
}

/// A valid VM name is a relative path, so every file of a VM with a valid name lies
/// inside the VM's directory.
pub proof fn lemma_valid_name_files_inside_dir(base: Seq<char>, name: Seq<char>)
    requires
        is_valid_vm_name(name),
    ensures
        is_relative(name),
        vm_dir_spec(base, name).is_prefix_of(vm_pid_file_spec(base, name)),
        vm_dir_spec(base, name).is_prefix_of(vm_log_file_spec(base, name)),
        vm_dir_spec(base, name).is_prefix_of(vm_port_file_spec(base, name)),
        vm_dir_spec(base, name).is_prefix_of(vm_rdp_port_file_spec(base, name)),
        vm_dir_spec(base, name).is_prefix_of(vm_tpm_pid_file_spec(base, name)),
        vm_dir_spec(base, name).is_prefix_of(vm_tpm_socket_spec(base, name)),
{
    lemma_vm_files_inside_dir(base, name);
}

/// The QEMU pid file and the TPM pid file of a VM with a relative name are the same
/// file exactly when the VM is named `swtpm`.
pub proof fn lemma_pid_files_collide(base: Seq<char>, name: Seq<char>)
    requires
        is_relative(name),
    ensures
        (vm_pid_file_spec(base, name) == vm_tpm_pid_file_spec(base, name)) <==> name == "swtpm"@,
{
    let d = vm_dir_spec(base, name);
    reveal_strlit(".pid");
    reveal_strlit("swtpm.pid");
    reveal_strlit("swtpm");
    let f = name + ".pid"@;
    if name.len() == 0 {
        assert(f =~= ".pid"@);
    } else {
        assert(f[0] == name[0]);
    }
    lemma_join_relative(d, f);
    lemma_join_relative(d, "swtpm.pid"@);
    let pre = path_join(d, Seq::<char>::empty());
    if vm_pid_file_spec(base, name) == vm_tpm_pid_file_spec(base, name) {
        assert(pre + f == pre + "swtpm.pid"@);
        assert(f =~= "swtpm.pid"@) by {
            assert forall|i: int| 0 <= i < f.len() implies f[i] == "swtpm.pid"@[i] by {
                assert((pre + f)[pre.len() + i] == f[i]);
                assert((pre + "swtpm.pid"@)[pre.len() + i] == "swtpm.pid"@[i]);
            }
        }
        assert(name =~= "swtpm"@) by {
            assert forall|i: int| 0 <= i < name.len() implies name[i] == "swtpm"@[i] by {
                assert(f[i] == name[i]);
            }
        }
    }
    if name == "swtpm"@ {
        assert(f =~= "swtpm.pid"@);
    }
}

// ---------------------------------------------------------------------------
// Whether a VM is running
// ---------------------------------------------------------------------------

/// Whether a VM is running, given the live pid named by its QEMU pid file (see
/// [`crate::process::live_pid`]) and what `ps -o comm=` printed for that pid when it
/// succeeded: the process must exist and be `qemu-system-x86_64`.
pub fn vm_is_running(live_pid: Option<i32>, ps_output: Option<&str>) -> (r: bool)
    ensures
        r == (live_pid is Some && (ps_output matches Some(o) && trim(o@)
            == "qemu-system-x86_64"@)),
{
    match live_pid {
        None => false,
        Some(_) => match ps_output {
            None => false,
            Some(o) => comm_matches(o, "qemu-system-x86_64"),
        },
    }
}

/// Whether a VM's TPM emulator is running, given the live pid named by its TPM pid file.
pub fn tpm_is_running(live_pid: Option<i32>) -> (r: bool)
    ensures
        r == live_pid is Some,
{
    live_pid.is_some()
}

/// The files to remove as stale: the QEMU pid and port files when the pid file exists
/// but the VM is not running, and the TPM pid file when it exists but the TPM is not
/// running.
pub open spec fn stale_files_spec(
    base: Seq<char>,
    name: Seq<char>,
    pid_file_exists: bool,
    vm_running: bool,
    tpm_pid_file_exists: bool,
    tpm_running: bool,
) -> Seq<Seq<char>> {
    let vm_part = if pid_file_exists && !vm_running {
        seq![
            vm_pid_file_spec(base, name),
            vm_port_file_spec(base, name),
            vm_rdp_port_file_spec(base, name),
        ]
    } else {
        Seq::empty()
    };
    if tpm_pid_file_exists && !tpm_running {
        vm_part.push(vm_tpm_pid_file_spec(base, name))
    } else {
        vm_part
    }
}

/// The files to remove as stale, in the order of removal.
pub fn stale_files(
    base: &str,
    name: &str,
    pid_file_exists: bool,
    vm_running: bool,
    tpm_pid_file_exists: bool,
    tpm_running: bool,
) -> (r: Vec<String>)
    ensures
        r@.map_values(|s: String| s@) == stale_files_spec(
            base@,
            name@,
            pid_file_exists,
            vm_running,
            tpm_pid_file_exists,
            tpm_running,
        ),
{
    let mut r: Vec<String> = Vec::new();
    if pid_file_exists && !vm_running {
        r.push(vm_pid_file(base, name));
        r.push(vm_port_file(base, name));
        r.push(vm_rdp_port_file(base, name));
    }
    if tpm_pid_file_exists && !tpm_running {
        r.push(vm_tpm_pid_file(base, name));
    }
    assert(r@.map_values(|s: String| s@) =~= stale_files_spec(
        base@,
        name@,
        pid_file_exists,
        vm_running,
        tpm_pid_file_exists,
        tpm_running,
    ));
    r
}

proof fn lemma_join_ends_like_part(d: Seq<char>, part: Seq<char>)
    requires
        part.len() > 0,
    ensures
        path_join(d, part).len() >= part.len(),
        path_join(d, part).last() == part.last(),
        part[0] != '/' ==> path_join(d, part).len() == path_join(d, "x"@).len() - 1 + part.len(),
{
    reveal_strlit("x");
}

/// What cleanup removes: the VM's SPICE and RDP port files exactly when its pid file
/// exists and QEMU is not running, whatever the TPM is doing; its pid file then too (and
/// otherwise only where it is also the TPM's pid file, which is so for a VM named
/// `swtpm`); the TPM's pid file exactly when it exists and the TPM is not running (or
/// when it is the VM's pid file and that one is stale); and nothing else.
pub proof fn lemma_stale_files_exact(
    base: Seq<char>,
    name: Seq<char>,
    pid_file_exists: bool,
    vm_running: bool,
    tpm_pid_file_exists: bool,
    tpm_running: bool,
)
    ensures
        ({
            let r = stale_files_spec(
                base,
                name,
                pid_file_exists,
                vm_running,
                tpm_pid_file_exists,
                tpm_running,
            );
            let pid = vm_pid_file_spec(base, name);
            let spice = vm_port_file_spec(base, name);
            let rdp = vm_rdp_port_file_spec(base, name);
            let tpm = vm_tpm_pid_file_spec(base, name);
            let vm_stale = pid_file_exists && !vm_running;
            let tpm_stale = tpm_pid_file_exists && !tpm_running;
            &&& r.contains(spice) <==> vm_stale
            &&& r.contains(rdp) <==> vm_stale
            &&& r.contains(pid) <==> (vm_stale || (pid == tpm && tpm_stale))
            &&& r.contains(tpm) <==> (tpm_stale || (pid == tpm && vm_stale))
            &&& forall|k: int|
                0 <= k < r.len() ==> (#[trigger] r[k] == pid || r[k] == spice || r[k] == rdp
                    || r[k] == tpm)
        }),
{
    reveal_strlit("spice.port");
    reveal_strlit("rdp.port");
    reveal_strlit("swtpm.pid");
    reveal_strlit(".pid");
    let d = vm_dir_spec(base, name);
    let pid = vm_pid_file_spec(base, name);
    let spice = vm_port_file_spec(base, name);
    let rdp = vm_rdp_port_file_spec(base, name);
    let tpm = vm_tpm_pid_file_spec(base, name);
    let pid_part = name + ".pid"@;
    assert(pid_part.last() == 'd');
    assert("spice.port"@.last() == 't');
    assert("rdp.port"@.last() == 't');
    assert("swtpm.pid"@.last() == 'd');
    lemma_join_ends_like_part(d, pid_part);
    lemma_join_ends_like_part(d, "spice.port"@);
    lemma_join_ends_like_part(d, "rdp.port"@);
    lemma_join_ends_like_part(d, "swtpm.pid"@);
    assert(spice != rdp);
    assert(spice != pid && rdp != pid && spice != tpm && rdp != tpm);
    let r = stale_files_spec(base, name, pid_file_exists, vm_running, tpm_pid_file_exists, tpm_running);
    let vm_stale = pid_file_exists && !vm_running;
    let tpm_stale = tpm_pid_file_exists && !tpm_running;
    if vm_stale {
        if tpm_stale {
            assert(r =~= seq![pid, spice, rdp, tpm]);
            assert(r[3] == tpm);
        } else {
            assert(r =~= seq![pid, spice, rdp]);
        }
        assert(r[0] == pid && r[1] == spice && r[2] == rdp);
    } else if tpm_stale {
        assert(r =~= seq![tpm]);
        assert(r[0] == tpm);
    } else {
        assert(r =~= Seq::<Seq<char>>::empty());
    }
}

} // verus!
