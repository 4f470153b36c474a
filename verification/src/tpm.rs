//! The `swtpm` TPM 2.0 emulator that runs beside each VM: its command lines and the
//! reading of its process id.
use vstd::prelude::*;
use vstd::string::*;
use crate::paths::{join_path, path_join};
use crate::text::{cat2, chars_of, split_char, split_chars, string_of, texts};
use crate::process::{parse_pid, parse_pid_spec};
use crate::vm::vm_dir_spec;

verus! {

/// The directory where the emulator keeps the VM's TPM state.
pub open spec fn tpm_state_dir_spec(base: Seq<char>, name: Seq<char>) -> Seq<char> {
    path_join(vm_dir_spec(base, name), "tpm"@)
}

/// The directory of the VM's TPM state, `tpm` in the VM directory.
pub fn tpm_state_dir(base: &str, name: &str) -> (r: String)
    ensures
        r@ == tpm_state_dir_spec(base@, name@),
{
    let dir = crate::vm::vm_dir(base, name);
    join_path(dir.as_str(), "tpm")
}

/// The arguments that start `swtpm` as a daemon serving `socket`, with its state in `state_dir`.
pub open spec fn swtpm_args_spec(state_dir: Seq<char>, socket: Seq<char>) -> Seq<Seq<char>> {
    seq![
        "socket"@,
        "--tpm2"@,
        "--tpmstate"@,
        "dir="@ + state_dir,
        "--ctrl"@,
        "type=unixio,path="@ + socket,
        "--daemon"@,
    ]
}

/// The arguments that start `swtpm` for a VM.
pub fn swtpm_args(state_dir: &str, socket: &str) -> (r: Vec<String>)
    ensures
        texts(r@) == swtpm_args_spec(state_dir@, socket@),
{
    let mut r: Vec<String> = Vec::new();
    r.push(String::from_str("socket"));
    r.push(String::from_str("--tpm2"));
    r.push(String::from_str("--tpmstate"));
    r.push(cat2("dir=", state_dir));
    r.push(String::from_str("--ctrl"));
    r.push(cat2("type=unixio,path=", socket));
    r.push(String::from_str("--daemon"));
    assert(texts(r@) =~= swtpm_args_spec(state_dir@, socket@));
    r
}

/// The `pgrep -f` pattern that finds the emulator serving `socket`.
pub fn pgrep_pattern(socket: &str) -> (r: String)
    ensures
        r@ == "swtpm.*path="@ + socket@,
{
    cat2("swtpm.*path=", socket)
}

/// The pid that `pgrep` printed first: its first line, trimmed, read as an `i32`
/// (nothing when it printed nothing).
pub open spec fn first_listed_pid_spec(out: Seq<char>) -> Option<i32> {
    if out.len() == 0 {
        None
    } else {
        parse_pid_spec(split_char(out, '\n')[0])
    }
}

/// The pid that `pgrep` printed first.
pub fn first_listed_pid(out: &str) -> (r: Option<i32>)
    ensures
        r == first_listed_pid_spec(out@),
{
    let v = chars_of(out);
    if v.len() == 0 {
        return None;
    }
    let lines = split_chars(&v, '\n');
    assert(lines@.len() >= 1) by {
        crate::text::lemma_split_char_nonempty(v@, '\n');
    }
    let first = string_of(&lines[0]);
    parse_pid(first.as_str())
}

/// The arguments of `swtpm_ioctl` that make the emulator serving `socket` save its state.
pub fn swtpm_save_args(socket: &str) -> (r: Vec<String>)
    ensures
        texts(r@) == seq!["--unix"@, socket@, "--save"@],
{
    let mut r: Vec<String> = Vec::new();
    r.push(String::from_str("--unix"));
    r.push(String::from_str(socket));
    r.push(String::from_str("--save"));
    assert(texts(r@) =~= seq!["--unix"@, socket@, "--save"@]);
    r
}

} // verus!
