//! Processes: pid files, liveness, signals, and looking up programs on the `PATH`.
use vstd::prelude::*;
use vstd::string::*;
use crate::paths::{join_path, path_join};
use crate::text::{
    chars_of, decimal, is_digit, is_ws, lemma_decimal_digits, lemma_parse_signed_decimal,
    lemma_trim_id, parse_i32, parse_i32_spec, push_char, push_signed_decimal, signed_decimal,
    split_char, split_chars, string_of, trim, trim_str,
};
use crate::signal::{kill_process, Delivery};

verus! {

/// The pid that a pid file holding `content` names: the trimmed text read as an `i32`.
pub open spec fn parse_pid_spec(content: Seq<char>) -> Option<i32> {
    parse_i32_spec(trim(content))
}

/// The pid named by the contents of a pid file.
pub fn parse_pid(content: &str) -> (r: Option<i32>)
    ensures
        r == parse_pid_spec(content@),
{
    let t = trim_str(content);
    parse_i32(t.as_str())
}

/// The text written into a pid file for `pid`: its decimal rendering and a line break.
pub open spec fn pid_file_text(pid: i32) -> Seq<char> {
    signed_decimal(pid as int).push('\n')
}

/// The text written into a pid file for `pid`.
pub fn pid_file_content(pid: i32) -> (r: String)
    ensures
        r@ == pid_file_text(pid),
{
    let mut s = String::new();
    push_signed_decimal(&mut s, pid as i64);
    push_char(&mut s, '\n');
    assert(s@ =~= pid_file_text(pid));
    s
}

/// Reading back a pid file gives the pid that was written into it.
pub proof fn lemma_pid_file_round_trip(pid: i32)
    ensures
        parse_pid_spec(pid_file_text(pid)) == Some(pid),
{
    let d = signed_decimal(pid as int);
    let m = if pid < 0 {
        (-pid) as nat
    } else {
        pid as nat
    };
    lemma_decimal_digits(m);
    let digits = decimal(m);
    assert(is_digit(digits[digits.len() - 1]));
    assert(d.last() == digits.last());
    assert(!is_ws(d[0]));
    let t = d.push('\n');
    assert(t.drop_last() =~= d);
    assert(t[0] == d[0]);
    lemma_trim_id(d);
    assert(trim(t) == d);
    lemma_parse_signed_decimal(pid as int, i32::MIN as int, i32::MAX as int);
}

/// The signals that stopping a VM sends.
#[derive(Debug, Clone, Copy, PartialEq, Eq)]
pub enum StopSignal {
    Terminate,
    Kill,
}

/// Whether a process with id `pid` exists (and may be signalled), as the kernel answers.
pub fn is_process_alive(pid: i32) -> bool {
    kill_process(pid, None).accepted()
}

/// Sends `sig` to the process `pid`: exactly that signal and no other (`SIGTERM` for
/// [`StopSignal::Terminate`], `SIGKILL` for [`StopSignal::Kill`]). The record returned
/// tells the signal sent and whether the kernel accepted it.
pub fn send_signal(pid: i32, sig: StopSignal) -> (r: Delivery)
    ensures
        r.signal_sent() == Some(sig),
{
    kill_process(pid, Some(sig))
}

/// The pid of a pid file that names a process, kept when that process exists.
pub fn pid_if_alive(pid: Option<i32>, alive: bool) -> (r: Option<i32>)
    ensures
        r == if alive {
            pid
        } else {
            None
        },
{
    if alive {
        pid
    } else {
        None
    }
}

/// The pid named by a pid file (its contents, or `None` when there is no readable file)
/// when that process exists; the kernel is asked only when the file names a pid.
pub fn live_pid(pid_file: Option<&str>) -> (r: Option<i32>)
    ensures
        r matches Some(p) ==> (pid_file matches Some(t) && parse_pid_spec(t@) == Some(p)),
        (pid_file is None || parse_pid_spec(pid_file.unwrap()@) is None) ==> r is None,
{
    match pid_file {
        None => None,
        Some(t) => match parse_pid(t) {
            None => None,
            Some(p) => pid_if_alive(Some(p), is_process_alive(p)),
        },
    }
}

/// Whether the command name that `ps -o comm=` printed is `expected`.
pub fn comm_matches(ps_output: &str, expected: &str) -> (r: bool)
    ensures
        r == (trim(ps_output@) == expected@),
{
    let t = trim_str(ps_output);
    let e = String::from_str(expected);
    t == e
}

/// The places where `which` looks for `name`: each directory of the `PATH` value
/// `path_var` (split at `:`, empty entries kept) joined with `name`.
pub open spec fn which_candidates_spec(name: Seq<char>, path_var: Seq<char>) -> Seq<Seq<char>> {
    split_char(path_var, ':').map_values(|dir: Seq<char>| path_join(dir, name))
}

/// The places where `which` looks for `name`, in order.
pub fn which_candidates(name: &str, path_var: &str) -> (r: Vec<String>)
    ensures
        r@.map_values(|s: String| s@) == which_candidates_spec(name@, path_var@),
{
    let v = chars_of(path_var);
    let dirs = split_chars(&v, ':');
    let mut r: Vec<String> = Vec::new();
    let mut i: usize = 0;
    while i < dirs.len()
        invariant
            v@ == path_var@,
            i <= dirs@.len() == split_char(v@, ':').len(),
            r@.len() == i,
            forall|k: int|
                0 <= k < dirs@.len() ==> (#[trigger] dirs@[k])@ == split_char(v@, ':')[k],
            r@.map_values(|s: String| s@) =~= which_candidates_spec(name@, path_var@).take(
                i as int,
            ),
        decreases dirs.len() - i,
    {
        let dir = string_of(&dirs[i]);
        let p = join_path(dir.as_str(), name);
        let ghost want = which_candidates_spec(name@, path_var@);
        assert(dir@ == split_char(path_var@, ':')[i as int]);
        assert(want.len() == dirs@.len());
        assert(want[i as int] == path_join(split_char(path_var@, ':')[i as int], name@));
        let ghost before = r@;
        r.push(p);
        assert(r@ == before.push(p));
        assert forall|k: int| 0 <= k < i implies r@.map_values(|s: String| s@)[k] == want[k] by {
            assert(r@[k] == before[k]);
            assert(before.map_values(|s: String| s@)[k] == want.take(i as int)[k]);
        }
        i = i + 1;
        assert(r@.map_values(|s: String| s@) =~= which_candidates_spec(name@, path_var@).take(
            i as int,
        ));
    }
    r
}

/// Whether file metadata describes an executable: a regular file with some execute bit set.
pub fn is_executable_mode(is_file: bool, mode: u32) -> (r: bool)
    ensures
        r == (is_file && (mode & 0o111) != 0),
{
    is_file && (mode & 0o111) != 0
}

} // verus!
