//! Choosing the UEFI firmware (OVMF) among the places where distributions install it.
use vstd::prelude::*;
use vstd::string::*;
use crate::error::QvmError;
use crate::text::{contains_seq, contains_str};

verus! {

/// The firmware a new VM uses.
pub struct OvmfInfo {
    pub code: String,
    pub vars: String,
    pub secure_boot: bool,
}

/// Where OVMF_CODE may be installed, in order of preference.
pub open spec fn ovmf_code_paths() -> Seq<Seq<char>> {
    seq![
        "/usr/share/edk2/x64/OVMF_CODE_4M.secboot.fd"@,
        "/usr/share/edk2/x64/OVMF_CODE.secboot.fd"@,
        "/usr/share/edk2/x64/OVMF_CODE_4M.fd"@,
        "/usr/share/edk2/x64/OVMF_CODE.fd"@,
        "/usr/share/OVMF/OVMF_CODE_4M.secboot.fd"@,
        "/usr/share/OVMF/OVMF_CODE_4M.fd"@,
        "/usr/share/OVMF/OVMF_CODE_4M.ms.fd"@,
        "/usr/share/OVMF/x64/OVMF_CODE.secboot.4m.fd"@,
        "/usr/share/OVMF/x64/OVMF_CODE.4m.fd"@,
        "/usr/share/OVMF/OVMF_CODE.secboot.fd"@,
        "/usr/share/OVMF/OVMF_CODE.fd"@,
        "/usr/share/qemu/OVMF_CODE.secboot.fd"@,
        "/usr/share/qemu/OVMF_CODE.fd"@,
    ]
}

/// Where OVMF_VARS may be installed, in order of preference.
pub open spec fn ovmf_vars_paths() -> Seq<Seq<char>> {
    seq![
        "/usr/share/edk2/x64/OVMF_VARS_4M.ms.fd"@,
        "/usr/share/edk2/x64/OVMF_VARS.ms.fd"@,
        "/usr/share/edk2/x64/OVMF_VARS_4M.fd"@,
        "/usr/share/edk2/x64/OVMF_VARS.fd"@,
        "/usr/share/OVMF/OVMF_VARS_4M.ms.fd"@,
        "/usr/share/OVMF/OVMF_VARS_4M.fd"@,
        "/usr/share/OVMF/x64/OVMF_VARS.ms.4m.fd"@,
        "/usr/share/OVMF/x64/OVMF_VARS.4m.fd"@,
        "/usr/share/OVMF/OVMF_VARS.ms.fd"@,
        "/usr/share/OVMF/OVMF_VARS.fd"@,
        "/usr/share/qemu/OVMF_VARS.ms.fd"@,
        "/usr/share/qemu/OVMF_VARS.fd"@,
    ]
}

fn push_path(v: &mut Vec<String>, p: &str)
    ensures
        final(v)@.map_values(|s: String| s@) == old(v)@.map_values(|s: String| s@).push(p@),
{
    v.push(String::from_str(p));
    assert(final(v)@.map_values(|s: String| s@) =~= old(v)@.map_values(|s: String| s@).push(
        p@,
    ));
}

/// The places where OVMF_CODE may be installed, in order of preference.
pub fn ovmf_code_candidates() -> (r: Vec<String>)
    ensures
        r@.map_values(|s: String| s@) == ovmf_code_paths(),
{
    let mut v: Vec<String> = Vec::new();
    push_path(&mut v, "/usr/share/edk2/x64/OVMF_CODE_4M.secboot.fd");
    push_path(&mut v, "/usr/share/edk2/x64/OVMF_CODE.secboot.fd");
    push_path(&mut v, "/usr/share/edk2/x64/OVMF_CODE_4M.fd");
    push_path(&mut v, "/usr/share/edk2/x64/OVMF_CODE.fd");
    push_path(&mut v, "/usr/share/OVMF/OVMF_CODE_4M.secboot.fd");
    push_path(&mut v, "/usr/share/OVMF/OVMF_CODE_4M.fd");
    push_path(&mut v, "/usr/share/OVMF/OVMF_CODE_4M.ms.fd");
    push_path(&mut v, "/usr/share/OVMF/x64/OVMF_CODE.secboot.4m.fd");
    push_path(&mut v, "/usr/share/OVMF/x64/OVMF_CODE.4m.fd");
    push_path(&mut v, "/usr/share/OVMF/OVMF_CODE.secboot.fd");
    push_path(&mut v, "/usr/share/OVMF/OVMF_CODE.fd");
    push_path(&mut v, "/usr/share/qemu/OVMF_CODE.secboot.fd");
    push_path(&mut v, "/usr/share/qemu/OVMF_CODE.fd");
    assert(v@.map_values(|s: String| s@) =~= ovmf_code_paths());
    v
}

/// The places where OVMF_VARS may be installed, in order of preference.
pub fn ovmf_vars_candidates() -> (r: Vec<String>)
    ensures
        r@.map_values(|s: String| s@) == ovmf_vars_paths(),
{
    let mut v: Vec<String> = Vec::new();
    push_path(&mut v, "/usr/share/edk2/x64/OVMF_VARS_4M.ms.fd");
    push_path(&mut v, "/usr/share/edk2/x64/OVMF_VARS.ms.fd");
    push_path(&mut v, "/usr/share/edk2/x64/OVMF_VARS_4M.fd");
    push_path(&mut v, "/usr/share/edk2/x64/OVMF_VARS.fd");
    push_path(&mut v, "/usr/share/OVMF/OVMF_VARS_4M.ms.fd");
    push_path(&mut v, "/usr/share/OVMF/OVMF_VARS_4M.fd");
    push_path(&mut v, "/usr/share/OVMF/x64/OVMF_VARS.ms.4m.fd");
    push_path(&mut v, "/usr/share/OVMF/x64/OVMF_VARS.4m.fd");
    push_path(&mut v, "/usr/share/OVMF/OVMF_VARS.ms.fd");
    push_path(&mut v, "/usr/share/OVMF/OVMF_VARS.fd");
    push_path(&mut v, "/usr/share/qemu/OVMF_VARS.ms.fd");
    push_path(&mut v, "/usr/share/qemu/OVMF_VARS.fd");
    assert(v@.map_values(|s: String| s@) =~= ovmf_vars_paths());
    v
}

/// The position of the first `true` in `present`, if any.
pub open spec fn first_present(present: Seq<bool>) -> Option<int>
    decreases present.len(),
{
    if present.len() == 0 {
        None
    } else {
        match first_present(present.drop_last()) {
            Some(i) => Some(i),
            None => if present.last() {
                Some(present.len() - 1)
            } else {
                None
            },
        }
    }
}

proof fn lemma_first_present_prefix(s: Seq<bool>, k: int)
    requires
        0 <= k <= s.len(),
        first_present(s.take(k)) is Some,
    ensures
        first_present(s) == first_present(s.take(k)),
    decreases s.len() - k,
{
    if k < s.len() {
        assert(s.take(k + 1).drop_last() =~= s.take(k));
        lemma_first_present_prefix(s, k + 1);
    } else {
        assert(s.take(k) =~= s);
    }
}

fn first_true(present: &Vec<bool>) -> (r: Option<usize>)
    ensures
        r matches Some(i) ==> first_present(present@) == Some(i as int) && i < present.len(),
        r is None ==> first_present(present@) is None,
{
    let mut i: usize = 0;
    while i < present.len()
        invariant
            i <= present.len(),
            first_present(present@.take(i as int)) is None,
        decreases present.len() - i,
    {
        assert(present@.take(i + 1).drop_last() =~= present@.take(i as int));
        if present[i] {
            proof {
                lemma_first_present_prefix(present@, i + 1);
            }
            return Some(i);
        }
        i = i + 1;
    }
    assert(present@.take(present.len() as int) =~= present@);
    None
}

/// Chooses the firmware. `code_present[i]` tells whether the `i`-th place of
/// [`ovmf_code_candidates`] holds a file, and `vars_present[j]` likewise for
/// [`ovmf_vars_candidates`]. The first place that holds a file is chosen for each;
/// Secure Boot is available when the chosen code's path says `secboot`.
pub fn find_ovmf(code_present: &Vec<bool>, vars_present: &Vec<bool>) -> (r: Result<
    OvmfInfo,
    QvmError,
>)
    requires
        code_present.len() == ovmf_code_paths().len(),
        vars_present.len() == ovmf_vars_paths().len(),
    ensures
        first_present(code_present@) is None ==> r == Err::<OvmfInfo, QvmError>(
            QvmError::OvmfCodeNotFound,
        ),
        (first_present(code_present@) is Some && first_present(vars_present@) is None) ==> r
            == Err::<OvmfInfo, QvmError>(QvmError::OvmfVarsNotFound),
        r matches Ok(info) ==> ({
            &&& first_present(code_present@) matches Some(i)
            &&& first_present(vars_present@) matches Some(j)
            &&& info.code@ == ovmf_code_paths()[i]
            &&& info.vars@ == ovmf_vars_paths()[j]
            &&& info.secure_boot == contains_seq(ovmf_code_paths()[i], "secboot"@)
        }),
        (first_present(code_present@) is Some && first_present(vars_present@) is Some) ==> r is Ok,
{
    let codes = ovmf_code_candidates();
    let vars = ovmf_vars_candidates();
    let code_at = first_true(code_present);
    let vars_at = first_true(vars_present);
    match code_at {
        None => Err(QvmError::OvmfCodeNotFound),
        Some(i) => {
            match vars_at {
                None => Err(QvmError::OvmfVarsNotFound),
                Some(j) => {
                    assert(codes@.map_values(|s: String| s@)[i as int] == codes@[i as int]@);
                    assert(vars@.map_values(|s: String| s@)[j as int] == vars@[j as int]@);
                    let code = codes[i].clone();
                    let secure_boot = contains_str(code.as_str(), "secboot");
                    Ok(OvmfInfo { code, vars: vars[j].clone(), secure_boot })
                },
            }
        },
    }
}

/// Whether `secboot` is `plain` with `.secboot` put in at one place: the Secure Boot
/// build of the same firmware, installed beside it.
pub open spec fn is_secboot_build_of(secboot: Seq<char>, plain: Seq<char>) -> bool {
    exists|k: int|
        0 <= k <= plain.len() && secboot == plain.take(k) + ".secboot"@ + plain.skip(k)
}

proof fn lemma_not_secboot_build(p: Seq<char>, q: Seq<char>, m: int, s: int)
    requires
        p.len() == q.len() + 8,
        0 <= m < q.len(),
        0 <= s,
        m <= q.len() - 1 - s,
        p[m] != q[m],
        p[p.len() - 1 - s] != q[q.len() - 1 - s],
    ensures
        !is_secboot_build_of(p, q),
{
    if is_secboot_build_of(p, q) {
        reveal_strlit(".secboot");
        let k = choose|k: int|
            0 <= k <= q.len() && p == q.take(k) + ".secboot"@ + q.skip(k);
        if k > m {
            assert(p[m] == q.take(k)[m]);
        } else {
            let idx = p.len() - 1 - s;
            assert(p[idx] == q.skip(k)[idx - k - 8]);
        }
    }
}

/// The Secure Boot build of a firmware is always tried before the plain build beside it:
/// where one place of [`ovmf_code_candidates`] is the Secure Boot build of another, it
/// comes first.
pub proof fn lemma_secboot_tried_first()
    ensures
        forall|i: int, j: int|
            0 <= i < ovmf_code_paths().len() && 0 <= j < ovmf_code_paths().len()
                && #[trigger] is_secboot_build_of(ovmf_code_paths()[i], ovmf_code_paths()[j])
                ==> i < j,
{
    reveal_strlit(".secboot");
    reveal_strlit("/usr/share/edk2/x64/OVMF_CODE_4M.secboot.fd");
    reveal_strlit("/usr/share/edk2/x64/OVMF_CODE.secboot.fd");
    reveal_strlit("/usr/share/edk2/x64/OVMF_CODE_4M.fd");
    reveal_strlit("/usr/share/edk2/x64/OVMF_CODE.fd");
    reveal_strlit("/usr/share/OVMF/OVMF_CODE_4M.secboot.fd");
    reveal_strlit("/usr/share/OVMF/OVMF_CODE_4M.fd");
    reveal_strlit("/usr/share/OVMF/OVMF_CODE_4M.ms.fd");
    reveal_strlit("/usr/share/OVMF/x64/OVMF_CODE.secboot.4m.fd");
    reveal_strlit("/usr/share/OVMF/x64/OVMF_CODE.4m.fd");
    reveal_strlit("/usr/share/OVMF/OVMF_CODE.secboot.fd");
    reveal_strlit("/usr/share/OVMF/OVMF_CODE.fd");
    reveal_strlit("/usr/share/qemu/OVMF_CODE.secboot.fd");
    reveal_strlit("/usr/share/qemu/OVMF_CODE.fd");
    let c = ovmf_code_paths();
    assert forall|i: int, j: int|
        0 <= i < c.len() && 0 <= j < c.len() && #[trigger] is_secboot_build_of(c[i], c[j])
        implies i < j by {
        if i >= j {
            if i == 7 && j == 2 {
                lemma_not_secboot_build(c[7], c[2], 11, 3);
            } else if i == 11 && j == 10 {
                lemma_not_secboot_build(c[11], c[10], 11, 3);
            } else {
                let k = choose|k: int|
                    0 <= k <= c[j].len() && c[i] == c[j].take(k) + ".secboot"@ + c[j].skip(k);
                assert(c[i].len() == c[j].len() + 8);
            }
        }
    }
}

proof fn lemma_first_present_at_most(s: Seq<bool>, i: int)
    requires
        0 <= i < s.len(),
        s[i],
    ensures
        first_present(s) matches Some(k) && 0 <= k <= i && s[k],
    decreases s.len(),
{
    if i < s.len() - 1 {
        lemma_first_present_at_most(s.drop_last(), i);
    } else if first_present(s.drop_last()) is Some {
        lemma_first_present_range(s.drop_last());
    }
}

proof fn lemma_first_present_range(s: Seq<bool>)
    ensures
        first_present(s) matches Some(k) ==> 0 <= k < s.len() && s[k],
    decreases s.len(),
{
    if s.len() > 0 {
        lemma_first_present_range(s.drop_last());
    }
}

/// When the Secure Boot build of a firmware and the plain build beside it are both
/// installed, the plain build is never chosen: the choice falls on the Secure Boot build
/// or on a place tried before it.
pub proof fn lemma_secboot_preferred(code_present: Seq<bool>, i: int, j: int)
    requires
        code_present.len() == ovmf_code_paths().len(),
        0 <= i < code_present.len(),
        0 <= j < code_present.len(),
        code_present[i],
        code_present[j],
        is_secboot_build_of(ovmf_code_paths()[i], ovmf_code_paths()[j]),
    ensures
        first_present(code_present) matches Some(k) && k <= i && k != j,
{
    lemma_secboot_tried_first();
    lemma_first_present_at_most(code_present, i);
}

} // verus!
