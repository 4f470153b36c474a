//! Listing VMs: the line shown for each.
use vstd::prelude::*;
use vstd::string::*;
use crate::display::{
    lemma_strip_code, lemma_strip_plain, notes_view, push_note, strip_escapes, Note, Tone,
};
use crate::text::{chars_of, texts};

verus! {

/// Whether `a` comes no later than `b` in the order of their characters, compared one
/// by one (a prefix first). On UTF-8 text this is the byte order of file names.
pub open spec fn name_le(a: Seq<char>, b: Seq<char>) -> bool
    decreases a.len(),
{
    if a.len() == 0 {
        true
    } else if b.len() == 0 {
        false
    } else if a[0] != b[0] {
        a[0] < b[0]
    } else {
        name_le(a.drop_first(), b.drop_first())
    }
}

/// Whether the texts of `s` are in order.
pub open spec fn names_sorted(s: Seq<Seq<char>>) -> bool {
    forall|i: int, j: int| 0 <= i < j < s.len() ==> name_le(#[trigger] s[i], #[trigger] s[j])
}

proof fn lemma_name_le_total(a: Seq<char>, b: Seq<char>)
    ensures
        name_le(a, b) || name_le(b, a),
    decreases a.len(),
{
    if a.len() > 0 && b.len() > 0 && a[0] == b[0] {
        lemma_name_le_total(a.drop_first(), b.drop_first());
    }
}

proof fn lemma_name_le_trans(a: Seq<char>, b: Seq<char>, c: Seq<char>)
    requires
        name_le(a, b),
        name_le(b, c),
    ensures
        name_le(a, c),
    decreases a.len(),
{
    if a.len() > 0 && b.len() > 0 && c.len() > 0 && a[0] == b[0] && b[0] == c[0] {
        lemma_name_le_trans(a.drop_first(), b.drop_first(), c.drop_first());
    }
}

proof fn lemma_name_le_skip(a: Seq<char>, b: Seq<char>, i: int)
    requires
        0 <= i <= a.len(),
        i <= b.len(),
        a.take(i) == b.take(i),
    ensures
        name_le(a, b) == name_le(a.skip(i), b.skip(i)),
    decreases i,
{
    if i > 0 {
        assert(a[0] == a.take(i)[0]);
        assert(b[0] == b.take(i)[0]);
        assert(a.drop_first().take(i - 1) =~= a.take(i).drop_first());
        assert(b.drop_first().take(i - 1) =~= b.take(i).drop_first());
        lemma_name_le_skip(a.drop_first(), b.drop_first(), i - 1);
        assert(a.drop_first().skip(i - 1) =~= a.skip(i));
        assert(b.drop_first().skip(i - 1) =~= b.skip(i));
    } else {
        assert(a.skip(0) =~= a);
        assert(b.skip(0) =~= b);
    }
}

proof fn lemma_insert_to_multiset(s: Seq<Seq<char>>, p: int, x: Seq<char>)
    requires
        0 <= p <= s.len(),
    ensures
        s.insert(p, x).to_multiset() == s.to_multiset().insert(x),
{
    broadcast use vstd::seq_lib::group_to_multiset_ensures;
    broadcast use vstd::multiset::group_multiset_axioms;

    let t = s.insert(p, x);
    assert(t.remove(p) =~= s);
    assert(t[p] == x);
    assert(t.contains(x));
    let m = t.to_multiset();
    assert(s.to_multiset() == m.remove(x));
    assert(m.count(x) > 0);
    assert forall|y: Seq<char>| #[trigger] m.count(y) == s.to_multiset().insert(x).count(y) by {
        if y == x {
            assert(s.to_multiset().count(x) == m.count(x) - 1);
        } else {
            assert(s.to_multiset().count(y) == m.count(y));
        }
    }
    assert(m =~= s.to_multiset().insert(x));
}

/// Whether `a` comes no later than `b`.
fn chars_le(a: &Vec<char>, b: &Vec<char>) -> (r: bool)
    ensures
        r == name_le(a@, b@),
{
    let mut i: usize = 0;
    while i < a.len() && i < b.len() && a[i] == b[i]
        invariant
            i <= a.len(),
            i <= b.len(),
            a@.take(i as int) == b@.take(i as int),
        decreases a.len() - i,
    {
        i = i + 1;
        assert(a@.take(i as int) =~= a@.take(i - 1).push(a@[i - 1]));
        assert(b@.take(i as int) =~= b@.take(i - 1).push(b@[i - 1]));
    }
    proof {
        lemma_name_le_skip(a@, b@, i as int);
    }
    if i == a.len() {
        true
    } else if i == b.len() {
        false
    } else {
        assert(a@.skip(i as int)[0] == a@[i as int]);
        assert(b@.skip(i as int)[0] == b@[i as int]);
        a[i] < b[i]
    }
}

/// The VM directory names in order, as the list shows them.
pub fn sort_names(names: &Vec<String>) -> (r: Vec<String>)
    ensures
        texts(r@).to_multiset() == texts(names@).to_multiset(),
        names_sorted(texts(r@)),
{
    broadcast use vstd::seq_lib::group_to_multiset_ensures;

    let mut sorted: Vec<String> = Vec::new();
    let mut n: usize = 0;
    assert(texts(names@).take(0) =~= Seq::<Seq<char>>::empty());
    while n < names.len()
        invariant
            n <= names.len(),
            texts(sorted@).to_multiset() == texts(names@).take(n as int).to_multiset(),
            names_sorted(texts(sorted@)),
        decreases names.len() - n,
    {
        let x = chars_of(names[n].as_str());
        let mut p: usize = 0;
        while p < sorted.len() && chars_le(&chars_of(sorted[p].as_str()), &x)
            invariant
                p <= sorted.len(),
                n < names.len(),
                x@ == names@[n as int]@,
                forall|k: int| 0 <= k < p ==> name_le(#[trigger] texts(sorted@)[k], x@),
            decreases sorted.len() - p,
        {
            p = p + 1;
        }
        let ghost before = texts(sorted@);
        proof {
            if p < sorted.len() {
                lemma_name_le_total(before[p as int], x@);
            }
        }
        sorted.insert(p, names[n].clone());
        let ghost after = texts(sorted@);
        assert(after =~= before.insert(p as int, x@));
        assert(names_sorted(after)) by {
            assert forall|i: int, j: int| 0 <= i < j < after.len() implies name_le(
                #[trigger] after[i],
                #[trigger] after[j],
            ) by {
                if j < p {
                    assert(after[i] == before[i] && after[j] == before[j]);
                } else if j == p {
                    assert(after[i] == before[i]);
                } else if i == p {
                    assert(after[j] == before[j - 1]);
                    lemma_name_le_total(before[p as int], x@);
                    if p < j - 1 {
                        lemma_name_le_trans(x@, before[p as int], before[j - 1]);
                    }
                } else if i < p {
                    assert(after[i] == before[i] && after[j] == before[j - 1]);
                    lemma_name_le_total(before[p as int], x@);
                    lemma_name_le_trans(before[i], x@, before[p as int]);
                    if p < j - 1 {
                        lemma_name_le_trans(before[i], before[p as int], before[j - 1]);
                    }
                } else {
                    assert(after[i] == before[i - 1] && after[j] == before[j - 1]);
                }
            }
        }
        assert(after.remove(p as int) =~= before);
        proof {
            lemma_insert_to_multiset(before, p as int, x@);
        }
        assert(texts(names@).take(n + 1) =~= texts(names@).take(n as int).push(x@));
        proof {
            vstd::seq_lib::to_multiset_build(texts(names@).take(n as int), x@);
        }
        assert(texts(sorted@).to_multiset() == texts(names@).take(n + 1).to_multiset());
        n = n + 1;
    }
    assert(texts(names@).take(names.len() as int) =~= texts(names@));
    sorted
}

/// The line shown for the VM `name`: when running, its SPICE and RDP addresses
/// (`spice_label`, `rdp_label`); otherwise that it is stopped.
pub open spec fn vm_list_line_spec(
    name: Seq<char>,
    running: bool,
    spice_label: Seq<char>,
    rdp_label: Seq<char>,
    color: bool,
) -> Seq<char> {
    if running {
        if color {
            "  \x1b[1m"@ + name + "\x1b[0m  \x1b[0;32mrunning\x1b[0m  spice://localhost:"@
                + spice_label + "  rdp://localhost:"@ + rdp_label
        } else {
            "  "@ + name + "  running  spice://localhost:"@ + spice_label + "  rdp://localhost:"@
                + rdp_label
        }
    } else if color {
        "  \x1b[1m"@ + name + "\x1b[0m  \x1b[1;33mstopped\x1b[0m"@
    } else {
        "  "@ + name + "  stopped"@
    }
}

/// The line shown for a VM in the listing.
pub fn vm_list_line(name: &str, running: bool, spice_label: &str, rdp_label: &str, color: bool) -> (r: String)
    ensures
        r@ == vm_list_line_spec(name@, running, spice_label@, rdp_label@, color),
{
    if running {
        let mut s = if color {
            String::from_str("  \x1b[1m")
        } else {
            String::from_str("  ")
        };
        s.append(name);
        if color {
            s.append("\x1b[0m  \x1b[0;32mrunning\x1b[0m  spice://localhost:");
        } else {
            s.append("  running  spice://localhost:");
        }
        s.append(spice_label);
        s.append("  rdp://localhost:");
        s.append(rdp_label);
        s
    } else {
        let mut s = if color {
            String::from_str("  \x1b[1m")
        } else {
            String::from_str("  ")
        };
        s.append(name);
        if color {
            s.append("\x1b[0m  \x1b[1;33mstopped\x1b[0m");
        } else {
            s.append("  stopped");
        }
        s
    }
}

/// What is said after the list: a warning that no VMs were found when no directory held
/// a VM configuration, nothing otherwise.
pub open spec fn list_closing_notes_spec(found: bool) -> Seq<(Tone, Seq<char>)> {
    if found {
        Seq::empty()
    } else {
        seq![(Tone::Warn, "No VMs found."@)]
    }
}

/// What is said after the list; `found` tells whether any directory held a VM
/// configuration.
pub fn list_closing_notes(found: bool) -> (r: Vec<Note>)
    ensures
        notes_view(r@) == list_closing_notes_spec(found),
{
    let mut notes: Vec<Note> = Vec::new();
    if !found {
        push_note(&mut notes, Tone::Warn, String::from_str("No VMs found."));
    }
    assert(notes_view(notes@) =~= list_closing_notes_spec(found));
    notes
}

proof fn lemma_no_escape_in(s: Seq<char>)
    requires
        forall|k: int| 0 <= k < s.len() ==> s[k] != '\x1b',
    ensures
        !s.contains('\x1b'),
{
}

proof fn lemma_running_line_ends_with_addresses(
    name: Seq<char>,
    spice_label: Seq<char>,
    rdp_label: Seq<char>,
    color: bool,
)
    ensures
        ({
            let line = vm_list_line_spec(name, true, spice_label, rdp_label, color);
            let addr = "spice://localhost:"@ + spice_label + "  rdp://localhost:"@ + rdp_label;
            line == line.take(line.len() - addr.len()) + "spice://localhost:"@ + spice_label
                + "  rdp://localhost:"@ + rdp_label
        }),
{
    reveal_strlit("  \x1b[1m");
    reveal_strlit("\x1b[0m  \x1b[0;32mrunning\x1b[0m  spice://localhost:");
    reveal_strlit("\x1b[0m  \x1b[0;32mrunning\x1b[0m  ");
    reveal_strlit("  running  spice://localhost:");
    reveal_strlit("  running  ");
    reveal_strlit("spice://localhost:");
    reveal_strlit("  ");
    let line = vm_list_line_spec(name, true, spice_label, rdp_label, color);
    let addr = "spice://localhost:"@ + spice_label + "  rdp://localhost:"@ + rdp_label;
    let front = if color {
        "  \x1b[1m"@ + name + "\x1b[0m  \x1b[0;32mrunning\x1b[0m  "@
    } else {
        "  "@ + name + "  running  "@
    };
    assert(line =~= front + addr);
    assert(line.take(line.len() - addr.len()) =~= front);
    assert(line =~= front + "spice://localhost:"@ + spice_label + "  rdp://localhost:"@
        + rdp_label);
}

/// Colour changes a listing line only by its escape codes: taking them out of the
/// coloured line gives the plain line (for a name and labels without escape characters).
/// And a running VM's line, coloured or not, ends with its SPICE address and then its RDP
/// address, each with its own label.
pub proof fn lemma_list_line_colour_only_adds_escapes(
    name: Seq<char>,
    running: bool,
    spice_label: Seq<char>,
    rdp_label: Seq<char>,
)
    requires
        !name.contains('\x1b'),
        !spice_label.contains('\x1b'),
        !rdp_label.contains('\x1b'),
    ensures
        strip_escapes(vm_list_line_spec(name, running, spice_label, rdp_label, true))
            == vm_list_line_spec(name, running, spice_label, rdp_label, false),
        running ==> forall|color: bool|
            exists|front: Seq<char>|
                #[trigger] vm_list_line_spec(name, running, spice_label, rdp_label, color) == front
                    + "spice://localhost:"@ + spice_label + "  rdp://localhost:"@ + rdp_label,
{
    reveal_strlit("  \x1b[1m");
    reveal_strlit("\x1b[0m  \x1b[0;32mrunning\x1b[0m  spice://localhost:");
    reveal_strlit("  rdp://localhost:");
    reveal_strlit("  running  spice://localhost:");
    reveal_strlit("\x1b[0m  \x1b[1;33mstopped\x1b[0m");
    reveal_strlit("  stopped");
    reveal_strlit("  ");
    reveal_strlit("\x1b[1m");
    reveal_strlit("\x1b[0m");
    reveal_strlit("\x1b[0;32m");
    reveal_strlit("\x1b[1;33m");
    reveal_strlit("running");
    reveal_strlit("stopped");
    reveal_strlit("  spice://localhost:");
    reveal_strlit("spice://localhost:");
    let sp2 = "  "@;
    let e1 = "\x1b[1m"@;
    let e0 = "\x1b[0m"@;
    let e32 = "\x1b[0;32m"@;
    let e133 = "\x1b[1;33m"@;
    let run = "running"@;
    let stop = "stopped"@;
    let spice_at = "  spice://localhost:"@;
    let rdp_at = "  rdp://localhost:"@;
    lemma_no_escape_in(sp2);
    lemma_no_escape_in(run);
    lemma_no_escape_in(stop);
    lemma_no_escape_in(spice_at);
    lemma_no_escape_in(rdp_at);
    assert(strip_escapes(Seq::<char>::empty()) == Seq::<char>::empty());
    if running {
        let tail = rdp_at + rdp_label;
        lemma_strip_plain(rdp_label, Seq::empty());
        assert(rdp_label + Seq::<char>::empty() =~= rdp_label);
        lemma_strip_plain(rdp_at, rdp_label);
        lemma_strip_plain(spice_label, tail);
        let t1 = spice_at + (spice_label + tail);
        lemma_strip_plain(spice_at, spice_label + tail);
        let t2 = e0 + t1;
        lemma_strip_code(e0, t1);
        let t3 = run + t2;
        lemma_strip_plain(run, t2);
        let t4 = e32 + t3;
        lemma_strip_code(e32, t3);
        let t5 = sp2 + t4;
        lemma_strip_plain(sp2, t4);
        let t6 = e0 + t5;
        lemma_strip_code(e0, t5);
        let t7 = name + t6;
        lemma_strip_plain(name, t6);
        let t8 = e1 + t7;
        lemma_strip_code(e1, t7);
        lemma_strip_plain(sp2, t8);
        let colored = vm_list_line_spec(name, running, spice_label, rdp_label, true);
        assert(colored =~= sp2 + t8);
        let plain = vm_list_line_spec(name, running, spice_label, rdp_label, false);
        assert(plain =~= sp2 + (name + (sp2 + (run + (spice_at + (spice_label + tail))))));
        assert forall|color: bool|
            exists|front: Seq<char>|
                #[trigger] vm_list_line_spec(name, running, spice_label, rdp_label, color) == front
                    + "spice://localhost:"@ + spice_label + "  rdp://localhost:"@ + rdp_label by {
            lemma_running_line_ends_with_addresses(name, spice_label, rdp_label, color);
        }
    } else {
        let t1 = e0 + Seq::<char>::empty();
        lemma_strip_code(e0, Seq::empty());
        let t2 = stop + t1;
        lemma_strip_plain(stop, t1);
        let t3 = e133 + t2;
        lemma_strip_code(e133, t2);
        let t4 = sp2 + t3;
        lemma_strip_plain(sp2, t3);
        let t5 = e0 + t4;
        lemma_strip_code(e0, t4);
        let t6 = name + t5;
        lemma_strip_plain(name, t5);
        let t7 = e1 + t6;
        lemma_strip_code(e1, t6);
        lemma_strip_plain(sp2, t7);
        let colored = vm_list_line_spec(name, running, spice_label, rdp_label, true);
        assert(colored =~= sp2 + t7);
        let plain = vm_list_line_spec(name, running, spice_label, rdp_label, false);
        assert(plain =~= sp2 + (name + (sp2 + stop)));
        assert(stop + Seq::<char>::empty() =~= stop);
    }
}

} // verus!
