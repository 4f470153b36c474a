//! The per-VM `vm.conf` file (a list of `KEY=value` lines) and the defaults
//! that the environment supplies.
use vstd::prelude::*;
use vstd::string::*;
use crate::error::QvmError;
use crate::paths::{join_path, path_join};
use crate::text::{
    chars_eq_str, chars_of, decimal, decimal_string, find_char, is_clean_value, is_ws,
    lemma_decimal_clean, lemma_first_index_none, lemma_first_index_of_concat, lemma_parse_unsigned_decimal,
    lemma_trim_empty, lemma_trim_fixed_ends, lemma_trim_id, parse_u32, parse_u32_chars,
    parse_u32_spec, push_char, split_char, lemma_split_char_nonempty, split_once, string_of,
    sub_chars, texts, trim, trim_chars,
};

verus! {

/// The settings of one VM, as stored in its `vm.conf`. Paths are held as text.
#[derive(Debug, Clone)]
pub struct VmConfig {
    pub name: String,
    pub iso: String,
    pub driver_iso: Option<String>,
    pub disk: String,
    pub ovmf_code: String,
    pub ovmf_vars: String,
    pub ram_mb: u32,
    pub vcpus: u32,
    pub created: String,
    pub rdp_user: Option<String>,
    pub rdp_pass: Option<String>,
}

/// The mathematical value of a [`VmConfig`].
pub struct VmConfigView {
    pub name: Seq<char>,
    pub iso: Seq<char>,
    pub driver_iso: Option<Seq<char>>,
    pub disk: Seq<char>,
    pub ovmf_code: Seq<char>,
    pub ovmf_vars: Seq<char>,
    pub ram_mb: u32,
    pub vcpus: u32,
    pub created: Seq<char>,
    pub rdp_user: Option<Seq<char>>,
    pub rdp_pass: Option<Seq<char>>,
}

/// The text of an optional string.
pub open spec fn opt_text(o: Option<String>) -> Option<Seq<char>> {
    match o {
        Some(s) => Some(s@),
        None => None,
    }
}

impl View for VmConfig {
    type V = VmConfigView;

    open spec fn view(&self) -> VmConfigView {
        VmConfigView {
            name: self.name@,
            iso: self.iso@,
            driver_iso: opt_text(self.driver_iso),
            disk: self.disk@,
            ovmf_code: self.ovmf_code@,
            ovmf_vars: self.ovmf_vars@,
            ram_mb: self.ram_mb,
            vcpus: self.vcpus,
            created: self.created@,
            rdp_user: opt_text(self.rdp_user),
            rdp_pass: opt_text(self.rdp_pass),
        }
    }
}

/// The configuration that parsing starts from: every text empty, every option absent, numbers zero.
pub open spec fn empty_config() -> VmConfigView {
    VmConfigView {
        name: Seq::empty(),
        iso: Seq::empty(),
        driver_iso: None,
        disk: Seq::empty(),
        ovmf_code: Seq::empty(),
        ovmf_vars: Seq::empty(),
        ram_mb: 0,
        vcpus: 0,
        created: Seq::empty(),
        rdp_user: None,
        rdp_pass: None,
    }
}

impl Default for VmConfig {
    fn default() -> (r: VmConfig)
        ensures
            r@ == empty_config(),
    {
        VmConfig {
            name: String::new(),
            iso: String::new(),
            driver_iso: None,
            disk: String::new(),
            ovmf_code: String::new(),
            ovmf_vars: String::new(),
            ram_mb: 0,
            vcpus: 0,
            created: String::new(),
            rdp_user: None,
            rdp_pass: None,
        }
    }
}

/// An optional text that is absent when empty.
pub open spec fn nonempty_or_none(v: Seq<char>) -> Option<Seq<char>> {
    if v.len() == 0 {
        None
    } else {
        Some(v)
    }
}

/// The effect of the setting `key=val` (both already trimmed) on `c`.
/// Unknown keys, and numbers that do not parse, leave `c` unchanged.
pub open spec fn apply_setting(c: VmConfigView, key: Seq<char>, val: Seq<char>) -> VmConfigView {
    if key == "NAME"@ {
        VmConfigView { name: val, ..c }
    } else if key == "ISO"@ {
        VmConfigView { iso: val, ..c }
    } else if key == "DRIVER_ISO"@ {
        if val.len() > 0 {
            VmConfigView { driver_iso: Some(val), ..c }
        } else {
            c
        }
    } else if key == "DISK"@ {
        VmConfigView { disk: val, ..c }
    } else if key == "OVMF_CODE"@ {
        VmConfigView { ovmf_code: val, ..c }
    } else if key == "OVMF_VARS"@ {
        VmConfigView { ovmf_vars: val, ..c }
    } else if key == "RAM_MB"@ {
        match parse_u32_spec(val) {
            Some(n) => VmConfigView { ram_mb: n, ..c },
            None => c,
        }
    } else if key == "VCPUS"@ {
        match parse_u32_spec(val) {
            Some(n) => VmConfigView { vcpus: n, ..c },
            None => c,
        }
    } else if key == "CREATED"@ {
        VmConfigView { created: val, ..c }
    } else if key == "RDP_USER"@ {
        VmConfigView { rdp_user: nonempty_or_none(val), ..c }
    } else if key == "RDP_PASS"@ {
        VmConfigView { rdp_pass: nonempty_or_none(val), ..c }
    } else {
        c
    }
}

/// The effect of one raw line of `vm.conf` on `c`: the line is trimmed; blank lines,
/// `#` comments and lines without `=` are ignored; otherwise the text before the first
/// `=` (trimmed) is the key and the text after it (trimmed) the value.
pub open spec fn apply_line(c: VmConfigView, raw: Seq<char>) -> VmConfigView {
    let line = trim(raw);
    if line.len() == 0 || line[0] == '#' {
        c
    } else {
        match split_once(line, '=') {
            Some((k, v)) => apply_setting(c, trim(k), trim(v)),
            None => c,
        }
    }
}

/// The configuration that the lines `ls` give, applied in order to [`empty_config`].
pub open spec fn config_of_lines(ls: Seq<Seq<char>>) -> VmConfigView
    decreases ls.len(),
{
    if ls.len() == 0 {
        empty_config()
    } else {
        apply_line(config_of_lines(ls.drop_last()), ls.last())
    }
}

/// The configuration that the text of a `vm.conf` file describes.
pub open spec fn parse_conf(content: Seq<char>) -> VmConfigView {
    config_of_lines(split_char(content, '\n'))
}

/// The line `KEY=value`, without its line break.
pub open spec fn setting_line(key: Seq<char>, val: Seq<char>) -> Seq<char> {
    key.push('=') + val
}

/// The lines that saving `c` writes, in order.
pub open spec fn conf_lines(c: VmConfigView) -> Seq<Seq<char>> {
    let base = seq![
        setting_line("NAME"@, c.name),
        setting_line("ISO"@, c.iso),
        setting_line(
            "DRIVER_ISO"@,
            match c.driver_iso {
                Some(d) => d,
                None => Seq::<char>::empty(),
            },
        ),
        setting_line("DISK"@, c.disk),
        setting_line("OVMF_CODE"@, c.ovmf_code),
        setting_line("OVMF_VARS"@, c.ovmf_vars),
        setting_line("RAM_MB"@, decimal(c.ram_mb as nat)),
        setting_line("VCPUS"@, decimal(c.vcpus as nat)),
        setting_line("CREATED"@, c.created),
    ];
    let with_user = match c.rdp_user {
        Some(u) => base.push(setting_line("RDP_USER"@, u)),
        None => base,
    };
    match c.rdp_pass {
        Some(p) => with_user.push(setting_line("RDP_PASS"@, p)),
        None => with_user,
    }
}

/// Each line of `ls` followed by a line break.
pub open spec fn terminated(ls: Seq<Seq<char>>) -> Seq<char>
    decreases ls.len(),
{
    if ls.len() == 0 {
        Seq::empty()
    } else {
        terminated(ls.drop_last()) + ls.last().push('\n')
    }
}

/// The text of the `vm.conf` file that saving `c` writes.
pub open spec fn conf_text_spec(c: VmConfigView) -> Seq<char> {
    terminated(conf_lines(c))
}

/// The configurations that survive a save followed by a load: every text has no
/// surrounding whitespace and no line break, and the optional texts, when present,
/// are not empty.
pub open spec fn conf_round_trips(c: VmConfigView) -> bool {
    &&& is_clean_value(c.name)
    &&& is_clean_value(c.iso)
    &&& (c.driver_iso matches Some(d) ==> is_clean_value(d) && d.len() > 0)
    &&& is_clean_value(c.disk)
    &&& is_clean_value(c.ovmf_code)
    &&& is_clean_value(c.ovmf_vars)
    &&& is_clean_value(c.created)
    &&& (c.rdp_user matches Some(u) ==> is_clean_value(u) && u.len() > 0)
    &&& (c.rdp_pass matches Some(p) ==> is_clean_value(p) && p.len() > 0)
}

/// Applies the setting `key=val` to `cfg`.
fn apply_setting_exec(cfg: &mut VmConfig, key: &Vec<char>, val: &Vec<char>)
    ensures
        final(cfg)@ == apply_setting(old(cfg)@, key@, val@),
{
    if chars_eq_str(key, "NAME") {
        cfg.name = string_of(val);
    } else if chars_eq_str(key, "ISO") {
        cfg.iso = string_of(val);
    } else if chars_eq_str(key, "DRIVER_ISO") {
        if val.len() > 0 {
            cfg.driver_iso = Some(string_of(val));
        }
    } else if chars_eq_str(key, "DISK") {
        cfg.disk = string_of(val);
    } else if chars_eq_str(key, "OVMF_CODE") {
        cfg.ovmf_code = string_of(val);
    } else if chars_eq_str(key, "OVMF_VARS") {
        cfg.ovmf_vars = string_of(val);
    } else if chars_eq_str(key, "RAM_MB") {
        if let Some(n) = parse_u32_chars(val) {
            cfg.ram_mb = n;
        }
    } else if chars_eq_str(key, "VCPUS") {
        if let Some(n) = parse_u32_chars(val) {
            cfg.vcpus = n;
        }
    } else if chars_eq_str(key, "CREATED") {
        cfg.created = string_of(val);
    } else if chars_eq_str(key, "RDP_USER") {
        cfg.rdp_user = if val.len() == 0 {
            None
        } else {
            Some(string_of(val))
        };
    } else if chars_eq_str(key, "RDP_PASS") {
        cfg.rdp_pass = if val.len() == 0 {
            None
        } else {
            Some(string_of(val))
        };
    }
}

/// Applies one raw line of `vm.conf` to `cfg`.
fn apply_line_exec(cfg: &mut VmConfig, raw: &Vec<char>)
    ensures
        final(cfg)@ == apply_line(old(cfg)@, raw@),
{
    let line = trim_chars(raw);
    if line.len() == 0 || line[0] == '#' {
        return ;
    }
    match find_char(&line, '=') {
        None => {},
        Some(k) => {
            let key_raw = sub_chars(&line, 0, k);
            let val_raw = sub_chars(&line, k + 1, line.len());
            assert(key_raw@ =~= line@.take(k as int));
            assert(val_raw@ =~= line@.skip(k + 1));
            let key = trim_chars(&key_raw);
            let val = trim_chars(&val_raw);
            apply_setting_exec(cfg, &key, &val);
        },
    }
}


/// Reads the settings in the text of a `vm.conf` file.
pub fn parse_conf_text(content: &str) -> (r: VmConfig)
    ensures
        r@ == parse_conf(content@),
{
    let v = chars_of(content);
    let mut cfg = VmConfig::default();
    let mut line: Vec<char> = Vec::new();
    let mut i: usize = 0;
    assert(v@.take(0) =~= Seq::<char>::empty());
    while i < v.len()
        invariant
            i <= v.len(),
            v@ == content@,
            split_char(v@.take(i as int), '\n').len() >= 1,
            config_of_lines(split_char(v@.take(i as int), '\n').drop_last()) == cfg@,
            split_char(v@.take(i as int), '\n').last() == line@,
        decreases v.len() - i,
    {
        let ghost prev = split_char(v@.take(i as int), '\n');
        assert(v@.take(i + 1).drop_last() =~= v@.take(i as int));
        assert(v@.take(i + 1).last() == v@[i as int]);
        if v[i] == '\n' {
            apply_line_exec(&mut cfg, &line);
            line = Vec::new();
            assert(prev.push(Seq::<char>::empty()).drop_last() =~= prev);
            assert(prev == prev.drop_last().push(prev.last()));
        } else {
            line.push(v[i]);
            assert(prev.update(prev.len() - 1, prev.last().push(v@[i as int])).drop_last()
                =~= prev.drop_last());
        }
        i = i + 1;
    }
    apply_line_exec(&mut cfg, &line);
    proof {
        let all = split_char(v@.take(i as int), '\n');
        assert(all.drop_last().push(all.last()) =~= all);
        assert(v@.take(i as int) =~= v@);
    }
    cfg
}

/// The line `key=val`.
fn setting(key: &str, val: &str) -> (r: String)
    ensures
        r@ == setting_line(key@, val@),
{
    let mut r = String::from_str(key);
    push_char(&mut r, '=');
    r.append(val);
    r
}

/// Each of `lines` followed by a line break.
fn terminated_text(lines: &Vec<String>) -> (r: String)
    ensures
        r@ == terminated(texts(lines@)),
{
    let mut out = String::new();
    let mut i: usize = 0;
    assert(texts(lines@).take(0) =~= Seq::<Seq<char>>::empty());
    while i < lines.len()
        invariant
            i <= lines.len(),
            out@ == terminated(texts(lines@).take(i as int)),
        decreases lines.len() - i,
    {
        let ghost done = texts(lines@).take(i as int);
        out.append(lines[i].as_str());
        push_char(&mut out, '\n');
        assert(texts(lines@).take(i + 1).drop_last() =~= done);
        assert(texts(lines@).take(i + 1).last() == lines@[i as int]@);
        i = i + 1;
    }
    assert(texts(lines@).take(lines.len() as int) =~= texts(lines@));
    out
}

impl VmConfig {
    /// The text of the `vm.conf` file that records this configuration.
    pub fn conf_text(&self) -> (r: String)
        ensures
            r@ == conf_text_spec(self@),
    {
        let mut lines: Vec<String> = Vec::new();
        lines.push(setting("NAME", self.name.as_str()));
        lines.push(setting("ISO", self.iso.as_str()));
        let driver = match &self.driver_iso {
            Some(d) => setting("DRIVER_ISO", d.as_str()),
            None => setting("DRIVER_ISO", ""),
        };
        lines.push(driver);
        lines.push(setting("DISK", self.disk.as_str()));
        lines.push(setting("OVMF_CODE", self.ovmf_code.as_str()));
        lines.push(setting("OVMF_VARS", self.ovmf_vars.as_str()));
        lines.push(setting("RAM_MB", decimal_string(self.ram_mb as u64).as_str()));
        lines.push(setting("VCPUS", decimal_string(self.vcpus as u64).as_str()));
        lines.push(setting("CREATED", self.created.as_str()));
        if let Some(u) = &self.rdp_user {
            lines.push(setting("RDP_USER", u.as_str()));
        }
        if let Some(p) = &self.rdp_pass {
            lines.push(setting("RDP_PASS", p.as_str()));
        }
        proof {
            reveal_strlit("");
        }
        assert(texts(lines@) =~= conf_lines(self@));
        terminated_text(&lines)
    }

    /// Reads a VM's configuration. `content` is the text of its `vm.conf`, or `None`
    /// when `vmdir` holds no such file.
    pub fn load(vmdir: &str, content: Option<&str>) -> (r: Result<VmConfig, QvmError>)
        ensures
            content is None ==> (r matches Err(QvmError::MissingVmConf(d)) && d@ == vmdir@),
            content matches Some(text) ==> (r matches Ok(c) && c@ == parse_conf(text@)),
    {
        match content {
            None => Err(QvmError::MissingVmConf(String::from_str(vmdir))),
            Some(text) => Ok(parse_conf_text(text)),
        }
    }
}

// ---------------------------------------------------------------------------
// Saving then loading
// ---------------------------------------------------------------------------

proof fn lemma_lines_of_append(s: Seq<char>, x: Seq<char>)
    requires
        !x.contains('\n'),
    ensures
        split_char(s + x, '\n') == split_char(s, '\n').drop_last().push(split_char(s, '\n').last() + x),
    decreases x.len(),
{
    lemma_split_char_nonempty(s, '\n');
    let l = split_char(s, '\n');
    if x.len() == 0 {
        assert(s + x =~= s);
        assert(l.last() + x =~= l.last());
        assert(l.drop_last().push(l.last()) =~= l);
    } else {
        let y = x.drop_last();
        let c = x.last();
        assert(!y.contains('\n')) by {
            if y.contains('\n') {
                let k = choose|k: int| 0 <= k < y.len() && y[k] == '\n';
                assert(x[k] == '\n');
            }
        }
        assert(c != '\n') by {
            assert(x[x.len() - 1] == c);
        }
        lemma_lines_of_append(s, y);
        assert((s + x).drop_last() =~= s + y);
        assert((s + x).last() == c);
        let prev = split_char(s + y, '\n');
        assert(prev.update(prev.len() - 1, prev.last().push(c)) =~= l.drop_last().push(
            l.last() + x,
        )) by {
            assert((l.last() + y).push(c) =~= l.last() + x);
        }
    }
}

proof fn lemma_lines_of_terminated(ls: Seq<Seq<char>>)
    requires
        forall|i: int| 0 <= i < ls.len() ==> !(#[trigger] ls[i]).contains('\n'),
    ensures
        split_char(terminated(ls), '\n') == ls.push(Seq::<char>::empty()),
    decreases ls.len(),
{
    if ls.len() == 0 {
        assert(split_char(Seq::<char>::empty(), '\n') =~= seq![Seq::<char>::empty()]);
        assert(ls.push(Seq::<char>::empty()) =~= seq![Seq::<char>::empty()]);
    } else {
        let init = ls.drop_last();
        let x = ls.last();
        assert forall|i: int| 0 <= i < init.len() implies !(#[trigger] init[i]).contains('\n') by {
            assert(init[i] == ls[i]);
        }
        assert(!x.contains('\n')) by {
            assert(x == ls[ls.len() - 1]);
        }
        lemma_lines_of_terminated(init);
        let t = terminated(init);
        lemma_lines_of_append(t, x);
        assert(terminated(ls) =~= (t + x).push('\n'));
        assert((t + x).push('\n').drop_last() =~= t + x);
        assert(init.push(Seq::<char>::empty()).drop_last() =~= init);
        assert(Seq::<char>::empty() + x =~= x);
        assert(init.push(x) =~= ls);
    }
}

proof fn lemma_config_push(ls: Seq<Seq<char>>, x: Seq<char>)
    ensures
        config_of_lines(ls.push(x)) == apply_line(config_of_lines(ls), x),
{
    assert(ls.push(x).drop_last() =~= ls);
}

/// The requirements on a key for its setting line to read back as that setting.
pub open spec fn is_plain_key(key: Seq<char>) -> bool {
    &&& key.len() > 0
    &&& !is_ws(key[0])
    &&& !is_ws(key.last())
    &&& key[0] != '#'
    &&& !key.contains('=')
    &&& !key.contains('\n')
}

proof fn lemma_apply_setting_line(c: VmConfigView, key: Seq<char>, v: Seq<char>)
    requires
        is_plain_key(key),
        trim(v) == v,
    ensures
        apply_line(c, setting_line(key, v)) == apply_setting(c, key, v),
{
    let line = setting_line(key, v);
    if v.len() > 0 {
        lemma_trim_fixed_ends(v);
        assert(line.last() == v.last());
    } else {
        assert(line.last() == '=');
    }
    assert(line[0] == key[0]);
    lemma_trim_id(line);
    lemma_trim_id(key);
    lemma_first_index_of_concat(key, '=', v);
    assert(line.take(key.len() as int) =~= key);
    assert(line.skip(key.len() as int + 1) =~= v);
}

proof fn lemma_setting_line_single(key: Seq<char>, v: Seq<char>)
    requires
        !key.contains('\n'),
        !v.contains('\n'),
    ensures
        !setting_line(key, v).contains('\n'),
{
    let line = setting_line(key, v);
    if line.contains('\n') {
        let k = choose|k: int| 0 <= k < line.len() && line[k] == '\n';
        if k < key.len() {
            assert(key[k] == '\n');
        } else if k > key.len() {
            assert(v[k - key.len() - 1] == '\n');
        }
    }
}

proof fn lemma_read_name(ls: Seq<Seq<char>>, v: Seq<char>)
    requires
        is_clean_value(v),
    ensures
        config_of_lines(ls.push(setting_line("NAME"@, v)))
            == (VmConfigView { name: v, ..config_of_lines(ls) }),
{
    reveal_strlit("NAME");
    lemma_config_push(ls, setting_line("NAME"@, v));
    lemma_apply_setting_line(config_of_lines(ls), "NAME"@, v);
}

proof fn lemma_read_iso(ls: Seq<Seq<char>>, v: Seq<char>)
    requires
        is_clean_value(v),
    ensures
        config_of_lines(ls.push(setting_line("ISO"@, v)))
            == (VmConfigView { iso: v, ..config_of_lines(ls) }),
{
    reveal_strlit("NAME");
    reveal_strlit("ISO");
    lemma_config_push(ls, setting_line("ISO"@, v));
    lemma_apply_setting_line(config_of_lines(ls), "ISO"@, v);
}

proof fn lemma_read_driver_iso(ls: Seq<Seq<char>>, v: Seq<char>)
    requires
        is_clean_value(v),
    ensures
        config_of_lines(ls.push(setting_line("DRIVER_ISO"@, v))) == (if v.len() > 0 {
            VmConfigView { driver_iso: Some(v), ..config_of_lines(ls) }
        } else {
            config_of_lines(ls)
        }),
{
    reveal_strlit("NAME");
    reveal_strlit("ISO");
    reveal_strlit("DRIVER_ISO");
    lemma_config_push(ls, setting_line("DRIVER_ISO"@, v));
    lemma_apply_setting_line(config_of_lines(ls), "DRIVER_ISO"@, v);
}

proof fn lemma_read_disk(ls: Seq<Seq<char>>, v: Seq<char>)
    requires
        is_clean_value(v),
    ensures
        config_of_lines(ls.push(setting_line("DISK"@, v)))
            == (VmConfigView { disk: v, ..config_of_lines(ls) }),
{
    reveal_strlit("NAME");
    reveal_strlit("ISO");
    reveal_strlit("DRIVER_ISO");
    reveal_strlit("DISK");
    lemma_config_push(ls, setting_line("DISK"@, v));
    lemma_apply_setting_line(config_of_lines(ls), "DISK"@, v);
}

proof fn lemma_read_ovmf_code(ls: Seq<Seq<char>>, v: Seq<char>)
    requires
        is_clean_value(v),
    ensures
        config_of_lines(ls.push(setting_line("OVMF_CODE"@, v)))
            == (VmConfigView { ovmf_code: v, ..config_of_lines(ls) }),
{
    reveal_strlit("NAME");
    reveal_strlit("ISO");
    reveal_strlit("DRIVER_ISO");
    reveal_strlit("DISK");
    reveal_strlit("OVMF_CODE");
    lemma_config_push(ls, setting_line("OVMF_CODE"@, v));
    lemma_apply_setting_line(config_of_lines(ls), "OVMF_CODE"@, v);
}

proof fn lemma_read_ovmf_vars(ls: Seq<Seq<char>>, v: Seq<char>)
    requires
        is_clean_value(v),
    ensures
        config_of_lines(ls.push(setting_line("OVMF_VARS"@, v)))
            == (VmConfigView { ovmf_vars: v, ..config_of_lines(ls) }),
{
    reveal_strlit("NAME");
    reveal_strlit("ISO");
    reveal_strlit("DRIVER_ISO");
    reveal_strlit("DISK");
    reveal_strlit("OVMF_CODE");
    reveal_strlit("OVMF_VARS");
    assert("OVMF_VARS"@[5] != "OVMF_CODE"@[5]);
    lemma_config_push(ls, setting_line("OVMF_VARS"@, v));
    lemma_apply_setting_line(config_of_lines(ls), "OVMF_VARS"@, v);
}

proof fn lemma_read_ram_mb(ls: Seq<Seq<char>>, v: Seq<char>, n: u32)
    requires
        v == decimal(n as nat),
    ensures
        config_of_lines(ls.push(setting_line("RAM_MB"@, v)))
            == (VmConfigView { ram_mb: n, ..config_of_lines(ls) }),
{
    reveal_strlit("NAME");
    reveal_strlit("ISO");
    reveal_strlit("DRIVER_ISO");
    reveal_strlit("DISK");
    reveal_strlit("OVMF_CODE");
    reveal_strlit("OVMF_VARS");
    reveal_strlit("RAM_MB");
    lemma_decimal_clean(n as nat);
    lemma_parse_unsigned_decimal(n as nat, u32::MAX as int);
    lemma_config_push(ls, setting_line("RAM_MB"@, v));
    lemma_apply_setting_line(config_of_lines(ls), "RAM_MB"@, v);
}

proof fn lemma_read_vcpus(ls: Seq<Seq<char>>, v: Seq<char>, n: u32)
    requires
        v == decimal(n as nat),
    ensures
        config_of_lines(ls.push(setting_line("VCPUS"@, v)))
            == (VmConfigView { vcpus: n, ..config_of_lines(ls) }),
{
    reveal_strlit("NAME");
    reveal_strlit("ISO");
    reveal_strlit("DRIVER_ISO");
    reveal_strlit("DISK");
    reveal_strlit("OVMF_CODE");
    reveal_strlit("OVMF_VARS");
    reveal_strlit("RAM_MB");
    reveal_strlit("VCPUS");
    lemma_decimal_clean(n as nat);
    lemma_parse_unsigned_decimal(n as nat, u32::MAX as int);
    lemma_config_push(ls, setting_line("VCPUS"@, v));
    lemma_apply_setting_line(config_of_lines(ls), "VCPUS"@, v);
}

proof fn lemma_read_created(ls: Seq<Seq<char>>, v: Seq<char>)
    requires
        is_clean_value(v),
    ensures
        config_of_lines(ls.push(setting_line("CREATED"@, v)))
            == (VmConfigView { created: v, ..config_of_lines(ls) }),
{
    reveal_strlit("NAME");
    reveal_strlit("ISO");
    reveal_strlit("DRIVER_ISO");
    reveal_strlit("DISK");
    reveal_strlit("OVMF_CODE");
    reveal_strlit("OVMF_VARS");
    reveal_strlit("RAM_MB");
    reveal_strlit("VCPUS");
    reveal_strlit("CREATED");
    lemma_config_push(ls, setting_line("CREATED"@, v));
    lemma_apply_setting_line(config_of_lines(ls), "CREATED"@, v);
}

proof fn lemma_read_rdp_user(ls: Seq<Seq<char>>, v: Seq<char>)
    requires
        is_clean_value(v),
        v.len() > 0,
    ensures
        config_of_lines(ls.push(setting_line("RDP_USER"@, v)))
            == (VmConfigView { rdp_user: Some(v), ..config_of_lines(ls) }),
{
    reveal_strlit("NAME");
    reveal_strlit("ISO");
    reveal_strlit("DRIVER_ISO");
    reveal_strlit("DISK");
    reveal_strlit("OVMF_CODE");
    reveal_strlit("OVMF_VARS");
    reveal_strlit("RAM_MB");
    reveal_strlit("VCPUS");
    reveal_strlit("CREATED");
    reveal_strlit("RDP_USER");
    lemma_config_push(ls, setting_line("RDP_USER"@, v));
    lemma_apply_setting_line(config_of_lines(ls), "RDP_USER"@, v);
}

proof fn lemma_read_rdp_pass(ls: Seq<Seq<char>>, v: Seq<char>)
    requires
        is_clean_value(v),
        v.len() > 0,
    ensures
        config_of_lines(ls.push(setting_line("RDP_PASS"@, v)))
            == (VmConfigView { rdp_pass: Some(v), ..config_of_lines(ls) }),
{
    reveal_strlit("NAME");
    reveal_strlit("ISO");
    reveal_strlit("DRIVER_ISO");
    reveal_strlit("DISK");
    reveal_strlit("OVMF_CODE");
    reveal_strlit("OVMF_VARS");
    reveal_strlit("RAM_MB");
    reveal_strlit("VCPUS");
    reveal_strlit("CREATED");
    reveal_strlit("RDP_USER");
    reveal_strlit("RDP_PASS");
    assert("RDP_PASS"@[4] != "RDP_USER"@[4]);
    lemma_config_push(ls, setting_line("RDP_PASS"@, v));
    lemma_apply_setting_line(config_of_lines(ls), "RDP_PASS"@, v);
}

/// The lines that saving writes hold no line break.
proof fn lemma_conf_lines_single(c: VmConfigView)
    requires
        conf_round_trips(c),
    ensures
        forall|i: int|
            0 <= i < conf_lines(c).len() ==> !(#[trigger] conf_lines(c)[i]).contains('\n'),
{
    reveal_strlit("NAME");
    reveal_strlit("ISO");
    reveal_strlit("DRIVER_ISO");
    reveal_strlit("DISK");
    reveal_strlit("OVMF_CODE");
    reveal_strlit("OVMF_VARS");
    reveal_strlit("RAM_MB");
    reveal_strlit("VCPUS");
    reveal_strlit("CREATED");
    reveal_strlit("RDP_USER");
    reveal_strlit("RDP_PASS");
    lemma_decimal_clean(c.ram_mb as nat);
    lemma_decimal_clean(c.vcpus as nat);
    let driver = match c.driver_iso {
        Some(d) => d,
        None => Seq::<char>::empty(),
    };
    lemma_setting_line_single("NAME"@, c.name);
    lemma_setting_line_single("ISO"@, c.iso);
    lemma_setting_line_single("DRIVER_ISO"@, driver);
    lemma_setting_line_single("DISK"@, c.disk);
    lemma_setting_line_single("OVMF_CODE"@, c.ovmf_code);
    lemma_setting_line_single("OVMF_VARS"@, c.ovmf_vars);
    lemma_setting_line_single("RAM_MB"@, decimal(c.ram_mb as nat));
    lemma_setting_line_single("VCPUS"@, decimal(c.vcpus as nat));
    lemma_setting_line_single("CREATED"@, c.created);
    if let Some(u) = c.rdp_user {
        lemma_setting_line_single("RDP_USER"@, u);
    }
    if let Some(p) = c.rdp_pass {
        lemma_setting_line_single("RDP_PASS"@, p);
    }
}

/// Loading what saving a configuration writes gives back that configuration, for
/// every configuration whose texts are free of surrounding whitespace and line breaks
/// and whose optional texts, when present, are not empty.
pub proof fn lemma_conf_round_trip(c: VmConfigView)
    requires
        conf_round_trips(c),
    ensures
        parse_conf(conf_text_spec(c)) == c,
{
    let ls = conf_lines(c);
    lemma_conf_lines_single(c);
    lemma_lines_of_terminated(ls);
    lemma_config_push(ls, Seq::<char>::empty());
    lemma_trim_empty();
    assert(parse_conf(conf_text_spec(c)) == config_of_lines(ls));
    let driver = match c.driver_iso {
        Some(d) => d,
        None => Seq::<char>::empty(),
    };
    assert(is_clean_value(driver)) by {
        if c.driver_iso is None {
            lemma_trim_empty();
        }
    }
    let s0 = Seq::<Seq<char>>::empty();
    let s1 = s0.push(setting_line("NAME"@, c.name));
    let s2 = s1.push(setting_line("ISO"@, c.iso));
    let s3 = s2.push(setting_line("DRIVER_ISO"@, driver));
    let s4 = s3.push(setting_line("DISK"@, c.disk));
    let s5 = s4.push(setting_line("OVMF_CODE"@, c.ovmf_code));
    let s6 = s5.push(setting_line("OVMF_VARS"@, c.ovmf_vars));
    let s7 = s6.push(setting_line("RAM_MB"@, decimal(c.ram_mb as nat)));
    let s8 = s7.push(setting_line("VCPUS"@, decimal(c.vcpus as nat)));
    let s9 = s8.push(setting_line("CREATED"@, c.created));
    lemma_read_name(s0, c.name);
    lemma_read_iso(s1, c.iso);
    lemma_read_driver_iso(s2, driver);
    lemma_read_disk(s3, c.disk);
    lemma_read_ovmf_code(s4, c.ovmf_code);
    lemma_read_ovmf_vars(s5, c.ovmf_vars);
    lemma_read_ram_mb(s6, decimal(c.ram_mb as nat), c.ram_mb);
    lemma_read_vcpus(s7, decimal(c.vcpus as nat), c.vcpus);
    lemma_read_created(s8, c.created);
    assert(config_of_lines(s9) == VmConfigView { rdp_user: None, rdp_pass: None, ..c });
    let s10 = match c.rdp_user {
        Some(u) => s9.push(setting_line("RDP_USER"@, u)),
        None => s9,
    };
    if let Some(u) = c.rdp_user {
        lemma_read_rdp_user(s9, u);
    }
    assert(config_of_lines(s10) == VmConfigView { rdp_pass: None, ..c });
    let s11 = match c.rdp_pass {
        Some(p) => s10.push(setting_line("RDP_PASS"@, p)),
        None => s10,
    };
    if let Some(p) = c.rdp_pass {
        lemma_read_rdp_pass(s10, p);
    }
    assert(s11 =~= ls);
}

/// Loading reads `vm.conf` line by line: a text with one more line loads as the
/// shorter text with that line applied after it.
pub proof fn lemma_parse_conf_next_line(t: Seq<char>, l: Seq<char>)
    requires
        !l.contains('\n'),
    ensures
        parse_conf(t.push('\n') + l) == apply_line(parse_conf(t), l),
{
    let s = t.push('\n');
    assert(s.drop_last() =~= t);
    assert(split_char(s, '\n') == split_char(t, '\n').push(Seq::<char>::empty()));
    lemma_lines_of_append(s, l);
    assert(split_char(t, '\n').push(Seq::<char>::empty()).drop_last() =~= split_char(t, '\n'));
    assert(Seq::<char>::empty() + l =~= l);
    lemma_config_push(split_char(t, '\n'), l);
}

/// The keys that a `vm.conf` line can set.
pub open spec fn is_known_key(k: Seq<char>) -> bool {
    ||| k == "NAME"@
    ||| k == "ISO"@
    ||| k == "DRIVER_ISO"@
    ||| k == "DISK"@
    ||| k == "OVMF_CODE"@
    ||| k == "OVMF_VARS"@
    ||| k == "RAM_MB"@
    ||| k == "VCPUS"@
    ||| k == "CREATED"@
    ||| k == "RDP_USER"@
    ||| k == "RDP_PASS"@
}

/// A line that loading passes over: blank, a `#` comment, without `=`, or with a key
/// that is not one of the known keys.
pub open spec fn is_ignored_line(l: Seq<char>) -> bool {
    let line = trim(l);
    ||| line.len() == 0
    ||| line[0] == '#'
    ||| !line.contains('=')
    ||| (split_once(line, '=') matches Some((k, _)) && !is_known_key(trim(k)))
}

/// Blank lines, comments, lines without `=` and unknown keys change nothing, so files
/// written by later versions still load.
pub proof fn lemma_ignored_lines_change_nothing(c: VmConfigView, l: Seq<char>)
    requires
        is_ignored_line(l),
    ensures
        apply_line(c, l) == c,
{
    lemma_first_index_none(trim(l), '=');
}

// ---------------------------------------------------------------------------
// Environment defaults
// ---------------------------------------------------------------------------

/// Defaults for new VMs, taken from the environment.
pub struct EnvDefaults {
    pub vm_dir: String,
    pub ram_mb: u32,
    pub vcpus: u32,
    pub disk_size: String,
}

/// A number given in the environment, or `default` when it is absent or does not parse.
pub open spec fn env_number(v: Option<Seq<char>>, default: u32) -> u32 {
    match v {
        Some(s) => match parse_u32_spec(s) {
            Some(n) => n,
            None => default,
        },
        None => default,
    }
}

/// The text of an optional string slice.
pub open spec fn opt_str(o: Option<&str>) -> Option<Seq<char>> {
    match o {
        Some(s) => Some(s@),
        None => None,
    }
}

fn env_number_exec(v: Option<&str>, default: u32) -> (r: u32)
    ensures
        r == env_number(opt_str(v), default),
{
    match v {
        Some(s) => match parse_u32(s) {
            Some(n) => n,
            None => default,
        },
        None => default,
    }
}

impl EnvDefaults {
    /// The defaults given the values of `HOME`, `QVM_DIR`, `QVM_RAM`, `QVM_CPUS` and
    /// `QVM_DISK` (each `None` when unset): the VM directory is `QVM_DIR`, else
    /// `$HOME/vms` (with `.` for an unset `HOME`); RAM defaults to 8192 MB, vCPUs to 4,
    /// the disk size to `40G`.
    pub fn load(
        home: Option<&str>,
        qvm_dir: Option<&str>,
        ram: Option<&str>,
        cpus: Option<&str>,
        disk: Option<&str>,
    ) -> (r: EnvDefaults)
        ensures
            r.vm_dir@ == match qvm_dir {
                Some(d) => d@,
                None => path_join(
                    match home {
                        Some(h) => h@,
                        None => "."@,
                    },
                    "vms"@,
                ),
            },
            r.ram_mb == env_number(opt_str(ram), 8192),
            r.vcpus == env_number(opt_str(cpus), 4),
            r.disk_size@ == match disk {
                Some(d) => d@,
                None => "40G"@,
            },
    {
        let vm_dir = match qvm_dir {
            Some(d) => String::from_str(d),
            None => {
                let h = match home {
                    Some(h) => h,
                    None => ".",
                };
                join_path(h, "vms")
            },
        };
        let disk_size = match disk {
            Some(d) => String::from_str(d),
            None => String::from_str("40G"),
        };
        EnvDefaults {
            vm_dir,
            ram_mb: env_number_exec(ram, 8192),
            vcpus: env_number_exec(cpus, 4),
            disk_size,
        }
    }
}

} // verus!
