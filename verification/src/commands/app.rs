//! Running a guest application through FreeRDP RemoteApp: the client, the credentials
//! and the client's command line.
use vstd::prelude::*;
use vstd::string::*;
use crate::config::opt_str;
use crate::error::QvmError;
use crate::text::texts;
use crate::text::{cat2, decimal, parse_u16_spec, parse_u16, push_char, push_decimal, trim, trim_str};

verus! {

/// The RDP port recorded for the VM `name`: the trimmed contents of its `rdp.port`
/// file (`None` when it cannot be read) read as a port number.
pub fn rdp_port_from_file(name: &str, content: Option<&str>) -> (r: Result<u16, QvmError>)
    ensures
        match content {
            Some(t) => match parse_u16_spec(trim(t@)) {
                Some(p) => r == Ok::<u16, QvmError>(p),
                None => r matches Err(QvmError::RdpPortNotFound(n)) && n@ == name@,
            },
            None => r matches Err(QvmError::RdpPortNotFound(n)) && n@ == name@,
        },
{
    match content {
        None => Err(QvmError::RdpPortNotFound(String::from_str(name))),
        Some(t) => {
            let trimmed = trim_str(t);
            match parse_u16(trimmed.as_str()) {
                Some(p) => Ok(p),
                None => Err(QvmError::RdpPortNotFound(String::from_str(name))),
            }
        },
    }
}

/// The FreeRDP client to use: `wlfreerdp` under Wayland when installed, else
/// `xfreerdp` when installed, else `wlfreerdp` when installed.
pub fn choose_rdp_client(is_wayland: bool, has_wlfreerdp: bool, has_xfreerdp: bool) -> (r: Result<
    String,
    QvmError,
>)
    ensures
        is_wayland && has_wlfreerdp ==> (r matches Ok(c) && c@ == "wlfreerdp"@),
        !(is_wayland && has_wlfreerdp) && has_xfreerdp ==> (r matches Ok(c) && c@ == "xfreerdp"@),
        !has_xfreerdp && has_wlfreerdp && !is_wayland ==> (r matches Ok(c) && c@ == "wlfreerdp"@),
        !has_xfreerdp && !has_wlfreerdp ==> r == Err::<String, QvmError>(QvmError::FreeRdpNotFound),
{
    if is_wayland && has_wlfreerdp {
        Ok(String::from_str("wlfreerdp"))
    } else if has_xfreerdp {
        Ok(String::from_str("xfreerdp"))
    } else if has_wlfreerdp {
        Ok(String::from_str("wlfreerdp"))
    } else {
        Err(QvmError::FreeRdpNotFound)
    }
}

/// The RDP user: `QVM_RDP_USER`, else the one in `vm.conf`, else `$USER`, else `user`.
pub fn rdp_user(env_user: Option<&str>, conf_user: Option<&str>, login_user: Option<&str>) -> (r: String)
    ensures
        r@ == match env_user {
            Some(u) => u@,
            None => match conf_user {
                Some(u) => u@,
                None => match login_user {
                    Some(u) => u@,
                    None => "user"@,
                },
            },
        },
{
    match env_user {
        Some(u) => String::from_str(u),
        None => match conf_user {
            Some(u) => String::from_str(u),
            None => match login_user {
                Some(u) => String::from_str(u),
                None => String::from_str("user"),
            },
        },
    }
}

/// The RDP password: `QVM_RDP_PASS`, else the one in `vm.conf`, else none.
pub fn rdp_pass(env_pass: Option<&str>, conf_pass: Option<&str>) -> (r: Option<String>)
    ensures
        crate::config::opt_text(r) == match env_pass {
            Some(p) => Some(p@),
            None => opt_str(conf_pass),
        },
{
    match env_pass {
        Some(p) => Some(String::from_str(p)),
        None => match conf_pass {
            Some(p) => Some(String::from_str(p)),
            None => None,
        },
    }
}

/// The words of `ws` with single spaces between them, as `join(" ")`.
pub open spec fn joined_words(ws: Seq<Seq<char>>) -> Seq<char>
    decreases ws.len(),
{
    if ws.len() == 0 {
        Seq::empty()
    } else if ws.len() == 1 {
        ws[0]
    } else {
        joined_words(ws.drop_last()).push(' ') + ws.last()
    }
}

/// The words of `ws` with single spaces between them.
pub fn join_words(ws: &Vec<String>) -> (r: String)
    ensures
        r@ == joined_words(texts(ws@)),
{
    let mut r = String::new();
    let mut i: usize = 0;
    assert(texts(ws@).take(0) =~= Seq::<Seq<char>>::empty());
    while i < ws.len()
        invariant
            i <= ws.len(),
            r@ == joined_words(texts(ws@).take(i as int)),
        decreases ws.len() - i,
    {
        let ghost prefix = texts(ws@).take(i as int);
        assert(texts(ws@).take(i + 1).drop_last() =~= prefix);
        assert(texts(ws@).take(i + 1).last() == ws@[i as int]@);
        if i > 0 {
            push_char(&mut r, ' ');
        } else {
            assert(texts(ws@).take(1) =~= seq![ws@[0]@]);
        }
        r.append(ws[i].as_str());
        i = i + 1;
    }
    assert(texts(ws@).take(ws.len() as int) =~= texts(ws@));
    r
}

/// The arguments of the FreeRDP client that open `app_cmd` on the guest reached at
/// `127.0.0.1:port`, as `user`, with the password when there is one and the
/// application's arguments when there are some.
pub open spec fn freerdp_args_spec(
    port: u16,
    user: Seq<char>,
    app_cmd: Seq<char>,
    pass: Option<Seq<char>>,
    args: Seq<Seq<char>>,
) -> Seq<Seq<char>> {
    let base = seq![
        "/v:127.0.0.1:"@ + decimal(port as nat),
        "/u:"@ + user,
        "/app:"@ + app_cmd,
        "/cert:ignore"@,
        "+clipboard"@,
        "+dynamic-resolution"@,
    ];
    let with_pass = match pass {
        Some(p) => base.push("/p:"@ + p),
        None => base,
    };
    if args.len() > 0 {
        with_pass.push("/app-cmd:"@ + joined_words(args))
    } else {
        with_pass
    }
}

/// The arguments of the FreeRDP client.
pub fn freerdp_args(
    port: u16,
    user: &str,
    app_cmd: &str,
    pass: Option<&str>,
    args: &Vec<String>,
) -> (r: Vec<String>)
    ensures
        texts(r@) == freerdp_args_spec(port, user@, app_cmd@, opt_str(pass), texts(args@)),
{
    let mut r: Vec<String> = Vec::new();
    let mut v = String::from_str("/v:127.0.0.1:");
    push_decimal(&mut v, port as u64);
    r.push(v);
    r.push(cat2("/u:", user));
    r.push(cat2("/app:", app_cmd));
    r.push(String::from_str("/cert:ignore"));
    r.push(String::from_str("+clipboard"));
    r.push(String::from_str("+dynamic-resolution"));
    if let Some(p) = pass {
        r.push(cat2("/p:", p));
    }
    if args.len() > 0 {
        let joined = join_words(args);
        r.push(cat2("/app-cmd:", joined.as_str()));
    }
    assert(texts(r@) =~= freerdp_args_spec(port, user@, app_cmd@, opt_str(pass), texts(args@)));
    r
}

/// The message given before the client starts.
pub fn remote_app_message(app_cmd: &str, name: &str, client: &str, port: u16) -> (r: String)
    ensures
        r@ == "Launching '"@ + app_cmd@ + "' on '"@ + name@ + "' via "@ + client@ + " (127.0.0.1:"@
            + decimal(port as nat) + ")..."@,
{
    let mut s = String::from_str("Launching '");
    s.append(app_cmd);
    s.append("' on '");
    s.append(name);
    s.append("' via ");
    s.append(client);
    s.append(" (127.0.0.1:");
    push_decimal(&mut s, port as u64);
    s.append(")...");
    s
}

/// The message given when a stopped VM is booted for the application.
pub fn booting_headless_message(name: &str) -> (r: String)
    ensures
        r@ == "VM '"@ + name@ + "' is stopped. Booting headless..."@,
{
    let mut s = String::from_str("VM '");
    s.append(name);
    s.append("' is stopped. Booting headless...");
    s
}

/// The address that is probed for the guest's RDP service.
pub fn rdp_address(port: u16) -> (r: String)
    ensures
        r@ == "127.0.0.1:"@ + decimal(port as nat),
{
    let mut s = String::from_str("127.0.0.1:");
    push_decimal(&mut s, port as u64);
    s
}

proof fn lemma_differs_at(s: Seq<char>, prefix: Seq<char>, i: int)
    requires
        0 <= i < prefix.len(),
        i < s.len(),
        s[i] != prefix[i],
    ensures
        !starts_with(s, prefix),
{
    if starts_with(s, prefix) {
        assert(s.take(prefix.len() as int)[i] == s[i]);
    }
}

/// Whether `s` starts with `prefix`.
pub open spec fn starts_with(s: Seq<char>, prefix: Seq<char>) -> bool {
    prefix.len() <= s.len() && s.take(prefix.len() as int) == prefix
}

/// The client is told the password exactly when there is one, and the application's
/// arguments exactly when there are some, each independently of the other: an argument
/// starting with `/p:` is there exactly when `pass` is given, and it is `/p:` and the
/// password; one starting with `/app-cmd:` is there exactly when `args` is not empty,
/// and it is `/app-cmd:` and the words of `args` joined by spaces.
pub proof fn lemma_freerdp_password_and_arguments(
    port: u16,
    user: Seq<char>,
    app_cmd: Seq<char>,
    pass: Option<Seq<char>>,
    args: Seq<Seq<char>>,
)
    ensures
        ({
            let r = freerdp_args_spec(port, user, app_cmd, pass, args);
            &&& (exists|k: int| 0 <= k < r.len() && #[trigger] starts_with(r[k], "/p:"@))
                <==> pass is Some
            &&& pass matches Some(p) ==> r.contains("/p:"@ + p)
            &&& (exists|k: int| 0 <= k < r.len() && #[trigger] starts_with(r[k], "/app-cmd:"@))
                <==> args.len() > 0
            &&& args.len() > 0 ==> r.contains("/app-cmd:"@ + joined_words(args))
        }),
{
    reveal_strlit("/v:127.0.0.1:");
    reveal_strlit("/u:");
    reveal_strlit("/app:");
    reveal_strlit("/cert:ignore");
    reveal_strlit("+clipboard");
    reveal_strlit("+dynamic-resolution");
    reveal_strlit("/p:");
    reveal_strlit("/app-cmd:");
    let r = freerdp_args_spec(port, user, app_cmd, pass, args);
    let v = "/v:127.0.0.1:"@ + decimal(port as nat);
    let u = "/u:"@ + user;
    let a = "/app:"@ + app_cmd;
    let base = seq![v, u, a, "/cert:ignore"@, "+clipboard"@, "+dynamic-resolution"@];
    let pp = "/p:"@;
    let ac = "/app-cmd:"@;
    lemma_differs_at(v, pp, 1);
    lemma_differs_at(v, ac, 1);
    lemma_differs_at(u, pp, 1);
    lemma_differs_at(u, ac, 1);
    lemma_differs_at(a, pp, 1);
    lemma_differs_at(a, ac, 4);
    lemma_differs_at("/cert:ignore"@, pp, 1);
    lemma_differs_at("/cert:ignore"@, ac, 1);
    lemma_differs_at("+clipboard"@, pp, 0);
    lemma_differs_at("+clipboard"@, ac, 0);
    lemma_differs_at("+dynamic-resolution"@, pp, 0);
    lemma_differs_at("+dynamic-resolution"@, ac, 0);
    let cmd = ac + joined_words(args);
    lemma_differs_at(cmd, pp, 1);
    assert(cmd.take(9) =~= ac);
    let with_pass = match pass {
        Some(p) => base.push(pp + p),
        None => base,
    };
    match pass {
        Some(p) => {
            let e = pp + p;
            lemma_differs_at(e, ac, 1);
            assert(e.take(3) =~= pp);
            assert(with_pass[6] == e);
        },
        None => {},
    }
    if args.len() > 0 {
        assert(r == with_pass.push(cmd));
        assert(r[r.len() - 1] == cmd);
        assert(starts_with(r[r.len() - 1], ac));
    } else {
        assert(r == with_pass);
    }
    assert(forall|k: int| 0 <= k < 6 ==> r[k] == base[k]);
    assert forall|k: int| 0 <= k < r.len() && #[trigger] starts_with(r[k], pp) implies pass
        is Some && r[k] == pp + pass->0 by {
        if k < 6 {
            assert(r[k] == base[k]);
        } else if pass is Some && k == 6 {
        } else {
            assert(r[k] == cmd);
        }
    }
    assert forall|k: int| 0 <= k < r.len() && #[trigger] starts_with(r[k], ac) implies args.len()
        > 0 && r[k] == cmd by {
        if k < 6 {
            assert(r[k] == base[k]);
        } else if pass is Some && k == 6 {
            assert(r[k] == pp + pass->0);
        } else {
            assert(r[k] == cmd);
        }
    }
    if pass is Some {
        assert(starts_with(r[6], pp));
    }
}

} // verus!
