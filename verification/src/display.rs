//! Terminal output: whether to colour it, and the text of each kind of message line.
use vstd::prelude::*;
use vstd::string::*;
use supports_color::Stream;

verus! {

/// The two output streams.
#[derive(Debug, Clone, Copy, PartialEq, Eq)]
pub enum OutputStream {
    Stdout,
    Stderr,
}

/// Whether `stream` is a terminal that shows colour, as `supports_color::on` judges from
/// the environment and the stream. Nothing is stated of the answer: it depends on the
/// environment and on where the stream leads.
#[verifier::external_body]
fn terminal_supports_color(stream: OutputStream) -> bool {
    let s = match stream {
        OutputStream::Stdout => Stream::Stdout,
        OutputStream::Stderr => Stream::Stderr,
    };
    supports_color::on(s).is_some()
}

/// Whether output is coloured, given whether `NO_COLOR` is set and whether the stream
/// is a terminal that shows colour: only when `NO_COLOR` is unset and the terminal can.
pub fn color_choice(no_color_set: bool, terminal_supports_color: bool) -> (r: bool)
    ensures
        r == (!no_color_set && terminal_supports_color),
{
    !no_color_set && terminal_supports_color
}

/// Whether messages on standard output are coloured. `no_color_set` tells whether the
/// `NO_COLOR` variable is set; when it is, there is no colour, and the terminal is not
/// asked.
pub fn is_color_enabled(no_color_set: bool) -> (r: bool)
    ensures
        no_color_set ==> !r,
{
    if no_color_set {
        return false;
    }
    color_choice(no_color_set, terminal_supports_color(OutputStream::Stdout))
}

/// Whether the error message on standard error is coloured; never when `NO_COLOR` is set.
pub fn is_error_color_enabled(no_color_set: bool) -> (r: bool)
    ensures
        no_color_set ==> !r,
{
    if no_color_set {
        return false;
    }
    color_choice(no_color_set, terminal_supports_color(OutputStream::Stderr))
}

/// The kinds of message line.
#[derive(Debug, Clone, Copy, PartialEq, Eq)]
pub enum Tone {
    Info,
    Success,
    Warn,
    Error,
}

/// A message to show, with its tone.
#[derive(Debug, Clone)]
pub struct Note {
    pub tone: Tone,
    pub text: String,
}

/// The tones and texts of a list of messages.
pub open spec fn notes_view(v: Seq<Note>) -> Seq<(Tone, Seq<char>)> {
    v.map_values(|n: Note| (n.tone, n.text@))
}

/// Appends a message to `notes`.
pub fn push_note(notes: &mut Vec<Note>, tone: Tone, text: String)
    ensures
        notes_view(final(notes)@) == notes_view(old(notes)@).push((tone, text@)),
{
    let ghost before = notes@;
    notes.push(Note { tone, text });
    assert(notes_view(notes@) =~= notes_view(before).push((tone, text@)));
}

/// The marker that begins a message line of tone `t`, with its colour codes when `color`.
pub open spec fn marker(t: Tone, color: bool) -> Seq<char> {
    match t {
        Tone::Info => if color {
            "\x1b[0;36m→\x1b[0m "@
        } else {
            "→ "@
        },
        Tone::Success => if color {
            "\x1b[0;32m✓\x1b[0m "@
        } else {
            "✓ "@
        },
        Tone::Warn => if color {
            "\x1b[1;33m!\x1b[0m "@
        } else {
            "! "@
        },
        Tone::Error => if color {
            "\x1b[0;31m✗\x1b[0m "@
        } else {
            "✗ "@
        },
    }
}

/// The text of a message line (without its line break).
pub open spec fn message_line_spec(t: Tone, msg: Seq<char>, color: bool) -> Seq<char> {
    marker(t, color) + msg
}

/// The text of a message line of tone `t`.
pub fn message_line(t: Tone, msg: &str, color: bool) -> (r: String)
    ensures
        r@ == message_line_spec(t, msg@, color),
{
    let mut r = match t {
        Tone::Info => if color {
            String::from_str("\x1b[0;36m→\x1b[0m ")
        } else {
            String::from_str("→ ")
        },
        Tone::Success => if color {
            String::from_str("\x1b[0;32m✓\x1b[0m ")
        } else {
            String::from_str("✓ ")
        },
        Tone::Warn => if color {
            String::from_str("\x1b[1;33m!\x1b[0m ")
        } else {
            String::from_str("! ")
        },
        Tone::Error => if color {
            String::from_str("\x1b[0;31m✗\x1b[0m ")
        } else {
            String::from_str("✗ ")
        },
    };
    r.append(msg);
    r
}

/// The separator line.
pub open spec fn separator_spec(color: bool) -> Seq<char> {
    if color {
        "\x1b[1m────────────────────────────────────────\x1b[0m"@
    } else {
        "────────────────────────────────────────"@
    }
}

/// The separator line printed around listings and help.
pub fn separator(color: bool) -> (r: String)
    ensures
        r@ == separator_spec(color),
{
    if color {
        String::from_str("\x1b[1m────────────────────────────────────────\x1b[0m")
    } else {
        String::from_str("────────────────────────────────────────")
    }
}

/// Without colour, a message line holds an escape character only where the message does.
pub proof fn lemma_plain_lines_have_no_escape(t: Tone, msg: Seq<char>)
    requires
        !msg.contains('\x1b'),
    ensures
        !message_line_spec(t, msg, false).contains('\x1b'),
        !separator_spec(false).contains('\x1b'),
{
    reveal_strlit("→ ");
    reveal_strlit("✓ ");
    reveal_strlit("! ");
    reveal_strlit("✗ ");
    reveal_strlit("────────────────────────────────────────");
    let m = marker(t, false);
    let line = m + msg;
    assert(m.len() == 2);
    if line.contains('\x1b') {
        let k = choose|k: int| 0 <= k < line.len() && line[k] == '\x1b';
        if k >= 2 {
            assert(msg[k - 2] == '\x1b');
        }
    }
    let s = separator_spec(false);
    assert forall|k: int| 0 <= k < s.len() implies s[k] != '\x1b' by {
        assert(s[k] == '─');
    }
}

/// `s` as a terminal shows it in plain text: with each escape sequence taken out, that
/// is each escape character and what follows it up to and including the next `m` (the
/// form of the colour codes). `in_escape` tells whether `s` starts inside such a sequence.
pub open spec fn strip_escapes_from(s: Seq<char>, in_escape: bool) -> Seq<char>
    decreases s.len(),
{
    if s.len() == 0 {
        s
    } else if in_escape {
        strip_escapes_from(s.drop_first(), s[0] != 'm')
    } else if s[0] == '\x1b' {
        strip_escapes_from(s.drop_first(), true)
    } else {
        seq![s[0]] + strip_escapes_from(s.drop_first(), false)
    }
}

/// `s` with its escape sequences taken out.
pub open spec fn strip_escapes(s: Seq<char>) -> Seq<char> {
    strip_escapes_from(s, false)
}

/// Text without escape characters is kept as it is.
pub proof fn lemma_strip_plain(a: Seq<char>, b: Seq<char>)
    requires
        !a.contains('\x1b'),
    ensures
        strip_escapes(a + b) == a + strip_escapes(b),
    decreases a.len(),
{
    if a.len() == 0 {
        assert(a + b =~= b);
    } else {
        assert(a[0] != '\x1b');
        assert((a + b).drop_first() =~= a.drop_first() + b);
        assert(!a.drop_first().contains('\x1b')) by {
            if a.drop_first().contains('\x1b') {
                let k = choose|k: int| 0 <= k < a.drop_first().len() && a.drop_first()[k] == '\x1b';
                assert(a[k + 1] == '\x1b');
            }
        }
        lemma_strip_plain(a.drop_first(), b);
        assert(seq![a[0]] + a.drop_first() =~= a);
        assert(seq![a[0]] + (a.drop_first() + strip_escapes(b)) =~= a + strip_escapes(b));
    }
}

proof fn lemma_strip_code_tail(body: Seq<char>, b: Seq<char>)
    requires
        !body.contains('m'),
    ensures
        strip_escapes_from(body.push('m') + b, true) == strip_escapes(b),
    decreases body.len(),
{
    if body.len() == 0 {
        assert((body.push('m') + b).drop_first() =~= b);
    } else {
        assert((body.push('m') + b).drop_first() =~= body.drop_first().push('m') + b);
        assert(body[0] != 'm');
        assert(!body.drop_first().contains('m')) by {
            if body.drop_first().contains('m') {
                let k = choose|k: int| 0 <= k < body.drop_first().len() && body.drop_first()[k] == 'm';
                assert(body[k + 1] == 'm');
            }
        }
        lemma_strip_code_tail(body.drop_first(), b);
    }
}

/// An escape sequence (an escape character, then no `m` until a closing `m`) is taken
/// out whole.
pub proof fn lemma_strip_code(code: Seq<char>, b: Seq<char>)
    requires
        code.len() >= 2,
        code[0] == '\x1b',
        code.last() == 'm',
        forall|k: int| 0 < k < code.len() - 1 ==> code[k] != 'm',
    ensures
        strip_escapes(code + b) == strip_escapes(b),
{
    let body = code.subrange(1, code.len() - 1);
    assert(!body.contains('m')) by {
        if body.contains('m') {
            let k = choose|k: int| 0 <= k < body.len() && body[k] == 'm';
            assert(code[k + 1] == 'm');
        }
    }
    assert((code + b).drop_first() =~= body.push('m') + b);
    lemma_strip_code_tail(body, b);
}

} // verus!
