//! The framed status cards printed around an SSH login.

use vstd::prelude::*;
use crate::text::{dec, repeat_char, push_dec, push_repeat, push_str, str_chars, string_of};
use crate::width::{str_width, str_width_of};

verus! {

/// Escape sequence that starts bold text.
pub const BOLD: &'static str = "\x1b[1m";
/// Escape sequence for green text.
pub const GREEN: &'static str = "\x1b[32m";
/// Escape sequence for red text.
pub const RED: &'static str = "\x1b[31m";
/// Escape sequence for dim grey text.
pub const DIM: &'static str = "\x1b[90m";
/// Escape sequence that resets all attributes.
pub const RESET: &'static str = "\x1b[0m";

/// `s` with every escape sequence (from ESC up to and including the next
/// `m`) removed; `esc` tells whether an escape sequence is already open.
pub open spec fn strip_from(s: Seq<char>, esc: bool) -> Seq<char>
    decreases s.len(),
{
    if s.len() == 0 {
        Seq::empty()
    } else if esc {
        strip_from(s.drop_first(), s[0] != 'm')
    } else if s[0] == '\x1b' {
        strip_from(s.drop_first(), true)
    } else {
        seq![s[0]] + strip_from(s.drop_first(), false)
    }
}

/// `s` without its colour escape sequences.
pub open spec fn stripped(s: Seq<char>) -> Seq<char> {
    strip_from(s, false)
}

/// Whether an escape sequence is still open after `s`, when `esc` told
/// whether one was open before it.
pub open spec fn esc_after(s: Seq<char>, esc: bool) -> bool
    decreases s.len(),
{
    if s.len() == 0 {
        esc
    } else if esc {
        esc_after(s.drop_first(), s[0] != 'm')
    } else {
        esc_after(s.drop_first(), s[0] == '\x1b')
    }
}

proof fn lemma_strip_concat(a: Seq<char>, b: Seq<char>, esc: bool)
    ensures
        strip_from(a + b, esc) == strip_from(a, esc) + strip_from(b, esc_after(a, esc)),
    decreases a.len(),
{
    if a.len() == 0 {
        assert(a + b =~= b);
    } else {
        assert((a + b).drop_first() =~= a.drop_first() + b);
        let next = if esc { a[0] != 'm' } else { a[0] == '\x1b' };
        lemma_strip_concat(a.drop_first(), b, next);
        if !esc && a[0] != '\x1b' {
            assert(seq![a[0]] + (strip_from(a.drop_first(), false) + strip_from(b, esc_after(a.drop_first(), false)))
                =~= (seq![a[0]] + strip_from(a.drop_first(), false)) + strip_from(b, esc_after(a.drop_first(), false)));
        }
    }
}

proof fn lemma_strip_plain(t: Seq<char>)
    requires
        crate::text::free_of(t, '\x1b'),
    ensures
        strip_from(t, false) == t,
        !esc_after(t, false),
    decreases t.len(),
{
    if t.len() > 0 {
        lemma_strip_plain(t.drop_first());
        assert(seq![t[0]] + t.drop_first() =~= t);
    }
}

/// An escape code `ESC`, then characters up to and including `m`: stripped
/// away whole, leaving no sequence open.
proof fn lemma_strip_code(code: Seq<char>)
    requires
        code.len() >= 2,
        code[0] == '\x1b',
        code.last() == 'm',
        forall|i: int| 1 <= i < code.len() - 1 ==> code[i] != 'm',
    ensures
        strip_from(code, false) == Seq::<char>::empty(),
        !esc_after(code, false),
{
    assert forall|k: int| 1 <= k < code.len() implies strip_from(#[trigger] code.skip(k), true)
        == Seq::<char>::empty() && !esc_after(code.skip(k), true) by {
        lemma_strip_code_tail(code, k);
    }
    assert(code.skip(1) =~= code.drop_first());
}

proof fn lemma_strip_code_tail(code: Seq<char>, k: int)
    requires
        code.len() >= 2,
        code.last() == 'm',
        forall|i: int| 1 <= i < code.len() - 1 ==> code[i] != 'm',
        1 <= k < code.len(),
    ensures
        strip_from(code.skip(k), true) == Seq::<char>::empty(),
        !esc_after(code.skip(k), true),
    decreases code.len() - k,
{
    if k == code.len() - 1 {
        let t = code.skip(k);
        assert(t.drop_first() =~= Seq::<char>::empty());
        assert(t.len() == 1 && t[0] == 'm');
        assert(strip_from(t.drop_first(), false) == Seq::<char>::empty());
        assert(!esc_after(t.drop_first(), false));
        assert(strip_from(t, true) == strip_from(t.drop_first(), false));
        assert(esc_after(t, true) == esc_after(t.drop_first(), false));
    } else {
        lemma_strip_code_tail(code, k + 1);
        assert(code.skip(k).drop_first() =~= code.skip(k + 1));
        assert(code.skip(k)[0] == code[k]);
        assert(code[k] != 'm');
        assert(code.skip(k).len() > 0);
    }
}

/// A horizontal rule `width` columns wide, drawn dim.
pub open spec fn rule_text(width: nat) -> Seq<char> {
    DIM@ + repeat_char('─', width) + RESET@
}

/// One card row: a space, the content, padding up to the card width
/// (less two columns of margin) and an attribute reset.
pub open spec fn info_text(width: nat, content: Seq<char>) -> Seq<char> {
    let visible = str_width(stripped(content)) as nat;
    let padding: nat = if width >= visible + 2 { (width - visible - 2) as nat } else { 0 };
    seq![' '] + content + repeat_char(' ', padding) + RESET@
}

/// Four card rows joined by newlines.
pub open spec fn card_text(a: Seq<char>, b: Seq<char>, c: Seq<char>, d: Seq<char>) -> Seq<char> {
    a + seq!['\n'] + b + seq!['\n'] + c + seq!['\n'] + d
}

/// A duration in whole seconds as `Nd Nh Nm Ns`, `Nh Nm Ns` or `Nm Ns`, with
/// the largest unit that is not zero first; `None` below one minute.
pub open spec fn long_duration(secs: nat) -> Option<Seq<char>> {
    if secs >= 86400 {
        Some(dec(secs / 86400) + "d "@ + dec((secs % 86400) / 3600) + "h "@ + dec((secs % 3600) / 60)
            + "m "@ + dec(secs % 60) + "s"@)
    } else if secs >= 3600 {
        Some(dec(secs / 3600) + "h "@ + dec((secs % 3600) / 60) + "m "@ + dec(secs % 60) + "s"@)
    } else if secs >= 60 {
        Some(dec(secs / 60) + "m "@ + dec(secs % 60) + "s"@)
    } else {
        None
    }
}

/// Connection time shown on success: long form from a minute up, tenths of
/// a second from one second up, milliseconds below.
pub open spec fn connect_duration_text(secs: nat, millis: nat) -> Seq<char> {
    match long_duration(secs) {
        Some(t) => t,
        None => if secs > 0 {
            dec(secs) + seq!['.'] + dec(millis / 100) + "s"@
        } else {
            dec(millis) + "ms"@
        },
    }
}

/// Session length shown on disconnect: long form from a minute up, seconds below.
pub open spec fn session_duration_text(secs: nat) -> Seq<char> {
    match long_duration(secs) {
        Some(t) => t,
        None => dec(secs) + "s"@,
    }
}

/// Removes colour escape sequences, so that only visible text remains.
pub fn strip_ansi(s: &str) -> (r: String)
    ensures
        r@ == stripped(s@),
{
    let v = str_chars(s);
    let mut out: Vec<char> = Vec::new();
    let mut esc = false;
    let mut i: usize = 0;
    assert(v@.skip(0) =~= v@);
    while i < v.len()
        invariant
            v@ == s@,
            i <= v.len(),
            out@ + strip_from(v@.skip(i as int), esc) == stripped(s@),
        decreases v.len() - i,
    {
        let c = v[i];
        assert(v@.skip(i as int)[0] == c);
        assert(v@.skip(i as int).drop_first() =~= v@.skip(i as int + 1));
        if esc {
            esc = c != 'm';
        } else if c == '\x1b' {
            esc = true;
        } else {
            out.push(c);
            assert(out@ + strip_from(v@.skip(i as int + 1), esc) =~= stripped(s@));
        }
        i = i + 1;
    }
    assert(v@.skip(i as int) =~= Seq::<char>::empty());
    assert(out@ =~= stripped(s@));
    string_of(&out)
}

fn push_rule(out: &mut Vec<char>, width: usize)
    ensures
        final(out)@ == old(out)@ + rule_text(width as nat),
{
    push_str(out, DIM);
    push_repeat(out, '─', width);
    push_str(out, RESET);
    assert(final(out)@ =~= old(out)@ + rule_text(width as nat));
}

fn push_info(out: &mut Vec<char>, width: usize, content: &str)
    ensures
        final(out)@ == old(out)@ + info_text(width as nat, content@),
{
    let plain = strip_ansi(content);
    let visible = str_width_of(plain.as_str());
    let padding: usize = if width >= visible && width - visible >= 2 { width - visible - 2 } else { 0 };
    out.push(' ');
    push_str(out, content);
    push_repeat(out, ' ', padding);
    push_str(out, RESET);
    assert(final(out)@ =~= old(out)@ + info_text(width as nat, content@));
}

/// A dim horizontal rule of `width` columns.
pub fn line(width: usize) -> (r: String)
    ensures
        r@ == rule_text(width as nat),
{
    let mut out: Vec<char> = Vec::new();
    push_rule(&mut out, width);
    assert(out@ =~= rule_text(width as nat));
    string_of(&out)
}

/// One padded card row holding `content`.
pub fn info_line(width: usize, content: &str) -> (r: String)
    ensures
        r@ == info_text(width as nat, content@),
{
    let mut out: Vec<char> = Vec::new();
    push_info(&mut out, width, content);
    assert(out@ =~= info_text(width as nat, content@));
    string_of(&out)
}

proof fn lemma_codes()
    ensures
        strip_from(DIM@, false) == Seq::<char>::empty() && !esc_after(DIM@, false),
        strip_from(BOLD@, false) == Seq::<char>::empty() && !esc_after(BOLD@, false),
        strip_from(RESET@, false) == Seq::<char>::empty() && !esc_after(RESET@, false),
        crate::text::free_of(DIM@, '\n') && crate::text::free_of(BOLD@, '\n')
            && crate::text::free_of(RESET@, '\n'),
{
    reveal_strlit("\x1b[90m");
    reveal_strlit("\x1b[1m");
    reveal_strlit("\x1b[0m");
    lemma_strip_code(DIM@);
    lemma_strip_code(BOLD@);
    lemma_strip_code(RESET@);
}

proof fn lemma_strip_row(width: nat, code: Seq<char>, x: Seq<char>)
    requires
        strip_from(code, false) == Seq::<char>::empty(),
        !esc_after(code, false),
        strip_from(RESET@, false) == Seq::<char>::empty(),
        crate::text::free_of(x, '\x1b'),
    ensures
        exists|n: nat| stripped(info_text(width, code + x)) == seq![' '] + x + repeat_char(' ', n),
{
    let visible = str_width(stripped(code + x)) as nat;
    let n: nat = if width >= visible + 2 { (width - visible - 2) as nat } else { 0 };
    let pad = repeat_char(' ', n);
    let sp = seq![' '];
    lemma_strip_plain(sp);
    lemma_strip_plain(x);
    lemma_strip_plain(pad);
    assert(info_text(width, code + x) =~= sp + (code + (x + (pad + RESET@))));
    lemma_strip_concat(sp, code + (x + (pad + RESET@)), false);
    lemma_strip_concat(code, x + (pad + RESET@), false);
    lemma_strip_concat(x, pad + RESET@, false);
    lemma_strip_concat(pad, RESET@, false);
    assert(stripped(info_text(width, code + x)) =~= sp + x + pad);
}

/// The card shown while connecting has exactly four lines, a dim rule
/// first and last; with the escape codes stripped, its second line starts
/// with ` SSH CONNECT` and its third with ` user@host (auth)`, each followed
/// only by padding. The address and port given do not change it.
pub proof fn law_connect_card_shape(host: Seq<char>, username: Seq<char>, auth_method: Seq<char>, width: nat)
    requires
        crate::text::free_of(host, '\x1b'),
        crate::text::free_of(username, '\x1b'),
        crate::text::free_of(auth_method, '\x1b'),
        crate::text::free_of(host, '\n'),
        crate::text::free_of(username, '\n'),
        crate::text::free_of(auth_method, '\n'),
    ensures
        ({
            let title = info_text(width, BOLD@ + "SSH CONNECT"@ + RESET@);
            let info = info_text(width, DIM@ + username + seq!['@'] + host + " ("@ + auth_method + seq![')']);
            &&& crate::text::split_on(card_text(rule_text(width), title, info, rule_text(width)), '\n')
                == seq![rule_text(width), title, info, rule_text(width)]
            &&& exists|n: nat| stripped(title) == " SSH CONNECT"@ + repeat_char(' ', n)
            &&& exists|n: nat| stripped(info)
                == seq![' '] + username + seq!['@'] + host + " ("@ + auth_method + seq![')'] + repeat_char(' ', n)
        }),
{
    lemma_codes();
    reveal_strlit("SSH CONNECT");
    reveal_strlit(" SSH CONNECT");
    reveal_strlit(" (");
    let title_x = "SSH CONNECT"@ + RESET@;
    let info_x = username + seq!['@'] + host + " ("@ + auth_method + seq![')'];
    let title = info_text(width, BOLD@ + "SSH CONNECT"@ + RESET@);
    let info = info_text(width, DIM@ + username + seq!['@'] + host + " ("@ + auth_method + seq![')']);
    let rule = rule_text(width);
    // the stripped rows
    lemma_strip_plain("SSH CONNECT"@);
    lemma_strip_concat("SSH CONNECT"@, RESET@, false);
    assert(BOLD@ + "SSH CONNECT"@ + RESET@ =~= BOLD@ + title_x);
    assert(DIM@ + username + seq!['@'] + host + " ("@ + auth_method + seq![')'] =~= DIM@ + info_x);
    assert(crate::text::free_of(info_x, '\x1b'));
    lemma_strip_row(width, DIM@, info_x);
    // the title: strip the trailing reset of its content too
    let visible = str_width(stripped(BOLD@ + title_x)) as nat;
    let n: nat = if width >= visible + 2 { (width - visible - 2) as nat } else { 0 };
    let pad = repeat_char(' ', n);
    let sp = seq![' '];
    lemma_strip_plain(sp);
    lemma_strip_plain(pad);
    assert(title =~= sp + (BOLD@ + ("SSH CONNECT"@ + (RESET@ + (pad + RESET@)))));
    lemma_strip_concat(sp, BOLD@ + ("SSH CONNECT"@ + (RESET@ + (pad + RESET@))), false);
    lemma_strip_concat(BOLD@, "SSH CONNECT"@ + (RESET@ + (pad + RESET@)), false);
    lemma_strip_concat("SSH CONNECT"@, RESET@ + (pad + RESET@), false);
    lemma_strip_concat(RESET@, pad + RESET@, false);
    lemma_strip_concat(pad, RESET@, false);
    assert(stripped(title) =~= " SSH CONNECT"@ + pad);
    // the four lines
    assert(crate::text::free_of(repeat_char('─', width), '\n'));
    assert(crate::text::free_of(rule, '\n'));
    assert(crate::text::free_of(title, '\n'));
    assert(crate::text::free_of(info, '\n'));
    crate::text::lemma_split_single(rule, '\n');
    crate::text::lemma_split_single(title, '\n');
    crate::text::lemma_split_single(info, '\n');
    let t = card_text(rule, title, info, rule);
    crate::text::lemma_split_join(rule + seq!['\n'] + title + seq!['\n'] + info, rule, '\n');
    crate::text::lemma_split_join(rule + seq!['\n'] + title, info, '\n');
    crate::text::lemma_split_join(rule, title, '\n');
    assert(seq![rule] + seq![title] + seq![info] + seq![rule] =~= seq![rule, title, info, rule]);
}

/// The card shown while connecting: rule, bold title, `user@host (auth)`,
/// rule. Returns the card and its width.
pub fn connect_card_top(
    _ip: &str,
    host: &str,
    _port: i32,
    username: &str,
    auth_method: &str,
    width: usize,
) -> (r: (String, usize))
    ensures
        r.1 == width,
        r.0@ == card_text(
            rule_text(width as nat),
            info_text(width as nat, BOLD@ + "SSH CONNECT"@ + RESET@),
            info_text(width as nat, DIM@ + username@ + seq!['@'] + host@ + " ("@ + auth_method@ + seq![')']),
            rule_text(width as nat),
        ),
{
    let mut title: Vec<char> = Vec::new();
    push_str(&mut title, BOLD);
    push_str(&mut title, "SSH CONNECT");
    push_str(&mut title, RESET);
    let title = string_of(&title);
    let mut info: Vec<char> = Vec::new();
    push_str(&mut info, DIM);
    push_str(&mut info, username);
    info.push('@');
    push_str(&mut info, host);
    push_str(&mut info, " (");
    push_str(&mut info, auth_method);
    info.push(')');
    let info = string_of(&info);
    let mut out: Vec<char> = Vec::new();
    push_rule(&mut out, width);
    out.push('\n');
    push_info(&mut out, width, title.as_str());
    out.push('\n');
    push_info(&mut out, width, info.as_str());
    out.push('\n');
    push_rule(&mut out, width);
    assert(title@ =~= BOLD@ + "SSH CONNECT"@ + RESET@);
    assert(info@ =~= DIM@ + username@ + seq!['@'] + host@ + " ("@ + auth_method@ + seq![')']);
    assert(out@ =~= card_text(
        rule_text(width as nat),
        info_text(width as nat, title@),
        info_text(width as nat, info@),
        rule_text(width as nat),
    ));
    (string_of(&out), width)
}

/// A status row inside the connect card.
pub fn connect_card_status_line(content: &str, width: usize) -> (r: String)
    ensures
        r@ == info_text(width as nat, content@),
{
    info_line(width, content)
}

/// The closing rule of the connect card.
pub fn connect_card_bottom(width: usize) -> (r: String)
    ensures
        r@ == rule_text(width as nat),
{
    line(width)
}

fn push_long_duration(out: &mut Vec<char>, secs: u64)
    requires
        secs >= 60,
    ensures
        long_duration(secs as nat) matches Some(t) && final(out)@ == old(out)@ + t,
{
    let s = secs as u128;
    if secs >= 86400 {
        push_dec(out, s / 86400);
        push_str(out, "d ");
        push_dec(out, (s % 86400) / 3600);
        push_str(out, "h ");
        push_dec(out, (s % 3600) / 60);
        push_str(out, "m ");
        push_dec(out, s % 60);
        push_str(out, "s");
    } else if secs >= 3600 {
        push_dec(out, s / 3600);
        push_str(out, "h ");
        push_dec(out, (s % 3600) / 60);
        push_str(out, "m ");
        push_dec(out, s % 60);
        push_str(out, "s");
    } else {
        push_dec(out, s / 60);
        push_str(out, "m ");
        push_dec(out, s % 60);
        push_str(out, "s");
    }
    assert(long_duration(secs as nat) matches Some(t) && final(out)@ =~= old(out)@ + t);
}

/// The row reporting a successful connection after `secs` seconds plus
/// `subsec_millis` milliseconds.
pub fn connect_success_line(secs: u64, subsec_millis: u32, width: usize) -> (r: String)
    ensures
        r@ == info_text(width as nat, GREEN@ + "✓ Connected"@ + DIM@ + " in "@ + RESET@
            + connect_duration_text(secs as nat, subsec_millis as nat) + RESET@),
{
    let mut d: Vec<char> = Vec::new();
    if secs >= 60 {
        push_long_duration(&mut d, secs);
    } else if secs > 0 {
        push_dec(&mut d, secs as u128);
        d.push('.');
        push_dec(&mut d, (subsec_millis / 100) as u128);
        push_str(&mut d, "s");
    } else {
        push_dec(&mut d, subsec_millis as u128);
        push_str(&mut d, "ms");
    }
    assert(d@ =~= connect_duration_text(secs as nat, subsec_millis as nat));
    let mut content: Vec<char> = Vec::new();
    push_str(&mut content, GREEN);
    push_str(&mut content, "✓ Connected");
    push_str(&mut content, DIM);
    push_str(&mut content, " in ");
    push_str(&mut content, RESET);
    let dv = string_of(&d);
    push_str(&mut content, dv.as_str());
    push_str(&mut content, RESET);
    let content = string_of(&content);
    assert(content@ =~= GREEN@ + "✓ Connected"@ + DIM@ + " in "@ + RESET@
        + connect_duration_text(secs as nat, subsec_millis as nat) + RESET@);
    info_line(width, content.as_str())
}

/// The row reporting a failed connection.
pub fn connect_fail_line(err: &str, width: usize) -> (r: String)
    ensures
        r@ == info_text(width as nat, RED@ + "✗ "@ + err@ + RESET@),
{
    let mut content: Vec<char> = Vec::new();
    push_str(&mut content, RED);
    push_str(&mut content, "✗ ");
    push_str(&mut content, err);
    push_str(&mut content, RESET);
    let content = string_of(&content);
    assert(content@ =~= RED@ + "✗ "@ + err@ + RESET@);
    info_line(width, content.as_str())
}

/// Status shown on disconnect: the SSH error in red, or a green `OK`.
pub open spec fn disconnect_status(ssh_err: Option<Seq<char>>) -> Seq<char> {
    match ssh_err {
        Some(e) => RED@ + e + RESET@,
        None => GREEN@ + "OK"@ + RESET@,
    }
}

/// The card printed when a session ends: host, session length and status.
pub fn disconnect_card(host: &str, secs: u64, ssh_err: Option<&str>, width: usize) -> (r: String)
    ensures
        r@ == card_text(
            rule_text(width as nat),
            info_text(width as nat, BOLD@ + "DISCONNECTED"@ + RESET@),
            info_text(width as nat, DIM@ + host@ + " │ "@ + session_duration_text(secs as nat) + " │ "@
                + disconnect_status(match ssh_err { Some(e) => Some(e@), None => None })),
            rule_text(width as nat),
        ),
{
    let mut d: Vec<char> = Vec::new();
    if secs >= 60 {
        push_long_duration(&mut d, secs);
    } else {
        push_dec(&mut d, secs as u128);
        push_str(&mut d, "s");
    }
    assert(d@ =~= session_duration_text(secs as nat));
    let mut status: Vec<char> = Vec::new();
    match ssh_err {
        Some(e) => {
            push_str(&mut status, RED);
            push_str(&mut status, e);
            push_str(&mut status, RESET);
        },
        None => {
            push_str(&mut status, GREEN);
            push_str(&mut status, "OK");
            push_str(&mut status, RESET);
        },
    }
    let ghost status_spec = disconnect_status(match ssh_err { Some(e) => Some(e@), None => None });
    assert(status@ =~= status_spec);
    let mut title: Vec<char> = Vec::new();
    push_str(&mut title, BOLD);
    push_str(&mut title, "DISCONNECTED");
    push_str(&mut title, RESET);
    let title = string_of(&title);
    let mut info: Vec<char> = Vec::new();
    push_str(&mut info, DIM);
    push_str(&mut info, host);
    push_str(&mut info, " │ ");
    let dv = string_of(&d);
    push_str(&mut info, dv.as_str());
    push_str(&mut info, " │ ");
    let sv = string_of(&status);
    push_str(&mut info, sv.as_str());
    let info = string_of(&info);
    let mut out: Vec<char> = Vec::new();
    push_rule(&mut out, width);
    out.push('\n');
    push_info(&mut out, width, title.as_str());
    out.push('\n');
    push_info(&mut out, width, info.as_str());
    out.push('\n');
    push_rule(&mut out, width);
    assert(title@ =~= BOLD@ + "DISCONNECTED"@ + RESET@);
    assert(info@ =~= DIM@ + host@ + " │ "@ + session_duration_text(secs as nat) + " │ "@ + status_spec);
    assert(out@ =~= card_text(
        rule_text(width as nat),
        info_text(width as nat, title@),
        info_text(width as nat, info@),
        rule_text(width as nat),
    ));
    string_of(&out)
}

/// Terminal width for the cards: the reported column count, 80 when the
/// terminal cannot be queried, never less than 40.
pub open spec fn card_width(size: Option<(u16, u16)>) -> nat {
    let w: nat = match size {
        Some(sz) => sz.0 as nat,
        None => 80,
    };
    if w < 40 { 40 } else { w }
}

/// `crossterm::terminal::size`: the terminal's columns and rows, or `None`
/// when it cannot be queried. Nothing is stated of the result: it depends on
/// the terminal the process runs in.
#[verifier::external_body]
fn terminal_size() -> Option<(u16, u16)> {
    crossterm::terminal::size().ok()
}

/// The width cards are drawn with, for a given terminal size.
pub fn card_width_for(size: Option<(u16, u16)>) -> (r: usize)
    ensures
        r as nat == card_width(size),
{
    let w: usize = match size {
        Some(sz) => sz.0 as usize,
        None => 80,
    };
    if w < 40 { 40 } else { w }
}

/// The current terminal width for drawing cards, at least 40 columns.
pub fn terminal_width() -> (r: usize)
    ensures
        exists|size: Option<(u16, u16)>| r as nat == card_width(size),
        r >= 40,
{
    let size = terminal_size();
    card_width_for(size)
}

} // verus!
