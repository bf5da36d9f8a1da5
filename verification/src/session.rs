//! SSH session plumbing that does not touch the network: liveness tunables,
//! non-blocking keystroke buffering, the reconnect policy and the connection
//! settings derived from a machine.

use vstd::prelude::*;
use std::io::Write;
use crate::machine::{Machine, empty_field};
use crate::text::dec;

verus! {

#[verifier::external_type_specification]
#[verifier::external_body]
pub struct ExIoError(std::io::Error);

/// Seconds an idle connection waits before the kernel sends keepalive probes.
pub const SOCK_KEEPALIVE_IDLE_SECS: u32 = 30;
/// Seconds between kernel keepalive probes.
pub const SOCK_KEEPALIVE_INTVL_SECS: u32 = 10;
/// Unanswered keepalive probes before the connection is declared dead.
pub const SOCK_KEEPALIVE_CNT: u32 = 3;
/// Milliseconds sent data may stay unacknowledged before the socket errors.
pub const SOCK_USER_TIMEOUT_MS: u32 = 20_000;
/// Seconds between application-level SSH keepalive messages.
pub const SSH_KEEPALIVE_INTERVAL_SECS: u64 = 30;
/// Upper bound on keystrokes buffered while the channel cannot take them.
pub const MAX_PENDING_INPUT: usize = 1024 * 1024;

/// A writer together with a record of the writes made on it through this
/// library: for each, the bytes it was given, what it answered and the
/// error it handed back, if any.
pub struct Channel<W> {
    pub inner: W,
    pub log: Ghost<Seq<(Seq<u8>, WriteOutcome, Option<std::io::Error>)>>,
}

impl<W> Channel<W> {
    /// `inner`, with no write recorded yet.
    pub fn new(inner: W) -> (r: Channel<W>)
        ensures
            r.inner == inner,
            r.log@ == Seq::<(Seq<u8>, WriteOutcome, Option<std::io::Error>)>::empty(),
    {
        Channel { inner, log: Ghost(Seq::empty()) }
    }
}

/// `Write::write` on the channel's writer, handed `buf` once; the call is
/// added to the channel's record with its answer. An error of kind
/// `WouldBlock` is told apart from any other, which is handed back. As the
/// trait documents, a successful call reports at most `buf.len()` bytes.
#[verifier::external_body]
fn write_logged<W: Write>(ch: &mut Channel<W>, buf: &[u8]) -> (r: (WriteOutcome, Option<std::io::Error>))
    ensures
        final(ch).log@ == old(ch).log@.push((buf@, r.0, r.1)),
        r.0 matches WriteOutcome::Wrote(n) ==> n <= buf@.len(),
        (r.0 == WriteOutcome::Failed) == (r.1 is Some),
{
    match ch.inner.write(buf) {
        Ok(n) => (WriteOutcome::Wrote(n), None),
        Err(e) if e.kind() == std::io::ErrorKind::WouldBlock => (WriteOutcome::WouldBlock, None),
        Err(e) => (WriteOutcome::Failed, Some(e)),
    }
}

/// `io::Error::new` with `ErrorKind::WriteZero`: the channel took nothing.
#[verifier::external_body]
fn channel_closed_error() -> std::io::Error {
    std::io::Error::new(std::io::ErrorKind::WriteZero, "SSH channel closed while writing")
}

/// `Vec::drain(..n)`: removes the first `n` bytes.
#[verifier::external_body]
fn drop_front(v: &mut Vec<u8>, n: usize)
    requires
        n <= old(v)@.len(),
    ensures
        final(v)@ == old(v)@.skip(n as int),
{
    v.drain(..n);
}

/// What one write on the channel answered.
#[derive(Clone, Copy, Debug, PartialEq, Eq, Structural)]
pub enum WriteOutcome {
    /// The channel took this many bytes.
    Wrote(usize),
    /// The channel cannot take anything right now.
    WouldBlock,
    /// Any other error.
    Failed,
}

/// What a flush does after one answer of the channel.
#[derive(Clone, Copy, Debug, PartialEq, Eq, Structural)]
pub enum FlushStep {
    /// Go on; this many bytes have been taken in all.
    Continue(usize),
    /// Stop and keep the rest for later.
    Stop,
    /// The channel took nothing: it is closed.
    Closed,
    /// Pass the channel's error on.
    Fail,
}

/// Decides what a flush of `len` bytes does after the channel answered `o`
/// to a write of the last `len - written` of them: a write of zero bytes
/// means the channel is closed, a positive one adds to the bytes taken,
/// `WouldBlock` stops the flush and any other error fails it.
pub fn flush_step(written: usize, len: usize, o: WriteOutcome) -> (r: FlushStep)
    requires
        written < len,
        o matches WriteOutcome::Wrote(n) ==> n <= len - written,
    ensures
        o matches WriteOutcome::Wrote(n) ==> (if n == 0 {
            r == FlushStep::Closed
        } else {
            r == FlushStep::Continue((written + n) as usize)
        }),
        o == WriteOutcome::WouldBlock ==> r == FlushStep::Stop,
        o == WriteOutcome::Failed ==> r == FlushStep::Fail,
{
    match o {
        WriteOutcome::Wrote(n) => if n == 0 {
            FlushStep::Closed
        } else {
            FlushStep::Continue(written + n)
        },
        WriteOutcome::WouldBlock => FlushStep::Stop,
        WriteOutcome::Failed => FlushStep::Fail,
    }
}

/// Bytes a channel has taken of `len` pending ones after answering the
/// writes with `answers`, each given the bytes not yet taken, when every
/// answer took some of them without reaching the end; `None` otherwise.
pub open spec fn taken_by(len: nat, answers: Seq<WriteOutcome>) -> Option<nat>
    decreases answers.len(),
{
    if answers.len() == 0 {
        Some(0)
    } else {
        match taken_by(len, answers.drop_last()) {
            Some(t) => match answers.last() {
                WriteOutcome::Wrote(n) => if 0 < n && t + n < len { Some((t + n) as nat) } else { None },
                _ => None,
            },
            None => None,
        }
    }
}

/// How a flush of `len` pending bytes ends when the channel answers its
/// writes with `answers`: whether it succeeds and how many bytes the channel
/// took. The flush writes the bytes not yet taken until all are taken, the
/// channel would block or fails, or takes nothing. `None` when `answers` is
/// not the whole of such a run.
pub open spec fn flush_run(len: nat, answers: Seq<WriteOutcome>) -> Option<(bool, nat)> {
    if answers.len() == 0 {
        if len == 0 { Some((true, 0)) } else { None }
    } else {
        match taken_by(len, answers.drop_last()) {
            Some(t) => if len <= t {
                None
            } else {
                match answers.last() {
                    WriteOutcome::Wrote(n) => if n == 0 {
                        Some((false, 0))
                    } else if t + n == len {
                        Some((true, len))
                    } else {
                        None
                    },
                    WriteOutcome::WouldBlock => Some((true, t)),
                    WriteOutcome::Failed => Some((false, 0)),
                }
            },
            None => None,
        }
    }
}

/// The flush of `p` ends as `answers` make it end: `ok` tells whether it
/// succeeds and `kept` is what stays pending afterwards: the bytes the
/// channel did not take on success, all of `p` on failure.
pub open spec fn flush_ends(p: Seq<u8>, answers: Seq<WriteOutcome>, ok: bool, kept: Seq<u8>) -> bool {
    match flush_run(p.len(), answers) {
        Some((o, k)) => o == ok && kept == (if o { p.skip(k as int) } else { p }),
        None => false,
    }
}

/// Bytes the channel reported taking over all of `answers`.
pub open spec fn total_written(answers: Seq<WriteOutcome>) -> nat
    decreases answers.len(),
{
    if answers.len() == 0 {
        0
    } else {
        total_written(answers.drop_last()) + match answers.last() {
            WriteOutcome::Wrote(n) => n as nat,
            _ => 0nat,
        }
    }
}

proof fn lemma_taken_is_total(len: nat, answers: Seq<WriteOutcome>)
    requires
        taken_by(len, answers) is Some,
    ensures
        taken_by(len, answers) == Some(total_written(answers)),
    decreases answers.len(),
{
    if answers.len() > 0 {
        lemma_taken_is_total(len, answers.drop_last());
    }
}

/// The answers among the recorded writes `calls`.
pub open spec fn answers_of(calls: Seq<(Seq<u8>, WriteOutcome, Option<std::io::Error>)>) -> Seq<WriteOutcome> {
    calls.map_values(|c: (Seq<u8>, WriteOutcome, Option<std::io::Error>)| c.1)
}

/// The writes recorded on a channel between its records `before` and
/// `after`.
pub open spec fn writes_since(before: Seq<(Seq<u8>, WriteOutcome, Option<std::io::Error>)>, after: Seq<(Seq<u8>, WriteOutcome, Option<std::io::Error>)>)
    -> Seq<(Seq<u8>, WriteOutcome, Option<std::io::Error>)> {
    after.skip(before.len() as int)
}

/// Each write of `calls` was given the part of `p` after the bytes the
/// writes before it reported taking.
pub open spec fn each_write_gets_the_rest(p: Seq<u8>, calls: Seq<(Seq<u8>, WriteOutcome, Option<std::io::Error>)>) -> bool {
    forall|j: int| 0 <= j < calls.len()
        ==> (#[trigger] calls[j]).0 == p.skip(total_written(answers_of(calls).take(j)) as int)
}

/// The bytes the writes `calls` delivered, in order: for each write that
/// reported taking `n` bytes, the first `n` bytes it was given.
pub open spec fn delivered(calls: Seq<(Seq<u8>, WriteOutcome, Option<std::io::Error>)>) -> Seq<u8>
    decreases calls.len(),
{
    if calls.len() == 0 {
        Seq::empty()
    } else {
        delivered(calls.drop_last()) + match calls.last().1 {
            WriteOutcome::Wrote(n) => calls.last().0.take(n as int),
            _ => Seq::empty(),
        }
    }
}

proof fn lemma_delivered_prefix(p: Seq<u8>, calls: Seq<(Seq<u8>, WriteOutcome, Option<std::io::Error>)>)
    requires
        each_write_gets_the_rest(p, calls),
        taken_by(p.len(), answers_of(calls)) is Some,
    ensures
        delivered(calls) == p.take(total_written(answers_of(calls)) as int),
        total_written(answers_of(calls)) <= p.len(),
    decreases calls.len(),
{
    lemma_taken_is_total(p.len(), answers_of(calls));
    if calls.len() > 0 {
        let c = calls.drop_last();
        let n = calls.len() - 1;
        assert(answers_of(c) =~= answers_of(calls).drop_last());
        assert forall|j: int| 0 <= j < c.len() implies (#[trigger] c[j]).0
            == p.skip(total_written(answers_of(c).take(j)) as int) by {
            assert(answers_of(c).take(j) =~= answers_of(calls).take(j));
            assert(c[j] == calls[j]);
        }
        lemma_delivered_prefix(p, c);
        let t = total_written(answers_of(c));
        assert(answers_of(calls).take(n) =~= answers_of(c));
        assert(calls[n].0 == p.skip(t as int));
        assert(calls.last() == calls[n]);
        assert(answers_of(calls).last() == calls.last().1);
        if let WriteOutcome::Wrote(k) = calls.last().1 {
            assert(p.take(t as int) + p.skip(t as int).take(k as int) =~= p.take(t + k));
        }
    }
}

/// A flush delivers every byte once and in order: the bytes its writes
/// delivered are the start of `p`, as many as the channel reported taking;
/// on success they and what stays pending make up `p` again, and something
/// stays pending only when the channel stopped the flush with `WouldBlock`;
/// on failure all of `p` stays pending.
pub proof fn law_flush_delivers_once(p: Seq<u8>, calls: Seq<(Seq<u8>, WriteOutcome, Option<std::io::Error>)>, ok: bool, kept: Seq<u8>)
    requires
        flush_ends(p, answers_of(calls), ok, kept),
        each_write_gets_the_rest(p, calls),
    ensures
        delivered(calls) == p.take(total_written(answers_of(calls)) as int),
        ok ==> p == delivered(calls) + kept,
        !ok ==> kept == p,
        ok && kept.len() > 0 ==> calls.last().1 == WriteOutcome::WouldBlock,
{
    if calls.len() == 0 {
        assert(p.take(0) =~= Seq::<u8>::empty());
    } else {
        let c = calls.drop_last();
        let n = calls.len() - 1;
        assert(answers_of(c) =~= answers_of(calls).drop_last());
        assert forall|j: int| 0 <= j < c.len() implies (#[trigger] c[j]).0
            == p.skip(total_written(answers_of(c).take(j)) as int) by {
            assert(answers_of(c).take(j) =~= answers_of(calls).take(j));
            assert(c[j] == calls[j]);
        }
        lemma_delivered_prefix(p, c);
        let t = total_written(answers_of(c));
        assert(answers_of(calls).take(n) =~= answers_of(c));
        assert(calls[n].0 == p.skip(t as int));
        assert(calls.last() == calls[n]);
        assert(answers_of(calls).last() == calls.last().1);
        lemma_taken_is_total(p.len(), answers_of(c));
        assert(taken_by(p.len(), answers_of(calls).drop_last()) == Some(t));
        if let WriteOutcome::Wrote(k) = calls.last().1 {
            assert(k == 0 || t + k == p.len());
            assert(p.take(t as int) + p.skip(t as int).take(k as int) =~= p.take(t + k));
        } else {
            assert(p.take(t as int) + Seq::<u8>::empty() =~= p.take(t as int));
        }
        assert(total_written(answers_of(calls)) <= p.len());
        if ok {
            let k = total_written(answers_of(calls));
            assert(p =~= p.take(k as int) + p.skip(k as int));
        }
    }
}

/// Writes as much of `pending` into `channel` as the channel takes, keeping
/// the rest for the next call. Each write is given the bytes not yet taken;
/// `flush_step` decides what follows each answer. A `WouldBlock` stops early
/// with the remainder kept; a write of zero bytes is reported as a
/// `WriteZero` error; any other error is passed on. On an error `pending` is
/// left untouched. Writing is all that is done on the channel.
pub fn flush_pending<W: Write>(channel: &mut Channel<W>, pending: &mut Vec<u8>) -> (r: std::io::Result<()>)
    ensures
        final(channel).log@.len() >= old(channel).log@.len(),
        final(channel).log@.take(old(channel).log@.len() as int) == old(channel).log@,
        flush_ends(old(pending)@, answers_of(writes_since(old(channel).log@, final(channel).log@)),
            r is Ok, final(pending)@),
        each_write_gets_the_rest(old(pending)@, writes_since(old(channel).log@, final(channel).log@)),
        r is Err ==> final(pending)@ == old(pending)@,
        r matches Err(e) ==> (final(channel).log@.last().1 == WriteOutcome::Failed
            ==> final(channel).log@.last().2 == Some(e)),
        old(pending)@.len() == 0 ==> r is Ok && final(pending)@ == old(pending)@
            && final(channel).log@ == old(channel).log@,
{
    let ghost p = pending@;
    let ghost start = channel.log@;
    let ghost mut calls: Seq<(Seq<u8>, WriteOutcome, Option<std::io::Error>)> = Seq::empty();
    let mut written: usize = 0;
    let mut stopped = false;
    proof {
        assert(start + calls =~= start);
    }
    while written < pending.len() && !stopped
        invariant
            written <= pending@.len(),
            pending@ == p,
            p == old(pending)@,
            start == old(channel).log@,
            channel.log@ == start + calls,
            each_write_gets_the_rest(p, calls),
            !stopped ==> taken_by(p.len(), answers_of(calls)) == Some(written as nat),
            stopped ==> flush_run(p.len(), answers_of(calls)) == Some((true, written as nat)),
        decreases pending@.len() - written + (if stopped { 0int } else { 1int }),
    {
        let rest = vstd::slice::slice_subrange(pending.as_slice(), written, pending.len());
        let (outcome, failure) = write_logged(channel, rest);
        let ghost before = calls;
        proof {
            calls = calls.push((rest@, outcome, failure));
            assert(channel.log@ =~= start + calls);
            assert(answers_of(calls).drop_last() =~= answers_of(before));
            assert(answers_of(calls).last() == outcome);
            lemma_taken_is_total(p.len(), answers_of(before));
            assert(rest@ =~= p.skip(written as int));
            assert forall|j: int| 0 <= j < calls.len() implies (#[trigger] calls[j]).0
                == p.skip(total_written(answers_of(calls).take(j)) as int) by {
                if j < before.len() {
                    assert(answers_of(calls).take(j) =~= answers_of(before).take(j));
                    assert(calls[j] == before[j]);
                } else {
                    assert(answers_of(calls).take(j) =~= answers_of(before));
                }
            }
        }
        match flush_step(written, pending.len(), outcome) {
            FlushStep::Continue(w) => {
                written = w;
                if written == pending.len() {
                    stopped = true;
                }
            },
            FlushStep::Stop => {
                stopped = true;
            },
            FlushStep::Closed => {
                let r: std::io::Result<()> = Err(channel_closed_error());
                assert(writes_since(start, channel.log@) =~= calls);
                assert(channel.log@.take(start.len() as int) =~= start);
                assert(flush_ends(old(pending)@, answers_of(calls), r is Ok, pending@));
                return r;
            },
            FlushStep::Fail => {
                let r: std::io::Result<()> = Err(failure.unwrap());
                assert(writes_since(start, channel.log@) =~= calls);
                assert(channel.log@.take(start.len() as int) =~= start);
                assert(flush_ends(old(pending)@, answers_of(calls), r is Ok, pending@));
                return r;
            },
        }
    }
    if written > 0 {
        drop_front(pending, written);
    }
    proof {
        if written == 0 {
            assert(pending@ =~= p.skip(0));
        }
        assert(writes_since(start, channel.log@) =~= calls);
        assert(channel.log@.take(start.len() as int) =~= start);
    }
    let r: std::io::Result<()> = Ok(());
    assert(flush_ends(old(pending)@, answers_of(calls), r is Ok, pending@));
    r
}

} // verus!

verus! {

/// Connection settings for one SSH login.
#[derive(Clone)]
pub struct ConnectConfig {
    pub username: String,
    pub password: String,
    pub private_key_path: String,
    pub host: String,
    pub port: i32,
    /// Seconds to wait for the TCP connection and the SSH handshake.
    pub timeout_secs: u64,
    pub device: String,
}

/// Seconds to wait for the TCP connection and SSH handshake.
pub const CONNECT_TIMEOUT_SECS: u64 = 10;

/// The part of a path after its last `/` (the whole path when it has none).
pub open spec fn last_segment(s: Seq<char>) -> Seq<char>
    decreases s.len(),
{
    if s.len() == 0 {
        s
    } else if s.last() == '/' {
        Seq::empty()
    } else {
        last_segment(s.drop_last()).push(s.last())
    }
}

/// How a machine authenticates, as shown on the connect card: the key
/// file's name, `password`, or `none`.
pub open spec fn auth_label(m: Machine) -> Seq<char> {
    if !empty_field(m.private_key_path@) {
        last_segment(m.private_key_path@)
    } else if !empty_field(m.password@) {
        "password"@
    } else {
        "none"@
    }
}

/// The field with the placeholder `"-"` read as empty.
pub open spec fn unplaceholder(s: Seq<char>) -> Seq<char> {
    if s == seq!['-'] { Seq::empty() } else { s }
}

/// The last path segment of `s`.
pub fn last_path_segment(s: &str) -> (r: String)
    ensures
        r@ == last_segment(s@),
{
    let v = crate::text::str_chars(s);
    let mut out: Vec<char> = Vec::new();
    let mut i: usize = 0;
    while i < v.len()
        invariant
            v@ == s@,
            i <= v.len(),
            out@ == last_segment(v@.take(i as int)),
        decreases v.len() - i,
    {
        assert(v@.take(i as int + 1).drop_last() =~= v@.take(i as int));
        if v[i] == '/' {
            out = Vec::new();
        } else {
            out.push(v[i]);
        }
        i = i + 1;
    }
    assert(v@.take(v.len() as int) =~= v@);
    crate::text::string_of(&out)
}

/// The authentication label shown on the connect card for `m`.
pub fn auth_method_label(m: &Machine) -> (r: String)
    ensures
        r@ == auth_label(*m),
{
    if !Machine::is_empty_field(m.private_key_path.as_str()) {
        last_path_segment(m.private_key_path.as_str())
    } else if !Machine::is_empty_field(m.password.as_str()) {
        crate::text::owned("password")
    } else {
        crate::text::owned("none")
    }
}

fn without_placeholder(s: &String) -> (r: String)
    ensures
        r@ == unplaceholder(s@),
{
    if crate::text::is_dash(s.as_str()) {
        String::new()
    } else {
        s.clone()
    }
}

/// Connection settings for logging in to `m`: its login target and port,
/// credentials with the placeholder read as empty, a ten second timeout.
pub fn connect_config_for(m: &Machine) -> (r: ConnectConfig)
    ensures
        r.username@ == m.username@,
        r.password@ == unplaceholder(m.password@),
        r.private_key_path@ == unplaceholder(m.private_key_path@),
        r.host@ == m.target(),
        r.port == m.port,
        r.timeout_secs == CONNECT_TIMEOUT_SECS,
        r.device@ == m.device@,
{
    ConnectConfig {
        username: m.username.clone(),
        password: without_placeholder(&m.password),
        private_key_path: without_placeholder(&m.private_key_path),
        host: crate::text::owned(m.effective_host()),
        port: m.port,
        timeout_secs: CONNECT_TIMEOUT_SECS,
        device: m.device.clone(),
    }
}

/// Seconds the file browser waits for its SSH connection.
pub const BROWSER_TIMEOUT_SECS: u64 = 5;

/// Connection settings for the file browser's sessions to `m`: as for a
/// login, with a five second timeout.
pub fn browser_config_for(m: &Machine) -> (r: ConnectConfig)
    ensures
        r.username@ == m.username@,
        r.password@ == unplaceholder(m.password@),
        r.private_key_path@ == unplaceholder(m.private_key_path@),
        r.host@ == m.target(),
        r.port == m.port,
        r.timeout_secs == BROWSER_TIMEOUT_SECS,
        r.device@ == m.device@,
{
    let mut c = connect_config_for(m);
    c.timeout_secs = BROWSER_TIMEOUT_SECS;
    c
}

/// How a session authenticates.
#[derive(Debug, Clone, Copy, PartialEq, Eq, Structural)]
pub enum AuthKind {
    /// With the private key file.
    Key,
    /// With the password.
    Password,
    /// Through the SSH agent.
    Agent,
}

/// The key file when one is given, else the password when one is given,
/// else the agent.
pub fn auth_kind(config: &ConnectConfig) -> (r: AuthKind)
    ensures
        config.private_key_path@.len() > 0 ==> r == AuthKind::Key,
        config.private_key_path@.len() == 0 && config.password@.len() > 0 ==> r == AuthKind::Password,
        config.private_key_path@.len() == 0 && config.password@.len() == 0 ==> r == AuthKind::Agent,
{
    if !config.private_key_path.as_str().is_empty() {
        AuthKind::Key
    } else if !config.password.as_str().is_empty() {
        AuthKind::Password
    } else {
        AuthKind::Agent
    }
}

/// The `host:port` address to connect to.
pub fn target_address(config: &ConnectConfig) -> (r: String)
    ensures
        r@ == config.host@ + seq![':'] + crate::text::dec_int(config.port as int),
{
    let mut out: Vec<char> = Vec::new();
    crate::text::push_str(&mut out, config.host.as_str());
    out.push(':');
    crate::text::push_dec_i64(&mut out, config.port as i64);
    crate::text::string_of(&out)
}

/// Shell command sent after login on Linux machines, which tags the prompt
/// with the host; `None` for other devices.
pub fn prompt_command(config: &ConnectConfig) -> (r: Option<String>)
    ensures
        config.device@ == "Linux"@ ==> (r matches Some(c) && c@ == "export PS1=\"["@ + config.host@ + "] $PS1\"\n"@),
        config.device@ != "Linux"@ ==> r is None,
{
    if crate::text::str_eq(config.device.as_str(), "Linux") {
        let mut out: Vec<char> = Vec::new();
        crate::text::push_str(&mut out, "export PS1=\"[");
        crate::text::push_str(&mut out, config.host.as_str());
        crate::text::push_str(&mut out, "] $PS1\"\n");
        Some(crate::text::string_of(&out))
    } else {
        None
    }
}

/// True when `n` more buffered keystrokes would exceed the pending-input
/// bound, which means the session is not absorbing input at all.
pub fn pending_input_overflows(pending_len: usize, n: usize) -> (r: bool)
    ensures
        r == (pending_len + n > MAX_PENDING_INPUT),
{
    pending_len > MAX_PENDING_INPUT || n > MAX_PENDING_INPUT - pending_len
}

} // verus!

verus! {

/// How an interactive session ended.
#[derive(PartialEq, Eq, Structural, Clone, Copy, Debug)]
pub enum SessionEnd {
    /// The remote side or the user closed the session.
    Normal,
    /// The connection was lost.
    Disconnected,
}

/// What draining the channel's readable data reported.
#[derive(PartialEq, Eq, Structural, Clone, Copy, Debug)]
pub enum DrainOutcome {
    /// The channel reached end of file.
    Eof,
    /// Everything buffered was read; more may come later.
    WouldBlock,
    /// Reading or forwarding failed.
    Failed,
}

/// What one read from the channel answered.
#[derive(PartialEq, Eq, Structural, Clone, Copy, Debug)]
pub enum ReadOutcome {
    /// This many bytes were read.
    Read(usize),
    /// Nothing is buffered right now.
    WouldBlock,
    /// Any other error.
    Failed,
}

/// What draining does after one read.
#[derive(PartialEq, Eq, Structural, Clone, Copy, Debug)]
pub enum DrainStep {
    /// End of file: stop and report it.
    Eof,
    /// Forward the first this many bytes read, then read again.
    Forward(usize),
    /// Everything buffered was read: stop and report no end of file.
    Stop,
    /// Pass the read error on.
    Fail,
}

/// Decides what draining the channel does after a read: only a read of zero
/// bytes is end of file; a read of some bytes forwards them and goes on;
/// `WouldBlock` stops without end of file; any other error is passed on.
pub fn drain_step(r: ReadOutcome) -> (s: DrainStep)
    ensures
        s == (match r {
            ReadOutcome::Read(n) => if n == 0 { DrainStep::Eof } else { DrainStep::Forward(n) },
            ReadOutcome::WouldBlock => DrainStep::Stop,
            ReadOutcome::Failed => DrainStep::Fail,
        }),
{
    match r {
        ReadOutcome::Read(n) => if n == 0 { DrainStep::Eof } else { DrainStep::Forward(n) },
        ReadOutcome::WouldBlock => DrainStep::Stop,
        ReadOutcome::Failed => DrainStep::Fail,
    }
}

/// The session loop's decision after draining the channel: end of file ends
/// the session normally and a failure disconnects it, whatever the poll
/// flags say; only then does a hangup on the SSH socket count as a lost
/// connection and a hangup on standard input as a normal end.
pub fn after_drain(drain: DrainOutcome, session_hangup: bool, stdin_hangup: bool) -> (r: Option<SessionEnd>)
    ensures
        drain == DrainOutcome::Eof ==> r == Some(SessionEnd::Normal),
        drain == DrainOutcome::Failed ==> r == Some(SessionEnd::Disconnected),
        drain == DrainOutcome::WouldBlock ==> r == (if session_hangup {
            Some(SessionEnd::Disconnected)
        } else if stdin_hangup {
            Some(SessionEnd::Normal)
        } else {
            None
        }),
{
    match drain {
        DrainOutcome::Eof => Some(SessionEnd::Normal),
        DrainOutcome::Failed => Some(SessionEnd::Disconnected),
        DrainOutcome::WouldBlock => {
            if session_hangup {
                Some(SessionEnd::Disconnected)
            } else if stdin_hangup {
                Some(SessionEnd::Normal)
            } else {
                None
            }
        },
    }
}

/// Reconnection attempts made after a lost connection before giving up.
pub const MAX_RECONNECT_ATTEMPTS: u32 = 3;

/// Reconnection bookkeeping across the sessions of one login.
pub struct Reconnect {
    /// Connections lost so far.
    pub retry: u32,
    /// Why the last reconnection attempt failed, if it did.
    pub last_error: Option<String>,
}

/// What to do once a session has ended.
pub enum ReconnectStep {
    /// The session ended normally: the login is over.
    Finished,
    /// Show this notice and wait for a key before reconnecting.
    Prompt(String),
    /// Every attempt is used up: fail the login with this message.
    GiveUp(String),
}

/// Notice shown when connection `attempt` of the allowed attempts is lost.
pub open spec fn lost_notice(attempt: nat) -> Seq<char> {
    "\r\n\x1b[2mConnection lost. Press any key to reconnect... (attempt "@ + dec(attempt) + seq!['/']
        + dec(MAX_RECONNECT_ATTEMPTS as nat) + ")\x1b[0m\r\n"@
}

/// Message the login fails with once every attempt is used up.
pub open spec fn give_up_message(last_error: Option<Seq<char>>) -> Seq<char> {
    match last_error {
        Some(e) => "Connection lost. "@ + dec(MAX_RECONNECT_ATTEMPTS as nat)
            + " reconnection attempts failed (last error: "@ + e + ")."@,
        None => "Connection lost. All "@ + dec(MAX_RECONNECT_ATTEMPTS as nat)
            + " reconnection attempts failed."@,
    }
}

/// Notice shown when a reconnection attempt fails with `err`.
pub open spec fn reconnect_failed_notice(err: Seq<char>) -> Seq<char> {
    "\r\n\x1b[31mReconnect failed: "@ + err + "\x1b[0m\r\n"@
}

/// The text of an optional error.
pub open spec fn error_text(e: Option<String>) -> Option<Seq<char>> {
    match e {
        Some(s) => Some(s@),
        None => None,
    }
}

/// What the end `end` of a session does, taking the bookkeeping from
/// `before` to `after` with `step`: a normal end finishes the login; a lost
/// connection counts one more attempt and prompts for a reconnect while
/// attempts remain (naming the attempt), then gives up naming the last error.
pub open spec fn session_end_effect(before: Reconnect, end: SessionEnd, after: Reconnect, step: ReconnectStep) -> bool {
    &&& after.last_error == before.last_error
    &&& match end {
        SessionEnd::Normal => step is Finished && after.retry == before.retry,
        SessionEnd::Disconnected => {
            &&& after.retry == before.retry + 1
            &&& if before.retry < MAX_RECONNECT_ATTEMPTS {
                step matches ReconnectStep::Prompt(msg) && msg@ == lost_notice(after.retry as nat)
            } else {
                step matches ReconnectStep::GiveUp(msg) && msg@ == give_up_message(error_text(before.last_error))
            }
        },
    }
}

/// What reporting a reconnection attempt's outcome `err` does, taking the
/// bookkeeping from `before` to `after` with `notice`: the attempt count
/// stays; a failure is remembered and announced, a success forgets the
/// last error.
pub open spec fn reconnect_result_effect(before: Reconnect, err: Option<String>, after: Reconnect,
    notice: Option<String>) -> bool {
    &&& after.retry == before.retry
    &&& match err {
        Some(e) => after.last_error == Some(e) && (notice matches Some(n) && n@ == reconnect_failed_notice(e@)),
        None => after.last_error is None && notice is None,
    }
}

impl Reconnect {
    /// The state of a fresh login: nothing lost, no error.
    pub fn new() -> (r: Reconnect)
        ensures
            r.retry == 0,
            r.last_error is None,
    {
        Reconnect { retry: 0, last_error: None }
    }

    /// Decides what follows the end of a session. A normal end finishes
    /// the login; a lost connection counts one attempt and prompts for a
    /// reconnect while attempts remain, then gives up.
    pub fn on_session_end(&mut self, end: SessionEnd) -> (r: ReconnectStep)
        requires
            old(self).retry <= MAX_RECONNECT_ATTEMPTS,
        ensures
            session_end_effect(*old(self), end, *final(self), r),
    {
        match end {
            SessionEnd::Normal => ReconnectStep::Finished,
            SessionEnd::Disconnected => {
                self.retry = self.retry + 1;
                let mut out: Vec<char> = Vec::new();
                if self.retry > MAX_RECONNECT_ATTEMPTS {
                    match &self.last_error {
                        Some(e) => {
                            crate::text::push_str(&mut out, "Connection lost. ");
                            crate::text::push_dec(&mut out, MAX_RECONNECT_ATTEMPTS as u128);
                            crate::text::push_str(&mut out, " reconnection attempts failed (last error: ");
                            crate::text::push_str(&mut out, e.as_str());
                            crate::text::push_str(&mut out, ").");
                        },
                        None => {
                            crate::text::push_str(&mut out, "Connection lost. All ");
                            crate::text::push_dec(&mut out, MAX_RECONNECT_ATTEMPTS as u128);
                            crate::text::push_str(&mut out, " reconnection attempts failed.");
                        },
                    }
                    assert(out@ =~= give_up_message(error_text(old(self).last_error)));
                    ReconnectStep::GiveUp(crate::text::string_of(&out))
                } else {
                    crate::text::push_str(&mut out, "\r\n\x1b[2mConnection lost. Press any key to reconnect... (attempt ");
                    crate::text::push_dec(&mut out, self.retry as u128);
                    out.push('/');
                    crate::text::push_dec(&mut out, MAX_RECONNECT_ATTEMPTS as u128);
                    crate::text::push_str(&mut out, ")\x1b[0m\r\n");
                    assert(out@ =~= lost_notice(self.retry as nat));
                    ReconnectStep::Prompt(crate::text::string_of(&out))
                }
            },
        }
    }

    /// Records the outcome of a reconnection attempt: a success clears the
    /// last error, a failure keeps its message and returns the notice to show.
    pub fn on_reconnect_result(&mut self, err: Option<String>) -> (r: Option<String>)
        ensures
            reconnect_result_effect(*old(self), err, *final(self), r),
    {
        match err {
            Some(e) => {
                let mut out: Vec<char> = Vec::new();
                crate::text::push_str(&mut out, "\r\n\x1b[31mReconnect failed: ");
                crate::text::push_str(&mut out, e.as_str());
                crate::text::push_str(&mut out, "\x1b[0m\r\n");
                assert(out@ =~= reconnect_failed_notice(e@));
                self.last_error = Some(e);
                Some(crate::text::string_of(&out))
            },
            None => {
                self.last_error = None;
                None
            },
        }
    }
}

/// A login whose connection keeps being lost, with each reconnection
/// attempt reported in between, is offered a reconnect after the first,
/// second and third loss (naming the attempt) and gives up at the fourth,
/// naming the error of the last attempt.
pub proof fn law_reconnect_gives_up(
    r0: Reconnect, a1: Reconnect, b1: Reconnect, a2: Reconnect, b2: Reconnect, a3: Reconnect, b3: Reconnect,
    a4: Reconnect, s1: ReconnectStep, s2: ReconnectStep, s3: ReconnectStep, s4: ReconnectStep,
    e1: Option<String>, e2: Option<String>, e3: Option<String>,
    n1: Option<String>, n2: Option<String>, n3: Option<String>,
)
    requires
        r0.retry == 0,
        session_end_effect(r0, SessionEnd::Disconnected, a1, s1),
        reconnect_result_effect(a1, e1, b1, n1),
        session_end_effect(b1, SessionEnd::Disconnected, a2, s2),
        reconnect_result_effect(a2, e2, b2, n2),
        session_end_effect(b2, SessionEnd::Disconnected, a3, s3),
        reconnect_result_effect(a3, e3, b3, n3),
        session_end_effect(b3, SessionEnd::Disconnected, a4, s4),
    ensures
        s1 matches ReconnectStep::Prompt(m) && m@ == lost_notice(1),
        s2 matches ReconnectStep::Prompt(m) && m@ == lost_notice(2),
        s3 matches ReconnectStep::Prompt(m) && m@ == lost_notice(3),
        s4 matches ReconnectStep::GiveUp(m) && m@ == give_up_message(error_text(e3)),
{
}

/// The bookkeeping of a login whose `n` sessions all lost the connection:
/// `before[i]` and `after[i]` surround the end of session `i`, which answered
/// `steps[i]`, and each reconnection attempt in between was reported.
pub open spec fn lost_run(before: Seq<Reconnect>, after: Seq<Reconnect>, steps: Seq<ReconnectStep>,
    errs: Seq<Option<String>>, notices: Seq<Option<String>>) -> bool {
    &&& before.len() == after.len() && after.len() == steps.len()
    &&& errs.len() == steps.len() && notices.len() == steps.len()
    &&& forall|i: int| 0 <= i < steps.len()
        ==> #[trigger] session_end_effect(before[i], SessionEnd::Disconnected, after[i], steps[i])
    &&& forall|i: int| 0 <= i < steps.len() - 1
        ==> #[trigger] reconnect_result_effect(after[i], errs[i], before[i + 1], notices[i])
}

proof fn lemma_lost_run_counts(before: Seq<Reconnect>, after: Seq<Reconnect>, steps: Seq<ReconnectStep>,
    errs: Seq<Option<String>>, notices: Seq<Option<String>>, k: int)
    requires
        lost_run(before, after, steps, errs, notices),
        before.len() > 0,
        before[0].retry == 0,
        0 <= k < steps.len(),
    ensures
        after[k].retry == k + 1,
        before[k].retry == k,
    decreases k,
{
    assert(session_end_effect(before[k], SessionEnd::Disconnected, after[k], steps[k]));
    if k > 0 {
        lemma_lost_run_counts(before, after, steps, errs, notices, k - 1);
        assert(reconnect_result_effect(after[k - 1], errs[k - 1], before[k], notices[k - 1]));
    }
}

/// However often a fresh login loses its connection, each loss counts one
/// attempt: the first three losses offer a reconnect naming the attempt,
/// and every later one gives up, so at most three reconnections are tried
/// and a session is opened at most four times.
pub proof fn law_reconnect_bounded(before: Seq<Reconnect>, after: Seq<Reconnect>, steps: Seq<ReconnectStep>,
    errs: Seq<Option<String>>, notices: Seq<Option<String>>)
    requires
        lost_run(before, after, steps, errs, notices),
        before.len() > 0,
        before[0].retry == 0,
    ensures
        forall|i: int| 0 <= i < steps.len() ==> (#[trigger] after[i]).retry == i + 1,
        forall|i: int| 0 <= i < steps.len() && i < MAX_RECONNECT_ATTEMPTS ==>
            (#[trigger] steps[i] matches ReconnectStep::Prompt(m) && m@ == lost_notice((i + 1) as nat)),
        forall|i: int| 0 <= i < steps.len() && i >= MAX_RECONNECT_ATTEMPTS ==>
            (#[trigger] steps[i] is GiveUp),
{
    assert forall|i: int| 0 <= i < steps.len() implies (#[trigger] after[i]).retry == i + 1 by {
        lemma_lost_run_counts(before, after, steps, errs, notices, i);
    }
    assert forall|i: int| 0 <= i < steps.len() && i < MAX_RECONNECT_ATTEMPTS implies
        (#[trigger] steps[i] matches ReconnectStep::Prompt(m) && m@ == lost_notice((i + 1) as nat)) by {
        lemma_lost_run_counts(before, after, steps, errs, notices, i);
        assert(session_end_effect(before[i], SessionEnd::Disconnected, after[i], steps[i]));
    }
    assert forall|i: int| 0 <= i < steps.len() && i >= MAX_RECONNECT_ATTEMPTS implies
        (#[trigger] steps[i] is GiveUp) by {
        lemma_lost_run_counts(before, after, steps, errs, notices, i);
        assert(session_end_effect(before[i], SessionEnd::Disconnected, after[i], steps[i]));
    }
}

} // verus!
