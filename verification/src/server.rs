//! Decisions of the SSH/SFTP server: who may log in, which subsystems are
//! served, where a user's shell starts and how SFTP paths and handles are
//! formed.

use vstd::prelude::*;
use std::sync::Arc;
use subtle::ConstantTimeEq;
use crate::config::{ServerConfig, UserConfig};
use crate::browser::{join_path, path_join};
use crate::text::{dec, owned, push_dec, push_str, str_chars, string_of, trimmed};

verus! {

/// The server: a shared configuration that every client handler reads.
pub struct MinishellServer {
    pub config: Arc<ServerConfig>,
}

impl MinishellServer {
    /// A server for `config`.
    pub fn new(config: Arc<ServerConfig>) -> (r: MinishellServer)
        ensures
            r.config == config,
    {
        MinishellServer { config }
    }
}

/// `ConstantTimeEq::ct_eq` on byte slices (subtle), turned into a `bool`:
/// true exactly when the slices have the same length and the same bytes.
#[verifier::external_body]
fn bytes_equal_ct(a: &[u8], b: &[u8]) -> (r: bool)
    ensures
        r == (a@ == b@),
{
    a.ct_eq(b).into()
}

/// True when `password` is the configured password of the first user
/// named `user`.
pub open spec fn password_ok(users: Seq<UserConfig>, user: Seq<char>, password: Seq<char>) -> bool {
    match crate::config::user_index(users, user) {
        Some(i) => users[i].password matches Some(p) && p@ == password,
        None => false,
    }
}

/// Checks a password login, comparing in constant time.
pub fn check_password(config: &ServerConfig, user: &str, password: &str) -> (r: bool)
    ensures
        r == password_ok(config.auth.users@, user@, password@),
{
    broadcast use vstd::utf8::encode_utf8_decode_utf8;
    match config.find_user(user) {
        Some(u) => {
            let ghost users = config.auth.users@;
            proof {
                let i = choose|i: int| 0 <= i < users.len() && users[i] == *u
                    && u.username@ == user@
                    && forall|j: int| 0 <= j < i ==> #[trigger] users[j].username@ != user@;
                assert(crate::config::user_index(users, user@) == Some(i));
            }
            match &u.password {
                Some(expected) => {
                    let a = expected.as_str().as_bytes();
                    let b = password.as_bytes();
                    let same = bytes_equal_ct(a, b);
                    proof {
                        if a@ == b@ {
                            assert(vstd::utf8::decode_utf8(vstd::utf8::encode_utf8(expected@)) == expected@);
                            assert(vstd::utf8::decode_utf8(vstd::utf8::encode_utf8(password@)) == password@);
                        }
                    }
                    a.len() == b.len() && same
                },
                None => false,
            }
        },
        None => false,
    }
}

/// Home directory of a login user: `/root` for root, `/home/<name>` otherwise.
pub open spec fn home_of(username: Seq<char>) -> Seq<char> {
    if username == "root"@ { "/root"@ } else { "/home/"@ + username }
}

/// The home directory a user's shell starts in.
pub fn get_home(username: &str) -> (r: String)
    ensures
        r@ == home_of(username@),
{
    if crate::text::str_eq(username, "root") {
        return owned("/root");
    }
    let mut out: Vec<char> = Vec::new();
    push_str(&mut out, "/home/");
    push_str(&mut out, username);
    string_of(&out)
}

/// Whether a subsystem request is granted: only `sftp`, only after login.
pub fn subsystem_allowed(name: &str, authenticated: bool) -> (r: bool)
    ensures
        r == (name@ == "sftp"@ && authenticated),
{
    authenticated && crate::text::str_eq(name, "sftp")
}

/// Advances the handle counter and names the new handle `h<n>`.
pub fn next_handle(counter: &mut u64) -> (r: String)
    requires
        *old(counter) < u64::MAX,
    ensures
        *final(counter) == *old(counter) + 1,
        r@ == seq!['h'] + dec(*final(counter) as nat),
{
    *counter = *counter + 1;
    let mut out: Vec<char> = Vec::new();
    out.push('h');
    push_dec(&mut out, *counter as u128);
    string_of(&out)
}

/// An SFTP path resolved against the served root: absolute paths as they
/// are, relative ones under the root.
pub fn resolve_path(root: &str, path: &str) -> (r: String)
    ensures
        r@ == path_join(root@, path@),
{
    let base = str_chars(root);
    let p = str_chars(path);
    string_of(&join_path(&base, &p))
}

/// The lines of `s` split at `\n`, trimmed, without blank lines and
/// `#` comments: the key lines of an authorized-keys file.
pub open spec fn key_lines(s: Seq<char>) -> Seq<Seq<char>> {
    crate::sftp::pieces_by(s, '\n').map_values(|l: Seq<char>| trimmed(l))
        .filter(|l: Seq<char>| l.len() > 0 && l[0] != '#')
}

} // verus!

verus! {

/// The candidate key lines of an authorized-keys file: each line trimmed,
/// blank lines and `#` comments left out.
pub fn authorized_key_lines(content: &str) -> (r: Vec<String>)
    ensures
        r@.map_values(|s: String| s@) == key_lines(content@),
{
    let v = str_chars(content);
    let ps = crate::sftp::split_pieces(&v, '\n');
    let ghost all = crate::sftp::pieces_by(content@, '\n').map_values(|l: Seq<char>| trimmed(l));
    let ghost keep = |l: Seq<char>| l.len() > 0 && l[0] != '#';
    let mut out: Vec<String> = Vec::new();
    let mut i: usize = 0;
    while i < ps.len()
        invariant
            i <= ps@.len(),
            ps@.map_values(|x: Vec<char>| x@) == crate::sftp::pieces_by(content@, '\n'),
            all == crate::sftp::pieces_by(content@, '\n').map_values(|l: Seq<char>| trimmed(l)),
            keep == (|l: Seq<char>| l.len() > 0 && l[0] != '#'),
            out@.map_values(|s: String| s@) == all.take(i as int).filter(keep),
        decreases ps@.len() - i,
    {
        let line_text = string_of(&ps[i]);
        let t = crate::text::trim_chars(line_text.as_str());
        assert(t@ == all[i as int]);
        proof {
            all.take(i as int).lemma_filter_push(all[i as int], keep);
            assert(all.take(i as int + 1) =~= all.take(i as int).push(all[i as int]));
        }
        if t.len() > 0 && t[0] != '#' {
            let ghost before = out@;
            let s = string_of(&t);
            out.push(s);
            assert(out@.map_values(|s: String| s@) =~= before.map_values(|s: String| s@).push(all[i as int]));
        }
        i = i + 1;
    }
    assert(all.take(ps@.len() as int) =~= all);
    out
}

/// Terminal size from a PTY request: the client's columns and rows, each
/// cut to 16 bits as the PTY layer takes them.
pub fn pty_dimensions(col_width: u32, row_height: u32) -> (r: (u16, u16))
    ensures
        r.0 as int == col_width as int % 0x10000,
        r.1 as int == row_height as int % 0x10000,
{
    let c = (col_width % 0x10000) as u16;
    let h = (row_height % 0x10000) as u16;
    (c, h)
}

} // verus!
