//! The SSH/SFTP server's configuration: sections, defaults, users and the
//! paths it reads keys from.

use vstd::prelude::*;
use crate::browser::{join_path, path_join};
use crate::text::{owned, str_chars, string_of};

verus! {

/// Listening address and connection limits.
pub struct ServerSection {
    pub bind: String,
    pub port: u16,
    pub max_connections: usize,
    pub session_timeout: u64,
}

/// Where the host key is kept.
pub struct HostKeySection {
    pub path: String,
}

/// The users allowed to log in.
pub struct AuthSection {
    pub users: Vec<UserConfig>,
}

/// One user: a password, an authorized-keys file, or both.
#[derive(Clone)]
pub struct UserConfig {
    pub username: String,
    pub password: Option<String>,
    pub authorized_keys: Option<String>,
}

/// Logging settings.
pub struct LogSection {
    pub level: String,
}

/// The whole server configuration.
pub struct ServerConfig {
    pub server: ServerSection,
    pub host_key: HostKeySection,
    pub auth: AuthSection,
    pub log: LogSection,
}

/// Default listening address.
pub fn default_bind() -> (r: String)
    ensures
        r@ == "0.0.0.0"@,
{
    owned("0.0.0.0")
}

/// Default listening port.
pub fn default_port() -> (r: u16)
    ensures
        r == 2222,
{
    2222
}

/// Default limit on simultaneous connections.
pub fn default_max_connections() -> (r: usize)
    ensures
        r == 50,
{
    50
}

/// Default session timeout, in seconds.
pub fn default_session_timeout() -> (r: u64)
    ensures
        r == 3600,
{
    3600
}

/// Default log level.
pub fn default_log_level() -> (r: String)
    ensures
        r@ == "info"@,
{
    owned("info")
}

/// The `[server]` section used when the file has none.
pub fn default_server() -> (r: ServerSection)
    ensures
        r.bind@ == "0.0.0.0"@,
        r.port == 2222,
        r.max_connections == 50,
        r.session_timeout == 3600,
{
    ServerSection {
        bind: default_bind(),
        port: default_port(),
        max_connections: default_max_connections(),
        session_timeout: default_session_timeout(),
    }
}

/// The `[log]` section used when the file has none.
pub fn default_log() -> (r: LogSection)
    ensures
        r.level@ == "info"@,
{
    LogSection { level: default_log_level() }
}

/// `dirs::home_dir`: the current user's home directory, if known, as text.
/// Nothing is stated of the result: it comes from the environment.
#[verifier::external_body]
fn home_dir() -> Option<String> {
    dirs::home_dir().map(|h| h.to_string_lossy().to_string())
}

/// Host key location: under the home directory when it is known, in
/// `/etc` otherwise.
pub open spec fn host_key_path_for(home: Option<Seq<char>>) -> Seq<char> {
    match home {
        Some(h) => path_join(h, ".config/minishell-server/host_key"@),
        None => "/etc/minishell-server/host_key"@,
    }
}

/// The optional string as characters.
pub open spec fn opt_view(o: Option<String>) -> Option<Seq<char>> {
    match o {
        Some(s) => Some(s@),
        None => None,
    }
}

/// The default host key location for home directory `home`.
pub fn host_key_path_in(home: Option<String>) -> (r: String)
    ensures
        r@ == host_key_path_for(opt_view(home)),
{
    match home {
        Some(h) => {
            let base = str_chars(h.as_str());
            let rel = str_chars(".config/minishell-server/host_key");
            string_of(&join_path(&base, &rel))
        },
        None => owned("/etc/minishell-server/host_key"),
    }
}

/// The default host key location for the current user.
pub fn default_host_key_path() -> (r: String)
    ensures
        exists|home: Option<Seq<char>>| r@ == host_key_path_for(home),
{
    host_key_path_in(home_dir())
}

/// The `[host_key]` section used when the file has none.
pub fn default_host_key() -> (r: HostKeySection)
    ensures
        exists|home: Option<Seq<char>>| r.path@ == host_key_path_for(home),
{
    HostKeySection { path: default_host_key_path() }
}

/// Where the per-user configuration file would be, for home `home`.
pub open spec fn user_config_path_for(home: Seq<char>) -> Seq<char> {
    path_join(home, ".config/minishell-server/config.toml"@)
}

/// The system-wide configuration file.
pub const SYSTEM_CONFIG_PATH: &'static str = "/etc/minishell-server/config.toml";

/// The per-user configuration file for home directory `home`, if one is known.
pub open spec fn user_config_for(home: Option<Seq<char>>) -> Option<Seq<char>> {
    match home {
        Some(h) => Some(user_config_path_for(h)),
        None => None,
    }
}

/// The per-user configuration file's path for the home directory `home`:
/// none when the home directory is unknown.
pub fn user_config_path_in(home: Option<String>) -> (r: Option<String>)
    ensures
        opt_view(r) == user_config_for(opt_view(home)),
{
    match home {
        Some(h) => {
            let base = str_chars(h.as_str());
            let rel = str_chars(".config/minishell-server/config.toml");
            Some(string_of(&join_path(&base, &rel)))
        },
        None => None,
    }
}

/// The per-user configuration file's path, when the home directory is known.
pub fn user_config_path() -> (r: Option<String>)
    ensures
        r matches Some(p) ==> exists|home: Seq<char>| p@ == user_config_path_for(home),
        exists|home: Option<Seq<char>>| opt_view(r) == user_config_for(home),
{
    user_config_path_in(home_dir())
}

/// `path` with a leading `~/` replaced by the home directory `home`, when
/// one is known.
pub open spec fn tilde_expanded(path: Seq<char>, home: Option<Seq<char>>) -> Seq<char> {
    if path.len() >= 2 && path[0] == '~' && path[1] == '/' && home is Some {
        path_join(home->0, path.skip(2))
    } else {
        path
    }
}

/// Expands a leading `~/` with the home directory `home`.
pub fn expand_tilde_with(path: &str, home: Option<String>) -> (r: String)
    ensures
        r@ == tilde_expanded(path@, opt_view(home)),
{
    let v = str_chars(path);
    if v.len() >= 2 && v[0] == '~' && v[1] == '/' {
        match home {
            Some(h) => {
                let mut rest: Vec<char> = Vec::new();
                let mut i: usize = 2;
                while i < v.len()
                    invariant
                        2 <= i <= v.len(),
                        rest@ == v@.subrange(2, i as int),
                    decreases v.len() - i,
                {
                    rest.push(v[i]);
                    i = i + 1;
                    assert(rest@ =~= v@.subrange(2, i as int));
                }
                assert(rest@ =~= path@.skip(2));
                let base = str_chars(h.as_str());
                return string_of(&join_path(&base, &rest));
            },
            None => {},
        }
    }
    string_of(&v)
}

/// Expands a leading `~/` with the current user's home directory.
pub fn expand_tilde(path: &str) -> (r: String)
    ensures
        exists|home: Option<Seq<char>>| r@ == tilde_expanded(path@, home),
{
    let home = home_dir();
    expand_tilde_with(path, home)
}

/// Index of the first user named `name`, if any.
pub open spec fn user_index(users: Seq<UserConfig>, name: Seq<char>) -> Option<int> {
    if exists|i: int| 0 <= i < users.len() && #[trigger] users[i].username@ == name {
        let i = choose|i: int| 0 <= i < users.len() && #[trigger] users[i].username@ == name
            && forall|j: int| 0 <= j < i ==> #[trigger] users[j].username@ != name;
        Some(i)
    } else {
        None
    }
}

impl ServerConfig {
    /// The first configured user with the given name.
    pub fn find_user(&self, username: &str) -> (r: Option<&UserConfig>)
        ensures
            match r {
                Some(u) => exists|i: int| 0 <= i < self.auth.users@.len() && self.auth.users@[i] == *u
                    && u.username@ == username@
                    && forall|j: int| 0 <= j < i ==> #[trigger] self.auth.users@[j].username@ != username@,
                None => forall|i: int| 0 <= i < self.auth.users@.len()
                    ==> #[trigger] self.auth.users@[i].username@ != username@,
            },
    {
        let mut i: usize = 0;
        while i < self.auth.users.len()
            invariant
                i <= self.auth.users@.len(),
                forall|j: int| 0 <= j < i ==> #[trigger] self.auth.users@[j].username@ != username@,
            decreases self.auth.users@.len() - i,
        {
            if crate::text::str_eq(self.auth.users[i].username.as_str(), username) {
                return Some(&self.auth.users[i]);
            }
            i = i + 1;
        }
        None
    }

    /// The host key path with `~/` expanded.
    pub fn expanded_host_key_path(&self) -> (r: String)
        ensures
            exists|home: Option<Seq<char>>| r@ == tilde_expanded(self.host_key.path@, home),
    {
        expand_tilde(self.host_key.path.as_str())
    }

    /// The user's authorized-keys file with `~/` expanded, if one is set.
    pub fn expanded_authorized_keys_path(&self, user: &UserConfig) -> (r: Option<String>)
        ensures
            user.authorized_keys is None ==> r is None,
            user.authorized_keys matches Some(p) ==> (r matches Some(q)
                && exists|home: Option<Seq<char>>| q@ == tilde_expanded(p@, home)),
    {
        match &user.authorized_keys {
            Some(p) => Some(expand_tilde(p.as_str())),
            None => None,
        }
    }
}

} // verus!
