use std::sync::Arc;

use minishell::config::{default_host_key, default_log, default_server, AuthSection, ServerConfig, UserConfig};
use minishell::server::{
    authorized_key_lines, check_password, get_home, next_handle, pty_dimensions, resolve_path, subsystem_allowed,
    MinishellServer,
};

fn server_config() -> ServerConfig {
    ServerConfig {
        server: default_server(),
        host_key: default_host_key(),
        auth: AuthSection {
            users: vec![
                UserConfig { username: "admin".into(), password: Some("secret".into()), authorized_keys: None },
                UserConfig { username: "deploy".into(), password: None, authorized_keys: None },
                UserConfig { username: "admin".into(), password: Some("other".into()), authorized_keys: None },
            ],
        },
        log: default_log(),
    }
}

#[test]
fn password_login_checks_the_first_matching_user() {
    let c = server_config();
    assert!(check_password(&c, "admin", "secret"));
    assert!(!check_password(&c, "admin", "other"));
    assert!(!check_password(&c, "admin", "secre"));
    assert!(!check_password(&c, "admin", "secret!"));
    assert!(!check_password(&c, "deploy", ""));
    assert!(!check_password(&c, "nobody", "secret"));
}

#[test]
fn server_shares_its_configuration() {
    let c = Arc::new(server_config());
    let s = MinishellServer::new(c.clone());
    assert!(Arc::ptr_eq(&s.config, &c));
}

#[test]
fn homes_and_subsystems() {
    assert_eq!(get_home("root"), "/root");
    assert_eq!(get_home("deploy"), "/home/deploy");
    assert!(subsystem_allowed("sftp", true));
    assert!(!subsystem_allowed("sftp", false));
    assert!(!subsystem_allowed("shell", true));
}

#[test]
fn handles_count_up() {
    let mut counter: u64 = 0;
    assert_eq!(next_handle(&mut counter), "h1");
    assert_eq!(next_handle(&mut counter), "h2");
    assert_eq!(counter, 2);
    let mut counter: u64 = 99;
    assert_eq!(next_handle(&mut counter), "h100");
}

#[test]
fn paths_resolve_against_the_root() {
    assert_eq!(resolve_path("/srv", "data/a.txt"), "/srv/data/a.txt");
    assert_eq!(resolve_path("/srv/", "a"), "/srv/a");
    assert_eq!(resolve_path("/srv", "/etc/passwd"), "/etc/passwd");
    assert_eq!(resolve_path("/srv", ""), "/srv/");
}

#[test]
fn key_lines_skip_blanks_and_comments() {
    let content = "# keys\n  ssh-ed25519 AAAA one  \n\n\t#ssh-rsa old\nssh-rsa BBBB two";
    assert_eq!(authorized_key_lines(content), vec!["ssh-ed25519 AAAA one", "ssh-rsa BBBB two"]);
    assert!(authorized_key_lines("").is_empty());
    assert!(authorized_key_lines("\n \n").is_empty());
}

#[test]
fn pty_sizes_are_cut_to_sixteen_bits() {
    assert_eq!(pty_dimensions(120, 40), (120, 40));
    assert_eq!(pty_dimensions(0x1_0050, 70_000), (0x50, (70_000u32 - 65_536) as u16));
}
