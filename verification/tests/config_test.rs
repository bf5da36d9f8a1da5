use minishell::config::{
    default_host_key, default_log, default_server, expand_tilde, expand_tilde_with, AuthSection, ServerConfig,
    UserConfig,
};

fn config_with(users: Vec<UserConfig>) -> ServerConfig {
    ServerConfig { server: default_server(), host_key: default_host_key(), auth: AuthSection { users }, log: default_log() }
}

#[test]
fn test_defaults() {
    let config = config_with(vec![UserConfig {
        username: "admin".into(),
        password: Some("secret".into()),
        authorized_keys: None,
    }]);
    assert_eq!(config.server.bind, "0.0.0.0");
    assert_eq!(config.server.port, 2222);
    assert_eq!(config.server.max_connections, 50);
    assert_eq!(config.server.session_timeout, 3600);
    assert_eq!(config.log.level, "info");
}

#[test]
fn test_find_user() {
    let config = config_with(vec![
        UserConfig { username: "admin".into(), password: Some("secret".into()), authorized_keys: None },
        UserConfig { username: "deploy".into(), password: None, authorized_keys: Some("~/.ssh/authorized_keys".into()) },
    ]);
    assert!(config.find_user("admin").is_some());
    assert!(config.find_user("deploy").is_some());
    assert!(config.find_user("unknown").is_none());
}

#[test]
fn test_expand_tilde() {
    let result = expand_tilde("~/test");
    assert!(result.contains("test"));
    assert!(!result.starts_with("~"));
}

#[test]
fn expand_tilde_with_a_known_home() {
    assert_eq!(expand_tilde_with("~/keys/id", Some("/home/ann".into())), "/home/ann/keys/id");
    assert_eq!(expand_tilde_with("~/keys/id", Some("/home/ann/".into())), "/home/ann/keys/id");
    assert_eq!(expand_tilde_with("~/keys/id", None), "~/keys/id");
    assert_eq!(expand_tilde_with("/etc/x", Some("/home/ann".into())), "/etc/x");
    assert_eq!(expand_tilde_with("~user/x", Some("/home/ann".into())), "~user/x");
}

#[test]
fn find_user_returns_the_first_match() {
    let config = config_with(vec![
        UserConfig { username: "a".into(), password: Some("1".into()), authorized_keys: None },
        UserConfig { username: "a".into(), password: Some("2".into()), authorized_keys: None },
    ]);
    assert_eq!(config.find_user("a").unwrap().password.as_deref(), Some("1"));
}

#[test]
fn authorized_keys_path_is_expanded_only_when_set() {
    let config = config_with(vec![]);
    let none = UserConfig { username: "a".into(), password: None, authorized_keys: None };
    assert!(config.expanded_authorized_keys_path(&none).is_none());
    let some = UserConfig { username: "a".into(), password: None, authorized_keys: Some("/etc/keys".into()) };
    assert_eq!(config.expanded_authorized_keys_path(&some).as_deref(), Some("/etc/keys"));
}

#[test]
fn user_config_lives_under_the_home_directory() {
    assert_eq!(
        minishell::config::user_config_path_in(Some("/home/ops".into())).as_deref(),
        Some("/home/ops/.config/minishell-server/config.toml")
    );
    assert_eq!(
        minishell::config::user_config_path_in(Some("/root/".into())).as_deref(),
        Some("/root/.config/minishell-server/config.toml")
    );
    assert_eq!(minishell::config::user_config_path_in(None), None);
}
