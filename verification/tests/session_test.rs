use minishell::machine::Machine;
use minishell::session::{
    after_drain, auth_kind, auth_method_label, browser_config_for, connect_config_for, last_path_segment,
    prompt_command, target_address, AuthKind, DrainOutcome, Reconnect, ReconnectStep, SessionEnd,
    BROWSER_TIMEOUT_SECS, CONNECT_TIMEOUT_SECS, MAX_RECONNECT_ATTEMPTS,
};

fn machine(nat: &str, password: &str, key: &str, device: &str) -> Machine {
    Machine {
        id: 3,
        num: 1,
        nat_ip: nat.into(),
        ip: "192.168.1.9".into(),
        username: "ops".into(),
        password: password.into(),
        port: 2222,
        private_key_path: key.into(),
        device: device.into(),
        remark: "".into(),
    }
}

#[test]
fn last_segment_of_paths() {
    assert_eq!(last_path_segment("/home/ops/.ssh/id_ed25519"), "id_ed25519");
    assert_eq!(last_path_segment("id_rsa"), "id_rsa");
    assert_eq!(last_path_segment("/keys/"), "");
    assert_eq!(last_path_segment(""), "");
}

#[test]
fn auth_label_prefers_the_key_then_the_password() {
    assert_eq!(auth_method_label(&machine("", "pw", "/k/id_rsa", "")), "id_rsa");
    assert_eq!(auth_method_label(&machine("", "pw", "-", "")), "password");
    assert_eq!(auth_method_label(&machine("", "", "", "")), "none");
    assert_eq!(auth_method_label(&machine("", "-", "-", "")), "none");
}

#[test]
fn connect_config_reads_placeholders_as_empty() {
    let c = connect_config_for(&machine("-", "-", "-", "Linux"));
    assert_eq!(c.username, "ops");
    assert_eq!(c.password, "");
    assert_eq!(c.private_key_path, "");
    assert_eq!(c.host, "192.168.1.9");
    assert_eq!(c.port, 2222);
    assert_eq!(c.device, "Linux");
    assert_eq!(c.timeout_secs, CONNECT_TIMEOUT_SECS);
    assert_eq!(c.timeout_secs, 10);
    assert_eq!(auth_kind(&c), AuthKind::Agent);

    let c = connect_config_for(&machine("10.0.0.5", "secret", "", ""));
    assert_eq!(c.host, "10.0.0.5");
    assert_eq!(c.password, "secret");
    assert_eq!(auth_kind(&c), AuthKind::Password);
}

#[test]
fn browser_config_waits_less() {
    let c = browser_config_for(&machine("", "pw", "/k/id", ""));
    assert_eq!(c.timeout_secs, BROWSER_TIMEOUT_SECS);
    assert_eq!(c.timeout_secs, 5);
    assert_eq!(c.private_key_path, "/k/id");
    assert_eq!(auth_kind(&c), AuthKind::Key);
}

#[test]
fn address_and_prompt() {
    let c = connect_config_for(&machine("", "", "", "Linux"));
    assert_eq!(target_address(&c), "192.168.1.9:2222");
    assert_eq!(
        prompt_command(&c).as_deref(),
        Some("export PS1=\"[192.168.1.9] $PS1\"\n")
    );
    let c = connect_config_for(&machine("", "", "", "linux"));
    assert_eq!(prompt_command(&c), None);
}

#[test]
fn end_of_file_comes_before_hangups() {
    assert_eq!(after_drain(DrainOutcome::Eof, true, true), Some(SessionEnd::Normal));
    assert_eq!(after_drain(DrainOutcome::Failed, false, false), Some(SessionEnd::Disconnected));
    assert_eq!(after_drain(DrainOutcome::WouldBlock, true, true), Some(SessionEnd::Disconnected));
    assert_eq!(after_drain(DrainOutcome::WouldBlock, false, true), Some(SessionEnd::Normal));
    assert_eq!(after_drain(DrainOutcome::WouldBlock, false, false), None);
}

#[test]
fn reconnect_prompts_three_times_then_gives_up() {
    let mut r = Reconnect::new();
    for attempt in 1..=MAX_RECONNECT_ATTEMPTS {
        match r.on_session_end(SessionEnd::Disconnected) {
            ReconnectStep::Prompt(msg) => assert_eq!(
                msg,
                format!(
                    "\r\n\x1b[2mConnection lost. Press any key to reconnect... (attempt {}/3)\x1b[0m\r\n",
                    attempt
                )
            ),
            _ => panic!("expected a prompt"),
        }
    }
    match r.on_session_end(SessionEnd::Disconnected) {
        ReconnectStep::GiveUp(msg) => assert_eq!(msg, "Connection lost. All 3 reconnection attempts failed."),
        _ => panic!("expected to give up"),
    }
}

#[test]
fn reconnect_reports_the_last_error() {
    let mut r = Reconnect::new();
    let _ = r.on_session_end(SessionEnd::Disconnected);
    let notice = r.on_reconnect_result(Some("timed out".into()));
    assert_eq!(notice.as_deref(), Some("\r\n\x1b[31mReconnect failed: timed out\x1b[0m\r\n"));
    let _ = r.on_session_end(SessionEnd::Disconnected);
    let _ = r.on_session_end(SessionEnd::Disconnected);
    match r.on_session_end(SessionEnd::Disconnected) {
        ReconnectStep::GiveUp(msg) => assert_eq!(
            msg,
            "Connection lost. 3 reconnection attempts failed (last error: timed out)."
        ),
        _ => panic!("expected to give up"),
    }
}

#[test]
fn a_normal_end_finishes_and_a_success_clears_the_error() {
    let mut r = Reconnect::new();
    assert!(matches!(r.on_session_end(SessionEnd::Normal), ReconnectStep::Finished));
    assert_eq!(r.retry, 0);
    let _ = r.on_reconnect_result(Some("refused".into()));
    assert_eq!(r.on_reconnect_result(None), None);
    assert!(r.last_error.is_none());
}
