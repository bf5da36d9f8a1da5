use minishell::error::MinishellError;
use minishell::machine::{Machine, NOT_EXIST};

fn test_machine() -> Machine {
    Machine {
        id: 1,
        num: 0,
        nat_ip: "".into(),
        ip: "192.168.1.1".into(),
        username: "root".into(),
        password: "".into(),
        port: 22,
        private_key_path: "".into(),
        device: "".into(),
        remark: "".into(),
    }
}

#[test]
fn test_effective_host_with_nat() {
    let mut m = test_machine();
    m.nat_ip = "10.0.0.2".into();
    assert_eq!(m.effective_host(), "10.0.0.2");
}

#[test]
fn test_effective_host_without_nat() {
    let m = test_machine();
    assert_eq!(m.effective_host(), "192.168.1.1");
}

#[test]
fn test_effective_host_nat_dash() {
    let mut m = test_machine();
    m.nat_ip = NOT_EXIST.into();
    assert_eq!(m.effective_host(), "192.168.1.1");
}

#[test]
fn test_is_empty_field() {
    assert!(Machine::is_empty_field(""));
    assert!(Machine::is_empty_field(NOT_EXIST));
    assert!(!Machine::is_empty_field("hello"));
}

#[test]
fn duplicate_keeps_every_field() {
    let mut m = test_machine();
    m.remark = "web".into();
    m.num = 7;
    let d = m.duplicate();
    assert_eq!(d.id, 1);
    assert_eq!(d.num, 7);
    assert_eq!(d.ip, "192.168.1.1");
    assert_eq!(d.remark, "web");
}

#[test]
fn is_empty_field_refuses_longer_dashes() {
    assert!(!Machine::is_empty_field("--"));
    assert!(!Machine::is_empty_field(" -"));
}

#[test]
fn error_messages_name_their_kind() {
    assert_eq!(MinishellError::Ssh("refused".into()).message(), "SSH connection failed: refused");
    assert_eq!(MinishellError::Sftp("x".into()).message(), "SFTP error: x");
    assert_eq!(MinishellError::Store("locked".into()).message(), "Database error: locked");
    assert_eq!(MinishellError::NotFound("/a".into()).message(), "File not found: /a");
    assert_eq!(MinishellError::PermissionDenied("/b".into()).message(), "Permission denied: /b");
    assert_eq!(MinishellError::TransferFailed("y".into()).message(), "Transfer failed: y");
    assert_eq!(MinishellError::Timeout.message(), "Connection timeout");
    let e: MinishellError = std::io::Error::new(std::io::ErrorKind::Other, "boom").into();
    assert!(matches!(e, MinishellError::Io(_)));
    assert_eq!(e.message(), "IO error: boom");
}
