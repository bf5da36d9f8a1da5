use minishell::machine::Machine;
use minishell::xlsx::{export_row, looks_like_description, machine_from_row, machines_from_rows, ImportError};

#[test]
fn test_looks_like_description() {
    assert!(looks_like_description(""));
    assert!(looks_like_description("这是一台服务器"));
    assert!(looks_like_description("SSH Connection"));
    assert!(looks_like_description("LOCAL MACHINE"));
    assert!(!looks_like_description("10.0.0.1"));
    assert!(!looks_like_description("web-server"));
}

#[test]
fn description_keywords_in_any_case() {
    assert!(looks_like_description("ip address"));
    assert!(looks_like_description("my ssh box"));
    assert!(looks_like_description("Localhost"));
    assert!(!looks_like_description("192.168.0.10"));
}

fn row(cells: &[&str]) -> Vec<String> {
    cells.iter().map(|s| s.to_string()).collect()
}

#[test]
fn row_with_every_cell_becomes_a_machine() {
    let m = machine_from_row(&row(&["10.0.0.5", "1.2.3.4", "2200", "admin", "pw", "/k", "Router", "edge"])).unwrap();
    assert_eq!(m.id, 0);
    assert_eq!(m.num, 0);
    assert_eq!(m.ip, "10.0.0.5");
    assert_eq!(m.nat_ip, "1.2.3.4");
    assert_eq!(m.port, 2200);
    assert_eq!(m.username, "admin");
    assert_eq!(m.password, "pw");
    assert_eq!(m.private_key_path, "/k");
    assert_eq!(m.device, "Router");
    assert_eq!(m.remark, "edge");
}

#[test]
fn missing_cells_get_placeholders_and_a_bad_port_becomes_22() {
    let m = machine_from_row(&row(&["10.0.0.6", "", "abc"])).unwrap();
    assert_eq!(m.nat_ip, "-");
    assert_eq!(m.port, 22);
    assert_eq!(m.username, "root");
    assert_eq!(m.password, "-");
    assert_eq!(m.private_key_path, "-");
    assert_eq!(m.device, "-");
    assert_eq!(m.remark, "-");
    let short = machine_from_row(&row(&["10.0.0.7"])).unwrap();
    assert_eq!(short.port, 22);
}

#[test]
fn description_and_empty_rows_are_skipped() {
    assert!(machine_from_row(&row(&[])).is_none());
    assert!(machine_from_row(&row(&["", "x"])).is_none());
    assert!(machine_from_row(&row(&["服务器", "x"])).is_none());
    assert!(machine_from_row(&row(&["SSH list"])).is_none());
}

#[test]
fn import_needs_a_header_and_a_row() {
    assert!(matches!(machines_from_rows(&vec![]), Err(ImportError::TooFewRows)));
    assert!(matches!(machines_from_rows(&vec![row(&["IP"])]), Err(ImportError::TooFewRows)));
}

#[test]
fn import_skips_the_header_and_description_rows() {
    let rows = vec![
        row(&["10.9.9.9", "header"]),
        row(&["10.0.0.1", "-", "22", "root"]),
        row(&["说明"]),
        row(&["10.0.0.2", "", "2022"]),
    ];
    let ms = machines_from_rows(&rows).unwrap();
    assert_eq!(ms.len(), 2);
    assert_eq!(ms[0].ip, "10.0.0.1");
    assert_eq!(ms[1].ip, "10.0.0.2");
    assert_eq!(ms[1].port, 2022);
}

#[test]
fn export_row_numbers_from_one_and_dashes_empty_fields() {
    let m = Machine {
        id: 3,
        num: 9,
        nat_ip: "".into(),
        ip: "10.0.0.1".into(),
        username: "root".into(),
        password: "-".into(),
        port: -5,
        private_key_path: "/id".into(),
        device: "Linux".into(),
        remark: "".into(),
    };
    let r = export_row(0, &m);
    assert_eq!(r, vec!["1", "10.0.0.1", "-", "-5", "root", "-", "/id", "Linux", "-"]);
    assert_eq!(export_row(41, &m)[0], "42");
}

#[test]
fn keywords_are_looked_for_in_upper_case_text() {
    assert!(minishell::xlsx::mentions_keyword("MY IP LIST"));
    assert!(minishell::xlsx::mentions_keyword("OPENSSH"));
    assert!(minishell::xlsx::mentions_keyword("LOCALHOST"));
    assert!(!minishell::xlsx::mentions_keyword("10.0.0.1"));
    assert!(!minishell::xlsx::mentions_keyword("ssh"));
}
