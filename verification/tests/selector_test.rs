use minishell::machine::Machine;
use minishell::selector::{format_row, header_line, redraw_row, row_line, select_machine, PickKey, PickStep, Selection};

fn machine(ip: &str) -> Machine {
    Machine {
        id: 1,
        num: 1,
        nat_ip: "-".into(),
        ip: ip.into(),
        username: "root".into(),
        password: "".into(),
        port: 22,
        private_key_path: "".into(),
        device: "".into(),
        remark: "db".into(),
    }
}

#[test]
fn picker_rows_are_fixed_width_columns() {
    let r = format_row(0, &machine("10.0.0.1"));
    assert_eq!(r, format!("{:<4}{:<15}{:<12}{:<6}{:<10}{:<20}", "1", "10.0.0.1", "-", "22", "root", "db"));
}

#[test]
fn header_is_bold_cyan_titles() {
    let h = header_line();
    assert!(h.starts_with("  \x1b[1;36m#   \x1b[0m"));
    assert!(h.ends_with("\x1b[1;36mRemark              \x1b[0m"));
}

#[test]
fn selecting_from_none_or_one() {
    assert!(matches!(select_machine(vec![]), Selection::Done(None)));
    match select_machine(vec![machine("a")]) {
        Selection::Done(Some(m)) => assert_eq!(m.ip, "a"),
        _ => panic!("one machine is chosen at once"),
    }
}

#[test]
fn picker_moves_within_rows_and_chooses() {
    let mut p = match select_machine(vec![machine("a"), machine("b"), machine("c")]) {
        Selection::Ask(p) => p,
        _ => panic!("several machines open the picker"),
    };
    assert_eq!(p.cursor, 0);
    assert_eq!(p.rows.len(), 3);
    assert_eq!(p.on_key(PickKey::Up), PickStep::Stay);
    assert_eq!(p.on_key(PickKey::Down), PickStep::Moved { old: 0, new: 1 });
    assert_eq!(p.on_key(PickKey::Down), PickStep::Moved { old: 1, new: 2 });
    assert_eq!(p.on_key(PickKey::Down), PickStep::Stay);
    assert_eq!(p.on_key(PickKey::Other), PickStep::Stay);
    assert_eq!(p.on_key(PickKey::Enter), PickStep::Finish(Some(2)));
    assert_eq!(p.on_key(PickKey::Cancel), PickStep::Finish(None));
}

#[test]
fn redrawing_moves_up_and_back() {
    assert_eq!(redraw_row(3, 0, "x", true), "\x1b[2A\r\x1b[2K  \x1b[1;97m▸\x1b[0mx\x1b[2B");
    assert_eq!(redraw_row(3, 2, "y", false), "\r\x1b[2K  \x1b[90m \x1b[0my");
    assert_eq!(row_line("z", true), "  \x1b[1;97m▸\x1b[0mz");
}
