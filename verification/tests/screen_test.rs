use minishell::machine::Machine;
use minishell::screen::{bottom_padding, Screen, ScreenAction, ScreenKey};

fn machine(id: i64, ip: &str) -> Machine {
    Machine {
        id,
        num: id as i32,
        nat_ip: "".into(),
        ip: ip.into(),
        username: "root".into(),
        password: "pw".into(),
        port: 22,
        private_key_path: "".into(),
        device: "Linux".into(),
        remark: "".into(),
    }
}

fn screen() -> Screen {
    Screen::new(vec![machine(1, "10.0.0.1"), machine(2, "10.0.0.2"), machine(3, "10.0.0.3")])
}

#[test]
fn table_rows_follow_the_machines() {
    let s = screen();
    assert_eq!(s.table.rows.len(), 3);
    assert_eq!(s.table.rows[1][1], "10.0.0.2");
    assert_eq!(s.table.cursor, 0);
}

#[test]
fn ctrl_c_and_q_quit() {
    let mut s = screen();
    assert_eq!(s.on_key(ScreenKey::CtrlC), ScreenAction::Quit);
    assert_eq!(s.on_key(ScreenKey::Char('q')), ScreenAction::Quit);
}

#[test]
fn moving_and_choosing() {
    let mut s = screen();
    s.on_key(ScreenKey::Char('j'));
    s.on_key(ScreenKey::Down);
    s.on_key(ScreenKey::Down);
    assert_eq!(s.table.cursor, 2);
    assert_eq!(s.on_key(ScreenKey::Enter), ScreenAction::Login(2));
    assert_eq!(s.on_key(ScreenKey::Char('b')), ScreenAction::Browse(2));
    s.on_key(ScreenKey::PageUp);
    assert_eq!(s.table.cursor, 0);
    s.on_key(ScreenKey::Char('G'));
    assert_eq!(s.table.cursor, 2);
    s.on_key(ScreenKey::Char('g'));
    assert_eq!(s.table.cursor, 0);
}

#[test]
fn searching_asks_for_reloads() {
    let mut s = screen();
    assert_eq!(s.on_key(ScreenKey::Char('/')), ScreenAction::Nothing);
    assert!(s.search_focused);
    assert_eq!(s.on_key(ScreenKey::Char('1')), ScreenAction::Reload);
    assert_eq!(s.on_key(ScreenKey::Char('0')), ScreenAction::Reload);
    assert_eq!(s.search_input, "10");
    assert_eq!(s.on_key(ScreenKey::Backspace), ScreenAction::Reload);
    assert_eq!(s.search_input, "1");
    assert_eq!(s.on_key(ScreenKey::Enter), ScreenAction::Reload);
    assert!(!s.search_focused);
    assert_eq!(s.on_key(ScreenKey::Esc), ScreenAction::Reload);
    assert_eq!(s.search_input, "");
    assert_eq!(s.on_key(ScreenKey::Esc), ScreenAction::Nothing);
    s.show_machines(vec![machine(9, "10.9.9.9")]);
    assert_eq!(s.table.rows.len(), 1);
}

#[test]
fn search_text_shows_focus_and_hint() {
    let mut s = screen();
    assert_eq!(s.search_text(), "search> (press / to search)");
    s.on_key(ScreenKey::Char('/'));
    s.on_key(ScreenKey::Char('a'));
    assert_eq!(s.search_text(), "search> a▌");
    s.on_key(ScreenKey::Enter);
    assert_eq!(s.search_text(), "search> a");
}

#[test]
fn form_and_delete_dialogs() {
    let mut s = screen();
    s.on_key(ScreenKey::Char('a'));
    assert!(s.form.is_some());
    assert_eq!(s.help_items()[0], ("↑↓", "field"));
    assert_eq!(s.on_key(ScreenKey::Esc), ScreenAction::Nothing);
    assert!(s.form.is_none());
    s.on_key(ScreenKey::Char('e'));
    assert_eq!(s.form.as_ref().unwrap().target_id, Some(1));
    s.form.as_mut().unwrap().step = 7;
    assert_eq!(s.on_key(ScreenKey::Enter), ScreenAction::SaveForm);
    assert_eq!(s.save_finished(Some("disk full".into())), ScreenAction::Nothing);
    assert_eq!(s.form.as_ref().unwrap().error.as_deref(), Some("disk full"));
    assert_eq!(s.save_finished(None), ScreenAction::Reload);
    assert!(s.form.is_none());
    s.on_key(ScreenKey::Char('d'));
    assert_eq!(s.delete_confirm.as_ref().unwrap().target.ip, "10.0.0.1");
    assert_eq!(s.on_key(ScreenKey::Char('Y')), ScreenAction::DeleteMachine(1));
    assert_eq!(s.delete_finished(false), ScreenAction::Nothing);
    assert!(s.delete_confirm.is_some());
    assert_eq!(s.delete_finished(true), ScreenAction::Reload);
    assert!(s.delete_confirm.is_none());
}

#[test]
fn secrets_toggle_rebuilds_the_table() {
    let mut s = screen();
    assert_eq!(s.table.rows[0].len(), 7);
    s.on_key(ScreenKey::Char('s'));
    assert!(s.show_secrets);
    assert_eq!(s.table.rows[0].len(), 10);
    assert_eq!(s.table.rows[0][5], "pw");
}

#[test]
fn paste_into_the_search() {
    let mut s = screen();
    assert_eq!(s.on_paste("x"), ScreenAction::Nothing);
    s.on_key(ScreenKey::Char('/'));
    assert_eq!(s.on_paste("10.0"), ScreenAction::Reload);
    assert_eq!(s.search_input, "10.0");
}

#[test]
fn status_and_padding() {
    let s = screen();
    assert_eq!(s.status_parts(), vec!["1/3", " │ ", "root", "@", "10.0.0.1:22", " │ ", "secrets ", "hide"]);
    let empty = Screen::new(vec![]);
    assert_eq!(empty.status_parts(), vec!["0/0", " │ ", "no machines"]);
    let parts: Vec<String> = vec!["ab".into()];
    let items = vec![("q", "quit")];
    // 2 for the status, 1 + 1 + 4 + 2 for the hint.
    assert_eq!(bottom_padding(20, &parts, &items), 10);
    assert_eq!(bottom_padding(5, &parts, &items), 0);
}
