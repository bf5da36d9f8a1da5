use minishell::form::{FormField, FormState, DeleteState, ERR_BAD_PORT, ERR_NO_ADDRESS, ERR_NO_SECRET, ERR_SPACE};
use minishell::form_input::{FormKey, FormOutcome, ERR_PORT_DIGITS, ERR_TYPED_SPACE};
use minishell::machine::Machine;

fn machine() -> Machine {
    Machine {
        id: 4,
        num: 2,
        nat_ip: "".into(),
        ip: "10.0.0.1".into(),
        username: "root".into(),
        password: "pw".into(),
        port: 22,
        private_key_path: "".into(),
        device: "Router".into(),
        remark: "edge".into(),
    }
}

#[test]
fn typing_moves_the_byte_cursor() {
    let mut f = FormField::new("IP:", 64, 40);
    f.insert_char('a');
    f.insert_char('中');
    assert_eq!(f.value, "a中");
    assert_eq!(f.cursor_pos, 4);
    f.move_cursor_left();
    assert_eq!(f.cursor_pos, 1);
    f.insert_char('b');
    assert_eq!(f.value, "ab中");
    f.move_cursor_right();
    assert_eq!(f.cursor_pos, 5);
    f.delete_char();
    assert_eq!(f.value, "ab");
    assert_eq!(f.cursor_pos, 2);
}

#[test]
fn typing_stops_at_the_byte_limit() {
    let mut f = FormField::new("Port:", 5, 10);
    f.insert_str("123456");
    assert_eq!(f.value, "12345");
    f.clear();
    assert_eq!(f.value, "");
    assert_eq!(f.cursor_pos, 0);
}

#[test]
fn edit_form_is_filled_from_the_machine() {
    let form = FormState::new_edit(&machine());
    assert_eq!(form.fields.len(), 8);
    assert_eq!(form.fields[0].value, "10.0.0.1");
    assert_eq!(form.fields[1].value, "-");
    assert_eq!(form.fields[2].value, "22");
    assert_eq!(form.fields[6].value, "Router");
    assert_eq!(form.fields[6].select_index, 1);
    assert_eq!(form.target_id, Some(4));
    assert!(form.is_edit);
    let m = form.to_machine();
    assert_eq!(m.id, 4);
    assert_eq!(m.nat_ip, "-");
    assert_eq!(m.port, 22);
    assert_eq!(m.device, "Router");
}

#[test]
fn validation_reports_the_first_problem() {
    let mut form = FormState::new_add();
    assert_eq!(form.validate(), Some(ERR_NO_ADDRESS));
    form.fields[0].value = "10.0.0.9".into();
    form.fields[3].value = "root".into();
    form.fields[2].value = "99999".into();
    assert_eq!(form.validate(), Some(ERR_BAD_PORT));
    form.fields[2].value = "22".into();
    assert_eq!(form.validate(), Some(ERR_NO_SECRET));
    form.fields[4].value = "secret".into();
    assert_eq!(form.validate(), None);
    form.fields[7].value = "two words".into();
    assert_eq!(form.validate(), Some(ERR_SPACE));
}

#[test]
fn form_keys_navigate_and_wrap() {
    let mut form = FormState::new_add();
    assert_eq!(form.handle_key(FormKey::Up), FormOutcome::Editing);
    assert_eq!(form.step, 7);
    assert_eq!(form.handle_key(FormKey::Tab), FormOutcome::Editing);
    assert_eq!(form.step, 0);
    form.handle_key(FormKey::Enter);
    assert_eq!(form.step, 1);
    assert_eq!(form.handle_key(FormKey::Esc), FormOutcome::Closed);
}

#[test]
fn form_refuses_spaces_and_letters_in_the_port() {
    let mut form = FormState::new_add();
    form.handle_key(FormKey::Char(' '));
    assert_eq!(form.error.as_deref(), Some(ERR_TYPED_SPACE));
    assert_eq!(form.fields[0].value, "");
    form.handle_key(FormKey::Char('1'));
    assert_eq!(form.error, None);
    assert_eq!(form.fields[0].value, "1");
    form.step = 2;
    form.handle_key(FormKey::Char('x'));
    assert_eq!(form.error.as_deref(), Some(ERR_PORT_DIGITS));
    form.handle_key(FormKey::Char('8'));
    assert_eq!(form.fields[2].value, "8");
    form.step = 4;
    form.handle_key(FormKey::Char(' '));
    assert_eq!(form.fields[4].value, " ");
}

#[test]
fn device_selector_steps_through_options() {
    let mut form = FormState::new_add();
    form.step = 6;
    form.handle_key(FormKey::Left);
    assert_eq!(form.fields[6].value, "Linux");
    form.handle_key(FormKey::Right);
    form.handle_key(FormKey::Right);
    form.handle_key(FormKey::Right);
    form.handle_key(FormKey::Right);
    assert_eq!(form.fields[6].value, "Other");
    assert_eq!(form.fields[6].select_index, 3);
    form.handle_key(FormKey::Char('z'));
    assert_eq!(form.fields[6].value, "Other");
}

#[test]
fn enter_on_the_last_field_validates_or_saves() {
    let mut form = FormState::new_add();
    form.step = 7;
    assert_eq!(form.handle_key(FormKey::Enter), FormOutcome::Editing);
    assert_eq!(form.error.as_deref(), Some(ERR_NO_ADDRESS));
    let mut ok = FormState::new_edit(&machine());
    ok.step = 7;
    assert_eq!(ok.handle_key(FormKey::Enter), FormOutcome::Save);
    assert_eq!(ok.error, None);
}

#[test]
fn paste_goes_in_whole_or_not_at_all() {
    let mut form = FormState::new_add();
    form.handle_paste("10.1.1.1");
    assert_eq!(form.fields[0].value, "10.1.1.1");
    form.handle_paste("a b");
    assert_eq!(form.error.as_deref(), Some(ERR_TYPED_SPACE));
    assert_eq!(form.fields[0].value, "10.1.1.1");
    form.step = 2;
    form.handle_paste("22x");
    assert_eq!(form.error.as_deref(), Some(ERR_PORT_DIGITS));
    form.handle_paste("2222");
    assert_eq!(form.fields[2].value, "2222");
}

#[test]
fn delete_dialog_keeps_its_target() {
    let d = DeleteState::new(machine());
    assert_eq!(d.target.ip, "10.0.0.1");
}

#[test]
fn unhandled_key_keeps_the_error() {
    let mut form = FormState::new_add();
    form.handle_key(FormKey::Char(' '));
    assert_eq!(form.error.as_deref(), Some(ERR_TYPED_SPACE));
    assert_eq!(form.handle_key(FormKey::Other), FormOutcome::Editing);
    assert_eq!(form.error.as_deref(), Some(ERR_TYPED_SPACE));
    assert_eq!(form.step, 0);
    form.handle_key(FormKey::Down);
    assert_eq!(form.error, None);
}

#[test]
fn edit_form_round_trip_gives_the_machine_back() {
    let m = Machine {
        id: 9,
        num: 3,
        nat_ip: "172.16.0.9".into(),
        ip: "10.1.2.3".into(),
        username: "admin".into(),
        password: "s3cret".into(),
        port: -1,
        private_key_path: "~/.ssh/id".into(),
        device: "Switch".into(),
        remark: "rack 4".into(),
    };
    let back = FormState::new_edit(&m).to_machine();
    assert_eq!(
        (back.id, back.num, back.nat_ip, back.ip, back.username, back.password),
        (m.id, m.num, m.nat_ip.clone(), m.ip.clone(), m.username.clone(), m.password.clone())
    );
    assert_eq!(
        (back.port, back.private_key_path, back.device, back.remark),
        (m.port, m.private_key_path.clone(), m.device.clone(), m.remark.clone())
    );
    let mut odd = m.clone();
    odd.device = "Firewall".into();
    odd.port = 65535;
    let back = FormState::new_edit(&odd).to_machine();
    assert_eq!(back.device, "Linux");
    assert_eq!(back.port, 65535);
}
