use minishell::machine::Machine;
use minishell::table::{
    auto_column_widths, default_columns, fit_columns, format_machine_row, secrets_columns, Column, MachineTable,
};

fn rows(n: usize) -> Vec<Vec<String>> {
    (0..n).map(|i| vec![i.to_string()]).collect()
}

fn widths(cols: &[Column]) -> Vec<(String, usize)> {
    cols.iter().map(|c| (c.title.clone(), c.width)).collect()
}

#[test]
fn cursor_moves_within_the_rows() {
    let mut t = MachineTable::new(default_columns());
    assert_eq!(t.cursor(), 0);
    t.move_down();
    assert_eq!(t.cursor(), 0);
    t.set_rows(rows(3));
    assert_eq!(t.rows_count(), 3);
    t.move_down();
    t.move_down();
    t.move_down();
    assert_eq!(t.cursor(), 2);
    t.move_up();
    assert_eq!(t.cursor(), 1);
    t.goto_top();
    t.move_up();
    assert_eq!(t.cursor(), 0);
    t.goto_bottom();
    assert_eq!(t.cursor(), 2);
    t.set_cursor(10);
    assert_eq!(t.cursor(), 2);
    t.set_cursor(1);
    assert_eq!(t.cursor(), 1);
}

#[test]
fn fewer_rows_pull_the_cursor_back() {
    let mut t = MachineTable::new(default_columns());
    t.set_rows(rows(5));
    t.goto_bottom();
    t.set_rows(rows(2));
    assert_eq!(t.cursor(), 1);
    t.set_rows(Vec::new());
    assert_eq!(t.cursor(), 1);
}

#[test]
fn scrolling_keeps_the_cursor_near_the_middle() {
    let mut t = MachineTable::new(default_columns());
    t.set_size(80, 6);
    t.set_rows(rows(20));
    assert_eq!(t.scroll_top(), 0);
    t.set_cursor(10);
    assert_eq!(t.scroll_top(), 8);
    t.goto_bottom();
    assert_eq!(t.scroll_top(), 15);
    t.set_rows(rows(4));
    assert_eq!(t.scroll_top(), 0);
}

#[test]
fn machine_rows_with_and_without_secrets() {
    let m = Machine {
        id: 1,
        num: 12,
        nat_ip: "".into(),
        ip: "10.0.0.1".into(),
        username: "root".into(),
        password: "pw".into(),
        port: 22,
        private_key_path: "".into(),
        device: "Linux".into(),
        remark: "".into(),
    };
    assert_eq!(format_machine_row(&m, false), vec!["12", "10.0.0.1", "", "-", "root", "Linux", "-"]);
    assert_eq!(
        format_machine_row(&m, true),
        vec!["12", "10.0.0.1", "", "-", "root", "pw", "", "-", "Linux", "-"]
    );
}

#[test]
fn column_layouts() {
    assert_eq!(
        widths(&default_columns()),
        vec![
            ("#".to_string(), 4),
            ("IP".to_string(), 15),
            ("".to_string(), 2),
            ("NAT".to_string(), 12),
            ("User".to_string(), 10),
            ("Device".to_string(), 10),
            ("Remark".to_string(), 20),
        ]
    );
    assert_eq!(
        widths(&secrets_columns()),
        vec![
            ("#".to_string(), 4),
            ("IP".to_string(), 15),
            ("".to_string(), 2),
            ("NAT".to_string(), 12),
            ("User".to_string(), 10),
            ("Password".to_string(), 15),
            ("".to_string(), 2),
            ("Key".to_string(), 20),
            ("Device".to_string(), 10),
            ("Remark".to_string(), 20),
        ]
    );
}

#[test]
fn columns_fit_their_widest_cell() {
    let cols = vec![
        Column { title: "#".into(), width: 4 },
        Column { title: "".into(), width: 2 },
        Column { title: "Remark".into(), width: 20 },
    ];
    let data = vec![
        vec!["1".to_string(), "".to_string(), "数据库服务器".to_string()],
        vec!["100".to_string()],
    ];
    let fitted = auto_column_widths(&cols, &data);
    assert_eq!(
        widths(&fitted),
        vec![("#".to_string(), 5), ("".to_string(), 2), ("Remark".to_string(), 14)]
    );
    let fitted = fit_columns(&cols, &data).unwrap();
    assert_eq!(widths(&fitted)[2], ("Remark".to_string(), 14));
    assert_eq!(widths(&auto_column_widths(&cols, &Vec::new()))[2], ("Remark".to_string(), 8));
}
