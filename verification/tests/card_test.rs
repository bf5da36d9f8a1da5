use minishell::card;
use minishell::card::{
    card_width_for, connect_card_bottom, connect_card_status_line, connect_card_top, connect_fail_line,
    connect_success_line, disconnect_card, info_line, strip_ansi, terminal_width, BOLD, DIM, GREEN, RED,
    RESET,
};

#[test]
fn strip_ansi_removes_escape_sequences() {
    assert_eq!(strip_ansi("\x1b[1mSSH\x1b[0m ok"), "SSH ok");
    assert_eq!(strip_ansi("plain"), "plain");
    assert_eq!(strip_ansi("cut \x1b[31"), "cut ");
    assert_eq!(strip_ansi(""), "");
}

#[test]
fn rules_and_rows() {
    assert_eq!(card::line(3), format!("{}───{}", DIM, RESET));
    assert_eq!(card::line(0), format!("{}{}", DIM, RESET));
    assert_eq!(info_line(10, "abc"), format!(" abc     {}", RESET));
    assert_eq!(info_line(10, "\x1b[1mabc\x1b[0m"), format!(" \x1b[1mabc\x1b[0m     {}", RESET));
    assert_eq!(info_line(4, "abcdef"), format!(" abcdef{}", RESET));
    assert_eq!(info_line(8, "中文"), format!(" 中文  {}", RESET));
    assert_eq!(connect_card_status_line("abc", 10), info_line(10, "abc"));
    assert_eq!(connect_card_bottom(5), card::line(5));
}

#[test]
fn connect_card_has_four_rows() {
    let (card, w) = connect_card_top("1.2.3.4", "10.0.0.1", 22, "root", "password", 40);
    assert_eq!(w, 40);
    let rows: Vec<&str> = card.split('\n').collect();
    assert_eq!(rows.len(), 4);
    assert_eq!(rows[0], card::line(40));
    assert_eq!(rows[1], info_line(40, &format!("{}SSH CONNECT{}", BOLD, RESET)));
    assert_eq!(rows[2], info_line(40, &format!("{}root@10.0.0.1 (password)", DIM)));
    assert_eq!(rows[3], card::line(40));
}

#[test]
fn connection_times() {
    let ok = |text: &str| info_line(50, &format!("{}✓ Connected{} in {}{}{}", GREEN, DIM, RESET, text, RESET));
    assert_eq!(connect_success_line(0, 250, 50), ok("250ms"));
    assert_eq!(connect_success_line(2, 345, 50), ok("2.3s"));
    assert_eq!(connect_success_line(75, 0, 50), ok("1m 15s"));
    assert_eq!(connect_success_line(3725, 0, 50), ok("1h 2m 5s"));
    assert_eq!(connect_success_line(90061, 999, 50), ok("1d 1h 1m 1s"));
    assert_eq!(connect_fail_line("refused", 50), info_line(50, &format!("{}✗ refused{}", RED, RESET)));
}

#[test]
fn disconnect_card_reports_length_and_status() {
    let card = disconnect_card("10.0.0.1", 42, None, 60);
    let rows: Vec<&str> = card.split('\n').collect();
    assert_eq!(rows.len(), 4);
    assert_eq!(rows[1], info_line(60, &format!("{}DISCONNECTED{}", BOLD, RESET)));
    assert_eq!(
        rows[2],
        info_line(60, &format!("{}10.0.0.1 │ 42s │ {}OK{}", DIM, GREEN, RESET))
    );
    let card = disconnect_card("h", 3600, Some("EOF"), 60);
    let rows: Vec<&str> = card.split('\n').collect();
    assert_eq!(rows[2], info_line(60, &format!("{}h │ 1h 0m 0s │ {}EOF{}", DIM, RED, RESET)));
}

#[test]
fn card_width_is_at_least_forty() {
    assert_eq!(card_width_for(None), 80);
    assert_eq!(card_width_for(Some((20, 10))), 40);
    assert_eq!(card_width_for(Some((120, 40))), 120);
    assert!(terminal_width() >= 40);
}

#[test]
fn connect_card_top_has_four_lines_with_title_and_target() {
    let (s, w) = card::connect_card_top("10.0.0.1", "example.org", 2222, "root", "key", 50);
    assert_eq!(w, 50);
    let lines: Vec<&str> = s.split('\n').collect();
    assert_eq!(lines.len(), 4);
    assert_eq!(lines[0], lines[3]);
    assert_eq!(lines[0], format!("\x1b[90m{}\x1b[0m", "─".repeat(50)));
    assert!(card::strip_ansi(lines[1]).starts_with(" SSH CONNECT"));
    assert!(card::strip_ansi(lines[2]).starts_with(" root@example.org (key)"));
    assert_eq!(card::strip_ansi(lines[2]).trim_end(), " root@example.org (key)");
}
