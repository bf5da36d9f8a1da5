use minishell::commands::{assign_numbers, import_summary, no_match_message, quick_login_target};
use minishell::listing::{machine_listing, pad_str};
use minishell::machine::Machine;
use minishell::store::{search_plan, SELECT_ALL, SELECT_MATCHING};

fn machine(num: i32, ip: &str, nat: &str, port: i32, user: &str) -> Machine {
    Machine {
        id: num as i64,
        num,
        nat_ip: nat.into(),
        ip: ip.into(),
        username: user.into(),
        password: "".into(),
        port,
        private_key_path: "-".into(),
        device: "Linux".into(),
        remark: "".into(),
    }
}

#[test]
fn pad_str_aligns_both_ways() {
    assert_eq!(pad_str("ab", 4, true), "ab  ");
    assert_eq!(pad_str("ab", 4, false), "  ab");
    assert_eq!(pad_str("abcdef", 4, true), "abcd");
}

#[test]
fn listing_of_one_machine() {
    let lines = machine_listing(&vec![machine(1, "10.0.0.1", "", 22, "root")]);
    let header = "  #  IP        NAT-IP  Port  User  Password  Key  Device  Remark";
    assert_eq!(lines.len(), 5);
    assert_eq!(lines[0], header);
    assert_eq!(lines[1], "-".repeat(header.len()));
    assert_eq!(lines[2], "  1  10.0.0.1  -         22  root  -         -    Linux   -     ");
    assert_eq!(lines[3], "-".repeat(header.len()));
    let total = "Total: 1 machines";
    assert_eq!(lines[4], format!("{}{}", " ".repeat(header.len() - total.len()), total));
}

#[test]
fn listing_of_no_machines() {
    let lines = machine_listing(&vec![]);
    assert_eq!(lines.len(), 4);
    assert_eq!(lines[0], "  #  IP   NAT-IP  Port  User  Password  Key  Device  Remark");
    assert!(lines[3].ends_with("Total: 0 machines"));
}

#[test]
fn quick_login_by_number() {
    let ms = vec![machine(3, "a", "", 22, "r"), machine(5, "b", "", 22, "r"), machine(5, "c", "", 22, "r")];
    assert_eq!(quick_login_target("5", &ms), Some(1));
    assert_eq!(quick_login_target("3", &ms), Some(0));
    assert_eq!(quick_login_target("4", &ms), None);
    assert_eq!(quick_login_target("web", &ms), None);
    assert_eq!(quick_login_target("+5", &ms), Some(1));
}

#[test]
fn imported_machines_are_numbered_consecutively() {
    let mut ms = vec![machine(0, "a", "", 22, "r"), machine(0, "b", "", 22, "r"), machine(0, "c", "", 22, "r")];
    assign_numbers(&mut ms, 7);
    assert_eq!(ms.iter().map(|m| m.num).collect::<Vec<_>>(), vec![7, 8, 9]);
    assert_eq!(ms[2].ip, "c");
}

#[test]
fn import_and_search_messages() {
    assert_eq!(import_summary(2, 5), "Imported 2 machines (3 skipped)");
    assert_eq!(no_match_message("web"), "⚠ No machines found matching 'web'");
}

#[test]
fn search_plans() {
    let (sql, p) = search_plan("");
    assert_eq!(sql, SELECT_ALL);
    assert!(p.is_none());
    let (sql, p) = search_plan("10.0");
    assert_eq!(sql, SELECT_MATCHING);
    assert_eq!(p.as_deref(), Some("%10.0%"));
}
