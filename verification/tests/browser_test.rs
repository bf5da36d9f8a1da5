use minishell::browser::Side;
use minishell::filebrowser::{
    name_area, AfterListing, BrowserAction, BrowserKey, ConnectEvent, FileBrowserState, Listing, OpOutcome,
    StatusTone, TransferEvent,
};
use minishell::machine::Machine;
use minishell::paths::breadcrumb;
use minishell::sftp::FileEntry;

fn machine() -> Machine {
    Machine {
        id: 1,
        num: 1,
        nat_ip: "-".into(),
        ip: "10.0.0.1".into(),
        username: "root".into(),
        password: "pw".into(),
        port: 22,
        private_key_path: "-".into(),
        device: "Linux".into(),
        remark: "".into(),
    }
}

fn entry(name: &str, is_dir: bool, size: u64) -> FileEntry {
    FileEntry { name: name.into(), is_dir, size, modified: "2024-01-01 10:00".into(), perm: "rw-r--r--".into() }
}

fn local_raw() -> Vec<FileEntry> {
    vec![entry("b.txt", false, 1024), entry(".hidden", false, 1), entry("c", true, 0), entry("a", true, 0)]
}

/// A browser whose local panel lists `a`, `c`, `b.txt` and which is
/// connected, its remote panel at `/root` listing `x`.
fn connected() -> FileBrowserState {
    let (mut fb, _) = FileBrowserState::new(machine(), "/home/me".into());
    fb.listed(Side::Local, Listing::Entries(local_raw()), vec![], AfterListing::CountActive { unless_connecting: true });
    fb.connect_poll(ConnectEvent::Connected);
    fb.listed(Side::Remote, Listing::Entries(vec![entry(".", true, 0), entry("x", false, 5)]), vec![],
        AfterListing::CountActive { unless_connecting: false });
    fb
}

fn key(fb: &mut FileBrowserState, k: BrowserKey) -> Vec<BrowserAction> {
    fb.handle_key(k)
}

#[test]
fn a_new_browser_lists_the_local_home_while_connecting() {
    let (fb, actions) = FileBrowserState::new(machine(), "/home/me".into());
    assert_eq!(fb.local.current_path, "/home/me");
    assert_eq!(fb.remote.current_path, "/");
    assert_eq!(fb.status, "连接中");
    assert!(fb.connecting);
    assert_eq!(actions.len(), 1);
    assert!(matches!(actions[0],
        BrowserAction::Refresh { side: Side::Local, then: AfterListing::CountActive { unless_connecting: true } }));
}

#[test]
fn local_listings_hide_dot_files_and_put_directories_first() {
    let (mut fb, _) = FileBrowserState::new(machine(), "/home/me".into());
    fb.listed(Side::Local, Listing::Entries(local_raw()), vec![], AfterListing::CountActive { unless_connecting: true });
    let names: Vec<&str> = fb.local.entries.iter().map(|e| e.name.as_str()).collect();
    assert_eq!(names, vec!["a", "c", "b.txt"]);
    assert_eq!(fb.local.tree_entries.len(), 3);
    assert_eq!(fb.status, "连接中");
}

#[test]
fn connecting_opens_the_remote_home() {
    let fb = connected();
    assert!(fb.connected);
    assert!(!fb.connecting);
    assert_eq!(fb.remote.current_path, "/root");
    assert_eq!(fb.remote.entries.len(), 1);
    assert_eq!(fb.status, "3 entries");
}

#[test]
fn waiting_for_the_connection_counts_dots() {
    let (mut fb, _) = FileBrowserState::new(machine(), "/home/me".into());
    assert!(fb.connect_poll(ConnectEvent::Waiting { timed_out: false }).is_empty());
    assert_eq!(fb.status, "连接中.");
    fb.connect_poll(ConnectEvent::Waiting { timed_out: false });
    fb.connect_poll(ConnectEvent::Waiting { timed_out: false });
    assert_eq!(fb.status, "连接中...");
    fb.connect_poll(ConnectEvent::Waiting { timed_out: false });
    assert_eq!(fb.status, "连接中");
    let actions = fb.connect_poll(ConnectEvent::Waiting { timed_out: true });
    assert_eq!(fb.status, "连接超时（5秒）");
    assert!(!fb.connecting);
    assert_eq!(actions.len(), 1);
}

#[test]
fn a_failed_connection_shows_the_error() {
    let (mut fb, _) = FileBrowserState::new(machine(), "/home/me".into());
    fb.connect_poll(ConnectEvent::Failed("refused".into()));
    assert_eq!(fb.status, "错误: refused");
}

#[test]
fn marking_twice_unmarks() {
    let mut fb = connected();
    key(&mut fb, BrowserKey::Char('y'));
    assert_eq!(fb.clipboard.len(), 1);
    assert_eq!(fb.clipboard[0].source_path, "/home/me/a");
    assert_eq!(fb.clipboard_side, Some(Side::Local));
    assert_eq!(fb.status, "✓ Copied: a (LOCAL)");
    key(&mut fb, BrowserKey::Char('y'));
    assert!(fb.clipboard.is_empty());
    assert_eq!(fb.clipboard_side, None);
    assert_eq!(fb.status, "Unmarked: a");
}

#[test]
fn marking_on_the_other_side_asks_first() {
    let mut fb = connected();
    key(&mut fb, BrowserKey::Char('y'));
    key(&mut fb, BrowserKey::Tab);
    assert_eq!(fb.active_side, Side::Remote);
    assert_eq!(fb.status, "1 entries");
    key(&mut fb, BrowserKey::Char('y'));
    assert_eq!(fb.switch_confirm, Some(Side::Remote));
    assert_eq!(fb.status, "切换到 REMOTE？清空选择 [Y/N]");
    key(&mut fb, BrowserKey::Char('Y'));
    assert_eq!(fb.clipboard.len(), 1);
    assert_eq!(fb.clipboard[0].name, "x");
    assert_eq!(fb.clipboard_side, Some(Side::Remote));
}

#[test]
fn declining_the_switch_keeps_the_marks() {
    let mut fb = connected();
    key(&mut fb, BrowserKey::Char('y'));
    key(&mut fb, BrowserKey::Tab);
    key(&mut fb, BrowserKey::Char('y'));
    key(&mut fb, BrowserKey::Esc);
    assert_eq!(fb.status, "选择未变");
    assert_eq!(fb.clipboard[0].name, "a");
}

#[test]
fn pasting_queues_the_marks_and_starts_the_first_transfer() {
    let mut fb = connected();
    key(&mut fb, BrowserKey::Char('y'));
    assert!(key(&mut fb, BrowserKey::Char('p')).is_empty());
    assert_eq!(fb.status, "已在 LOCAL 侧");
    key(&mut fb, BrowserKey::Tab);
    let actions = key(&mut fb, BrowserKey::Char('p'));
    assert_eq!(actions.len(), 1);
    match &actions[0] {
        BrowserAction::StartTransfer { name, source, dest, is_dir, direction } => {
            assert_eq!(name, "a");
            assert_eq!(source, "/home/me/a");
            assert_eq!(dest, "/root/a");
            assert!(*is_dir);
            assert_eq!(*direction, Side::Local);
        },
        _ => panic!("a transfer starts"),
    }
    assert!(fb.transferring);
    assert_eq!(fb.status, "Uploading a/...");
    assert!(fb.clipboard.is_empty());
    assert_eq!(fb.transfer_queue.len(), 1);
    assert!(key(&mut fb, BrowserKey::Char('d')).is_empty());
    let stop = key(&mut fb, BrowserKey::Esc);
    assert!(matches!(stop[0], BrowserAction::CancelTransfer));
    assert_eq!(fb.status, "取消中...");
}

#[test]
fn transfer_progress_and_completion() {
    let mut fb = connected();
    key(&mut fb, BrowserKey::Char('y'));
    key(&mut fb, BrowserKey::Tab);
    key(&mut fb, BrowserKey::Char('p'));
    assert!(fb.transfer_poll(Some(("a".into(), 50, 100)), TransferEvent::Running).is_empty());
    assert_eq!(fb.status, "a 50%");
    assert_eq!(fb.progress_bar(), Some((50, 10, 10)));
    assert_eq!(fb.status_tone(), StatusTone::Busy);
    let done = fb.transfer_poll(Some(("a".into(), 100, 100)), TransferEvent::Done(Side::Remote));
    assert_eq!(done.len(), 1);
    assert!(matches!(done[0], BrowserAction::Refresh { side: Side::Remote, then: AfterListing::KeepStatus }));
    assert!(!fb.transferring);
    assert!(fb.transfer_queue.is_empty());
    assert_eq!(fb.status, "传输完成");
    assert_eq!(fb.status_tone(), StatusTone::Success);
}

#[test]
fn a_failed_transfer_moves_on() {
    let mut fb = connected();
    key(&mut fb, BrowserKey::Char('y'));
    key(&mut fb, BrowserKey::Down);
    key(&mut fb, BrowserKey::Char('y'));
    key(&mut fb, BrowserKey::Tab);
    key(&mut fb, BrowserKey::Char('p'));
    assert_eq!(fb.transfer_queue.len(), 2);
    let next = fb.transfer_poll(Some(("a".into(), 0, 0)), TransferEvent::Failed("disk".into()));
    assert_eq!(next.len(), 1);
    assert_eq!(fb.status, "Uploading c/...");
    fb.transfer_poll(Some(("c".into(), 0, 0)), TransferEvent::Failed("disk".into()));
    assert_eq!(fb.status, "错误: disk");
    assert_eq!(fb.status_tone(), StatusTone::Failure);
    assert!(fb.transfer_queue.is_empty());
}

#[test]
fn expanding_and_collapsing_the_tree() {
    let mut fb = connected();
    let ask = key(&mut fb, BrowserKey::Char('t'));
    match &ask[0] {
        BrowserAction::ListChildren { side, path } => {
            assert_eq!(*side, Side::Local);
            assert_eq!(path, "/home/me/a");
        },
        _ => panic!("the directory is listed first"),
    }
    let rebuild = fb.expand_listed(Side::Local, "/home/me/a".into(), vec![entry("z", false, 3), entry(".h", false, 1)]);
    assert!(matches!(rebuild, Some(BrowserAction::RebuildTree { side: Side::Local, report: true })));
    assert_eq!(fb.local.expanded_dirs, vec!["/home/me/a".to_string()]);
    fb.tree_listed(Side::Local, vec![("/home/me/a".into(), vec![entry("z", false, 3)])], true);
    let rows: Vec<(&str, usize)> = fb.local.tree_entries.iter().map(|t| (t.entry.name.as_str(), t.depth)).collect();
    assert_eq!(rows, vec![("a", 0), ("z", 1), ("c", 0), ("b.txt", 0)]);
    assert_eq!(fb.status, "4 entries");
    key(&mut fb, BrowserKey::Down);
    assert_eq!(fb.local.cursor, 1);
    assert!(key(&mut fb, BrowserKey::Left).is_empty());
    assert_eq!(fb.local.cursor, 0);
    let collapse = key(&mut fb, BrowserKey::Left);
    assert!(matches!(collapse[0], BrowserAction::RebuildTree { side: Side::Local, report: false }));
    assert!(fb.local.expanded_dirs.is_empty());
    fb.tree_listed(Side::Local, vec![], false);
    assert_eq!(fb.local.tree_entries.len(), 3);
}

#[test]
fn expanding_an_empty_directory_only_says_so() {
    let mut fb = connected();
    key(&mut fb, BrowserKey::Char('t'));
    assert!(fb.expand_listed(Side::Local, "/home/me/a".into(), vec![entry(".only", false, 1)]).is_none());
    assert_eq!(fb.status, "a (empty)");
    assert!(fb.local.expanded_dirs.is_empty());
}

#[test]
fn entering_and_leaving_a_directory_returns_to_it() {
    let mut fb = connected();
    key(&mut fb, BrowserKey::Down);
    let enter = key(&mut fb, BrowserKey::Enter);
    assert!(matches!(enter[0], BrowserAction::Refresh { side: Side::Local, then: AfterListing::Report }));
    assert_eq!(fb.local.current_path, "/home/me/c");
    assert_eq!(fb.local.prev_dir_name.as_deref(), Some("c"));
    let back = key(&mut fb, BrowserKey::Esc);
    assert_eq!(fb.local.current_path, "/home/me");
    match &back[0] {
        BrowserAction::Refresh { side: Side::Local, then: AfterListing::ReturnTo(name) } => assert_eq!(name, "c"),
        _ => panic!("going up asks for the listing"),
    }
    fb.listed(Side::Local, Listing::Entries(local_raw()), vec![], AfterListing::ReturnTo("c".into()));
    assert_eq!(fb.local.cursor, 1);
}

#[test]
fn entering_a_file_shows_its_size() {
    let mut fb = connected();
    key(&mut fb, BrowserKey::PageDown);
    assert_eq!(fb.local.cursor, 2);
    assert!(key(&mut fb, BrowserKey::Right).is_empty());
    assert_eq!(fb.status, "b.txt (1.00 K)");
}

#[test]
fn root_and_home() {
    let mut fb = connected();
    key(&mut fb, BrowserKey::Char('/'));
    assert_eq!(fb.local.current_path, "/");
    key(&mut fb, BrowserKey::Char('~'));
    assert_eq!(fb.local.current_path, "/home/me");
    key(&mut fb, BrowserKey::Tab);
    key(&mut fb, BrowserKey::Char('/'));
    key(&mut fb, BrowserKey::Char('~'));
    assert_eq!(fb.remote.current_path, "/root");
}

#[test]
fn deleting_asks_then_deletes() {
    let mut fb = connected();
    key(&mut fb, BrowserKey::PageDown);
    key(&mut fb, BrowserKey::Char('d'));
    assert_eq!(fb.status, "Delete:|[FILE]|b.txt│/home/me/b.txt|Local");
    let del = key(&mut fb, BrowserKey::Char('y'));
    match &del[0] {
        BrowserAction::Delete { side, name, path, is_dir } => {
            assert_eq!(*side, Side::Local);
            assert_eq!(name, "b.txt");
            assert_eq!(path, "/home/me/b.txt");
            assert!(!*is_dir);
        },
        _ => panic!("the delete is asked for"),
    }
    assert!(fb.confirm_delete.is_none());
    let again = fb.delete_finished(Side::Local, "b.txt", OpOutcome::Done);
    assert_eq!(fb.status, "Deleted b.txt");
    assert!(matches!(again, Some(BrowserAction::Refresh { side: Side::Local, then: AfterListing::Report })));
    fb.delete_finished(Side::Local, "b.txt", OpOutcome::Failed("busy".into()));
    assert_eq!(fb.status, "删除失败: busy");
}

#[test]
fn declining_a_delete() {
    let mut fb = connected();
    key(&mut fb, BrowserKey::Char('d'));
    key(&mut fb, BrowserKey::Char('n'));
    assert_eq!(fb.status, "删除已取消");
    assert!(fb.confirm_delete.is_none());
}

#[test]
fn renaming_edits_the_name() {
    let mut fb = connected();
    key(&mut fb, BrowserKey::PageDown);
    key(&mut fb, BrowserKey::Char('r'));
    assert_eq!(fb.status, "输入新名称:");
    assert_eq!(fb.status_text(), "输入新名称: b.txt");
    for _ in 0..4 {
        key(&mut fb, BrowserKey::Backspace);
    }
    key(&mut fb, BrowserKey::Char('x'));
    assert_eq!(fb.rename_input.as_deref(), Some("bx"));
    let r = key(&mut fb, BrowserKey::Enter);
    match &r[0] {
        BrowserAction::Rename { side, from, to, new_name } => {
            assert_eq!(*side, Side::Local);
            assert_eq!(from, "/home/me/b.txt");
            assert_eq!(to, "/home/me/bx");
            assert_eq!(new_name, "bx");
        },
        _ => panic!("the rename is asked for"),
    }
    fb.rename_finished(Side::Local, "bx", OpOutcome::Failed("denied".into()));
    assert_eq!(fb.status, "重命名失败: denied");
    fb.rename_finished(Side::Local, "bx", OpOutcome::Done);
    assert_eq!(fb.status, "已重命名为 bx");
}

#[test]
fn an_empty_new_name_cancels() {
    let mut fb = connected();
    key(&mut fb, BrowserKey::Char('r'));
    key(&mut fb, BrowserKey::Backspace);
    assert!(key(&mut fb, BrowserKey::Enter).is_empty());
    assert_eq!(fb.status, "重命名已取消");
}

#[test]
fn the_transfer_question_names_both_paths() {
    let mut fb = connected();
    key(&mut fb, BrowserKey::Char('x'));
    assert_eq!(fb.status, "Push:|[DIR]|a│/home/me/a|->|/root/a");
    assert_eq!(fb.help_hints(), vec![("[Y]", "es  "), ("[N]", "o")]);
    key(&mut fb, BrowserKey::Char('N'));
    assert_eq!(fb.status, "传输已取消");
    key(&mut fb, BrowserKey::Tab);
    key(&mut fb, BrowserKey::Char('x'));
    assert_eq!(fb.status, "Pull:|[FILE]|x│/root/x|<-|/home/me/x");
    let go = key(&mut fb, BrowserKey::Char('y'));
    match &go[0] {
        BrowserAction::StartTransfer { source, dest, direction, .. } => {
            assert_eq!(source, "/root/x");
            assert_eq!(dest, "/home/me/x");
            assert_eq!(*direction, Side::Remote);
        },
        _ => panic!("the download starts"),
    }
    assert_eq!(fb.status, "Downloading x...");
}

#[test]
fn the_selection_window() {
    let mut fb = connected();
    key(&mut fb, BrowserKey::Char('v'));
    assert_eq!(fb.status, "无文件选中");
    key(&mut fb, BrowserKey::Char('y'));
    key(&mut fb, BrowserKey::Down);
    key(&mut fb, BrowserKey::Char('y'));
    key(&mut fb, BrowserKey::Char('v'));
    assert!(fb.clipboard_panel_open);
    assert_eq!(fb.help_hints()[0], ("n", ":next  "));
    key(&mut fb, BrowserKey::Char('n'));
    assert_eq!(fb.clipboard_panel_cursor, 1);
    key(&mut fb, BrowserKey::Char('n'));
    assert_eq!(fb.clipboard_panel_cursor, 0);
    key(&mut fb, BrowserKey::Char('y'));
    assert_eq!(fb.clipboard.len(), 2);
    key(&mut fb, BrowserKey::Char('k'));
    key(&mut fb, BrowserKey::Char('k'));
    assert!(fb.clipboard.is_empty());
    assert!(!fb.clipboard_panel_open);
    assert_eq!(fb.status, "选择已清空");
}

#[test]
fn hints_while_browsing() {
    let fb = connected();
    let keys: Vec<&str> = fb.help_hints().iter().map(|h| h.0).collect();
    assert_eq!(keys, vec!["Tab", "↑↓", "→", "←", "y", "v", "p", "x", "d", "r", "t", "q"]);
}

#[test]
fn panel_rows_as_drawn() {
    let fb = connected();
    let row = fb.panel_row(Side::Local, 0, 10);
    assert!(row.selected);
    assert!(!row.marked);
    assert_eq!(row.name, "▸📁a      ");
    assert_eq!(row.size, "        ");
    assert_eq!(row.perm, " rw-r--r--");
    assert_eq!(row.modified, "2024-01-01 10:00");
    let file = fb.panel_row(Side::Local, 2, 10);
    assert_eq!(file.name, " 📄b.txt  ");
    assert_eq!(file.size, "  1.00 K");
    let remote = fb.panel_row(Side::Remote, 0, 4);
    assert_eq!(remote.name, " 📄x");
    assert_eq!(name_area(100), 62);
    assert_eq!(name_area(20), 6);
}

#[test]
fn visible_rows_follow_the_panel_height() {
    let mut fb = connected();
    fb.set_visible_rows(30);
    assert_eq!(fb.visible_rows, 26);
    fb.set_visible_rows(3);
    assert_eq!(fb.visible_rows, 1);
    assert_eq!(fb.marks_scroll(5), 0);
}

#[test]
fn switching_panels_twice_comes_back() {
    let mut fb = connected();
    assert!(key(&mut fb, BrowserKey::Tab).is_empty());
    assert_eq!(fb.active_side, Side::Remote);
    assert_eq!(fb.status, "1 entries");
    assert!(key(&mut fb, BrowserKey::Tab).is_empty());
    assert_eq!(fb.active_side, Side::Local);
    assert_eq!(fb.status, "3 entries");
}

#[test]
fn local_entries_are_arranged_without_hidden_ones() {
    let names: Vec<String> = minishell::filebrowser::arrange_local(local_raw()).into_iter().map(|e| e.name).collect();
    assert_eq!(names, vec!["a", "c", "b.txt"]);
}

#[test]
fn breadcrumb_joins_the_path_components() {
    assert_eq!(breadcrumb("/home/user"), "/ > home > user");
    assert_eq!(breadcrumb("//srv/./data/"), "/ > srv > data");
    assert_eq!(breadcrumb("docs"), "docs");
    assert_eq!(breadcrumb(""), "");
}

#[test]
fn clipboard_panel_fits_the_area() {
    let mut fb = connected();
    assert_eq!(fb.clipboard_panel_size(120, 40), (42, 5));
    assert_eq!(fb.clipboard_panel_size(30, 3), (28, 5));
    assert_eq!(fb.clipboard_panel_size(1, 40), (0, 5));
    key(&mut fb, BrowserKey::Char('y'));
    key(&mut fb, BrowserKey::Down);
    key(&mut fb, BrowserKey::Char('y'));
    assert_eq!(fb.clipboard.len(), 2);
    assert_eq!(fb.clipboard_panel_size(120, 40), (42, 6));
    assert_eq!(fb.clipboard_panel_size(120, 5), (42, 5));
}
