//! The file browser's state and decisions: which entry is selected, the
//! copy selection, the expanded tree, transfers, deletes and renames, and
//! what each key does. Listing directories, moving files and talking to the
//! SSH server are the caller's work; the browser says when they are due and
//! takes their results back.

use vstd::prelude::*;
use crate::browser::{Side, PanelState, TreeEntry, path_join, tree_row_path};
use crate::machine::Machine;
use crate::paths::join;
use crate::sftp::FileEntry;
use crate::text::{owned, push_str, str_chars, string_of, str_eq};

verus! {

/// One file or directory marked for copying.
pub struct ClipboardEntry {
    pub source_path: String,
    pub source_side: Side,
    pub name: String,
    pub is_dir: bool,
}

impl ClipboardEntry {
    /// A copy of this entry.
    pub fn duplicate(&self) -> (r: ClipboardEntry)
        ensures
            r == *self,
    {
        ClipboardEntry {
            source_path: self.source_path.clone(),
            source_side: self.source_side,
            name: self.name.clone(),
            is_dir: self.is_dir,
        }
    }
}

/// Everything the file browser shows and remembers.
pub struct FileBrowserState {
    pub machine: Machine,
    pub local: PanelState,
    pub remote: PanelState,
    pub active_side: Side,
    /// An SSH session to the machine is open.
    pub connected: bool,
    /// The first connection attempt has not answered yet.
    pub connecting: bool,
    /// A transfer is running.
    pub transferring: bool,
    pub status: String,
    pub progress_file_name: String,
    pub progress_current: u64,
    pub progress_total: u64,
    pub confirm_delete: Option<(Side, String)>,
    pub transfer_confirm: Option<Side>,
    pub rename_input: Option<String>,
    pub old_entry_name: String,
    pub old_entry_path: String,
    pub clipboard: Vec<ClipboardEntry>,
    pub clipboard_side: Option<Side>,
    pub clipboard_panel_open: bool,
    pub clipboard_panel_cursor: usize,
    pub switch_confirm: Option<Side>,
    pub transfer_queue: Vec<ClipboardEntry>,
    pub connecting_dots: u8,
    pub visible_rows: usize,
    /// The local home directory, where the local panel starts.
    pub local_home: String,
}

/// Some entry of `clip` is called `name` and comes from `side`.
pub open spec fn in_clip(clip: Seq<ClipboardEntry>, name: Seq<char>, side: Side) -> bool {
    exists|i: int| 0 <= i < clip.len() && (#[trigger] clip[i]).name@ == name && clip[i].source_side == side
}

/// Walking up from tree row `i` (whose depth is `depth`), the name of the
/// first enclosing directory that is marked for copying from `side`. The
/// walk stops at the top level.
pub open spec fn marked_ancestor(rows: Seq<TreeEntry>, clip: Seq<ClipboardEntry>, side: Side, i: int, depth: nat)
    -> Option<Seq<char>>
    decreases i,
{
    if i <= 0 {
        None
    } else if (rows[i - 1].depth as nat) < depth {
        if in_clip(clip, rows[i - 1].entry.name@, side) {
            Some(rows[i - 1].entry.name@)
        } else if rows[i - 1].depth == 0 {
            None
        } else {
            marked_ancestor(rows, clip, side, i - 1, rows[i - 1].depth as nat)
        }
    } else {
        marked_ancestor(rows, clip, side, i - 1, depth)
    }
}

/// The panel on `side`.
pub open spec fn panel_on(fb: FileBrowserState, side: Side) -> PanelState {
    match side {
        Side::Local => fb.local,
        Side::Remote => fb.remote,
    }
}

/// The entry under the panel's cursor: a tree row while directories are
/// expanded, a plain listing entry otherwise.
pub open spec fn entry_at(p: PanelState) -> Option<FileEntry> {
    if p.expanded_dirs@.len() > 0 {
        if p.cursor < p.tree_entries@.len() { Some(p.tree_entries@[p.cursor as int].entry) } else { None }
    } else {
        if p.cursor < p.entries@.len() { Some(p.entries@[p.cursor as int]) } else { None }
    }
}

/// Full path of the entry under the panel's cursor (the panel's directory
/// when a plain listing has none there).
pub open spec fn entry_path(p: PanelState) -> Seq<char> {
    if p.expanded_dirs@.len() > 0 {
        tree_row_path(p.current_path@, p.tree_entries@, p.cursor as int)
    } else if p.cursor < p.entries@.len() {
        path_join(p.current_path@, p.entries@[p.cursor as int].name@)
    } else {
        p.current_path@
    }
}

/// Index of the first entry of `clip` whose source path is `path`, or -1.
pub open spec fn index_of_path(clip: Seq<ClipboardEntry>, path: Seq<char>) -> int
    decreases clip.len(),
{
    if clip.len() == 0 {
        -1
    } else if clip[0].source_path@ == path {
        0
    } else {
        let r = index_of_path(clip.drop_first(), path);
        if r < 0 { -1 } else { r + 1 }
    }
}

/// Index of the first entry of `clip` called `name` from `side`, or -1.
pub open spec fn index_of_name(clip: Seq<ClipboardEntry>, name: Seq<char>, side: Side) -> int
    decreases clip.len(),
{
    if clip.len() == 0 {
        -1
    } else if clip[0].name@ == name && clip[0].source_side == side {
        0
    } else {
        let r = index_of_name(clip.drop_first(), name, side);
        if r < 0 { -1 } else { r + 1 }
    }
}

proof fn lemma_index_of_path(clip: Seq<ClipboardEntry>, path: Seq<char>)
    ensures
        -1 <= index_of_path(clip, path) < clip.len(),
        index_of_path(clip, path) >= 0 ==> clip[index_of_path(clip, path)].source_path@ == path,
    decreases clip.len(),
{
    if clip.len() > 0 && clip[0].source_path@ != path {
        lemma_index_of_path(clip.drop_first(), path);
    }
}

proof fn lemma_index_of_name(clip: Seq<ClipboardEntry>, name: Seq<char>, side: Side)
    ensures
        -1 <= index_of_name(clip, name, side) < clip.len(),
        index_of_name(clip, name, side) >= 0 <==> in_clip(clip, name, side),
    decreases clip.len(),
{
    if clip.len() > 0 {
        lemma_index_of_name(clip.drop_first(), name, side);
        if !(clip[0].name@ == name && clip[0].source_side == side) {
            if in_clip(clip, name, side) {
                let i = choose|i: int| 0 <= i < clip.len() && (#[trigger] clip[i]).name@ == name && clip[i].source_side == side;
                assert(i > 0);
                assert(clip.drop_first()[i - 1] == clip[i]);
            }
            if in_clip(clip.drop_first(), name, side) {
                let i = choose|i: int| 0 <= i < clip.drop_first().len()
                    && (#[trigger] clip.drop_first()[i]).name@ == name && clip.drop_first()[i].source_side == side;
                assert(clip[i + 1] == clip.drop_first()[i]);
            }
        } else {
            assert(clip[0].name@ == name);
        }
    }
}

fn find_path(clip: &Vec<ClipboardEntry>, path: &String) -> (r: Option<usize>)
    ensures
        match r {
            Some(i) => i as int == index_of_path(clip@, path@),
            None => index_of_path(clip@, path@) == -1,
        },
{
    let mut i: usize = 0;
    assert(clip@.skip(0) =~= clip@);
    proof { lemma_index_of_path(clip@, path@); }
    while i < clip.len()
        invariant
            i <= clip@.len(),
            index_of_path(clip@, path@) == (if index_of_path(clip@.skip(i as int), path@) < 0 { -1 }
                else { index_of_path(clip@.skip(i as int), path@) + i }),
        decreases clip@.len() - i,
    {
        assert(clip@.skip(i as int)[0] == clip@[i as int]);
        if str_eq(clip[i].source_path.as_str(), path.as_str()) {
            return Some(i);
        }
        assert(clip@.skip(i as int).drop_first() =~= clip@.skip(i as int + 1));
        i = i + 1;
    }
    None
}

fn find_name(clip: &Vec<ClipboardEntry>, name: &String, side: Side) -> (r: Option<usize>)
    ensures
        match r {
            Some(i) => i as int == index_of_name(clip@, name@, side),
            None => index_of_name(clip@, name@, side) == -1,
        },
{
    let mut i: usize = 0;
    assert(clip@.skip(0) =~= clip@);
    proof { lemma_index_of_name(clip@, name@, side); }
    while i < clip.len()
        invariant
            i <= clip@.len(),
            index_of_name(clip@, name@, side) == (if index_of_name(clip@.skip(i as int), name@, side) < 0 { -1 }
                else { index_of_name(clip@.skip(i as int), name@, side) + i }),
        decreases clip@.len() - i,
    {
        assert(clip@.skip(i as int)[0] == clip@[i as int]);
        if str_eq(clip[i].name.as_str(), name.as_str()) && clip[i].source_side == side {
            return Some(i);
        }
        assert(clip@.skip(i as int).drop_first() =~= clip@.skip(i as int + 1));
        i = i + 1;
    }
    None
}

/// What `FileBrowserState::yank_toggle` makes of `before`.
pub open spec fn yank_toggle_effect(before: FileBrowserState, after: FileBrowserState) -> bool {
    &&& after.same_but_marks(before)
    &&& after.clipboard_panel_open == before.clipboard_panel_open
    &&& after.clipboard_panel_cursor == before.clipboard_panel_cursor
    &&& ({
            let side = before.active_side;
            let p = panel_on(before, side);
            let clip = before.clipboard@;
            match entry_at(p) {
                None => after == before,
                Some(e) => if e.name@ == ".."@ {
                    after == before
                } else if index_of_path(clip, entry_path(p)) >= 0 {
                    let k = index_of_path(clip, entry_path(p));
                    &&& after.clipboard@ == clip.remove(k)
                    &&& after.clipboard_side == (if clip.len() == 1 { None } else { before.clipboard_side })
                    &&& after.switch_confirm == before.switch_confirm
                    &&& after.status@ == unmarked_text(e.name@)
                } else if before.effectively_selected(e.name@, side, p.cursor as nat) {
                    let anc = if p.cursor < p.tree_entries@.len() {
                        marked_ancestor(p.tree_entries@, clip, side, p.cursor as int,
                            p.tree_entries@[p.cursor as int].depth as nat)
                    } else {
                        None
                    };
                    match anc {
                        Some(name) => {
                            let k = index_of_name(clip, name, side);
                            &&& after.clipboard@ == clip.remove(k)
                            &&& after.clipboard_side == (if clip.len() == 1 { None } else { before.clipboard_side })
                            &&& after.switch_confirm == before.switch_confirm
                            &&& after.status@ == unmarked_text(name)
                        },
                        None => after == before,
                    }
                } else if before.clipboard_side matches Some(cs) && cs != side {
                    &&& after.clipboard == before.clipboard
                    &&& after.clipboard_side == before.clipboard_side
                    &&& after.switch_confirm == Some(side)
                    &&& after.status@ == switch_text(side)
                } else {
                    &&& after.clipboard@.len() == clip.len() + 1
                    &&& after.clipboard@.take(clip.len() as int) == clip
                    &&& after.clipboard@.last().source_path@ == entry_path(p)
                    &&& after.clipboard@.last().source_side == side
                    &&& after.clipboard@.last().name@ == e.name@
                    &&& after.clipboard@.last().is_dir == e.is_dir
                    &&& after.clipboard_side == Some(side)
                    &&& after.switch_confirm == before.switch_confirm
                    &&& after.status@ == copied_text(e.name@, side)
                },
            }
        })
}

/// What `FileBrowserState::confirm_switch` makes of `before`.
pub open spec fn confirm_switch_effect(before: FileBrowserState, after: FileBrowserState) -> bool {
    &&& after.switch_confirm is None
    &&& before.switch_confirm is None ==> after == before
    &&& ({
            let p = panel_on(before, before.active_side);
            before.switch_confirm matches Some(side) ==> match entry_at(p) {
                None => after.clipboard == before.clipboard
                    && after.clipboard_side == before.clipboard_side
                    && after.status == before.status
                    && after.clipboard_panel_cursor == before.clipboard_panel_cursor,
                Some(e) => {
                    &&& after.clipboard@.len() == 1
                    &&& after.clipboard@[0].source_path@ == entry_path(p)
                    &&& after.clipboard@[0].source_side == side
                    &&& after.clipboard@[0].name@ == e.name@
                    &&& after.clipboard@[0].is_dir == e.is_dir
                    &&& after.clipboard_side == Some(side)
                    &&& after.clipboard_panel_cursor == 0
                    &&& after.status@ == copied_text(e.name@, side)
                },
            }
        })
    &&& after.same_but_marks(before)
    &&& after.clipboard_panel_open == before.clipboard_panel_open
}

/// What `FileBrowserState::open_clipboard_panel` makes of `before`.
pub open spec fn open_clipboard_panel_effect(before: FileBrowserState, after: FileBrowserState) -> bool {
    &&& after.same_but_marks(before)
    &&& after.clipboard == before.clipboard
    &&& after.clipboard_side == before.clipboard_side
    &&& after.switch_confirm == before.switch_confirm
    &&& before.clipboard@.len() == 0 ==> after.status@ == NOTHING_MARKED@
            && after.clipboard_panel_open == before.clipboard_panel_open
            && after.clipboard_panel_cursor == before.clipboard_panel_cursor
    &&& before.clipboard@.len() > 0 ==> after.clipboard_panel_open
            && after.clipboard_panel_cursor == 0 && after.status == before.status
}

/// What `FileBrowserState::close_clipboard_panel` makes of `before`.
pub open spec fn close_clipboard_panel_effect(before: FileBrowserState, after: FileBrowserState) -> bool {
    &&& !after.clipboard_panel_open
    &&& after == (FileBrowserState { clipboard_panel_open: false, ..before })
}

/// What `FileBrowserState::clipboard_panel_next` makes of `before`.
pub open spec fn clipboard_panel_next_effect(before: FileBrowserState, after: FileBrowserState) -> bool {
    &&& before.clipboard@.len() == 0 ==> after == before
    &&& before.clipboard@.len() > 0 ==> after == (FileBrowserState {
            clipboard_panel_cursor: ((before.clipboard_panel_cursor + 1) % (before.clipboard@.len() as int)) as usize,
            ..before
        })
}

/// What `FileBrowserState::clipboard_panel_remove` makes of `before`.
pub open spec fn clipboard_panel_remove_effect(before: FileBrowserState, after: FileBrowserState) -> bool {
    &&& after.same_but_marks(before)
    &&& after.switch_confirm == before.switch_confirm
    &&& (before.clipboard@.len() == 0 || before.clipboard_panel_cursor >= before.clipboard@.len())
            ==> after == before
    &&& (0 < before.clipboard@.len() && before.clipboard_panel_cursor < before.clipboard@.len()) ==> ({
            let rest = before.clipboard@.remove(before.clipboard_panel_cursor as int);
            &&& after.clipboard@ == rest
            &&& rest.len() == 0 ==> after.clipboard_side is None && !after.clipboard_panel_open
                && after.status@ == MARKS_CLEARED@
            &&& rest.len() > 0 ==> after.clipboard_side == before.clipboard_side
                && after.clipboard_panel_open == before.clipboard_panel_open
                && after.status == before.status
                && after.clipboard_panel_cursor == (if before.clipboard_panel_cursor >= rest.len() {
                    (rest.len() - 1) as usize
                } else {
                    before.clipboard_panel_cursor
                })
        })
}

/// What `FileBrowserState::paste_from_clipboard` makes of `before`.
pub open spec fn paste_from_clipboard_effect(before: FileBrowserState, after: FileBrowserState, r: Option<BrowserAction>) -> bool {
    &&& after.same_view(before)
    &&& before.clipboard@.len() == 0 ==> r is None && after.status@ == NOTHING_MARKED@
            && after == (FileBrowserState { status: after.status, ..before })
    &&& (before.clipboard@.len() > 0 && (before.transferring || before.clipboard_side is None))
            ==> r is None && after == before
    &&& (before.clipboard@.len() > 0 && !before.transferring && before.clipboard_side == Some(before.active_side))
            ==> r is None && after.status@ == same_side_text(before.active_side)
            && after == (FileBrowserState { status: after.status, ..before })
    &&& (before.clipboard@.len() > 0 && !before.transferring && before.clipboard_side == Some(Side::Remote)
            && before.active_side == Side::Local && !before.connected)
            ==> r is None && after.status@ == NOT_CONNECTED@
            && after == (FileBrowserState { status: after.status, ..before })
    &&& (before.clipboard@.len() > 0 && !before.transferring
            && before.clipboard_side == Some(before.active_side.other_side())
            && (before.active_side == Side::Remote || before.connected)) ==> ({
            let e = before.clipboard@[0];
            &&& after.transfer_queue@ == before.clipboard@
            &&& after.clipboard@.len() == 0
            &&& after.clipboard_side is None
            &&& !after.clipboard_panel_open
            &&& r matches Some(a) && is_transfer(a, e.name@, e.source_path@,
                path_join(panel_on(before, before.active_side).current_path@, e.name@), e.is_dir, e.source_side)
            &&& after.transferring
            &&& after.status@ == transfer_start_text(e.name@, e.is_dir, e.source_side)
        })
}

/// What `FileBrowserState::toggle_side` makes of `before`.
pub open spec fn toggle_side_effect(before: FileBrowserState, after: FileBrowserState) -> bool {
    &&& after.same_but_panels(before)
    &&& after.local == before.local
    &&& after.remote == before.remote
    &&& after.active_side == before.active_side.other_side()
    &&& ({
            let p = panel_on(before, before.active_side.other_side());
            after.status@ == count_text(if p.expanded_dirs@.len() == 0 { p.entries@.len() }
                else { p.tree_entries@.len() })
        })
}

/// What `FileBrowserState::move_cursor` makes of `before`.
pub open spec fn move_cursor_effect(before: FileBrowserState, after: FileBrowserState, delta: isize) -> bool {
    &&& after.same_but_panels(before)
    &&& after.status == before.status
    &&& after.active_side == before.active_side
    &&& panel_on(after, before.active_side.other_side()) == panel_on(before, before.active_side.other_side())
    &&& ({
            let p = panel_on(before, before.active_side);
            let q = panel_on(after, before.active_side);
            &&& q.tree_entries == p.tree_entries
            &&& q.entries == p.entries
            &&& q.expanded_dirs == p.expanded_dirs
            &&& q.current_path == p.current_path
            &&& ((p.tree_entries@.len() > 0 && p.cursor < isize::MAX && p.scroll_offset + before.visible_rows <= usize::MAX)
                ==> ({
                    let c = crate::browser::clamped_cursor(p.cursor, delta, p.tree_entries@.len());
                    &&& q.cursor == c
                    &&& q.scroll_offset == if c < p.scroll_offset {
                        c
                    } else if c >= p.scroll_offset + before.visible_rows {
                        (c + 1 - before.visible_rows) as nat
                    } else {
                        p.scroll_offset as nat
                    }
                }))
            &&& (!(p.tree_entries@.len() > 0 && p.cursor < isize::MAX && p.scroll_offset + before.visible_rows <= usize::MAX)
                ==> q == p)
        })
}

/// What `FileBrowserState::cursor_first` makes of `before`.
pub open spec fn cursor_first_effect(before: FileBrowserState, after: FileBrowserState) -> bool {
    &&& after.same_but_panels(before)
    &&& after.status == before.status
    &&& after.active_side == before.active_side
    &&& panel_on(after, before.active_side.other_side()) == panel_on(before, before.active_side.other_side())
    &&& ({
            let p = panel_on(before, before.active_side);
            let q = panel_on(after, before.active_side);
            &&& q.tree_entries == p.tree_entries
            &&& q.entries == p.entries
            &&& q.expanded_dirs == p.expanded_dirs
            &&& q.current_path == p.current_path
            &&& (p.tree_entries@.len() > 0 ==> q.cursor == 0 && q.scroll_offset == 0)
            &&& (p.tree_entries@.len() == 0 ==> q.cursor == p.cursor && q.scroll_offset == p.scroll_offset)
        })
}

/// What `FileBrowserState::cursor_last` makes of `before`.
pub open spec fn cursor_last_effect(before: FileBrowserState, after: FileBrowserState) -> bool {
    &&& after.same_but_panels(before)
    &&& after.status == before.status
    &&& after.active_side == before.active_side
    &&& panel_on(after, before.active_side.other_side()) == panel_on(before, before.active_side.other_side())
    &&& ({
            let p = panel_on(before, before.active_side);
            let q = panel_on(after, before.active_side);
            let v = before.visible_rows;
            &&& q.tree_entries == p.tree_entries
            &&& q.entries == p.entries
            &&& q.expanded_dirs == p.expanded_dirs
            &&& q.current_path == p.current_path
            &&& ((p.tree_entries@.len() > 0 && p.scroll_offset + v <= usize::MAX) ==> ({
                let last = (p.tree_entries@.len() - 1) as nat;
                &&& q.cursor == last
                &&& q.scroll_offset == if last >= p.scroll_offset + v {
                    if p.tree_entries@.len() > v { (p.tree_entries@.len() - v) as nat } else { 0 }
                } else {
                    p.scroll_offset as nat
                }
            }))
            &&& (!(p.tree_entries@.len() > 0 && p.scroll_offset + v <= usize::MAX) ==> q == p)
        })
}

/// What `FileBrowserState::goto_root` makes of `before`.
pub open spec fn goto_root_effect(before: FileBrowserState, after: FileBrowserState, r: Option<BrowserAction>) -> bool {
    &&& after.went_to(before, "/"@)
    &&& after.moved_from(before)
    &&& (before.active_side == Side::Remote && !before.connected) ==> r is None
            && after.status@ == NOT_CONNECTED@
    &&& !(before.active_side == Side::Remote && !before.connected)
            ==> r == Some(BrowserAction::Refresh { side: before.active_side, then: AfterListing::Report })
            && after.status == before.status
}

/// What `FileBrowserState::goto_home` makes of `before`.
pub open spec fn goto_home_effect(before: FileBrowserState, after: FileBrowserState, r: Option<BrowserAction>) -> bool {
    &&& after.went_to(before, match before.active_side {
            Side::Remote => remote_home(before.machine.username@),
            Side::Local => before.local_home@,
        })
    &&& after.moved_from(before)
    &&& (before.active_side == Side::Remote && !before.connected) ==> r is None
            && after.status@ == NOT_CONNECTED@
    &&& !(before.active_side == Side::Remote && !before.connected)
            ==> r == Some(BrowserAction::Refresh { side: before.active_side, then: AfterListing::Report })
            && after.status == before.status
}

/// What `FileBrowserState::parent_dir` makes of `before`.
pub open spec fn parent_dir_effect(before: FileBrowserState, after: FileBrowserState, r: Option<BrowserAction>) -> bool {
    &&& after.moved_from(before)
    &&& went_up(before, after, r)
}

/// What `FileBrowserState::enter_dir` makes of `before`.
pub open spec fn enter_dir_effect(before: FileBrowserState, after: FileBrowserState, r: Option<BrowserAction>) -> bool {
    &&& after.moved_from(before)
    &&& ({
            let p = panel_on(before, before.active_side);
            let q = panel_on(after, before.active_side);
            if p.cursor >= p.tree_entries@.len() {
                r is None && after == before
            } else {
                let e = p.tree_entries@[p.cursor as int].entry;
                let full = tree_row_path(p.current_path@, p.tree_entries@, p.cursor as int);
                let target: Option<(Seq<char>, Seq<char>)> = if e.is_dir {
                    Some((full, crate::session::last_segment(e.name@)))
                } else {
                    match crate::paths::parent_path(full) {
                        None => None,
                        Some(parent) => if crate::paths::paths_equal(parent, p.current_path@) {
                            None
                        } else {
                            Some((parent, match crate::paths::file_name_of(parent) {
                                Some(n) => n,
                                None => Seq::empty(),
                            }))
                        },
                    }
                };
                match target {
                    None => r is None && after.local == before.local && after.remote == before.remote
                        && if !e.is_dir && (crate::paths::parent_path(full) matches Some(parent)
                            && crate::paths::paths_equal(parent, p.current_path@)) {
                            after.status@ == size_status(e.name@, e.size)
                        } else {
                            after.status == before.status
                        },
                    Some((path, name)) => {
                        &&& after.went_to(before, path)
                        &&& q.prev_dir_name matches Some(n) && n@ == name
                        &&& (before.active_side == Side::Remote && !before.connected) ==> r is None
                            && after.status@ == NOT_CONNECTED@
                        &&& !(before.active_side == Side::Remote && !before.connected)
                            ==> r == Some(BrowserAction::Refresh { side: before.active_side, then: AfterListing::Report })
                            && after.status == before.status
                    },
                }
            }
        })
}

/// What `FileBrowserState::toggle_tree` makes of `before`.
pub open spec fn toggle_tree_effect(before: FileBrowserState, after: FileBrowserState, r: Option<BrowserAction>) -> bool {
    &&& after.moved_from(before)
    &&& ({
            let side = before.active_side;
            let p = panel_on(before, side);
            let q = panel_on(after, side);
            if side == Side::Remote && !before.connected {
                r is None && after.status@ == NOT_CONNECTED@ && after.local == before.local
                    && after.remote == before.remote
            } else if p.cursor >= p.tree_entries@.len() || !p.tree_entries@[p.cursor as int].entry.is_dir {
                r is None && after == before
            } else {
                let full = tree_row_path(p.current_path@, p.tree_entries@, p.cursor as int);
                if dir_index(texts(p.expanded_dirs@), full) >= 0 {
                    &&& texts(q.expanded_dirs@) == kept_dirs(texts(p.expanded_dirs@), full)
                    &&& q == (PanelState { expanded_dirs: q.expanded_dirs, ..p })
                    &&& r == Some(BrowserAction::RebuildTree { side, report: true })
                    &&& after.status == before.status
                } else {
                    &&& after == before
                    &&& r matches Some(BrowserAction::ListChildren { side: s, path }) && s == side && path@ == full
                }
            }
        })
}

/// What `FileBrowserState::collapse_or_navigate_tree` makes of `before`.
pub open spec fn collapse_or_navigate_tree_effect(before: FileBrowserState, after: FileBrowserState, r: Option<BrowserAction>) -> bool {
    &&& after.moved_from(before)
    &&& ({
            let side = before.active_side;
            let p = panel_on(before, side);
            let q = panel_on(after, side);
            if p.expanded_dirs@.len() == 0 || p.tree_entries@.len() == 0 {
                went_up(before, after, r)
            } else if p.cursor >= p.tree_entries@.len() {
                r is None && after == before
            } else {
                let te = p.tree_entries@[p.cursor as int];
                let depth = te.depth as nat;
                let up = if depth > 0 { row_above_at(p.tree_entries@, p.cursor as int, (depth - 1) as nat) } else { -1 };
                if te.entry.is_dir && expanded_name(texts(p.expanded_dirs@), te.entry.name@) {
                    let full = tree_row_path(p.current_path@, p.tree_entries@, p.cursor as int);
                    &&& texts(q.expanded_dirs@) == kept_dirs(texts(p.expanded_dirs@), full)
                    &&& q == (PanelState {
                        expanded_dirs: q.expanded_dirs,
                        cursor: if up >= 0 { up as usize } else { p.cursor },
                        ..p
                    })
                    &&& r == Some(BrowserAction::RebuildTree { side, report: false })
                    &&& after.status == before.status
                } else if depth == 0 || up < 0 {
                    went_up(before, after, r)
                } else {
                    &&& r is None
                    &&& q == (PanelState { cursor: up as usize, ..p })
                    &&& after.status == before.status
                }
            }
        })
}

/// What `FileBrowserState::start_transfer_confirm` makes of `before`.
pub open spec fn start_transfer_confirm_effect(before: FileBrowserState, after: FileBrowserState) -> bool {
    &&& ({
            let side = before.active_side;
            let p = panel_on(before, side);
            match entry_at(p) {
                Some(e) => if before.transferring || e.name@ == ".."@ {
                    after == before
                } else {
                    &&& after == (FileBrowserState {
                        status: after.status,
                        transfer_confirm: Some(side),
                        ..before
                    })
                    &&& after.status@ == transfer_question(side, e.is_dir, e.name@, entry_path(p),
                        before.local.current_path@, before.remote.current_path@)
                },
                None => after == before,
            }
        })
}

/// What `FileBrowserState::confirm_transfer` makes of `before`.
pub open spec fn confirm_transfer_effect(before: FileBrowserState, after: FileBrowserState, r: Option<BrowserAction>) -> bool {
    &&& transferred(FileBrowserState { transfer_confirm: None, ..before }, after, r,
            match before.transfer_confirm { Some(s) => s, None => before.active_side })
}

/// What `FileBrowserState::start_delete` makes of `before`.
pub open spec fn start_delete_effect(before: FileBrowserState, after: FileBrowserState) -> bool {
    &&& ({
            let side = before.active_side;
            let p = panel_on(before, side);
            match entry_at(p) {
                Some(e) => {
                    &&& after == (FileBrowserState {
                        status: after.status,
                        confirm_delete: after.confirm_delete,
                        ..before
                    })
                    &&& after.confirm_delete matches Some((s, n)) && s == side && n@ == e.name@
                    &&& after.status@ == delete_question(side, e.is_dir, e.name@, entry_path(p))
                },
                None => after == before,
            }
        })
}

/// What `FileBrowserState::confirm_delete_action` makes of `before`.
pub open spec fn confirm_delete_action_effect(before: FileBrowserState, after: FileBrowserState, r: Option<BrowserAction>) -> bool {
    &&& after.confirm_delete is None
    &&& ({
            match before.confirm_delete {
                None => r is None && after == before,
                Some((side, name)) => {
                    let p = panel_on(before, side);
                    let k = entry_index(p.entries@, name@);
                    if k < 0 {
                        r is None && after == (FileBrowserState { confirm_delete: None, ..before })
                    } else if side == Side::Remote && !before.connected {
                        r is None && after.status@ == NOT_CONNECTED@
                            && after == (FileBrowserState { confirm_delete: None, status: after.status, ..before })
                    } else {
                        &&& after == (FileBrowserState { confirm_delete: None, ..before })
                        &&& r matches Some(BrowserAction::Delete { side: s, name: n, path, is_dir })
                        &&& s == side && n@ == name@
                        &&& path@ == path_join(p.current_path@, p.entries@[k].name@)
                        &&& is_dir == p.entries@[k].is_dir
                    }
                },
            }
        })
}

/// What `FileBrowserState::start_rename` makes of `before`.
pub open spec fn start_rename_effect(before: FileBrowserState, after: FileBrowserState) -> bool {
    &&& ({
            let p = panel_on(before, before.active_side);
            match entry_at(p) {
                Some(e) => {
                    &&& after == (FileBrowserState {
                        status: after.status,
                        rename_input: after.rename_input,
                        old_entry_name: after.old_entry_name,
                        old_entry_path: after.old_entry_path,
                        ..before
                    })
                    &&& after.old_entry_name@ == e.name@
                    &&& after.old_entry_path@ == entry_path(p)
                    &&& after.rename_input matches Some(t) && t@ == e.name@
                    &&& after.status@ == RENAME_PROMPT@
                },
                None => after == before,
            }
        })
}

/// What `FileBrowserState::confirm_rename` makes of `before`.
pub open spec fn confirm_rename_effect(before: FileBrowserState, after: FileBrowserState, r: Option<BrowserAction>) -> bool {
    &&& after.rename_input is None
    &&& ({
            let side = before.active_side;
            match before.rename_input {
                Some(t) => if t@.len() == 0 {
                    r is None && after.status@ == RENAME_CANCELLED@
                        && after == (FileBrowserState { rename_input: None, status: after.status, ..before })
                } else if side == Side::Remote && !before.connected {
                    r is None && after.status@ == NOT_CONNECTED@
                        && after == (FileBrowserState { rename_input: None, status: after.status, ..before })
                } else {
                    let from = before.old_entry_path@;
                    let dir = match crate::paths::parent_path(from) { Some(d) => d, None => from };
                    &&& after == (FileBrowserState { rename_input: None, ..before })
                    &&& r matches Some(BrowserAction::Rename { side: s, from: f, to, new_name })
                    &&& s == side && f@ == from && to@ == path_join(dir, t@) && new_name@ == t@
                },
                None => r is None && after.status@ == RENAME_CANCELLED@
                    && after == (FileBrowserState { status: after.status, ..before }),
            }
        })
}

/// What `FileBrowserState::cancel_transfer` makes of `before`.
pub open spec fn cancel_transfer_effect(before: FileBrowserState, after: FileBrowserState, r: Option<BrowserAction>) -> bool {
    &&& after.status@ == CANCELLING@
    &&& after == (FileBrowserState { status: after.status, ..before })
    &&& before.transferring ==> r == Some(BrowserAction::CancelTransfer)
    &&& !before.transferring ==> r is None
}

impl FileBrowserState {
    /// The entry called `name` on tree row `cursor` of `side` counts as
    /// selected: it is marked itself, or (in an expanded tree) one of the
    /// directories it lies in is.
    pub open spec fn effectively_selected(&self, name: Seq<char>, side: Side, cursor: nat) -> bool {
        let p = panel_on(*self, side);
        ||| in_clip(self.clipboard@, name, side)
        ||| (p.expanded_dirs@.len() > 0 && cursor < p.tree_entries@.len()
            && p.tree_entries@[cursor as int].depth > 0
            && marked_ancestor(p.tree_entries@, self.clipboard@, side, cursor as int,
                p.tree_entries@[cursor as int].depth as nat) is Some)
    }

    /// The panel on `side`.
    pub fn panel(&self, side: Side) -> (r: &PanelState)
        ensures
            *r == panel_on(*self, side),
    {
        match side {
            Side::Local => &self.local,
            Side::Remote => &self.remote,
        }
    }

    fn ancestor_mark(&self, side: Side, cursor: usize) -> (r: Option<String>)
        requires
            cursor < panel_on(*self, side).tree_entries@.len(),
        ensures
            crate::paths::text_opt(r) == marked_ancestor(panel_on(*self, side).tree_entries@, self.clipboard@, side,
                cursor as int, panel_on(*self, side).tree_entries@[cursor as int].depth as nat),
    {
        let p = self.panel(side);
        let rows = &p.tree_entries;
        let mut depth = rows[cursor].depth;
        let mut i = cursor;
        while i > 0
            invariant
                i <= cursor < rows@.len(),
                *rows == panel_on(*self, side).tree_entries,
                marked_ancestor(rows@, self.clipboard@, side, cursor as int, rows@[cursor as int].depth as nat)
                    == marked_ancestor(rows@, self.clipboard@, side, i as int, depth as nat),
            decreases i,
        {
            let prev = &rows[i - 1];
            if prev.depth < depth {
                let found = find_name(&self.clipboard, &prev.entry.name, side);
                proof { lemma_index_of_name(self.clipboard@, prev.entry.name@, side); }
                if found.is_some() {
                    return Some(prev.entry.name.clone());
                }
                if prev.depth == 0 {
                    return None;
                }
                depth = prev.depth;
            }
            i = i - 1;
        }
        None
    }

    /// Whether the entry called `name` on row `cursor` of `side` counts as
    /// selected (see `effectively_selected`).
    pub fn is_effectively_selected(&self, name: &String, side: Side, cursor: usize) -> (r: bool)
        ensures
            r == self.effectively_selected(name@, side, cursor as nat),
    {
        let direct = find_name(&self.clipboard, name, side);
        proof { lemma_index_of_name(self.clipboard@, name@, side); }
        if direct.is_some() {
            return true;
        }
        let p = self.panel(side);
        if p.expanded_dirs.len() == 0 || cursor >= p.tree_entries.len() {
            return false;
        }
        if p.tree_entries[cursor].depth == 0 {
            return false;
        }
        self.ancestor_mark(side, cursor).is_some()
    }
}

/// The heading of a side.
pub open spec fn side_label(side: Side) -> Seq<char> {
    match side {
        Side::Local => "LOCAL"@,
        Side::Remote => "REMOTE"@,
    }
}

/// Status after unmarking `name`.
pub open spec fn unmarked_text(name: Seq<char>) -> Seq<char> {
    "Unmarked: "@ + name
}

/// Status after marking `name` on `side` for copying.
pub open spec fn copied_text(name: Seq<char>, side: Side) -> Seq<char> {
    "✓ Copied: "@ + name + " ("@ + side_label(side) + ")"@
}

/// Question asked before a selection on `side` replaces one on the other.
pub open spec fn switch_text(side: Side) -> Seq<char> {
    "切换到 "@ + side_label(side) + "？清空选择 [Y/N]"@
}

/// Status when nothing is marked.
pub const NOTHING_MARKED: &'static str = "无文件选中";
/// Status when the marks were all removed.
pub const MARKS_CLEARED: &'static str = "选择已清空";
/// Status when the remote side is needed but there is no session.
pub const NOT_CONNECTED: &'static str = "未连接";
/// Status when every queued transfer is done.
pub const TRANSFER_DONE: &'static str = "传输完成";

/// Status when pasting onto the side the marks came from.
pub open spec fn same_side_text(side: Side) -> Seq<char> {
    "已在 "@ + side_label(side) + " 侧"@
}

/// Status while a transfer of `name` starts: `Uploading` from the local
/// side, `Downloading` from the remote one, with `/...` after a directory.
pub open spec fn transfer_start_text(name: Seq<char>, is_dir: bool, direction: Side) -> Seq<char> {
    let verb = match direction { Side::Local => "Uploading"@, Side::Remote => "Downloading"@ };
    if is_dir { verb + " "@ + name + "/..."@ } else { verb + " "@ + name + "..."@ }
}

/// Work the caller does for the browser.
pub enum BrowserAction {
    /// List the directory of the panel on this side again, together with
    /// each of its expanded directories, and hand the results to `listed`
    /// with `then`.
    Refresh { side: Side, then: AfterListing },
    /// List each expanded directory of the panel on this side and hand the
    /// listings to `tree_listed` with `report`.
    RebuildTree { side: Side, report: bool },
    /// Start copying `source` to `dest` in the background (from the local
    /// side means upload), reporting through `transfer_finished`; for a
    /// single file uploaded, first report its size with `set_progress_total`.
    StartTransfer { name: String, source: String, dest: String, is_dir: bool, direction: Side },
    /// Ask the running transfer to stop.
    CancelTransfer,
    /// Delete the entry `name` at `path` (a directory with its contents)
    /// on `side`, then call `delete_finished`.
    Delete { side: Side, name: String, path: String, is_dir: bool },
    /// Rename `from` to `to` (whose last part is `new_name`) on `side`, then
    /// call `rename_finished`.
    Rename { side: Side, from: String, to: String, new_name: String },
    /// List the directory `path` on `side` and hand its entries to
    /// `expand_listed`.
    ListChildren { side: Side, path: String },
}

fn side_label_str(side: Side) -> (r: &'static str)
    ensures
        r@ == side_label(side),
{
    side.label()
}

fn unmarked_status(name: &str) -> (r: String)
    ensures
        r@ == unmarked_text(name@),
{
    let mut v: Vec<char> = Vec::new();
    push_str(&mut v, "Unmarked: ");
    push_str(&mut v, name);
    proof { reveal_strlit("Unmarked: "); }
    assert(v@ =~= unmarked_text(name@));
    string_of(&v)
}

fn copied_status(name: &str, side: Side) -> (r: String)
    ensures
        r@ == copied_text(name@, side),
{
    let mut v: Vec<char> = Vec::new();
    push_str(&mut v, "✓ Copied: ");
    push_str(&mut v, name);
    push_str(&mut v, " (");
    push_str(&mut v, side_label_str(side));
    push_str(&mut v, ")");
    proof {
        reveal_strlit("✓ Copied: ");
        reveal_strlit(" (");
        reveal_strlit(")");
    }
    assert(v@ =~= copied_text(name@, side));
    string_of(&v)
}

fn switch_status(side: Side) -> (r: String)
    ensures
        r@ == switch_text(side),
{
    let mut v: Vec<char> = Vec::new();
    push_str(&mut v, "切换到 ");
    push_str(&mut v, side_label_str(side));
    push_str(&mut v, "？清空选择 [Y/N]");
    proof {
        reveal_strlit("切换到 ");
        reveal_strlit("？清空选择 [Y/N]");
    }
    assert(v@ =~= switch_text(side));
    string_of(&v)
}

proof fn lemma_marked_ancestor_in_clip(rows: Seq<TreeEntry>, clip: Seq<ClipboardEntry>, side: Side, i: int, depth: nat)
    ensures
        marked_ancestor(rows, clip, side, i, depth) matches Some(n) ==> in_clip(clip, n, side),
    decreases i,
{
    if i > 0 {
        if (rows[i - 1].depth as nat) < depth {
            if !in_clip(clip, rows[i - 1].entry.name@, side) && rows[i - 1].depth != 0 {
                lemma_marked_ancestor_in_clip(rows, clip, side, i - 1, rows[i - 1].depth as nat);
            }
        } else {
            lemma_marked_ancestor_in_clip(rows, clip, side, i - 1, depth);
        }
    }
}

impl FileBrowserState {
    /// The browser's standing fact: the selection window's cursor points at
    /// a mark while it is open.
    pub open spec fn well_formed(&self) -> bool {
        self.clipboard_panel_open ==> self.clipboard_panel_cursor < self.clipboard@.len()
    }

    /// Everything but the marks, their side, the switch question, the
    /// selection window and the status is as in `other`.
    pub open spec fn same_but_marks(&self, other: FileBrowserState) -> bool {
        &&& self.machine == other.machine
        &&& self.local == other.local
        &&& self.remote == other.remote
        &&& self.active_side == other.active_side
        &&& self.connected == other.connected
        &&& self.connecting == other.connecting
        &&& self.transferring == other.transferring
        &&& self.progress_file_name == other.progress_file_name
        &&& self.progress_current == other.progress_current
        &&& self.progress_total == other.progress_total
        &&& self.confirm_delete == other.confirm_delete
        &&& self.transfer_confirm == other.transfer_confirm
        &&& self.rename_input == other.rename_input
        &&& self.old_entry_name == other.old_entry_name
        &&& self.old_entry_path == other.old_entry_path
        &&& self.transfer_queue == other.transfer_queue
        &&& self.connecting_dots == other.connecting_dots
        &&& self.visible_rows == other.visible_rows
        &&& self.local_home == other.local_home
    }

    /// The entry under the active panel's cursor.
    pub fn current_entry(&self) -> (r: Option<FileEntry>)
        ensures
            r == entry_at(panel_on(*self, self.active_side)),
    {
        let p = self.panel(self.active_side);
        if p.expanded_dirs.len() > 0 {
            if p.cursor < p.tree_entries.len() { Some(p.tree_entries[p.cursor].entry.duplicate()) } else { None }
        } else {
            if p.cursor < p.entries.len() { Some(p.entries[p.cursor].duplicate()) } else { None }
        }
    }

    /// Full path of the entry under the active panel's cursor.
    pub fn current_entry_full_path(&self) -> (r: String)
        requires
            panel_on(*self, self.active_side).expanded_dirs@.len() > 0
                ==> panel_on(*self, self.active_side).cursor < panel_on(*self, self.active_side).tree_entries@.len(),
        ensures
            r@ == entry_path(panel_on(*self, self.active_side)),
    {
        let p = self.panel(self.active_side);
        if p.expanded_dirs.len() > 0 {
            p.tree_entry_path(p.cursor)
        } else if p.cursor < p.entries.len() {
            join(p.current_path.as_str(), p.entries[p.cursor].name.as_str())
        } else {
            p.current_path.clone()
        }
    }

    /// Marks or unmarks the entry under the cursor for copying.
    ///
    /// Nothing happens without an entry or on `..`. A marked entry (same
    /// path) is unmarked. An entry selected through a marked directory it
    /// lies in unmarks that directory. A mark on the other side than the
    /// existing marks asks first whether to replace them. Otherwise the
    /// entry is marked, and the marks' side is set if there was none.
    pub fn yank_toggle(&mut self)
        requires
            old(self).well_formed(),
            !old(self).clipboard_panel_open,
        ensures
            final(self).well_formed(),
            yank_toggle_effect(*old(self), *final(self)),
    {
        let entry = match self.current_entry() {
            Some(e) => e,
            None => return,
        };
        proof { reveal_strlit(".."); }
        if str_eq(entry.name.as_str(), "..") {
            return;
        }
        let full_path = self.current_entry_full_path();
        let side = self.active_side;
        let cursor = self.panel(side).cursor;
        let ghost clip = self.clipboard@;
        proof {
            lemma_index_of_path(clip, full_path@);
        }
        if let Some(pos) = find_path(&self.clipboard, &full_path) {
            self.clipboard.remove(pos);
            if self.clipboard.len() == 0 {
                self.clipboard_side = None;
            }
            self.status = unmarked_status(entry.name.as_str());
            return;
        }
        if self.is_effectively_selected(&entry.name, side, cursor) {
            if cursor >= self.panel(side).tree_entries.len() {
                return;
            }
            match self.ancestor_mark(side, cursor) {
                Some(parent) => {
                    proof {
                        lemma_index_of_name(clip, parent@, side);
                        let p = panel_on(*self, side);
                        lemma_marked_ancestor_in_clip(p.tree_entries@, clip, side, cursor as int,
                            p.tree_entries@[cursor as int].depth as nat);
                    }
                    if let Some(pos) = find_name(&self.clipboard, &parent, side) {
                        self.clipboard.remove(pos);
                        if self.clipboard.len() == 0 {
                            self.clipboard_side = None;
                        }
                        self.status = unmarked_status(parent.as_str());
                    }
                    return;
                },
                None => {
                    return;
                },
            }
        }
        if let Some(cs) = self.clipboard_side {
            if cs != side {
                self.switch_confirm = Some(side);
                self.status = switch_status(side);
                return;
            }
        }
        if self.clipboard_side.is_none() {
            self.clipboard_side = Some(side);
        }
        let name = entry.name.clone();
        self.status = copied_status(entry.name.as_str(), side);
        self.clipboard.push(ClipboardEntry { source_path: full_path, source_side: side, name, is_dir: entry.is_dir });
        assert(self.clipboard@.take(clip.len() as int) =~= clip);
    }
}

fn same_side_status(side: Side) -> (r: String)
    ensures
        r@ == same_side_text(side),
{
    let mut v: Vec<char> = Vec::new();
    push_str(&mut v, "已在 ");
    push_str(&mut v, side_label_str(side));
    push_str(&mut v, " 侧");
    proof {
        reveal_strlit("已在 ");
        reveal_strlit(" 侧");
    }
    assert(v@ =~= same_side_text(side));
    string_of(&v)
}

fn transfer_start_status(name: &str, is_dir: bool, direction: Side) -> (r: String)
    ensures
        r@ == transfer_start_text(name@, is_dir, direction),
{
    let mut v: Vec<char> = Vec::new();
    match direction {
        Side::Local => push_str(&mut v, "Uploading"),
        Side::Remote => push_str(&mut v, "Downloading"),
    }
    push_str(&mut v, " ");
    push_str(&mut v, name);
    if is_dir {
        push_str(&mut v, "/...");
    } else {
        push_str(&mut v, "...");
    }
    proof {
        reveal_strlit("Uploading");
        reveal_strlit("Downloading");
        reveal_strlit(" ");
        reveal_strlit("/...");
        reveal_strlit("...");
    }
    assert(v@ =~= transfer_start_text(name@, is_dir, direction));
    string_of(&v)
}

impl Side {
    /// The opposite side, in specifications.
    pub open spec fn other_side(self) -> Side {
        match self {
            Side::Local => Side::Remote,
            Side::Remote => Side::Local,
        }
    }
}

/// `a` asks to transfer `name` from `source` to `dest`.
pub open spec fn is_transfer(a: BrowserAction, name: Seq<char>, source: Seq<char>, dest: Seq<char>, is_dir: bool,
    direction: Side) -> bool {
    a matches BrowserAction::StartTransfer { name: n, source: s, dest: d, is_dir: k, direction: w }
        && n@ == name && s@ == source && d@ == dest && k == is_dir && w == direction
}

impl FileBrowserState {
    /// Everything but the transfer bookkeeping (running flag, progress,
    /// queue, marks, selection window) and the status is as in `other`.
    pub open spec fn same_view(&self, other: FileBrowserState) -> bool {
        &&& self.machine == other.machine
        &&& self.local == other.local
        &&& self.remote == other.remote
        &&& self.active_side == other.active_side
        &&& self.connected == other.connected
        &&& self.connecting == other.connecting
        &&& self.confirm_delete == other.confirm_delete
        &&& self.transfer_confirm == other.transfer_confirm
        &&& self.rename_input == other.rename_input
        &&& self.old_entry_name == other.old_entry_name
        &&& self.old_entry_path == other.old_entry_path
        &&& self.switch_confirm == other.switch_confirm
        &&& self.connecting_dots == other.connecting_dots
        &&& self.visible_rows == other.visible_rows
        &&& self.local_home == other.local_home
    }

    /// Answers yes to replacing the marks: the entry under the cursor
    /// becomes the only mark, from the side the question was about.
    pub fn confirm_switch(&mut self)
        requires
            old(self).well_formed(),
        ensures
            final(self).well_formed(),
            confirm_switch_effect(*old(self), *final(self)),
    {
        let side = match self.switch_confirm {
            Some(s) => s,
            None => return,
        };
        self.switch_confirm = None;
        let entry = match self.current_entry() {
            Some(e) => e,
            None => return,
        };
        let full_path = self.current_entry_full_path();
        self.clipboard = Vec::new();
        self.clipboard_panel_cursor = 0;
        self.clipboard_side = Some(side);
        self.status = copied_status(entry.name.as_str(), side);
        self.clipboard.push(ClipboardEntry {
            source_path: full_path,
            source_side: side,
            name: entry.name.clone(),
            is_dir: entry.is_dir,
        });
    }

    /// Opens the selection window on its first mark, or says that nothing
    /// is marked.
    pub fn open_clipboard_panel(&mut self)
        requires
            old(self).well_formed(),
        ensures
            final(self).well_formed(),
            open_clipboard_panel_effect(*old(self), *final(self)),
    {
        if self.clipboard.len() == 0 {
            self.status = owned(NOTHING_MARKED);
            return;
        }
        self.clipboard_panel_open = true;
        self.clipboard_panel_cursor = 0;
    }

    /// Closes the selection window.
    pub fn close_clipboard_panel(&mut self)
        requires
            old(self).well_formed(),
        ensures
            final(self).well_formed(),
            close_clipboard_panel_effect(*old(self), *final(self)),
    {
        self.clipboard_panel_open = false;
    }

    /// Moves the selection window's cursor to the next mark, wrapping.
    pub fn clipboard_panel_next(&mut self)
        requires
            old(self).well_formed(),
        ensures
            final(self).well_formed(),
            clipboard_panel_next_effect(*old(self), *final(self)),
    {
        if self.clipboard.len() == 0 {
            return;
        }
        let n = self.clipboard.len();
        let c = self.clipboard_panel_cursor;
        self.clipboard_panel_cursor = (c % n + 1) % n;
        assert((c + 1) % (n as int) == (c % n + 1) % (n as int)) by (nonlinear_arith)
            requires
                n > 0,
        {
            vstd::arithmetic::div_mod::lemma_add_mod_noop(c as int, 1, n as int);
            vstd::arithmetic::div_mod::lemma_add_mod_noop(c as int % n as int, 1, n as int);
            vstd::arithmetic::div_mod::lemma_mod_twice(c as int, n as int);
        }
    }

    /// Removes the mark under the selection window's cursor; removing the
    /// last one closes the window and clears the marks' side.
    pub fn clipboard_panel_remove(&mut self)
        requires
            old(self).well_formed(),
        ensures
            final(self).well_formed(),
            clipboard_panel_remove_effect(*old(self), *final(self)),
    {
        if self.clipboard.len() == 0 || self.clipboard_panel_cursor >= self.clipboard.len() {
            return;
        }
        self.clipboard.remove(self.clipboard_panel_cursor);
        if self.clipboard.len() == 0 {
            self.clipboard_side = None;
            self.clipboard_panel_open = false;
            self.status = owned(MARKS_CLEARED);
            return;
        }
        if self.clipboard_panel_cursor >= self.clipboard.len() {
            self.clipboard_panel_cursor = self.clipboard.len() - 1;
        }
    }

    fn start_file_transfer(&mut self, name: String, source: String, dest: String, is_dir: bool, direction: Side)
        -> (r: BrowserAction)
        ensures
            *final(self) == (FileBrowserState {
                transferring: true,
                progress_file_name: final(self).progress_file_name,
                progress_current: 0,
                progress_total: 0,
                status: final(self).status,
                ..*old(self)
            }),
            final(self).progress_file_name@ == name@,
            final(self).status@ == transfer_start_text(name@, is_dir, direction),
            is_transfer(r, name@, source@, dest@, is_dir, direction),
    {
        self.transferring = true;
        self.progress_file_name = name.clone();
        self.progress_current = 0;
        self.progress_total = 0;
        self.status = transfer_start_status(name.as_str(), is_dir, direction);
        BrowserAction::StartTransfer { name, source, dest, is_dir, direction }
    }

    /// Records the size of the single file being uploaded.
    pub fn set_progress_total(&mut self, total: u64)
        ensures
            *final(self) == (FileBrowserState { progress_total: total, ..*old(self) }),
    {
        self.progress_total = total;
    }

    /// Starts the first queued transfer, into the active panel's directory;
    /// with an empty queue, reports that transferring is done.
    pub fn process_next_transfer(&mut self) -> (r: Option<BrowserAction>)
        ensures
            final(self).transfer_queue == old(self).transfer_queue,
            final(self).same_view(*old(self)),
            final(self).clipboard == old(self).clipboard,
            final(self).clipboard_side == old(self).clipboard_side,
            final(self).clipboard_panel_open == old(self).clipboard_panel_open,
            final(self).clipboard_panel_cursor == old(self).clipboard_panel_cursor,
            old(self).transfer_queue@.len() == 0 ==> r is None && final(self).status@ == TRANSFER_DONE@
                && final(self).transferring == old(self).transferring
                && final(self).progress_file_name == old(self).progress_file_name
                && final(self).progress_current == old(self).progress_current
                && final(self).progress_total == old(self).progress_total,
            old(self).transfer_queue@.len() > 0 ==> ({
                let e = old(self).transfer_queue@[0];
                &&& r matches Some(a) && is_transfer(a, e.name@, e.source_path@,
                    path_join(panel_on(*old(self), old(self).active_side).current_path@, e.name@), e.is_dir, e.source_side)
                &&& final(self).transferring
                &&& final(self).progress_file_name@ == e.name@
                &&& final(self).progress_current == 0
                &&& final(self).progress_total == 0
                &&& final(self).status@ == transfer_start_text(e.name@, e.is_dir, e.source_side)
            }),
    {
        if self.transfer_queue.len() == 0 {
            self.status = owned(TRANSFER_DONE);
            return None;
        }
        let entry = self.transfer_queue[0].duplicate();
        let dest = join(self.panel(self.active_side).current_path.as_str(), entry.name.as_str());
        let a = self.start_file_transfer(entry.name, entry.source_path, dest, entry.is_dir, entry.source_side);
        Some(a)
    }

    /// Pastes the marks onto the active side: they become the transfer
    /// queue and the first transfer starts. Refused with a message when
    /// nothing is marked, when the marks come from this side, or when they
    /// are remote and there is no session; ignored while a transfer runs.
    pub fn paste_from_clipboard(&mut self) -> (r: Option<BrowserAction>)
        requires
            old(self).well_formed(),
        ensures
            final(self).well_formed(),
            paste_from_clipboard_effect(*old(self), *final(self), r),
    {
        if self.clipboard.len() == 0 {
            self.status = owned(NOTHING_MARKED);
            return None;
        }
        if self.transferring {
            return None;
        }
        let clip_side = match self.clipboard_side {
            Some(s) => s,
            None => return None,
        };
        if clip_side == self.active_side {
            self.status = same_side_status(clip_side);
            return None;
        }
        if clip_side == Side::Remote && !self.connected {
            self.status = owned(NOT_CONNECTED);
            return None;
        }
        let mut queue: Vec<ClipboardEntry> = Vec::new();
        std::mem::swap(&mut queue, &mut self.clipboard);
        self.transfer_queue = queue;
        self.clipboard_side = None;
        self.clipboard_panel_open = false;
        self.process_next_transfer()
    }
}

/// Index of the first of `dirs` that is the same path as `path`, or -1.
pub open spec fn dir_index(dirs: Seq<Seq<char>>, path: Seq<char>) -> int
    decreases dirs.len(),
{
    if dirs.len() == 0 {
        -1
    } else if crate::paths::paths_equal(dirs[0], path) {
        0
    } else {
        let r = dir_index(dirs.drop_first(), path);
        if r < 0 { -1 } else { r + 1 }
    }
}

proof fn lemma_dir_index(dirs: Seq<Seq<char>>, path: Seq<char>)
    ensures
        -1 <= dir_index(dirs, path) < dirs.len(),
        dir_index(dirs, path) >= 0 ==> crate::paths::paths_equal(dirs[dir_index(dirs, path)], path),
    decreases dirs.len(),
{
    if dirs.len() > 0 {
        lemma_dir_index(dirs.drop_first(), path);
    }
}

/// The entries listed for directory `path` among `listings` (the first
/// listing of that path), or none.
pub open spec fn listing_of(listings: Seq<(Seq<char>, Seq<FileEntry>)>, path: Seq<char>) -> Seq<FileEntry>
    decreases listings.len(),
{
    if listings.len() == 0 {
        Seq::empty()
    } else if listings[0].0 == path {
        listings[0].1
    } else {
        listing_of(listings.drop_first(), path)
    }
}

/// The rows of an expanded tree: each of `entries` at `depth`, and under
/// each directory of `base` that is among the `expanded` ones, its own
/// listing one level deeper. A directory is opened at most once along one
/// branch.
pub open spec fn tree_rows(entries: Seq<FileEntry>, base: Seq<char>, expanded: Seq<Seq<char>>,
    listings: Seq<(Seq<char>, Seq<FileEntry>)>, depth: nat) -> Seq<TreeEntry>
    decreases expanded.len(), entries.len(),
{
    if entries.len() == 0 {
        Seq::empty()
    } else {
        let e = entries.last();
        let dir = path_join(base, e.name@);
        let k = dir_index(expanded, dir);
        let below = if e.is_dir && 0 <= k < expanded.len() {
            tree_rows(listing_of(listings, dir), dir, expanded.remove(k), listings, depth + 1)
        } else {
            Seq::empty()
        };
        tree_rows(entries.drop_last(), base, expanded, listings, depth)
            + seq![TreeEntry { entry: e, depth: depth as usize }] + below
    }
}

/// The character sequences of strings.
pub open spec fn texts(v: Seq<String>) -> Seq<Seq<char>> {
    v.map_values(|s: String| s@)
}

/// The listings as paths and entries.
pub open spec fn listing_views(v: Seq<(String, Vec<FileEntry>)>) -> Seq<(Seq<char>, Seq<FileEntry>)> {
    v.map_values(|l: (String, Vec<FileEntry>)| (l.0@, l.1@))
}

fn find_listing(listings: &Vec<(String, Vec<FileEntry>)>, path: &String) -> (r: Vec<FileEntry>)
    ensures
        r@ == listing_of(listing_views(listings@), path@),
{
    let ghost lv = listing_views(listings@);
    let mut i: usize = 0;
    assert(lv.skip(0) =~= lv);
    while i < listings.len()
        invariant
            i <= listings@.len(),
            lv == listing_views(listings@),
            listing_of(lv, path@) == listing_of(lv.skip(i as int), path@),
        decreases listings@.len() - i,
    {
        assert(lv.skip(i as int)[0] == (listings@[i as int].0@, listings@[i as int].1@));
        if str_eq(listings[i].0.as_str(), path.as_str()) {
            let mut out: Vec<FileEntry> = Vec::new();
            let mut j: usize = 0;
            while j < listings[i].1.len()
                invariant
                    i < listings@.len(),
                    j <= listings@[i as int].1@.len(),
                    out@ == listings@[i as int].1@.take(j as int),
                decreases listings@[i as int].1@.len() - j,
            {
                out.push(listings[i].1[j].duplicate());
                j = j + 1;
                assert(out@ =~= listings@[i as int].1@.take(j as int));
            }
            assert(listings@[i as int].1@.take(j as int) =~= listings@[i as int].1@);
            return out;
        }
        assert(lv.skip(i as int).drop_first() =~= lv.skip(i as int + 1));
        i = i + 1;
    }
    out_of_empty()
}

fn out_of_empty() -> (r: Vec<FileEntry>)
    ensures
        r@ == Seq::<FileEntry>::empty(),
{
    Vec::new()
}

fn find_dir(dirs: &Vec<String>, path: &String) -> (r: Option<usize>)
    ensures
        match r {
            Some(i) => i as int == dir_index(texts(dirs@), path@),
            None => dir_index(texts(dirs@), path@) == -1,
        },
{
    let ghost ds = texts(dirs@);
    let mut i: usize = 0;
    assert(ds.skip(0) =~= ds);
    proof { lemma_dir_index(ds, path@); }
    while i < dirs.len()
        invariant
            i <= dirs@.len(),
            ds == texts(dirs@),
            dir_index(ds, path@) == (if dir_index(ds.skip(i as int), path@) < 0 { -1 }
                else { dir_index(ds.skip(i as int), path@) + i }),
        decreases dirs@.len() - i,
    {
        assert(ds.skip(i as int)[0] == dirs@[i as int]@);
        if crate::paths::same_path(dirs[i].as_str(), path.as_str()) {
            return Some(i);
        }
        assert(ds.skip(i as int).drop_first() =~= ds.skip(i as int + 1));
        i = i + 1;
    }
    None
}

fn clone_strings(v: &Vec<String>) -> (r: Vec<String>)
    ensures
        r@ == v@,
{
    let mut out: Vec<String> = Vec::new();
    let mut i: usize = 0;
    while i < v.len()
        invariant
            i <= v@.len(),
            out@ == v@.take(i as int),
        decreases v@.len() - i,
    {
        out.push(v[i].clone());
        i = i + 1;
        assert(out@ =~= v@.take(i as int));
    }
    assert(v@.take(v@.len() as int) =~= v@);
    out
}

fn append_tree(result: &mut Vec<TreeEntry>, entries: &Vec<FileEntry>, base: &String, expanded: &Vec<String>,
    listings: &Vec<(String, Vec<FileEntry>)>, depth: usize)
    requires
        depth + expanded@.len() <= usize::MAX,
    ensures
        final(result)@ == old(result)@ + tree_rows(entries@, base@, texts(expanded@), listing_views(listings@), depth as nat),
    decreases expanded@.len(),
{
    let ghost start = result@;
    let ghost ex = texts(expanded@);
    let ghost ls = listing_views(listings@);
    let mut i: usize = 0;
    while i < entries.len()
        invariant
            i <= entries@.len(),
            depth + expanded@.len() <= usize::MAX,
            ex == texts(expanded@),
            ls == listing_views(listings@),
            result@ == start + tree_rows(entries@.take(i as int), base@, ex, ls, depth as nat),
        decreases entries@.len() - i,
    {
        let e = &entries[i];
        assert(entries@.take(i as int + 1).drop_last() =~= entries@.take(i as int));
        assert(entries@.take(i as int + 1).last() == entries@[i as int]);
        result.push(TreeEntry { entry: e.duplicate(), depth });
        let dir = join(base.as_str(), e.name.as_str());
        let ghost before = result@;
        if e.is_dir {
            match find_dir(expanded, &dir) {
                Some(k) => {
                    proof { lemma_dir_index(ex, dir@); }
                    let children = find_listing(listings, &dir);
                    let mut rest = clone_strings(expanded);
                    rest.remove(k);
                    assert(texts(rest@) =~= ex.remove(k as int));
                    append_tree(result, &children, &dir, &rest, listings, depth + 1);
                },
                None => {
                    proof { lemma_dir_index(ex, dir@); }
                },
            }
        }
        i = i + 1;
        assert(result@ =~= start + tree_rows(entries@.take(i as int), base@, ex, ls, depth as nat));
    }
    assert(entries@.take(entries@.len() as int) =~= entries@);
}

/// Index of the first row showing an entry called `name` at `depth`, or -1.
pub open spec fn row_index(rows: Seq<TreeEntry>, name: Seq<char>, depth: usize) -> int
    decreases rows.len(),
{
    if rows.len() == 0 {
        -1
    } else if rows[0].entry.name@ == name && rows[0].depth == depth {
        0
    } else {
        let r = row_index(rows.drop_first(), name, depth);
        if r < 0 { -1 } else { r + 1 }
    }
}

proof fn lemma_row_index(rows: Seq<TreeEntry>, name: Seq<char>, depth: usize)
    ensures
        -1 <= row_index(rows, name, depth) < rows.len(),
    decreases rows.len(),
{
    if rows.len() > 0 {
        lemma_row_index(rows.drop_first(), name, depth);
    }
}

/// `cursor` kept on one of `n` rows (0 when there are none).
pub open spec fn clamp_cursor(cursor: nat, n: nat) -> nat {
    if n == 0 { 0 } else if cursor < n { cursor } else { (n - 1) as nat }
}

/// The cursor after a panel's tree rows are replaced: on the row showing the
/// same name at the same depth as before if there is one, otherwise kept
/// within the new rows.
pub open spec fn restored_cursor(old_rows: Seq<TreeEntry>, cursor: nat, new_rows: Seq<TreeEntry>) -> nat {
    if cursor < old_rows.len() && row_index(new_rows, old_rows[cursor as int].entry.name@,
        old_rows[cursor as int].depth) >= 0 {
        row_index(new_rows, old_rows[cursor as int].entry.name@, old_rows[cursor as int].depth) as nat
    } else {
        clamp_cursor(cursor, new_rows.len())
    }
}

proof fn lemma_row_index_finds(rows: Seq<TreeEntry>, name: Seq<char>, depth: usize)
    ensures
        row_index(rows, name, depth) >= 0 ==> ({
            let k = row_index(rows, name, depth);
            &&& k < rows.len()
            &&& rows[k].entry.name@ == name && rows[k].depth == depth
            &&& forall|j: int| 0 <= j < k ==> !(rows[j].entry.name@ == name && rows[j].depth == depth)
        }),
        row_index(rows, name, depth) < 0 ==> forall|j: int| 0 <= j < rows.len()
            ==> !(#[trigger] rows[j].entry.name@ == name && rows[j].depth == depth),
    decreases rows.len(),
{
    if rows.len() > 0 {
        lemma_row_index_finds(rows.drop_first(), name, depth);
        assert forall|j: int| 1 <= j < rows.len() implies rows[j] == rows.drop_first()[j - 1] by {}
    }
}

/// Refreshing the tree keeps the selection on the same entry: when the row
/// that was under the cursor (its name and depth) is among the new rows, the
/// cursor lands on the first new row with that name and depth; only when it
/// is gone does the cursor keep its index, pulled back onto the last row.
pub proof fn law_refresh_keeps_selection(old_rows: Seq<TreeEntry>, cursor: nat, new_rows: Seq<TreeEntry>)
    ensures
        cursor >= old_rows.len() ==> restored_cursor(old_rows, cursor, new_rows) == (if new_rows.len() == 0 { 0 }
            else if cursor < new_rows.len() { cursor } else { (new_rows.len() - 1) as nat }),
        cursor < old_rows.len() ==> ({
            let name = old_rows[cursor as int].entry.name@;
            let depth = old_rows[cursor as int].depth;
            let c = restored_cursor(old_rows, cursor, new_rows);
            &&& (exists|k: int| 0 <= k < new_rows.len() && new_rows[k].entry.name@ == name
                    && new_rows[k].depth == depth) ==> {
                &&& c < new_rows.len()
                &&& new_rows[c as int].entry.name@ == name && new_rows[c as int].depth == depth
                &&& forall|j: int| 0 <= j < c ==> !(new_rows[j].entry.name@ == name && new_rows[j].depth == depth)
            }
            &&& !(exists|k: int| 0 <= k < new_rows.len() && new_rows[k].entry.name@ == name
                    && new_rows[k].depth == depth) ==> c == (if new_rows.len() == 0 { 0 }
                else if cursor < new_rows.len() { cursor } else { (new_rows.len() - 1) as nat })
        }),
{
    if cursor < old_rows.len() {
        let name = old_rows[cursor as int].entry.name@;
        let depth = old_rows[cursor as int].depth;
        lemma_row_index_finds(new_rows, name, depth);
    }
}

/// The rows of an unexpanded listing: every entry at depth 0.
pub open spec fn flat_rows(entries: Seq<FileEntry>) -> Seq<TreeEntry> {
    entries.map_values(|e: FileEntry| TreeEntry { entry: e, depth: 0 })
}

/// `p` with its tree rebuilt from its listing, its expanded directories and
/// the `listings` of those directories.
pub open spec fn rebuilt(p: PanelState, listings: Seq<(Seq<char>, Seq<FileEntry>)>) -> (Seq<TreeEntry>, nat) {
    let rows = tree_rows(p.entries@, p.current_path@, texts(p.expanded_dirs@), listings, 0);
    (rows, restored_cursor(p.tree_entries@, p.cursor as nat, rows))
}

fn find_row(rows: &Vec<TreeEntry>, name: &String, depth: usize) -> (r: Option<usize>)
    ensures
        match r {
            Some(i) => i as int == row_index(rows@, name@, depth),
            None => row_index(rows@, name@, depth) == -1,
        },
{
    let mut i: usize = 0;
    assert(rows@.skip(0) =~= rows@);
    proof { lemma_row_index(rows@, name@, depth); }
    while i < rows.len()
        invariant
            i <= rows@.len(),
            row_index(rows@, name@, depth) == (if row_index(rows@.skip(i as int), name@, depth) < 0 { -1 }
                else { row_index(rows@.skip(i as int), name@, depth) + i }),
        decreases rows@.len() - i,
    {
        assert(rows@.skip(i as int)[0] == rows@[i as int]);
        if rows[i].depth == depth && str_eq(rows[i].entry.name.as_str(), name.as_str()) {
            return Some(i);
        }
        assert(rows@.skip(i as int).drop_first() =~= rows@.skip(i as int + 1));
        i = i + 1;
    }
    None
}

/// The panel is as `p` but for its tree rows and cursor.
pub open spec fn same_panel_but_tree(q: PanelState, p: PanelState) -> bool {
    &&& q.entries == p.entries
    &&& q.scroll_offset == p.scroll_offset
    &&& q.current_path == p.current_path
    &&& q.prev_dir_name == p.prev_dir_name
    &&& q.expanded_dirs == p.expanded_dirs
}

fn rebuild_tree(panel: &mut PanelState, listings: &Vec<(String, Vec<FileEntry>)>)
    ensures
        (final(panel).tree_entries@, final(panel).cursor as nat) == rebuilt(*old(panel), listing_views(listings@)),
        same_panel_but_tree(*final(panel), *old(panel)),
{
    let _n = panel.expanded_dirs.len();
    let mut rows: Vec<TreeEntry> = Vec::new();
    append_tree(&mut rows, &panel.entries, &panel.current_path, &panel.expanded_dirs, listings, 0);
    assert(rows@ =~= tree_rows(panel.entries@, panel.current_path@, texts(panel.expanded_dirs@),
        listing_views(listings@), 0));
    let cursor = panel.cursor;
    let mut new_cursor: usize = if rows.len() == 0 { 0 } else if cursor < rows.len() { cursor } else { rows.len() - 1 };
    if cursor < panel.tree_entries.len() {
        let found = find_row(&rows, &panel.tree_entries[cursor].entry.name, panel.tree_entries[cursor].depth);
        if let Some(k) = found {
            new_cursor = k;
        }
    }
    panel.tree_entries = rows;
    panel.cursor = new_cursor;
}

fn sync_tree(panel: &mut PanelState)
    ensures
        final(panel).tree_entries@ == flat_rows(old(panel).entries@),
        final(panel).cursor == old(panel).cursor,
        same_panel_but_tree(*final(panel), *old(panel)),
{
    let mut rows: Vec<TreeEntry> = Vec::new();
    let mut i: usize = 0;
    while i < panel.entries.len()
        invariant
            i <= panel.entries@.len(),
            rows@ == flat_rows(panel.entries@.take(i as int)),
        decreases panel.entries@.len() - i,
    {
        rows.push(TreeEntry { entry: panel.entries[i].duplicate(), depth: 0 });
        i = i + 1;
        assert(rows@ =~= flat_rows(panel.entries@.take(i as int)));
    }
    assert(panel.entries@.take(panel.entries@.len() as int) =~= panel.entries@);
    panel.tree_entries = rows;
}

/// What a directory listing produced.
pub enum Listing {
    /// The directory's raw entries (an unreadable local directory lists as
    /// empty).
    Entries(Vec<FileEntry>),
    /// The remote file service could not be opened.
    SftpFailed(String),
    /// The remote directory could not be read.
    ReadFailed(String),
}

/// What follows a panel's new listing.
pub enum AfterListing {
    /// The usual report: the remote panel shows its entry count or error.
    Report,
    /// No report: a later message replaces it.
    KeepStatus,
    /// The usual report, then the cursor goes to the entry named so (the
    /// directory just left).
    ReturnTo(String),
    /// The usual report, then the active panel's entry count, unless the
    /// status is an error or, when asked, a connecting message.
    CountActive { unless_connecting: bool },
}

/// `s` begins with `p`.
pub open spec fn has_prefix(s: Seq<char>, p: Seq<char>) -> bool {
    s.len() >= p.len() && s.take(p.len() as int) == p
}

fn starts_with_text(s: &str, p: &str) -> (r: bool)
    ensures
        r == has_prefix(s@, p@),
{
    let a = str_chars(s);
    let b = str_chars(p);
    if b.len() > a.len() {
        return false;
    }
    let mut i: usize = 0;
    while i < b.len()
        invariant
            a@ == s@,
            b@ == p@,
            b.len() <= a.len(),
            i <= b.len(),
            a@.take(i as int) == b@.take(i as int),
        decreases b.len() - i,
    {
        if a[i] != b[i] {
            assert(a@.take(b.len() as int)[i as int] == a@[i as int]);
            assert(a@.take(b.len() as int) != b@);
            return false;
        }
        i = i + 1;
        assert(a@.take(i as int) =~= b@.take(i as int));
    }
    assert(b@.take(b.len() as int) =~= b@);
    true
}

/// A local entry hidden from listings: its name starts with a dot.
pub open spec fn is_hidden(name: Seq<char>) -> bool {
    name.len() > 0 && name[0] == '.'
}

/// The entries of a local listing, in listing order, without hidden ones.
pub open spec fn local_listing(raw: Seq<FileEntry>) -> Seq<FileEntry> {
    crate::sftp::listing_order(raw.filter(|e: FileEntry| !is_hidden(e.name@)))
}

/// Status naming an entry count.
pub open spec fn count_text(n: nat) -> Seq<char> {
    crate::text::dec(n) + " entries"@
}

fn count_status(n: usize) -> (r: String)
    ensures
        r@ == count_text(n as nat),
{
    let mut v: Vec<char> = Vec::new();
    crate::text::push_dec(&mut v, n as u128);
    push_str(&mut v, " entries");
    proof { reveal_strlit(" entries"); }
    assert(v@ =~= count_text(n as nat));
    string_of(&v)
}

fn prefixed(prefix: &str, msg: &str) -> (r: String)
    ensures
        r@ == prefix@ + msg@,
{
    let mut v: Vec<char> = Vec::new();
    push_str(&mut v, prefix);
    push_str(&mut v, msg);
    string_of(&v)
}

/// The name `e` matches the directory `name` left behind: equal, or ending
/// in `/` and that name.
pub open spec fn names_dir(e: Seq<char>, name: Seq<char>) -> bool {
    e == name || (e.len() >= name.len() + 1 && e.skip(e.len() - name.len() - 1) == seq!['/'] + name)
}

/// Index of the first of `entries` that `names_dir` the name, or -1.
pub open spec fn return_index(entries: Seq<FileEntry>, name: Seq<char>) -> int
    decreases entries.len(),
{
    if entries.len() == 0 {
        -1
    } else if names_dir(entries[0].name@, name) {
        0
    } else {
        let r = return_index(entries.drop_first(), name);
        if r < 0 { -1 } else { r + 1 }
    }
}

fn names_dir_exec(e: &String, name: &String) -> (r: bool)
    ensures
        r == names_dir(e@, name@),
{
    if str_eq(e.as_str(), name.as_str()) {
        return true;
    }
    let a = str_chars(e.as_str());
    let b = str_chars(name.as_str());
    if a.len() <= b.len() {
        return false;
    }
    let off = a.len() - b.len() - 1;
    if a[off] != '/' {
        assert(a@.skip(off as int)[0] != (seq!['/'] + b@)[0]);
        return false;
    }
    let mut i: usize = 0;
    while i < b.len()
        invariant
            a@ == e@,
            b@ == name@,
            e@ != name@,
            off + b.len() + 1 == a.len(),
            a@[off as int] == '/',
            i <= b.len(),
            forall|k: int| 0 <= k < i ==> a@[off + 1 + k] == b@[k],
        decreases b.len() - i,
    {
        if a[off + 1 + i] != b[i] {
            assert(a@.skip(off as int)[1 + i] == a@[off + 1 + i]);
            assert((seq!['/'] + b@)[1 + i] == b@[i as int]);
            assert(a@.skip(off as int) != seq!['/'] + b@);
            return false;
        }
        i = i + 1;
    }
    assert(a@.skip(off as int) =~= seq!['/'] + b@);
    true
}

fn find_return(entries: &Vec<FileEntry>, name: &String) -> (r: Option<usize>)
    ensures
        match r {
            Some(i) => i as int == return_index(entries@, name@),
            None => return_index(entries@, name@) == -1,
        },
{
    let mut i: usize = 0;
    assert(entries@.skip(0) =~= entries@);
    proof { lemma_return_index(entries@, name@); }
    while i < entries.len()
        invariant
            i <= entries@.len(),
            return_index(entries@, name@) == (if return_index(entries@.skip(i as int), name@) < 0 { -1 }
                else { return_index(entries@.skip(i as int), name@) + i }),
        decreases entries@.len() - i,
    {
        assert(entries@.skip(i as int)[0] == entries@[i as int]);
        if names_dir_exec(&entries[i].name, name) {
            return Some(i);
        }
        assert(entries@.skip(i as int).drop_first() =~= entries@.skip(i as int + 1));
        i = i + 1;
    }
    None
}

proof fn lemma_return_index(entries: Seq<FileEntry>, name: Seq<char>)
    ensures
        -1 <= return_index(entries, name) < entries.len(),
    decreases entries.len(),
{
    if entries.len() > 0 {
        lemma_return_index(entries.drop_first(), name);
    }
}

/// A local directory's entries as the browser lists them: hidden entries
/// left out, directories first, then by name.
pub fn arrange_local(raw: Vec<FileEntry>) -> (r: Vec<FileEntry>)
    ensures
        r@ == local_listing(raw@),
{
    let ghost pred = |e: FileEntry| !is_hidden(e.name@);
    let mut kept: Vec<FileEntry> = Vec::new();
    let mut i: usize = 0;
    while i < raw.len()
        invariant
            i <= raw@.len(),
            pred == (|e: FileEntry| !is_hidden(e.name@)),
            kept@ == raw@.take(i as int).filter(pred),
        decreases raw@.len() - i,
    {
        let ghost prefix = raw@.take(i as int);
        assert(raw@.take(i as int + 1) =~= prefix.push(raw@[i as int]));
        proof { prefix.lemma_filter_push(raw@[i as int], pred); }
        let v = str_chars(raw[i].name.as_str());
        let hidden = v.len() > 0 && v[0] == '.';
        if !hidden {
            kept.push(raw[i].duplicate());
        }
        i = i + 1;
    }
    assert(raw@.take(raw@.len() as int) =~= raw@);
    crate::sftp::sort_listing(kept)
}

/// The panel's tree rows and cursor once its listing becomes `entries`:
/// the cursor stays within the listing, and the tree is the plain listing
/// or, with directories expanded, rebuilt from `listings`.
pub open spec fn relisted(p: PanelState, entries: Seq<FileEntry>, listings: Seq<(Seq<char>, Seq<FileEntry>)>)
    -> (Seq<TreeEntry>, nat) {
    let c = clamp_cursor(p.cursor as nat, entries.len());
    if p.expanded_dirs@.len() == 0 {
        (flat_rows(entries), c)
    } else {
        let rows = tree_rows(entries, p.current_path@, texts(p.expanded_dirs@), listings, 0);
        (rows, restored_cursor(p.tree_entries@, c, rows))
    }
}

/// The entries a listing shows on `side`: hidden files are left out
/// locally, `.` and `..` remotely; then directories first, by name.
pub open spec fn shown_entries(side: Side, raw: Seq<FileEntry>) -> Seq<FileEntry> {
    match side {
        Side::Local => local_listing(raw),
        Side::Remote => crate::sftp::listing_order(crate::sftp::visible_entries(raw)),
    }
}

/// The status a listing reports on `side` (none for a local listing).
pub open spec fn listing_report(side: Side, listing: Listing) -> Option<Seq<char>> {
    match listing {
        Listing::Entries(raw) => match side {
            Side::Local => None,
            Side::Remote => Some(count_text(shown_entries(side, raw@).len())),
        },
        Listing::SftpFailed(e) => Some("SFTP 错误: "@ + e@),
        Listing::ReadFailed(e) => Some("错误: "@ + e@),
    }
}

/// The listing reports its status unless `then` keeps the old one.
pub open spec fn reports(then: AfterListing) -> bool {
    !(then is KeepStatus)
}

/// Status prefix of an error.
pub const ERROR_PREFIX: &'static str = "错误";
/// Status prefix while connecting.
pub const CONNECTING: &'static str = "连接中";

fn apply_listing(panel: &mut PanelState, entries: Vec<FileEntry>, listings: &Vec<(String, Vec<FileEntry>)>)
    ensures
        final(panel).entries@ == entries@,
        (final(panel).tree_entries@, final(panel).cursor as nat) == relisted(*old(panel), entries@, listing_views(listings@)),
        final(panel).scroll_offset == 0,
        final(panel).current_path == old(panel).current_path,
        final(panel).prev_dir_name == old(panel).prev_dir_name,
        final(panel).expanded_dirs == old(panel).expanded_dirs,
{
    let n = entries.len();
    panel.entries = entries;
    panel.cursor = if n == 0 { 0 } else if panel.cursor < n { panel.cursor } else { n - 1 };
    panel.scroll_offset = 0;
    if panel.expanded_dirs.len() == 0 {
        sync_tree(panel);
    } else {
        rebuild_tree(panel, listings);
    }
}

impl FileBrowserState {
    /// The panel on `side`, mutably.
    fn panel_mut(&mut self, side: Side) -> (r: &mut PanelState)
        ensures
            *r == panel_on(*old(self), side),
            side == Side::Local ==> *final(self) == (FileBrowserState { local: *final(r), ..*old(self) }),
            side == Side::Remote ==> *final(self) == (FileBrowserState { remote: *final(r), ..*old(self) }),
    {
        match side {
            Side::Local => &mut self.local,
            Side::Remote => &mut self.remote,
        }
    }

    /// Asks for the panel on `side` to be listed again, with `then` to
    /// follow; the remote side without a session instead says so.
    pub fn refresh(&mut self, side: Side, then: AfterListing) -> (r: Option<BrowserAction>)
        ensures
            (side == Side::Remote && !old(self).connected) ==> r is None && final(self).status@ == NOT_CONNECTED@
                && *final(self) == (FileBrowserState { status: final(self).status, ..*old(self) }),
            !(side == Side::Remote && !old(self).connected) ==> *final(self) == *old(self)
                && r == Some(BrowserAction::Refresh { side, then }),
    {
        if side == Side::Remote && !self.connected {
            self.status = owned(NOT_CONNECTED);
            return None;
        }
        Some(BrowserAction::Refresh { side, then })
    }

    /// Takes a new listing of the panel on `side` (with the listings of its
    /// expanded directories) and does what `then` asks after it.
    pub fn listed(&mut self, side: Side, listing: Listing, tree_listings: Vec<(String, Vec<FileEntry>)>,
        then: AfterListing)
        requires
            old(self).well_formed(),
        ensures
            final(self).well_formed(),
            final(self).clipboard == old(self).clipboard,
            final(self).active_side == old(self).active_side,
            final(self).connected == old(self).connected,
            final(self).transferring == old(self).transferring,
            ({
                let p = panel_on(*old(self), side);
                let q = panel_on(*final(self), side);
                match listing {
                    Listing::Entries(raw) => {
                        let es = shown_entries(side, raw@);
                        &&& q.entries@ == es
                        &&& q.tree_entries@ == relisted(p, es, listing_views(tree_listings@)).0
                        &&& q.scroll_offset == 0
                        &&& q.current_path == p.current_path
                        &&& q.expanded_dirs == p.expanded_dirs
                        &&& q.cursor as nat == match then {
                            AfterListing::ReturnTo(name) => if return_index(es, name@) >= 0 {
                                return_index(es, name@) as nat
                            } else {
                                relisted(p, es, listing_views(tree_listings@)).1
                            },
                            _ => relisted(p, es, listing_views(tree_listings@)).1,
                        }
                    },
                    _ => q == (PanelState {
                        cursor: match then {
                            AfterListing::ReturnTo(name) => if return_index(p.entries@, name@) >= 0 {
                                return_index(p.entries@, name@) as usize
                            } else {
                                p.cursor
                            },
                            _ => p.cursor,
                        },
                        ..p
                    }),
                }
            }),
            panel_on(*final(self), side.other_side()) == panel_on(*old(self), side.other_side()),
            ({
                let reported = if reports(then) {
                    match listing_report(side, listing) {
                        Some(m) => m,
                        None => old(self).status@,
                    }
                } else {
                    old(self).status@
                };
                match then {
                    AfterListing::CountActive { unless_connecting } =>
                        if !has_prefix(reported, ERROR_PREFIX@) && !(unless_connecting && has_prefix(reported, CONNECTING@)) {
                            final(self).status@ == count_text(panel_on(*final(self), final(self).active_side).entries@.len())
                        } else {
                            final(self).status@ == reported
                        },
                    _ => final(self).status@ == reported,
                }
            }),
    {
        let ghost old_status = self.status@;
        match listing {
            Listing::Entries(raw) => {
                let entries = match side {
                    Side::Local => arrange_local(raw),
                    Side::Remote => crate::sftp::arrange_listing(raw),
                };
                let n = entries.len();
                let panel = self.panel_mut(side);
                apply_listing(panel, entries, &tree_listings);
                if side == Side::Remote && !matches!(then, AfterListing::KeepStatus) {
                    self.status = count_status(n);
                }
            },
            Listing::SftpFailed(e) => {
                if !matches!(then, AfterListing::KeepStatus) {
                    self.status = prefixed("SFTP 错误: ", e.as_str());
                    proof { reveal_strlit("SFTP 错误: "); }
                }
            },
            Listing::ReadFailed(e) => {
                if !matches!(then, AfterListing::KeepStatus) {
                    self.status = prefixed("错误: ", e.as_str());
                    proof { reveal_strlit("错误: "); }
                }
            },
        }
        match then {
            AfterListing::ReturnTo(name) => {
                let panel = self.panel_mut(side);
                if let Some(k) = find_return(&panel.entries, &name) {
                    panel.cursor = k;
                }
            },
            AfterListing::CountActive { unless_connecting } => {
                let err = starts_with_text(self.status.as_str(), ERROR_PREFIX);
                let conn = starts_with_text(self.status.as_str(), CONNECTING);
                if !err && !(unless_connecting && conn) {
                    let n = self.panel(self.active_side).entries.len();
                    self.status = count_status(n);
                }
            },
            _ => {},
        }
    }
}

/// The remote home directory for `user`: `/root` for root, otherwise
/// `/home/<user>`.
pub open spec fn remote_home(user: Seq<char>) -> Seq<char> {
    if user == "root"@ { "/root"@ } else { "/home/"@ + user }
}

fn remote_home_of(user: &String) -> (r: String)
    ensures
        r@ == remote_home(user@),
{
    proof {
        reveal_strlit("root");
        reveal_strlit("/root");
        reveal_strlit("/home/");
    }
    if str_eq(user.as_str(), "root") {
        owned("/root")
    } else {
        prefixed("/home/", user.as_str())
    }
}

/// The expanded directories that remain after collapsing `full`: those
/// that do not start with it.
pub open spec fn kept_dirs(dirs: Seq<Seq<char>>, full: Seq<char>) -> Seq<Seq<char>> {
    dirs.filter(|d: Seq<char>| !crate::paths::path_has_prefix(d, full))
}

/// Collapsing `full` closes it and everything under it: no directory left
/// expanded lies at or below `full`, every expanded directory elsewhere stays,
/// and the order is kept: collapsing a list is collapsing each part of it,
/// and a single directory stays exactly when it is not under `full`.
pub proof fn law_collapse_closes_subtree(dirs: Seq<Seq<char>>, more: Seq<Seq<char>>, d: Seq<char>, full: Seq<char>)
    ensures
        forall|e: Seq<char>| #[trigger] kept_dirs(dirs, full).contains(e)
            ==> !crate::paths::path_has_prefix(e, full) && dirs.contains(e),
        dirs.contains(d) && !crate::paths::path_has_prefix(d, full) ==> kept_dirs(dirs, full).contains(d),
        kept_dirs(dirs + more, full) == kept_dirs(dirs, full) + kept_dirs(more, full),
        kept_dirs(seq![d], full) == (if crate::paths::path_has_prefix(d, full) { Seq::empty() } else { seq![d] }),
        kept_dirs(Seq::empty(), full) == Seq::<Seq<char>>::empty(),
{
    broadcast use vstd::seq_lib::group_filter_ensures;
    let pred = |e: Seq<char>| !crate::paths::path_has_prefix(e, full);
    assert forall|e: Seq<char>| #[trigger] kept_dirs(dirs, full).contains(e)
        implies !crate::paths::path_has_prefix(e, full) && dirs.contains(e) by {
        dirs.lemma_filter_contains_rev(pred, e);
        let i = choose|i: int| 0 <= i < kept_dirs(dirs, full).len() && kept_dirs(dirs, full)[i] == e;
        dirs.lemma_filter_pred(pred, i);
    }
    if dirs.contains(d) && !crate::paths::path_has_prefix(d, full) {
        let i = choose|i: int| 0 <= i < dirs.len() && dirs[i] == d;
        dirs.lemma_filter_contains(pred, i);
    }
    Seq::filter_distributes_over_add(dirs, more, pred);
    Seq::<Seq<char>>::empty().lemma_filter_push(d, pred);
    assert(Seq::<Seq<char>>::empty().push(d) =~= seq![d]);
    assert(Seq::<Seq<char>>::empty().filter(pred) =~= Seq::<Seq<char>>::empty()) by {
        reveal(Seq::filter);
    }
}

fn drop_under(dirs: &Vec<String>, full: &String) -> (r: Vec<String>)
    ensures
        texts(r@) == kept_dirs(texts(dirs@), full@),
{
    let ghost pred = |d: Seq<char>| !crate::paths::path_has_prefix(d, full@);
    let mut out: Vec<String> = Vec::new();
    let mut i: usize = 0;
    while i < dirs.len()
        invariant
            i <= dirs@.len(),
            pred == (|d: Seq<char>| !crate::paths::path_has_prefix(d, full@)),
            texts(out@) == texts(dirs@).take(i as int).filter(pred),
        decreases dirs@.len() - i,
    {
        let ghost prefix = texts(dirs@).take(i as int);
        assert(texts(dirs@).take(i as int + 1) =~= prefix.push(dirs@[i as int]@));
        proof { prefix.lemma_filter_push(dirs@[i as int]@, pred); }
        if !crate::paths::starts_with_path(dirs[i].as_str(), full.as_str()) {
            let ghost before = out@;
            out.push(dirs[i].clone());
            assert(texts(out@) =~= texts(before).push(dirs@[i as int]@));
        }
        i = i + 1;
    }
    assert(texts(dirs@).take(dirs@.len() as int) =~= texts(dirs@));
    out
}

/// Full paths of the directories enclosing tree row `i` (whose depth is
/// `need`), outermost first.
pub open spec fn ancestor_paths(dir: Seq<char>, rows: Seq<TreeEntry>, i: int, need: nat) -> Seq<Seq<char>>
    decreases i,
{
    if i <= 0 || need == 0 {
        Seq::empty()
    } else if rows[i - 1].depth + 1 == need {
        ancestor_paths(dir, rows, i - 1, rows[i - 1].depth as nat).push(tree_row_path(dir, rows, i - 1))
    } else {
        ancestor_paths(dir, rows, i - 1, need)
    }
}

/// `dirs` with each of `more` added that is not already the same path as
/// one of them.
pub open spec fn with_dirs(dirs: Seq<Seq<char>>, more: Seq<Seq<char>>) -> Seq<Seq<char>>
    decreases more.len(),
{
    if more.len() == 0 {
        dirs
    } else {
        let d = with_dirs(dirs, more.drop_last());
        if dir_index(d, more.last()) >= 0 { d } else { d.push(more.last()) }
    }
}

/// Index of the nearest row before `i` at depth `depth`, or -1.
pub open spec fn row_above_at(rows: Seq<TreeEntry>, i: int, depth: nat) -> int
    decreases i,
{
    if i <= 0 {
        -1
    } else if rows[i - 1].depth as nat == depth {
        i - 1
    } else {
        row_above_at(rows, i - 1, depth)
    }
}

proof fn lemma_row_above_at(rows: Seq<TreeEntry>, i: int, depth: nat)
    ensures
        -1 <= row_above_at(rows, i, depth) < (if i > 0 { i } else { 0 }),
    decreases i,
{
    if i > 0 && rows[i - 1].depth as nat != depth {
        lemma_row_above_at(rows, i - 1, depth);
    }
}

/// Some expanded directory's final component is `name`.
pub open spec fn expanded_name(dirs: Seq<Seq<char>>, name: Seq<char>) -> bool {
    exists|k: int| 0 <= k < dirs.len() && crate::paths::file_name_of(#[trigger] dirs[k]) == Some(name)
}

/// Status for an entry's size.
pub open spec fn size_status(name: Seq<char>, size: u64) -> Seq<char> {
    name + " ("@ + crate::display::size_text(size as nat) + ")"@
}

/// Status when a directory to expand turned out empty.
pub open spec fn empty_dir_text(name: Seq<char>) -> Seq<char> {
    name + " (empty)"@
}

impl FileBrowserState {
    /// Everything but the active panel, the active side and the status is
    /// as in `other`.
    pub open spec fn same_but_panels(&self, other: FileBrowserState) -> bool {
        &&& self.machine == other.machine
        &&& self.connected == other.connected
        &&& self.connecting == other.connecting
        &&& self.transferring == other.transferring
        &&& self.progress_file_name == other.progress_file_name
        &&& self.progress_current == other.progress_current
        &&& self.progress_total == other.progress_total
        &&& self.confirm_delete == other.confirm_delete
        &&& self.transfer_confirm == other.transfer_confirm
        &&& self.rename_input == other.rename_input
        &&& self.old_entry_name == other.old_entry_name
        &&& self.old_entry_path == other.old_entry_path
        &&& self.clipboard == other.clipboard
        &&& self.clipboard_side == other.clipboard_side
        &&& self.clipboard_panel_open == other.clipboard_panel_open
        &&& self.clipboard_panel_cursor == other.clipboard_panel_cursor
        &&& self.switch_confirm == other.switch_confirm
        &&& self.transfer_queue == other.transfer_queue
        &&& self.connecting_dots == other.connecting_dots
        &&& self.visible_rows == other.visible_rows
        &&& self.local_home == other.local_home
    }

    /// Switches to the other panel and shows its entry count (its tree's
    /// rows while directories are expanded).
    pub fn toggle_side(&mut self)
        requires
            old(self).well_formed(),
        ensures
            final(self).well_formed(),
            toggle_side_effect(*old(self), *final(self)),
    {
        self.active_side = self.active_side.other();
        let p = self.panel(self.active_side);
        let n = if p.expanded_dirs.len() == 0 { p.entries.len() } else { p.tree_entries.len() };
        self.status = count_status(n);
    }

    /// Moves the active panel's cursor by `delta` rows (see
    /// `PanelState::move_cursor`); a cursor or scroll position too large
    /// for that arithmetic, which no listing reaches, stays put.
    pub fn move_cursor(&mut self, delta: isize)
        requires
            old(self).well_formed(),
            delta == 1 || delta == -1,
        ensures
            final(self).well_formed(),
            move_cursor_effect(*old(self), *final(self), delta),
    {
        let visible = self.visible_rows;
        let side = self.active_side;
        let panel = self.panel_mut(side);
        if panel.tree_entries.len() > 0 && panel.cursor < isize::MAX as usize && panel.scroll_offset <= usize::MAX - visible {
            panel.move_cursor(delta, visible);
        }
    }

    /// Moves the active panel's cursor to its first row.
    pub fn cursor_first(&mut self)
        requires
            old(self).well_formed(),
        ensures
            final(self).well_formed(),
            cursor_first_effect(*old(self), *final(self)),
    {
        let side = self.active_side;
        let panel = self.panel_mut(side);
        panel.cursor_first();
    }

    /// Moves the active panel's cursor to its last row (see
    /// `PanelState::cursor_last`); a scroll position too large for that
    /// arithmetic, which no listing reaches, stays put.
    pub fn cursor_last(&mut self)
        requires
            old(self).well_formed(),
        ensures
            final(self).well_formed(),
            cursor_last_effect(*old(self), *final(self)),
    {
        let visible = self.visible_rows;
        let side = self.active_side;
        let panel = self.panel_mut(side);
        if panel.tree_entries.len() > 0 && panel.scroll_offset <= usize::MAX - visible {
            panel.cursor_last(visible);
        }
    }
}

/// `after` and `r` are what going up to the parent directory makes of
/// `before` (see `FileBrowserState::parent_dir`).
pub open spec fn went_up(before: FileBrowserState, after: FileBrowserState, r: Option<BrowserAction>) -> bool {
        let p = panel_on(before, before.active_side);
        let q = panel_on(after, before.active_side);
        match crate::paths::parent_path(p.current_path@) {
            Some(parent) => if parent.len() == 0 {
                r is None && after == before
            } else {
                &&& q.current_path@ == parent
                &&& q.expanded_dirs@.len() == 0
                &&& q.scroll_offset == 0
                &&& q.entries == p.entries
                &&& q.tree_entries == p.tree_entries
                &&& q.prev_dir_name == p.prev_dir_name
                &&& if before.active_side == Side::Remote && !before.connected {
                    &&& r is None
                    &&& after.status@ == NOT_CONNECTED@
                    &&& q.cursor as int == match p.prev_dir_name {
                        Some(name) => if return_index(p.entries@, name@) >= 0 {
                            return_index(p.entries@, name@)
                        } else {
                            0
                        },
                        None => 0,
                    }
                } else {
                    &&& q.cursor == 0
                    &&& after.status == before.status
                    &&& r matches Some(BrowserAction::Refresh { side, then })
                    &&& side == before.active_side
                    &&& match p.prev_dir_name {
                        Some(name) => then matches AfterListing::ReturnTo(n) && n@ == name@,
                        None => then is Report,
                    }
                }
            },
            None => r is None && after == before,
        }
}

impl FileBrowserState {
    /// Everything but the active panel's place and the status is as in
    /// `other`; the other panel is untouched.
    pub open spec fn moved_from(&self, other: FileBrowserState) -> bool {
        &&& self.same_but_panels(other)
        &&& self.active_side == other.active_side
        &&& panel_on(*self, other.active_side.other_side()) == panel_on(other, other.active_side.other_side())
    }

    /// The active panel now shows `path` from the top, with nothing
    /// expanded; its listing is not yet renewed.
    pub open spec fn went_to(&self, other: FileBrowserState, path: Seq<char>) -> bool {
        let p = panel_on(other, other.active_side);
        let q = panel_on(*self, other.active_side);
        &&& q.current_path@ == path
        &&& q.expanded_dirs@.len() == 0
        &&& q.cursor == 0
        &&& q.scroll_offset == 0
        &&& q.entries == p.entries
        &&& q.tree_entries == p.tree_entries
    }

    fn go_to(&mut self, path: String)
        ensures
            final(self).went_to(*old(self), path@),
            final(self).moved_from(*old(self)),
            final(self).status == old(self).status,
            panel_on(*final(self), old(self).active_side).prev_dir_name
                == panel_on(*old(self), old(self).active_side).prev_dir_name,
    {
        let side = self.active_side;
        let panel = self.panel_mut(side);
        panel.expanded_dirs = Vec::new();
        panel.current_path = path;
        panel.cursor = 0;
        panel.scroll_offset = 0;
    }

    /// Goes to the root directory `/` on the active side and asks for its
    /// listing.
    pub fn goto_root(&mut self) -> (r: Option<BrowserAction>)
        requires
            old(self).well_formed(),
        ensures
            final(self).well_formed(),
            goto_root_effect(*old(self), *final(self), r),
    {
        proof { reveal_strlit("/"); }
        self.go_to(owned("/"));
        self.refresh(self.active_side, AfterListing::Report)
    }

    /// Goes to the home directory on the active side (`/root` or
    /// `/home/<user>` remotely, the local home locally) and asks for its
    /// listing.
    pub fn goto_home(&mut self) -> (r: Option<BrowserAction>)
        requires
            old(self).well_formed(),
        ensures
            final(self).well_formed(),
            goto_home_effect(*old(self), *final(self), r),
    {
        let home = match self.active_side {
            Side::Remote => remote_home_of(&self.machine.username),
            Side::Local => self.local_home.clone(),
        };
        self.go_to(home);
        self.refresh(self.active_side, AfterListing::Report)
    }

    /// Goes up to the parent directory on the active side, to come back to
    /// the entry of the directory left behind once the listing arrives.
    /// Nothing happens at a root or when the parent would be empty.
    pub fn parent_dir(&mut self) -> (r: Option<BrowserAction>)
        requires
            old(self).well_formed(),
        ensures
            final(self).well_formed(),
            parent_dir_effect(*old(self), *final(self), r),
    {
        let side = self.active_side;
        let parent = match crate::paths::parent_of(self.panel(side).current_path.as_str()) {
            Some(p) => p,
            None => return None,
        };
        if parent.as_str().is_empty() {
            return None;
        }
        let prev = match &self.panel(side).prev_dir_name {
            Some(n) => Some(n.clone()),
            None => None,
        };
        self.go_to(parent);
        let then = match &prev {
            Some(n) => AfterListing::ReturnTo(n.clone()),
            None => AfterListing::Report,
        };
        let r = self.refresh(side, then);
        if r.is_none() {
            if let Some(name) = prev {
                let panel = self.panel_mut(side);
                if let Some(k) = find_return(&panel.entries, &name) {
                    panel.cursor = k;
                }
            }
        }
        r
    }
}

fn size_line(name: &String, size: u64) -> (r: String)
    ensures
        r@ == size_status(name@, size),
{
    let sz = crate::display::format_size(size);
    let mut v: Vec<char> = Vec::new();
    push_str(&mut v, name.as_str());
    push_str(&mut v, " (");
    push_str(&mut v, sz.as_str());
    push_str(&mut v, ")");
    proof {
        reveal_strlit(" (");
        reveal_strlit(")");
    }
    assert(v@ =~= size_status(name@, size));
    string_of(&v)
}

impl FileBrowserState {
    /// Opens the entry under the active panel's cursor: a directory becomes
    /// the panel's directory; a file in a subdirectory of the tree opens
    /// that subdirectory; a file of the panel's own directory only shows
    /// its size. The name of the directory entered is remembered for coming
    /// back up.
    pub fn enter_dir(&mut self) -> (r: Option<BrowserAction>)
        requires
            old(self).well_formed(),
        ensures
            final(self).well_formed(),
            enter_dir_effect(*old(self), *final(self), r),
    {
        let side = self.active_side;
        let p = self.panel(side);
        if p.cursor >= p.tree_entries.len() {
            return None;
        }
        let cursor = p.cursor;
        let full = p.tree_entry_path(cursor);
        let is_dir = p.tree_entries[cursor].entry.is_dir;
        let (path, name) = if !is_dir {
            let parent = match crate::paths::parent_of(full.as_str()) {
                Some(x) => x,
                None => return None,
            };
            if crate::paths::same_path(parent.as_str(), p.current_path.as_str()) {
                let msg = size_line(&p.tree_entries[cursor].entry.name, p.tree_entries[cursor].entry.size);
                self.status = msg;
                return None;
            }
            let name = match crate::paths::file_name(parent.as_str()) {
                Some(n) => n,
                None => String::new(),
            };
            (parent, name)
        } else {
            (full, crate::session::last_path_segment(p.tree_entries[cursor].entry.name.as_str()))
        };
        self.go_to(path);
        let panel = self.panel_mut(side);
        panel.prev_dir_name = Some(name);
        self.refresh(side, AfterListing::Report)
    }
}

fn empty_dir_status(path: &String) -> (r: String)
    ensures
        r@ == empty_dir_text(match crate::paths::file_name_of(path@) { Some(n) => n, None => Seq::empty() }),
{
    let name = match crate::paths::file_name(path.as_str()) {
        Some(n) => n,
        None => String::new(),
    };
    let mut v: Vec<char> = Vec::new();
    push_str(&mut v, name.as_str());
    push_str(&mut v, " (empty)");
    proof { reveal_strlit(" (empty)"); }
    assert(v@ =~= empty_dir_text(name@));
    string_of(&v)
}

fn add_dirs(dirs: &mut Vec<String>, more: &Vec<String>)
    ensures
        texts(final(dirs)@) == with_dirs(texts(old(dirs)@), texts(more@)),
{
    let mut i: usize = 0;
    while i < more.len()
        invariant
            i <= more@.len(),
            texts(dirs@) == with_dirs(texts(old(dirs)@), texts(more@).take(i as int)),
        decreases more@.len() - i,
    {
        assert(texts(more@).take(i as int + 1).drop_last() =~= texts(more@).take(i as int));
        let found = find_dir(dirs, &more[i]);
        if found.is_none() {
            let ghost before = dirs@;
            dirs.push(more[i].clone());
            assert(texts(dirs@) =~= texts(before).push(more@[i as int]@));
        }
        i = i + 1;
    }
    assert(texts(more@).take(more@.len() as int) =~= texts(more@));
}

impl FileBrowserState {
    /// Expands or collapses the directory under the active panel's cursor.
    /// Collapsing drops it and every expanded directory under it, then the
    /// tree is rebuilt; expanding first lists the directory (see
    /// `expand_listed`). The remote side without a session says so; other
    /// rows are left alone.
    pub fn toggle_tree(&mut self) -> (r: Option<BrowserAction>)
        requires
            old(self).well_formed(),
        ensures
            final(self).well_formed(),
            toggle_tree_effect(*old(self), *final(self), r),
    {
        let side = self.active_side;
        if side == Side::Remote && !self.connected {
            self.status = owned(NOT_CONNECTED);
            return None;
        }
        let p = self.panel(side);
        if p.cursor >= p.tree_entries.len() || !p.tree_entries[p.cursor].entry.is_dir {
            return None;
        }
        let full = p.tree_entry_path(p.cursor);
        let found = find_dir(&p.expanded_dirs, &full);
        if found.is_some() {
            let kept = drop_under(&p.expanded_dirs, &full);
            let panel = self.panel_mut(side);
            panel.expanded_dirs = kept;
            return Some(BrowserAction::RebuildTree { side, report: true });
        }
        Some(BrowserAction::ListChildren { side, path: full })
    }

    /// Takes the listing of the directory `path` that `toggle_tree` asked
    /// for. An empty directory (once hidden or dot entries are left out)
    /// only says so; otherwise the directory, and every directory enclosing
    /// the cursor's row, become expanded and the tree is rebuilt.
    pub fn expand_listed(&mut self, side: Side, path: String, raw: Vec<FileEntry>) -> (r: Option<BrowserAction>)
        requires
            old(self).well_formed(),
        ensures
            final(self).well_formed(),
            final(self).same_but_panels(*old(self)),
            final(self).active_side == old(self).active_side,
            panel_on(*final(self), side.other_side()) == panel_on(*old(self), side.other_side()),
            ({
                let p = panel_on(*old(self), side);
                let q = panel_on(*final(self), side);
                if shown_entries(side, raw@).len() == 0 {
                    &&& r is None
                    &&& q == p
                    &&& final(self).status@ == empty_dir_text(match crate::paths::file_name_of(path@) {
                        Some(n) => n,
                        None => Seq::empty(),
                    })
                } else {
                    let ups = if p.cursor < p.tree_entries@.len() {
                        ancestor_paths(p.current_path@, p.tree_entries@, p.cursor as int,
                            p.tree_entries@[p.cursor as int].depth as nat)
                    } else {
                        Seq::empty()
                    };
                    &&& texts(q.expanded_dirs@) == with_dirs(texts(p.expanded_dirs@), ups.push(path@))
                    &&& q == (PanelState { expanded_dirs: q.expanded_dirs, ..p })
                    &&& r == Some(BrowserAction::RebuildTree { side, report: true })
                    &&& final(self).status == old(self).status
                }
            }),
    {
        let shown = match side {
            Side::Local => arrange_local(raw),
            Side::Remote => crate::sftp::arrange_listing(raw),
        };
        if shown.len() == 0 {
            self.status = empty_dir_status(&path);
            return None;
        }
        let p = self.panel(side);
        let ghost spec_ups = if p.cursor < p.tree_entries@.len() {
            ancestor_paths(p.current_path@, p.tree_entries@, p.cursor as int,
                p.tree_entries@[p.cursor as int].depth as nat)
        } else {
            Seq::<Seq<char>>::empty()
        };
        let mut ups: Vec<String> = Vec::new();
        if p.cursor < p.tree_entries.len() {
            let rows = &p.tree_entries;
            let cursor = p.cursor;
            let ghost want = ancestor_paths(p.current_path@, rows@, cursor as int, rows@[cursor as int].depth as nat);
            let mut need = rows[cursor].depth;
            let mut i = cursor;
            // Found so far, nearest first.
            let mut found: Vec<String> = Vec::new();
            while i > 0 && need > 0
                invariant
                    i <= cursor < rows@.len(),
                    *rows == p.tree_entries,
                    want == ancestor_paths(p.current_path@, rows@, i as int, need as nat) + texts(found@).reverse(),
                decreases i,
            {
                if rows[i - 1].depth < need && rows[i - 1].depth + 1 == need {
                    let ghost before = texts(found@);
                    found.push(p.tree_entry_path(i - 1));
                    assert(texts(found@) =~= before.push(tree_row_path(p.current_path@, rows@, i - 1)));
                    assert(before.push(tree_row_path(p.current_path@, rows@, i - 1)).reverse()
                        =~= seq![tree_row_path(p.current_path@, rows@, i - 1)] + before.reverse());
                    need = rows[i - 1].depth;
                }
                i = i - 1;
            }
            assert(ancestor_paths(p.current_path@, rows@, i as int, need as nat) =~= Seq::<Seq<char>>::empty());
            let mut k = found.len();
            while k > 0
                invariant
                    k <= found@.len(),
                    want == texts(found@).reverse(),
                    texts(ups@) == want.take(found@.len() - k),
                decreases k,
            {
                let ghost done = (found@.len() - k) as int;
                assert(want[done] == found@[k - 1]@);
                let ghost before = ups@;
                ups.push(found[k - 1].clone());
                assert(texts(ups@) =~= texts(before).push(found@[k - 1]@));
                k = k - 1;
                assert(texts(ups@) =~= want.take(found@.len() - k));
            }
            assert(want.take(found@.len() as int) =~= want);
        }
        assert(texts(ups@) == spec_ups);
        let ghost before = ups@;
        ups.push(path);
        assert(texts(ups@) =~= texts(before).push(ups@.last()@));
        let panel = self.panel_mut(side);
        add_dirs(&mut panel.expanded_dirs, &ups);
        Some(BrowserAction::RebuildTree { side, report: true })
    }

    /// Takes the listings of the expanded directories of the panel on
    /// `side` and rebuilds its tree (see `rebuilt`); with `report`, shows
    /// the number of rows.
    pub fn tree_listed(&mut self, side: Side, listings: Vec<(String, Vec<FileEntry>)>, report: bool)
        requires
            old(self).well_formed(),
        ensures
            final(self).well_formed(),
            final(self).same_but_panels(*old(self)),
            final(self).active_side == old(self).active_side,
            panel_on(*final(self), side.other_side()) == panel_on(*old(self), side.other_side()),
            (panel_on(*final(self), side).tree_entries@, panel_on(*final(self), side).cursor as nat)
                == rebuilt(panel_on(*old(self), side), listing_views(listings@)),
            same_panel_but_tree(panel_on(*final(self), side), panel_on(*old(self), side)),
            report ==> final(self).status@ == count_text(panel_on(*final(self), side).tree_entries@.len()),
            !report ==> final(self).status == old(self).status,
    {
        let panel = self.panel_mut(side);
        rebuild_tree(panel, &listings);
        if report {
            let n = self.panel(side).tree_entries.len();
            self.status = count_status(n);
        }
    }
}

fn has_expanded_name(dirs: &Vec<String>, name: &String) -> (r: bool)
    ensures
        r == expanded_name(texts(dirs@), name@),
{
    let mut i: usize = 0;
    while i < dirs.len()
        invariant
            i <= dirs@.len(),
            forall|k: int| 0 <= k < i ==> crate::paths::file_name_of(#[trigger] texts(dirs@)[k]) != Some(name@),
        decreases dirs@.len() - i,
    {
        let f = crate::paths::file_name(dirs[i].as_str());
        assert(texts(dirs@)[i as int] == dirs@[i as int]@);
        match f {
            Some(n) => {
                if str_eq(n.as_str(), name.as_str()) {
                    assert(crate::paths::file_name_of(texts(dirs@)[i as int]) == Some(name@));
                    return true;
                }
            },
            None => {},
        }
        i = i + 1;
    }
    false
}

fn find_row_above(rows: &Vec<TreeEntry>, i: usize, depth: usize) -> (r: Option<usize>)
    requires
        i <= rows@.len(),
    ensures
        match r {
            Some(k) => k as int == row_above_at(rows@, i as int, depth as nat),
            None => row_above_at(rows@, i as int, depth as nat) == -1,
        },
{
    let mut j = i;
    while j > 0
        invariant
            j <= i <= rows@.len(),
            row_above_at(rows@, i as int, depth as nat) == row_above_at(rows@, j as int, depth as nat),
        decreases j,
    {
        if rows[j - 1].depth == depth {
            return Some(j - 1);
        }
        j = j - 1;
    }
    None
}

impl FileBrowserState {
    /// Left arrow: in an expanded tree, collapses the directory under the
    /// cursor if it is expanded (moving to its parent row when it is
    /// nested), or moves to the parent row of a nested entry; at the top
    /// level, or with no tree, goes up to the parent directory.
    pub fn collapse_or_navigate_tree(&mut self) -> (r: Option<BrowserAction>)
        requires
            old(self).well_formed(),
        ensures
            final(self).well_formed(),
            collapse_or_navigate_tree_effect(*old(self), *final(self), r),
    {
        let side = self.active_side;
        let p = self.panel(side);
        if p.expanded_dirs.len() == 0 || p.tree_entries.len() == 0 {
            return self.parent_dir();
        }
        if p.cursor >= p.tree_entries.len() {
            return None;
        }
        let cursor = p.cursor;
        let depth = p.tree_entries[cursor].depth;
        proof {
            if depth > 0 {
                lemma_row_above_at(p.tree_entries@, cursor as int, (depth - 1) as nat);
            }
        }
        let up: Option<usize> = if depth > 0 { find_row_above(&p.tree_entries, cursor, depth - 1) } else { None };
        if p.tree_entries[cursor].entry.is_dir && has_expanded_name(&p.expanded_dirs, &p.tree_entries[cursor].entry.name) {
            let full = p.tree_entry_path(cursor);
            let kept = drop_under(&p.expanded_dirs, &full);
            let panel = self.panel_mut(side);
            panel.expanded_dirs = kept;
            if let Some(k) = up {
                panel.cursor = k;
            }
            return Some(BrowserAction::RebuildTree { side, report: false });
        }
        match up {
            Some(k) => {
                let panel = self.panel_mut(side);
                panel.cursor = k;
                None
            },
            None => self.parent_dir(),
        }
    }
}

/// How a delete or rename went.
pub enum OpOutcome {
    Done,
    /// The operation failed with this message.
    Failed(String),
    /// The remote file service could not be opened.
    SftpFailed(String),
}

/// The type tag shown for an entry.
pub open spec fn type_tag(is_dir: bool) -> Seq<char> {
    if is_dir { "[DIR]"@ } else { "[FILE]"@ }
}

/// The transfer question for `name` at `full` on `side`: pushing from the
/// local side to the remote directory, or pulling into the local one.
pub open spec fn transfer_question(side: Side, is_dir: bool, name: Seq<char>, full: Seq<char>,
    local_dir: Seq<char>, remote_dir: Seq<char>) -> Seq<char> {
    match side {
        Side::Local => "Push:|"@ + type_tag(is_dir) + "|"@ + name + "│"@ + full + "|->|"@ + path_join(remote_dir, name),
        Side::Remote => "Pull:|"@ + type_tag(is_dir) + "|"@ + name + "│"@ + full + "|<-|"@ + path_join(local_dir, name),
    }
}

/// The delete question for `name` at `full` on `side`.
pub open spec fn delete_question(side: Side, is_dir: bool, name: Seq<char>, full: Seq<char>) -> Seq<char> {
    "Delete:|"@ + type_tag(is_dir) + "|"@ + name + "│"@ + full + "|"@
        + match side { Side::Local => "Local"@, Side::Remote => "Remote"@ }
}

/// Prompt while a new name is typed.
pub const RENAME_PROMPT: &'static str = "输入新名称:";
/// Status when renaming is cancelled.
pub const RENAME_CANCELLED: &'static str = "重命名已取消";

/// Index of the first listing entry called `name`, or -1.
pub open spec fn entry_index(entries: Seq<FileEntry>, name: Seq<char>) -> int
    decreases entries.len(),
{
    if entries.len() == 0 {
        -1
    } else if entries[0].name@ == name {
        0
    } else {
        let r = entry_index(entries.drop_first(), name);
        if r < 0 { -1 } else { r + 1 }
    }
}

proof fn lemma_entry_index(entries: Seq<FileEntry>, name: Seq<char>)
    ensures
        -1 <= entry_index(entries, name) < entries.len(),
        entry_index(entries, name) >= 0 ==> entries[entry_index(entries, name)].name@ == name,
    decreases entries.len(),
{
    if entries.len() > 0 {
        lemma_entry_index(entries.drop_first(), name);
    }
}

fn find_entry(entries: &Vec<FileEntry>, name: &String) -> (r: Option<usize>)
    ensures
        match r {
            Some(i) => i as int == entry_index(entries@, name@),
            None => entry_index(entries@, name@) == -1,
        },
{
    let mut i: usize = 0;
    assert(entries@.skip(0) =~= entries@);
    proof { lemma_entry_index(entries@, name@); }
    while i < entries.len()
        invariant
            i <= entries@.len(),
            entry_index(entries@, name@) == (if entry_index(entries@.skip(i as int), name@) < 0 { -1 }
                else { entry_index(entries@.skip(i as int), name@) + i }),
        decreases entries@.len() - i,
    {
        assert(entries@.skip(i as int)[0] == entries@[i as int]);
        if str_eq(entries[i].name.as_str(), name.as_str()) {
            return Some(i);
        }
        assert(entries@.skip(i as int).drop_first() =~= entries@.skip(i as int + 1));
        i = i + 1;
    }
    None
}

fn question_text(parts: &Vec<&str>) -> (r: String)
    ensures
        r@ == joined(parts@),
{
    let mut v: Vec<char> = Vec::new();
    let mut i: usize = 0;
    while i < parts.len()
        invariant
            i <= parts@.len(),
            v@ == joined(parts@.take(i as int)),
        decreases parts@.len() - i,
    {
        push_str(&mut v, parts[i]);
        assert(parts@.take(i as int + 1).drop_last() =~= parts@.take(i as int));
        i = i + 1;
    }
    assert(parts@.take(parts@.len() as int) =~= parts@);
    string_of(&v)
}

/// The strings `parts` one after another.
pub open spec fn joined(parts: Seq<&str>) -> Seq<char>
    decreases parts.len(),
{
    if parts.len() == 0 { Seq::empty() } else { joined(parts.drop_last()) + parts.last()@ }
}

/// `after` and `r` are what copying the entry under the cursor of side
/// `direction` to the other side makes of `before` (see
/// `FileBrowserState::transfer_selected`).
pub open spec fn transferred(before: FileBrowserState, after: FileBrowserState, r: Option<BrowserAction>,
    direction: Side) -> bool {
    let p = panel_on(before, direction);
    let dest_dir = panel_on(before, direction.other_side()).current_path@;
    match entry_at(p) {
        Some(e) => if before.transferring {
            r is None && after == before
        } else {
            &&& r matches Some(a) && is_transfer(a, e.name@, entry_path(p), path_join(dest_dir, e.name@),
                e.is_dir, direction)
            &&& after == (FileBrowserState {
                transferring: true,
                progress_file_name: after.progress_file_name,
                progress_current: 0,
                progress_total: 0,
                status: after.status,
                ..before
            })
            &&& after.progress_file_name@ == e.name@
            &&& after.status@ == transfer_start_text(e.name@, e.is_dir, direction)
        },
        None => r is None && after == before,
    }
}

impl FileBrowserState {
    /// Everything but the dialogs and the status is as in `other`.
    pub open spec fn same_but_dialogs(&self, other: FileBrowserState) -> bool {
        &&& self.same_view_core(other)
        &&& self.transferring == other.transferring
        &&& self.progress_file_name == other.progress_file_name
        &&& self.progress_current == other.progress_current
        &&& self.progress_total == other.progress_total
        &&& self.clipboard == other.clipboard
        &&& self.clipboard_side == other.clipboard_side
        &&& self.clipboard_panel_open == other.clipboard_panel_open
        &&& self.clipboard_panel_cursor == other.clipboard_panel_cursor
        &&& self.transfer_queue == other.transfer_queue
    }

    /// Panels, machine, session and display settings are as in `other`.
    pub open spec fn same_view_core(&self, other: FileBrowserState) -> bool {
        &&& self.machine == other.machine
        &&& self.local == other.local
        &&& self.remote == other.remote
        &&& self.active_side == other.active_side
        &&& self.connected == other.connected
        &&& self.connecting == other.connecting
        &&& self.connecting_dots == other.connecting_dots
        &&& self.visible_rows == other.visible_rows
        &&& self.local_home == other.local_home
    }

    /// `x`: asks whether to copy the entry under the cursor to the other
    /// side, naming both paths. Ignored during a transfer, without an entry
    /// and on `..`.
    pub fn start_transfer_confirm(&mut self)
        requires
            old(self).well_formed(),
        ensures
            final(self).well_formed(),
            start_transfer_confirm_effect(*old(self), *final(self)),
    {
        if self.transferring {
            return;
        }
        let side = self.active_side;
        let entry = match self.current_entry() {
            Some(e) => e,
            None => return,
        };
        proof {
            reveal_strlit("..");
        }
        if str_eq(entry.name.as_str(), "..") {
            return;
        }
        let full = self.current_entry_full_path();
        let tag = if entry.is_dir { "[DIR]" } else { "[FILE]" };
        let other = match side {
            Side::Local => join(self.remote.current_path.as_str(), entry.name.as_str()),
            Side::Remote => join(self.local.current_path.as_str(), entry.name.as_str()),
        };
        let (head, arrow) = match side {
            Side::Local => ("Push:|", "|->|"),
            Side::Remote => ("Pull:|", "|<-|"),
        };
        let parts = vec![head, tag, "|", entry.name.as_str(), "│", full.as_str(), arrow, other.as_str()];
        let text = question_text(&parts);
        proof {
            reveal_strlit("[DIR]"); reveal_strlit("[FILE]"); reveal_strlit("Push:|"); reveal_strlit("Pull:|");
            reveal_strlit("|->|"); reveal_strlit("|<-|"); reveal_strlit("|"); reveal_strlit("│");
            reveal_with_fuel(joined, 9);
        }
        assert(text@ =~= transfer_question(side, entry.is_dir, entry.name@, full@,
            self.local.current_path@, self.remote.current_path@));
        self.status = text;
        self.transfer_confirm = Some(side);
    }

    /// Copies the entry under one side's cursor to the other side's
    /// directory (`direction` is the side it comes from). Ignored during a
    /// transfer or without an entry.
    pub fn transfer_selected(&mut self, direction: Side) -> (r: Option<BrowserAction>)
        requires
            old(self).well_formed(),
        ensures
            final(self).well_formed(),
            transferred(*old(self), *final(self), r, direction),
    {
        if self.transferring {
            return None;
        }
        let p = self.panel(direction);
        let entry = if p.expanded_dirs.len() > 0 {
            if p.cursor < p.tree_entries.len() { p.tree_entries[p.cursor].entry.duplicate() } else { return None; }
        } else {
            if p.cursor < p.entries.len() { p.entries[p.cursor].duplicate() } else { return None; }
        };
        let source = if p.expanded_dirs.len() > 0 {
            p.tree_entry_path(p.cursor)
        } else {
            join(p.current_path.as_str(), entry.name.as_str())
        };
        let dest = join(self.panel(direction.other()).current_path.as_str(), entry.name.as_str());
        Some(self.start_file_transfer(entry.name, source, dest, entry.is_dir, direction))
    }

    /// Answers yes to the transfer question: copies from the side it was
    /// asked on (the active side if none).
    pub fn confirm_transfer(&mut self) -> (r: Option<BrowserAction>)
        requires
            old(self).well_formed(),
        ensures
            final(self).well_formed(),
            confirm_transfer_effect(*old(self), *final(self), r),
    {
        let side = match self.transfer_confirm {
            Some(s) => s,
            None => self.active_side,
        };
        self.transfer_confirm = None;
        self.transfer_selected(side)
    }
}

impl FileBrowserState {
    /// `d`: asks whether to delete the entry under the cursor, naming its
    /// type, name, path and side.
    pub fn start_delete(&mut self)
        requires
            old(self).well_formed(),
        ensures
            final(self).well_formed(),
            start_delete_effect(*old(self), *final(self)),
    {
        let side = self.active_side;
        let entry = match self.current_entry() {
            Some(e) => e,
            None => return,
        };
        let full = self.current_entry_full_path();
        let tag = if entry.is_dir { "[DIR]" } else { "[FILE]" };
        let label = match side {
            Side::Local => "Local",
            Side::Remote => "Remote",
        };
        let parts = vec!["Delete:|", tag, "|", entry.name.as_str(), "│", full.as_str(), "|", label];
        let text = question_text(&parts);
        proof {
            reveal_strlit("[DIR]"); reveal_strlit("[FILE]"); reveal_strlit("Delete:|"); reveal_strlit("|");
            reveal_strlit("│"); reveal_strlit("Local"); reveal_strlit("Remote");
            reveal_with_fuel(joined, 9);
        }
        assert(text@ =~= delete_question(side, entry.is_dir, entry.name@, full@));
        self.status = text;
        self.confirm_delete = Some((side, entry.name));
    }

    /// Answers yes to the delete question: deletes the entry of that name
    /// in the panel's own listing. Nothing is deleted when it is gone; the
    /// remote side without a session says so.
    pub fn confirm_delete_action(&mut self) -> (r: Option<BrowserAction>)
        requires
            old(self).well_formed(),
        ensures
            final(self).well_formed(),
            confirm_delete_action_effect(*old(self), *final(self), r),
    {
        let (side, name) = match self.confirm_delete.take() {
            Some(v) => v,
            None => return None,
        };
        let p = self.panel(side);
        proof { lemma_entry_index(p.entries@, name@); }
        let k = match find_entry(&p.entries, &name) {
            Some(k) => k,
            None => return None,
        };
        let path = join(p.current_path.as_str(), p.entries[k].name.as_str());
        let is_dir = p.entries[k].is_dir;
        if side == Side::Remote && !self.connected {
            self.status = owned(NOT_CONNECTED);
            return None;
        }
        Some(BrowserAction::Delete { side, name, path, is_dir })
    }

    /// Reports how a delete went: `Deleted <name>` and a new listing, or the
    /// error.
    pub fn delete_finished(&mut self, side: Side, name: &str, outcome: OpOutcome) -> (r: Option<BrowserAction>)
        ensures
            match outcome {
                OpOutcome::Done => {
                    &&& (side == Side::Remote && !old(self).connected) ==> r is None
                        && final(self).status@ == NOT_CONNECTED@
                    &&& !(side == Side::Remote && !old(self).connected) ==> final(self).status@ == "Deleted "@ + name@
                        && r == Some(BrowserAction::Refresh { side, then: AfterListing::Report })
                },
                OpOutcome::Failed(e) => r is None && final(self).status@ == "删除失败: "@ + e@,
                OpOutcome::SftpFailed(e) => r is None && final(self).status@ == "SFTP 错误: "@ + e@,
            },
            *final(self) == (FileBrowserState { status: final(self).status, ..*old(self) }),
    {
        match outcome {
            OpOutcome::Done => {
                self.status = prefixed("Deleted ", name);
                proof { reveal_strlit("Deleted "); }
                self.refresh(side, AfterListing::Report)
            },
            OpOutcome::Failed(e) => {
                self.status = prefixed("删除失败: ", e.as_str());
                proof { reveal_strlit("删除失败: "); }
                None
            },
            OpOutcome::SftpFailed(e) => {
                self.status = prefixed("SFTP 错误: ", e.as_str());
                proof { reveal_strlit("SFTP 错误: "); }
                None
            },
        }
    }

    /// `r`: starts renaming the entry under the cursor, remembering its name
    /// and path and offering its name for editing.
    pub fn start_rename(&mut self)
        requires
            old(self).well_formed(),
        ensures
            final(self).well_formed(),
            start_rename_effect(*old(self), *final(self)),
    {
        let entry = match self.current_entry() {
            Some(e) => e,
            None => return,
        };
        self.old_entry_path = self.current_entry_full_path();
        self.old_entry_name = entry.name.clone();
        self.rename_input = Some(entry.name);
        self.status = owned(RENAME_PROMPT);
    }

    /// Enter while renaming: renames the remembered entry to the typed name
    /// within its directory. An empty name cancels; the remote side without
    /// a session says so.
    pub fn confirm_rename(&mut self) -> (r: Option<BrowserAction>)
        requires
            old(self).well_formed(),
        ensures
            final(self).well_formed(),
            confirm_rename_effect(*old(self), *final(self), r),
    {
        let new_name = match self.rename_input.take() {
            Some(n) => n,
            None => {
                self.status = owned(RENAME_CANCELLED);
                return None;
            },
        };
        if new_name.as_str().is_empty() {
            self.status = owned(RENAME_CANCELLED);
            return None;
        }
        let side = self.active_side;
        let from = self.old_entry_path.clone();
        let dir = match crate::paths::parent_of(from.as_str()) {
            Some(d) => d,
            None => from.clone(),
        };
        let to = join(dir.as_str(), new_name.as_str());
        if side == Side::Remote && !self.connected {
            self.status = owned(NOT_CONNECTED);
            return None;
        }
        Some(BrowserAction::Rename { side, from, to, new_name })
    }

    /// Reports how a rename went: the new name and a new listing, or the
    /// error.
    pub fn rename_finished(&mut self, side: Side, new_name: &str, outcome: OpOutcome) -> (r: Option<BrowserAction>)
        ensures
            match outcome {
                OpOutcome::Done => {
                    &&& (side == Side::Remote && !old(self).connected) ==> r is None
                        && final(self).status@ == NOT_CONNECTED@
                    &&& !(side == Side::Remote && !old(self).connected) ==> final(self).status@ == "已重命名为 "@ + new_name@
                        && r == Some(BrowserAction::Refresh { side, then: AfterListing::Report })
                },
                OpOutcome::Failed(e) => r is None && final(self).status@ == "重命名失败: "@ + e@,
                OpOutcome::SftpFailed(e) => r is None && final(self).status@ == "SFTP 错误: "@ + e@,
            },
            *final(self) == (FileBrowserState { status: final(self).status, ..*old(self) }),
    {
        match outcome {
            OpOutcome::Done => {
                self.status = prefixed("已重命名为 ", new_name);
                proof { reveal_strlit("已重命名为 "); }
                self.refresh(side, AfterListing::Report)
            },
            OpOutcome::Failed(e) => {
                self.status = prefixed("重命名失败: ", e.as_str());
                proof { reveal_strlit("重命名失败: "); }
                None
            },
            OpOutcome::SftpFailed(e) => {
                self.status = prefixed("SFTP 错误: ", e.as_str());
                proof { reveal_strlit("SFTP 错误: "); }
                None
            },
        }
    }
}

/// What the pending connection attempt reported.
pub enum ConnectEvent {
    /// The session is open.
    Connected,
    /// Connecting failed with this message.
    Failed(String),
    /// No answer yet; `timed_out` once the wait exceeds its limit.
    Waiting { timed_out: bool },
    /// The attempt ended without an answer.
    Lost,
}

/// What the running transfer reported.
pub enum TransferEvent {
    /// Still running.
    Running,
    /// Finished; the side that received the files.
    Done(Side),
    /// Failed with this message.
    Failed(String),
    /// Stopped on request.
    Aborted,
    /// Ended without a report.
    Lost,
}

/// Status when the connection attempt timed out.
pub const CONNECT_TIMEOUT: &'static str = "连接超时（5秒）";
/// Status when the connection attempt ended without an answer.
pub const CONNECT_LOST: &'static str = "错误: SSH 连接失败";
/// Status when a transfer was cancelled.
pub const TRANSFER_CANCELLED: &'static str = "传输已取消";
/// Status when a transfer ended without a report.
pub const TRANSFER_LOST: &'static str = "传输失败";
/// Status when the transfer's progress could not be read.
pub const TRANSFER_BROKEN: &'static str = "传输失败（内部错误）";
/// Status while a transfer is being cancelled.
pub const CANCELLING: &'static str = "取消中...";

/// The listings that renew both panels, as `init_dirs` asks for them: the
/// local one, then the remote one when connected; the last one is followed
/// by the active panel's entry count unless an error or connecting message
/// is showing.
pub open spec fn init_actions(connected: bool) -> Seq<BrowserAction> {
    if connected {
        seq![BrowserAction::Refresh { side: Side::Local, then: AfterListing::Report },
            BrowserAction::Refresh { side: Side::Remote, then: AfterListing::CountActive { unless_connecting: true } }]
    } else {
        seq![BrowserAction::Refresh { side: Side::Local, then: AfterListing::CountActive { unless_connecting: true } }]
    }
}

/// Status while connecting: `连接中` and `dots` dots.
pub open spec fn connecting_text(dots: nat) -> Seq<char> {
    CONNECTING@ + crate::text::repeat_char('.', dots)
}

/// Status showing a transfer's progress.
pub open spec fn progress_text(name: Seq<char>, current: u64, total: u64) -> Seq<char> {
    name + " "@ + crate::text::dec((current as nat * 100) / total as nat) + "%"@
}

impl FileBrowserState {
    /// A browser for `machine`, starting on the local panel in `local_home`
    /// and the remote panel at `/`, while the first connection is made.
    /// Returns it with the listing of the local panel to make.
    pub fn new(machine: Machine, local_home: String) -> (r: (FileBrowserState, Vec<BrowserAction>))
        ensures
            r.0.well_formed(),
            r.0.machine == machine,
            r.0.local.current_path == local_home,
            r.0.remote.current_path@ == "/"@,
            r.0.active_side == Side::Local,
            r.0.connecting,
            !r.0.connected,
            !r.0.transferring,
            r.0.status@ == CONNECTING@,
            r.0.clipboard@.len() == 0,
            r.0.transfer_queue@.len() == 0,
            r.1@ == init_actions(false),
    {
        proof { reveal_strlit("/"); }
        let fb = FileBrowserState {
            machine,
            local: PanelState::new(local_home.clone()),
            remote: PanelState::new(owned("/")),
            active_side: Side::Local,
            connected: false,
            connecting: true,
            transferring: false,
            status: owned(CONNECTING),
            progress_file_name: String::new(),
            progress_current: 0,
            progress_total: 0,
            confirm_delete: None,
            transfer_confirm: None,
            rename_input: None,
            old_entry_name: String::new(),
            old_entry_path: String::new(),
            clipboard: Vec::new(),
            clipboard_side: None,
            clipboard_panel_open: false,
            clipboard_panel_cursor: 0,
            switch_confirm: None,
            transfer_queue: Vec::new(),
            connecting_dots: 0,
            visible_rows: 20,
            local_home,
        };
        let actions = fb.init_dirs();
        (fb, actions)
    }

    /// The listings that renew both panels (see `init_actions`).
    pub fn init_dirs(&self) -> (r: Vec<BrowserAction>)
        ensures
            r@ == init_actions(self.connected),
    {
        let mut r: Vec<BrowserAction> = Vec::new();
        if self.connected {
            r.push(BrowserAction::Refresh { side: Side::Local, then: AfterListing::Report });
            r.push(BrowserAction::Refresh { side: Side::Remote, then: AfterListing::CountActive { unless_connecting: true } });
        } else {
            r.push(BrowserAction::Refresh { side: Side::Local, then: AfterListing::CountActive { unless_connecting: true } });
        }
        assert(r@ =~= init_actions(self.connected));
        r
    }

    /// Takes what the connection attempt reported (only while connecting).
    /// Success opens the remote panel at the user's home directory and lists
    /// it, then shows the active panel's count unless that listing failed; a
    /// failure, time-out or lost attempt shows why and renews the panels;
    /// otherwise the connecting message grows a dot (up to three).
    pub fn connect_poll(&mut self, event: ConnectEvent) -> (r: Vec<BrowserAction>)
        requires
            old(self).well_formed(),
            old(self).connecting,
        ensures
            final(self).well_formed(),
            match event {
                ConnectEvent::Connected => {
                    &&& !final(self).connecting && final(self).connected
                    &&& final(self).remote.current_path@ == remote_home(old(self).machine.username@)
                    &&& *final(self) == (FileBrowserState { connecting: false, connected: true,
                        remote: PanelState { current_path: final(self).remote.current_path, ..old(self).remote },
                        ..*old(self) })
                    &&& r@ == seq![BrowserAction::Refresh { side: Side::Remote,
                        then: AfterListing::CountActive { unless_connecting: false } }]
                },
                ConnectEvent::Failed(e) => {
                    &&& final(self).status@ == "错误: "@ + e@
                    &&& *final(self) == (FileBrowserState { connecting: false, status: final(self).status, ..*old(self) })
                    &&& r@ == init_actions(old(self).connected)
                },
                ConnectEvent::Waiting { timed_out } => if timed_out {
                    &&& final(self).status@ == CONNECT_TIMEOUT@
                    &&& *final(self) == (FileBrowserState { connecting: false, status: final(self).status, ..*old(self) })
                    &&& r@ == init_actions(old(self).connected)
                } else {
                    let dots = ((old(self).connecting_dots + 1) % 4) as u8;
                    &&& final(self).status@ == connecting_text(dots as nat)
                    &&& *final(self) == (FileBrowserState { connecting_dots: dots, status: final(self).status, ..*old(self) })
                    &&& r@.len() == 0
                },
                ConnectEvent::Lost => {
                    &&& final(self).status@ == CONNECT_LOST@
                    &&& *final(self) == (FileBrowserState { connecting: false, status: final(self).status, ..*old(self) })
                    &&& r@ == init_actions(old(self).connected)
                },
            },
    {
        match event {
            ConnectEvent::Connected => {
                self.connecting = false;
                self.connected = true;
                self.remote.current_path = remote_home_of(&self.machine.username);
                let mut r: Vec<BrowserAction> = Vec::new();
                r.push(BrowserAction::Refresh { side: Side::Remote, then: AfterListing::CountActive { unless_connecting: false } });
                r
            },
            ConnectEvent::Failed(e) => {
                self.connecting = false;
                self.status = prefixed("错误: ", e.as_str());
                proof { reveal_strlit("错误: "); }
                self.init_dirs()
            },
            ConnectEvent::Waiting { timed_out } => {
                if timed_out {
                    self.connecting = false;
                    self.status = owned(CONNECT_TIMEOUT);
                    self.init_dirs()
                } else {
                    self.connecting_dots = (self.connecting_dots % 4 + 1) % 4;
                    let mut v: Vec<char> = Vec::new();
                    push_str(&mut v, CONNECTING);
                    crate::text::push_repeat(&mut v, '.', self.connecting_dots as usize);
                    self.status = string_of(&v);
                    Vec::new()
                }
            },
            ConnectEvent::Lost => {
                self.connecting = false;
                self.status = owned(CONNECT_LOST);
                self.init_dirs()
            },
        }
    }

    fn clear_transfer(&mut self)
        ensures
            *final(self) == (FileBrowserState {
                transferring: false,
                progress_file_name: final(self).progress_file_name,
                progress_current: 0,
                progress_total: 0,
                ..*old(self)
            }),
            final(self).progress_file_name@ == Seq::<char>::empty(),
    {
        self.transferring = false;
        self.progress_file_name = String::new();
        self.progress_current = 0;
        self.progress_total = 0;
    }

    /// Esc during a transfer: asks it to stop.
    pub fn cancel_transfer(&mut self) -> (r: Option<BrowserAction>)
        ensures
            cancel_transfer_effect(*old(self), *final(self), r),
    {
        self.status = owned(CANCELLING);
        if self.transferring { Some(BrowserAction::CancelTransfer) } else { None }
    }
}

fn progress_status(name: &String, current: u64, total: u64) -> (r: String)
    requires
        total > 0,
    ensures
        r@ == progress_text(name@, current, total),
{
    let pct: u128 = (current as u128) * 100 / (total as u128);
    let mut v: Vec<char> = Vec::new();
    push_str(&mut v, name.as_str());
    v.push(' ');
    crate::text::push_dec(&mut v, pct);
    v.push('%');
    proof {
        reveal_strlit(" ");
        reveal_strlit("%");
    }
    assert(v@ =~= progress_text(name@, current, total));
    string_of(&v)
}

impl FileBrowserState {
    /// Takes the running transfer's progress (`None` when it could not be
    /// read) and what it reported (only during a transfer).
    ///
    /// A finished transfer renews the receiving panel and starts the next
    /// queued one, or reports that all are done. A failed one shows the
    /// error and moves on to the next queued one. A cancelled one empties
    /// the queue and renews both panels. While running, the status shows
    /// the percentage done once the size is known.
    pub fn transfer_poll(&mut self, progress: Option<(String, u64, u64)>, event: TransferEvent)
        -> (r: Vec<BrowserAction>)
        requires
            old(self).well_formed(),
        ensures
            final(self).well_formed(),
            final(self).same_view_core(*old(self)),
            final(self).clipboard == old(self).clipboard,
            final(self).clipboard_side == old(self).clipboard_side,
            match progress {
                None => {
                    &&& r@.len() == 0
                    &&& !final(self).transferring
                    &&& final(self).status@ == TRANSFER_BROKEN@
                    &&& final(self).transfer_queue == old(self).transfer_queue
                },
                Some((name, current, total)) => match event {
                    TransferEvent::Running => {
                        &&& r@.len() == 0
                        &&& final(self).transferring == old(self).transferring
                        &&& final(self).progress_file_name@ == name@
                        &&& final(self).progress_current == current
                        &&& final(self).progress_total == total
                        &&& final(self).transfer_queue == old(self).transfer_queue
                        &&& final(self).status@ == if total > 0 { progress_text(name@, current, total) }
                            else { old(self).status@ }
                    },
                    TransferEvent::Done(side) => {
                        let q = old(self).transfer_queue@;
                        let rest = if q.len() > 0 { q.drop_first() } else { q };
                        let refresh_part: Seq<BrowserAction> = if side == Side::Remote && !old(self).connected {
                            Seq::empty()
                        } else {
                            seq![BrowserAction::Refresh { side, then: AfterListing::KeepStatus }]
                        };
                        &&& final(self).transfer_queue@ == rest
                        &&& if rest.len() == 0 {
                            &&& r@ == refresh_part
                            &&& !final(self).transferring
                            &&& final(self).status@ == TRANSFER_DONE@
                        } else {
                            let e = rest[0];
                            &&& r@.len() == refresh_part.len() + 1
                            &&& r@.take(refresh_part.len() as int) == refresh_part
                            &&& is_transfer(r@.last(), e.name@, e.source_path@,
                                path_join(panel_on(*old(self), old(self).active_side).current_path@, e.name@),
                                e.is_dir, e.source_side)
                            &&& final(self).transferring
                            &&& final(self).status@ == transfer_start_text(e.name@, e.is_dir, e.source_side)
                        }
                    },
                    TransferEvent::Failed(msg) => {
                        let q = old(self).transfer_queue@;
                        let rest = if q.len() > 0 { q.drop_first() } else { q };
                        &&& final(self).transfer_queue@ == rest
                        &&& if rest.len() == 0 {
                            &&& r@.len() == 0
                            &&& !final(self).transferring
                            &&& final(self).status@ == "错误: "@ + msg@
                        } else {
                            let e = rest[0];
                            &&& r@.len() == 1
                            &&& is_transfer(r@[0], e.name@, e.source_path@,
                                path_join(panel_on(*old(self), old(self).active_side).current_path@, e.name@),
                                e.is_dir, e.source_side)
                            &&& final(self).transferring
                            &&& final(self).status@ == transfer_start_text(e.name@, e.is_dir, e.source_side)
                        }
                    },
                    TransferEvent::Aborted => {
                        &&& r@ == init_actions(old(self).connected)
                        &&& !final(self).transferring
                        &&& final(self).transfer_queue@.len() == 0
                        &&& final(self).status@ == TRANSFER_CANCELLED@
                    },
                    TransferEvent::Lost => {
                        &&& r@.len() == 0
                        &&& !final(self).transferring
                        &&& final(self).transfer_queue == old(self).transfer_queue
                        &&& final(self).status@ == TRANSFER_LOST@
                    },
                },
            },
    {
        let (name, current, total) = match progress {
            Some(p) => p,
            None => {
                self.clear_transfer();
                self.status = owned(TRANSFER_BROKEN);
                return Vec::new();
            },
        };
        self.progress_file_name = name;
        self.progress_current = current;
        self.progress_total = total;
        match event {
            TransferEvent::Running => {
                if self.progress_total > 0 {
                    self.status = progress_status(&self.progress_file_name, self.progress_current, self.progress_total);
                }
                Vec::new()
            },
            TransferEvent::Done(side) => {
                self.clear_transfer();
                let mut r: Vec<BrowserAction> = Vec::new();
                match self.refresh(side, AfterListing::KeepStatus) {
                    Some(a) => r.push(a),
                    None => {},
                }
                let ghost before = r@;
                if self.transfer_queue.len() > 0 {
                    self.transfer_queue.remove(0);
                }
                if self.transfer_queue.len() == 0 {
                    self.status = owned(TRANSFER_DONE);
                } else {
                    match self.process_next_transfer() {
                        Some(a) => r.push(a),
                        None => {},
                    }
                    assert(r@.take(before.len() as int) =~= before);
                }
                r
            },
            TransferEvent::Failed(msg) => {
                self.clear_transfer();
                self.status = prefixed("错误: ", msg.as_str());
                proof { reveal_strlit("错误: "); }
                let mut r: Vec<BrowserAction> = Vec::new();
                if self.transfer_queue.len() > 0 {
                    self.transfer_queue.remove(0);
                    if self.transfer_queue.len() > 0 {
                        match self.process_next_transfer() {
                            Some(a) => r.push(a),
                            None => {},
                        }
                    }
                }
                r
            },
            TransferEvent::Aborted => {
                self.clear_transfer();
                self.transfer_queue = Vec::new();
                self.status = owned(TRANSFER_CANCELLED);
                self.init_dirs()
            },
            TransferEvent::Lost => {
                self.clear_transfer();
                self.status = owned(TRANSFER_LOST);
                Vec::new()
            },
        }
    }
}

/// A key as the file browser sees it.
#[derive(Debug, Clone, Copy, PartialEq, Eq, Structural)]
pub enum BrowserKey {
    Up,
    Down,
    PageUp,
    PageDown,
    Left,
    Right,
    Enter,
    Esc,
    Tab,
    Backspace,
    Char(char),
    Other,
}

/// What a key asks the file browser to do.
#[derive(Debug, Clone, Copy, PartialEq, Eq, Structural)]
pub enum Command {
    RenameOk,
    RenameCancel,
    RenameBackspace,
    RenameType(char),
    DeleteYes,
    DeleteNo,
    TransferYes,
    TransferNo,
    SwitchYes,
    SwitchNo,
    MarksNext,
    MarksRemove,
    MarksClose,
    MarksPaste,
    StopTransfer,
    Up,
    Down,
    First,
    Last,
    Open,
    Left,
    Back,
    OtherSide,
    Root,
    Home,
    AskTransfer,
    AskDelete,
    Rename,
    Tree,
    Mark,
    ShowMarks,
    Paste,
    Nothing,
}

/// The key is `y` or `Y`.
pub open spec fn is_yes(key: BrowserKey) -> bool {
    key == BrowserKey::Char('y') || key == BrowserKey::Char('Y')
}

/// The key is `n`, `N` or Esc.
pub open spec fn is_no(key: BrowserKey) -> bool {
    key == BrowserKey::Char('n') || key == BrowserKey::Char('N') || key == BrowserKey::Esc
}

/// What `key` asks for in the browser's present mode: typing a new name,
/// answering a delete, transfer or replace question, the open selection
/// window (for its own keys), a running transfer (only Esc), or browsing.
pub open spec fn command_for(fb: FileBrowserState, key: BrowserKey) -> Command {
    if fb.rename_input is Some {
        match key {
            BrowserKey::Enter => Command::RenameOk,
            BrowserKey::Esc => Command::RenameCancel,
            BrowserKey::Backspace => Command::RenameBackspace,
            BrowserKey::Char(c) => Command::RenameType(c),
            _ => Command::Nothing,
        }
    } else if fb.confirm_delete is Some {
        if is_yes(key) { Command::DeleteYes } else if is_no(key) { Command::DeleteNo } else { Command::Nothing }
    } else if fb.transfer_confirm is Some {
        if is_yes(key) { Command::TransferYes } else if is_no(key) { Command::TransferNo } else { Command::Nothing }
    } else if fb.switch_confirm is Some {
        if is_yes(key) { Command::SwitchYes } else if is_no(key) { Command::SwitchNo } else { Command::Nothing }
    } else if fb.clipboard_panel_open && (key == BrowserKey::Char('n') || key == BrowserKey::Char('k')
        || key == BrowserKey::Char('v') || key == BrowserKey::Esc || key == BrowserKey::Char('p')
        || key == BrowserKey::Char('y')) {
        match key {
            BrowserKey::Char('n') => Command::MarksNext,
            BrowserKey::Char('k') => Command::MarksRemove,
            BrowserKey::Char('p') => Command::MarksPaste,
            BrowserKey::Char('y') => Command::Nothing,
            _ => Command::MarksClose,
        }
    } else if fb.transferring {
        if key == BrowserKey::Esc { Command::StopTransfer } else { Command::Nothing }
    } else {
        match key {
            BrowserKey::Up => Command::Up,
            BrowserKey::Down => Command::Down,
            BrowserKey::PageUp => Command::First,
            BrowserKey::PageDown => Command::Last,
            BrowserKey::Right | BrowserKey::Enter => Command::Open,
            BrowserKey::Left => Command::Left,
            BrowserKey::Esc => Command::Back,
            BrowserKey::Tab => Command::OtherSide,
            BrowserKey::Char('/') => Command::Root,
            BrowserKey::Char('~') => Command::Home,
            BrowserKey::Char('x') => if fb.clipboard@.len() == 0 { Command::AskTransfer } else { Command::Nothing },
            BrowserKey::Char('d') => Command::AskDelete,
            BrowserKey::Char('r') => Command::Rename,
            BrowserKey::Char('t') => Command::Tree,
            BrowserKey::Char('y') => Command::Mark,
            BrowserKey::Char('v') => Command::ShowMarks,
            BrowserKey::Char('p') => Command::Paste,
            _ => Command::Nothing,
        }
    }
}

/// The first action of `r`, if any.
pub open spec fn first_action(r: Seq<BrowserAction>) -> Option<BrowserAction> {
    if r.len() == 0 { None } else { Some(r[0]) }
}

/// What carrying out `cmd` makes of `before`, with the work `r` it asks
/// for.
pub open spec fn ran(before: FileBrowserState, after: FileBrowserState, r: Seq<BrowserAction>, cmd: Command) -> bool {
    let one = r.len() <= 1;
    let none = r.len() == 0;
    let o = first_action(r);
    match cmd {
        Command::RenameOk => one && confirm_rename_effect(before, after, o),
        Command::RenameCancel => none && after.status@ == RENAME_CANCELLED@
            && after == (FileBrowserState { rename_input: None, status: after.status, ..before }),
        Command::RenameBackspace => none && after == (FileBrowserState { rename_input: after.rename_input, ..before })
            && match before.rename_input {
                Some(t) => after.rename_input matches Some(u) && u@ == (if t@.len() == 0 { t@ } else { t@.drop_last() }),
                None => after.rename_input is None,
            },
        Command::RenameType(c) => none && after == (FileBrowserState { rename_input: after.rename_input, ..before })
            && match before.rename_input {
                Some(t) => after.rename_input matches Some(u) && u@ == t@.push(c),
                None => after.rename_input is None,
            },
        Command::DeleteYes => one && confirm_delete_action_effect(before, after, o),
        Command::DeleteNo => none && after.status@ == "删除已取消"@
            && after == (FileBrowserState { confirm_delete: None, status: after.status, ..before }),
        Command::TransferYes => one && confirm_transfer_effect(before, after, o),
        Command::TransferNo => none && after.status@ == TRANSFER_CANCELLED@
            && after == (FileBrowserState { transfer_confirm: None, status: after.status, ..before }),
        Command::SwitchYes => none && confirm_switch_effect(before, after),
        Command::SwitchNo => none && after.status@ == "选择未变"@
            && after == (FileBrowserState { switch_confirm: None, status: after.status, ..before }),
        Command::MarksNext => none && clipboard_panel_next_effect(before, after),
        Command::MarksRemove => none && clipboard_panel_remove_effect(before, after),
        Command::MarksClose => none && close_clipboard_panel_effect(before, after),
        Command::MarksPaste => one && paste_from_clipboard_effect(FileBrowserState { clipboard_panel_open: false, ..before },
            after, o),
        Command::StopTransfer => one && cancel_transfer_effect(before, after, o),
        Command::Up => none && move_cursor_effect(before, after, -1isize),
        Command::Down => none && move_cursor_effect(before, after, 1isize),
        Command::First => none && cursor_first_effect(before, after),
        Command::Last => none && cursor_last_effect(before, after),
        Command::Open => one && enter_dir_effect(before, after, o),
        Command::Left => one && collapse_or_navigate_tree_effect(before, after, o),
        Command::Back => one && parent_dir_effect(before, after, o),
        Command::OtherSide => none && toggle_side_effect(before, after),
        Command::Root => one && goto_root_effect(before, after, o),
        Command::Home => one && goto_home_effect(before, after, o),
        Command::AskTransfer => none && start_transfer_confirm_effect(before, after),
        Command::AskDelete => none && start_delete_effect(before, after),
        Command::Rename => none && start_rename_effect(before, after),
        Command::Tree => one && toggle_tree_effect(before, after, o),
        Command::Mark => none && yank_toggle_effect(before, after),
        Command::ShowMarks => none && open_clipboard_panel_effect(before, after),
        Command::Paste => one && paste_from_clipboard_effect(before, after, o),
        Command::Nothing => none && after == before,
    }
}

fn opt_vec(o: Option<BrowserAction>) -> (r: Vec<BrowserAction>)
    ensures
        r@.len() <= 1,
        first_action(r@) == o,
{
    let mut r: Vec<BrowserAction> = Vec::new();
    match o {
        Some(a) => r.push(a),
        None => {},
    }
    r
}

impl FileBrowserState {
    /// What `key` asks for in the present mode (see `command_for`).
    pub fn key_command(&self, key: BrowserKey) -> (r: Command)
        ensures
            r == command_for(*self, key),
    {
        if self.rename_input.is_some() {
            return match key {
                BrowserKey::Enter => Command::RenameOk,
                BrowserKey::Esc => Command::RenameCancel,
                BrowserKey::Backspace => Command::RenameBackspace,
                BrowserKey::Char(c) => Command::RenameType(c),
                _ => Command::Nothing,
            };
        }
        let yes = key == BrowserKey::Char('y') || key == BrowserKey::Char('Y');
        let no = key == BrowserKey::Char('n') || key == BrowserKey::Char('N') || key == BrowserKey::Esc;
        if self.confirm_delete.is_some() {
            return if yes { Command::DeleteYes } else if no { Command::DeleteNo } else { Command::Nothing };
        }
        if self.transfer_confirm.is_some() {
            return if yes { Command::TransferYes } else if no { Command::TransferNo } else { Command::Nothing };
        }
        if self.switch_confirm.is_some() {
            return if yes { Command::SwitchYes } else if no { Command::SwitchNo } else { Command::Nothing };
        }
        if self.clipboard_panel_open {
            match key {
                BrowserKey::Char('n') => return Command::MarksNext,
                BrowserKey::Char('k') => return Command::MarksRemove,
                BrowserKey::Char('v') | BrowserKey::Esc => return Command::MarksClose,
                BrowserKey::Char('p') => return Command::MarksPaste,
                BrowserKey::Char('y') => return Command::Nothing,
                _ => {},
            }
        }
        if self.transferring {
            return if key == BrowserKey::Esc { Command::StopTransfer } else { Command::Nothing };
        }
        match key {
            BrowserKey::Up => Command::Up,
            BrowserKey::Down => Command::Down,
            BrowserKey::PageUp => Command::First,
            BrowserKey::PageDown => Command::Last,
            BrowserKey::Right | BrowserKey::Enter => Command::Open,
            BrowserKey::Left => Command::Left,
            BrowserKey::Esc => Command::Back,
            BrowserKey::Tab => Command::OtherSide,
            BrowserKey::Char('/') => Command::Root,
            BrowserKey::Char('~') => Command::Home,
            BrowserKey::Char('x') => if self.clipboard.len() == 0 { Command::AskTransfer } else { Command::Nothing },
            BrowserKey::Char('d') => Command::AskDelete,
            BrowserKey::Char('r') => Command::Rename,
            BrowserKey::Char('t') => Command::Tree,
            BrowserKey::Char('y') => Command::Mark,
            BrowserKey::Char('v') => Command::ShowMarks,
            BrowserKey::Char('p') => Command::Paste,
            _ => Command::Nothing,
        }
    }

    /// Carries out `cmd` (see `ran`).
    pub fn run(&mut self, cmd: Command) -> (r: Vec<BrowserAction>)
        requires
            old(self).well_formed(),
            cmd == Command::Mark ==> !old(self).clipboard_panel_open,
        ensures
            final(self).well_formed(),
            ran(*old(self), *final(self), r@, cmd),
    {
        match cmd {
            Command::RenameOk => opt_vec(self.confirm_rename()),
            Command::RenameCancel => {
                self.rename_input = None;
                self.status = owned(RENAME_CANCELLED);
                Vec::new()
            },
            Command::RenameBackspace => {
                match &self.rename_input {
                    Some(t) => {
                        let u = crate::screen::pop_text(t);
                        self.rename_input = Some(u);
                    },
                    None => {},
                }
                Vec::new()
            },
            Command::RenameType(c) => {
                match &self.rename_input {
                    Some(t) => {
                        let mut u = t.clone();
                        crate::text::push_char(&mut u, c);
                        self.rename_input = Some(u);
                    },
                    None => {},
                }
                Vec::new()
            },
            Command::DeleteYes => opt_vec(self.confirm_delete_action()),
            Command::DeleteNo => {
                self.confirm_delete = None;
                self.status = owned("删除已取消");
                proof { reveal_strlit("删除已取消"); }
                Vec::new()
            },
            Command::TransferYes => opt_vec(self.confirm_transfer()),
            Command::TransferNo => {
                self.transfer_confirm = None;
                self.status = owned(TRANSFER_CANCELLED);
                Vec::new()
            },
            Command::SwitchYes => {
                self.confirm_switch();
                Vec::new()
            },
            Command::SwitchNo => {
                self.switch_confirm = None;
                self.status = owned("选择未变");
                proof { reveal_strlit("选择未变"); }
                Vec::new()
            },
            Command::MarksNext => {
                self.clipboard_panel_next();
                Vec::new()
            },
            Command::MarksRemove => {
                self.clipboard_panel_remove();
                Vec::new()
            },
            Command::MarksClose => {
                self.close_clipboard_panel();
                Vec::new()
            },
            Command::MarksPaste => {
                self.close_clipboard_panel();
                opt_vec(self.paste_from_clipboard())
            },
            Command::StopTransfer => opt_vec(self.cancel_transfer()),
            Command::Up => {
                self.move_cursor(-1);
                Vec::new()
            },
            Command::Down => {
                self.move_cursor(1);
                Vec::new()
            },
            Command::First => {
                self.cursor_first();
                Vec::new()
            },
            Command::Last => {
                self.cursor_last();
                Vec::new()
            },
            Command::Open => opt_vec(self.enter_dir()),
            Command::Left => opt_vec(self.collapse_or_navigate_tree()),
            Command::Back => opt_vec(self.parent_dir()),
            Command::OtherSide => {
                self.toggle_side();
                Vec::new()
            },
            Command::Root => opt_vec(self.goto_root()),
            Command::Home => opt_vec(self.goto_home()),
            Command::AskTransfer => {
                self.start_transfer_confirm();
                Vec::new()
            },
            Command::AskDelete => {
                self.start_delete();
                Vec::new()
            },
            Command::Rename => {
                self.start_rename();
                Vec::new()
            },
            Command::Tree => opt_vec(self.toggle_tree()),
            Command::Mark => {
                self.yank_toggle();
                Vec::new()
            },
            Command::ShowMarks => {
                self.open_clipboard_panel();
                Vec::new()
            },
            Command::Paste => opt_vec(self.paste_from_clipboard()),
            Command::Nothing => Vec::new(),
        }
    }

    /// Handles one key: does what it asks in the present mode (see
    /// `command_for` and `ran`) and returns the work it asks for.
    pub fn handle_key(&mut self, key: BrowserKey) -> (r: Vec<BrowserAction>)
        requires
            old(self).well_formed(),
        ensures
            final(self).well_formed(),
            ran(*old(self), *final(self), r@, command_for(*old(self), key)),
    {
        let cmd = self.key_command(key);
        self.run(cmd)
    }
}

/// Key hints while browsing, between the two fixed ends: `p` to paste is
/// offered with no tree open, `x` to transfer only while nothing is marked.
pub open spec fn browse_hints(tree_open: bool, nothing_marked: bool) -> Seq<(Seq<char>, Seq<char>)> {
    let head = seq![("Tab"@, ":panel  "@), ("↑↓"@, ":move  "@), ("→"@, ":enter  "@), ("←"@, ":back  "@),
        ("y"@, ":copy  "@), ("v"@, ":view  "@)];
    let paste: Seq<(Seq<char>, Seq<char>)> = if tree_open { Seq::empty() } else { seq![("p"@, ":paste  "@)] };
    let transfer: Seq<(Seq<char>, Seq<char>)> = if nothing_marked { seq![("x"@, ":transfer  "@)] } else { Seq::empty() };
    head + paste + transfer + seq![("d"@, ":del  "@), ("r"@, ":rename  "@), ("t"@, ":tree  "@), ("q"@, ":quit"@)]
}

/// The key hints at the right of the status bar, as (key, label) pairs.
pub open spec fn hints_for(fb: FileBrowserState) -> Seq<(Seq<char>, Seq<char>)> {
    if fb.confirm_delete is Some || fb.transfer_confirm is Some || fb.switch_confirm is Some {
        seq![("[Y]"@, "es  "@), ("[N]"@, "o"@)]
    } else if fb.rename_input is Some {
        seq![("Enter"@, ":ok  "@), ("Esc"@, ":cancel"@)]
    } else if fb.transferring {
        seq![(""@, "(transferring...)"@)]
    } else if fb.clipboard_panel_open {
        seq![("n"@, ":next  "@), ("k"@, ":remove  "@), ("p"@, ":paste  "@), ("v"@, ":close"@)]
    } else {
        browse_hints(panel_on(fb, fb.active_side).expanded_dirs@.len() > 0, fb.clipboard@.len() == 0)
    }
}

proof fn lemma_pct_bound(cur: nat, tot: nat)
    requires
        cur <= tot,
        tot > 0,
    ensures
        (cur * 100) / tot <= 100,
{
    assert(cur * 100 <= tot * 100) by (nonlinear_arith)
        requires
            cur <= tot,
    ;
    vstd::arithmetic::div_mod::lemma_div_is_ordered((cur * 100) as int, (tot * 100) as int, tot as int);
    vstd::arithmetic::div_mod::lemma_div_multiples_vanish(100, tot as int);
}

/// How the status message is marked.
#[derive(Debug, Clone, Copy, PartialEq, Eq, Structural)]
pub enum StatusTone {
    /// A transfer is running (`▶`).
    Busy,
    /// An error (`✗`).
    Failure,
    /// A finished operation (`✓`).
    Success,
    /// Anything else.
    Plain,
}

/// The tone of the status: busy during a transfer, failure for an error or
/// a failed delete, upload or download, success after a transfer, delete
/// or rename.
pub open spec fn tone_of(transferring: bool, status: Seq<char>) -> StatusTone {
    if transferring {
        StatusTone::Busy
    } else if has_prefix(status, "错误"@) || has_prefix(status, "删除失败"@) || has_prefix(status, "上传失败"@)
        || has_prefix(status, "下载失败"@) {
        StatusTone::Failure
    } else if has_prefix(status, "传输完成"@) || has_prefix(status, "已删除"@) || has_prefix(status, "已重命名"@) {
        StatusTone::Success
    } else {
        StatusTone::Plain
    }
}

fn push_hint(v: &mut Vec<(&'static str, &'static str)>, k: &'static str, d: &'static str)
    ensures
        final(v)@ == old(v)@.push((k, d)),
{
    v.push((k, d));
}

impl FileBrowserState {
    /// The key hints at the right of the status bar (see `hints_for`).
    pub fn help_hints(&self) -> (r: Vec<(&'static str, &'static str)>)
        ensures
            crate::screen::pairs_are(r@, hints_for(*self)),
    {
        proof {
            reveal_strlit("[Y]"); reveal_strlit("es  "); reveal_strlit("[N]"); reveal_strlit("o");
            reveal_strlit("Enter"); reveal_strlit(":ok  "); reveal_strlit("Esc"); reveal_strlit(":cancel");
            reveal_strlit(""); reveal_strlit("(transferring...)"); reveal_strlit("n"); reveal_strlit(":next  ");
            reveal_strlit("k"); reveal_strlit(":remove  "); reveal_strlit("p"); reveal_strlit(":paste  ");
            reveal_strlit("v"); reveal_strlit(":close"); reveal_strlit("Tab"); reveal_strlit(":panel  ");
            reveal_strlit("↑↓"); reveal_strlit(":move  "); reveal_strlit("→"); reveal_strlit(":enter  ");
            reveal_strlit("←"); reveal_strlit(":back  "); reveal_strlit("y"); reveal_strlit(":copy  ");
            reveal_strlit(":view  "); reveal_strlit("x"); reveal_strlit(":transfer  "); reveal_strlit("d");
            reveal_strlit(":del  "); reveal_strlit("r"); reveal_strlit(":rename  "); reveal_strlit("t");
            reveal_strlit(":tree  "); reveal_strlit("q"); reveal_strlit(":quit");
        }
        if self.confirm_delete.is_some() || self.transfer_confirm.is_some() || self.switch_confirm.is_some() {
            return vec![("[Y]", "es  "), ("[N]", "o")];
        }
        if self.rename_input.is_some() {
            return vec![("Enter", ":ok  "), ("Esc", ":cancel")];
        }
        if self.transferring {
            return vec![("", "(transferring...)")];
        }
        if self.clipboard_panel_open {
            return vec![("n", ":next  "), ("k", ":remove  "), ("p", ":paste  "), ("v", ":close")];
        }
        let tree_open = self.panel(self.active_side).expanded_dirs.len() > 0;
        let mut v: Vec<(&'static str, &'static str)> = vec![("Tab", ":panel  "), ("↑↓", ":move  "),
            ("→", ":enter  "), ("←", ":back  "), ("y", ":copy  "), ("v", ":view  ")];
        if !tree_open {
            push_hint(&mut v, "p", ":paste  ");
        }
        if self.clipboard.len() == 0 {
            push_hint(&mut v, "x", ":transfer  ");
        }
        push_hint(&mut v, "d", ":del  ");
        push_hint(&mut v, "r", ":rename  ");
        push_hint(&mut v, "t", ":tree  ");
        push_hint(&mut v, "q", ":quit");
        assert(v@.map_values(|h: (&'static str, &'static str)| (h.0@, h.1@)) =~= hints_for(*self));
        v
    }

    /// How the status message is marked (see `tone_of`).
    pub fn status_tone(&self) -> (r: StatusTone)
        ensures
            r == tone_of(self.transferring, self.status@),
    {
        proof {
            reveal_strlit("错误"); reveal_strlit("删除失败"); reveal_strlit("上传失败"); reveal_strlit("下载失败");
            reveal_strlit("传输完成"); reveal_strlit("已删除"); reveal_strlit("已重命名");
        }
        if self.transferring {
            StatusTone::Busy
        } else if starts_with_text(self.status.as_str(), "错误") || starts_with_text(self.status.as_str(), "删除失败")
            || starts_with_text(self.status.as_str(), "上传失败") || starts_with_text(self.status.as_str(), "下载失败") {
            StatusTone::Failure
        } else if starts_with_text(self.status.as_str(), "传输完成") || starts_with_text(self.status.as_str(), "已删除")
            || starts_with_text(self.status.as_str(), "已重命名") {
            StatusTone::Success
        } else {
            StatusTone::Plain
        }
    }

    /// The status message as shown: followed by the name being typed while
    /// renaming.
    pub fn status_text(&self) -> (r: String)
        ensures
            r@ == match self.rename_input {
                Some(t) => self.status@ + seq![' '] + t@,
                None => self.status@,
            },
    {
        match &self.rename_input {
            Some(t) => {
                let mut v = str_chars(self.status.as_str());
                v.push(' ');
                push_str(&mut v, t.as_str());
                string_of(&v)
            },
            None => self.status.clone(),
        }
    }

    /// The progress bar during a transfer of known size: the percentage
    /// done and the filled and empty cells of a bar twenty cells wide.
    pub fn progress_bar(&self) -> (r: Option<(u64, usize, usize)>)
        requires
            self.progress_current <= self.progress_total,
        ensures
            (self.transferring && self.progress_total > 0) <==> r is Some,
            r matches Some((pct, filled, empty)) ==> {
                &&& pct as nat == (self.progress_current as nat * 100) / self.progress_total as nat
                &&& filled as nat == (pct as nat * 20) / 100
                &&& empty as nat == 20 - filled as nat
            },
    {
        if !self.transferring || self.progress_total == 0 {
            return None;
        }
        let cur = self.progress_current as u128;
        let tot = self.progress_total as u128;
        let pct: u128 = cur * 100 / tot;
        proof { lemma_pct_bound(cur as nat, tot as nat); }
        let filled: usize = (pct as usize) * 20 / 100;
        assert(filled <= 20);
        Some((pct as u64, filled, 20 - filled))
    }
}

/// Columns the name takes in a panel `width` columns wide: what the
/// permission, size and date columns leave, at least six.
pub open spec fn name_columns(width: nat) -> nat {
    let rest: nat = if width >= 38 { (width - 38) as nat } else { 0 };
    if rest > 6 { rest } else { 6 }
}

/// Columns the name takes in a panel `width` columns wide.
pub fn name_area(width: u16) -> (r: usize)
    ensures
        r as nat == name_columns(width as nat),
{
    let w = width as usize;
    let rest = if w >= 38 { w - 38 } else { 0 };
    if rest > 6 { rest } else { 6 }
}

/// The first column of a panel row: the cursor marker, two spaces per
/// level of depth, the icon (a check mark for marked entries) and the last
/// part of the name.
pub open spec fn row_label(selected: bool, active: bool, depth: nat, marked: bool, is_dir: bool, name: Seq<char>)
    -> Seq<char> {
    let marker = if selected && active { "▸"@ } else { " "@ };
    let icon = if marked { "[✓]"@ } else if is_dir { "📁"@ } else { "📄"@ };
    marker + crate::text::repeat_char(' ', 2 * depth) + icon + crate::session::last_segment(name)
}

/// One row of a panel as drawn.
pub struct PanelRow {
    pub name: String,
    pub perm: String,
    pub size: String,
    pub modified: String,
    /// The row is under the cursor.
    pub selected: bool,
    /// The row counts as marked for copying.
    pub marked: bool,
}

/// Rows of the selection window scrolled past so that the cursor shows
/// among `visible` rows.
pub open spec fn marks_scroll_spec(cursor: nat, visible: nat) -> nat {
    let keep: nat = if visible >= 1 { (visible - 1) as nat } else { 0 };
    if cursor >= keep { (cursor - keep) as nat } else { 0 }
}

impl FileBrowserState {
    /// Records how many rows a panel shows for a panel area `height` lines
    /// high: four lines go to borders and headings, at least one row stays.
    pub fn set_visible_rows(&mut self, height: u16)
        ensures
            *final(self) == (FileBrowserState {
                visible_rows: if height as nat >= 5 { (height - 4) as usize } else { 1 },
                ..*old(self)
            }),
    {
        let h = height as usize;
        self.visible_rows = if h >= 5 { h - 4 } else { 1 };
    }

    /// The panel on `side` is the one taking keys: it is active and no
    /// transfer is running.
    pub open spec fn panel_active(&self, side: Side) -> bool {
        self.active_side == side && !self.transferring
    }

    /// Tree row `idx` of the panel on `side` as drawn with `name_width`
    /// columns for the name: the label cut and padded to that width, the
    /// permissions in ten columns, the size (blank for a directory) in
    /// eight and the date in sixteen, all right-aligned.
    pub fn panel_row(&self, side: Side, idx: usize, name_width: usize) -> (r: PanelRow)
        requires
            idx < panel_on(*self, side).tree_entries@.len(),
        ensures
            ({
                let p = panel_on(*self, side);
                let te = p.tree_entries@[idx as int];
                let e = te.entry;
                &&& r.selected == (idx == p.cursor)
                &&& r.marked == self.effectively_selected(e.name@, side, idx as nat)
                &&& r.name@ == crate::display::padded_right(crate::display::truncated(row_label(r.selected,
                    self.panel_active(side), te.depth as nat, r.marked, e.is_dir, e.name@), name_width as nat),
                    name_width as nat)
                &&& r.perm@ == crate::display::padded_left(e.perm@, 10)
                &&& r.size@ == crate::display::padded_left(
                    if e.is_dir { Seq::empty() } else { crate::display::size_text(e.size as nat) }, 8)
                &&& r.modified@ == crate::display::padded_left(e.modified@, 16)
            }),
    {
        let p = self.panel(side);
        let te = &p.tree_entries[idx];
        let e = &te.entry;
        let selected = idx == p.cursor;
        let marked = self.is_effectively_selected(&e.name, side, idx);
        let active = self.active_side == side && !self.transferring;
        let mut label: Vec<char> = Vec::new();
        if selected && active {
            label.push('▸');
        } else {
            label.push(' ');
        }
        crate::text::push_repeat(&mut label, ' ', te.depth);
        crate::text::push_repeat(&mut label, ' ', te.depth);
        if marked {
            push_str(&mut label, "[✓]");
        } else if e.is_dir {
            label.push('📁');
        } else {
            label.push('📄');
        }
        let short = crate::session::last_path_segment(e.name.as_str());
        push_str(&mut label, short.as_str());
        proof {
            reveal_strlit("▸"); reveal_strlit(" "); reveal_strlit("[✓]"); reveal_strlit("📁"); reveal_strlit("📄");
        }
        assert(label@ =~= row_label(selected, active, te.depth as nat, marked, e.is_dir, e.name@));
        let label = string_of(&label);
        let cut = crate::display::truncate_to_width(label.as_str(), name_width);
        let name = crate::display::pad_right(cut.as_str(), name_width);
        let perm = crate::display::pad_left(e.perm.as_str(), 10);
        let size = crate::browser::format_entry_size(e.size, e.is_dir);
        let modified = crate::display::pad_left(e.modified.as_str(), 16);
        PanelRow { name, perm, size, modified, selected, marked }
    }

    /// Width and height of the selection window in an area `width` by
    /// `height`: 42 columns wide but two narrower than the area, four lines
    /// taller than the number of marks but no taller than the area, and at
    /// least five lines.
    pub fn clipboard_panel_size(&self, width: u16, height: u16) -> (r: (u16, u16))
        ensures
            r.0 as nat == (if width < 2 { 0 } else if width - 2 < 42 { (width - 2) as nat } else { 42 }),
            r.1 as nat == ({
                let n: nat = if self.clipboard@.len() < 65531 { self.clipboard@.len() } else { 65531 };
                let h: nat = if n + 4 < height { n + 4 } else { height as nat };
                if h < 5 { 5 } else { h }
            }),
    {
        let room: u16 = if width < 2 { 0 } else { width - 2 };
        let w: u16 = if room < 42 { room } else { 42 };
        let count = self.clipboard.len();
        let n: u16 = if count < 65531 { count as u16 } else { 65531 };
        let tall: u16 = n + 4;
        let h: u16 = if tall < height { tall } else { height };
        (w, if h < 5 { 5 } else { h })
    }

    /// Rows of the selection window scrolled past for `visible` rows (see
    /// `marks_scroll_spec`).
    pub fn marks_scroll(&self, visible: usize) -> (r: usize)
        ensures
            r as nat == marks_scroll_spec(self.clipboard_panel_cursor as nat, visible as nat),
    {
        let keep = if visible >= 1 { visible - 1 } else { 0 };
        if self.clipboard_panel_cursor >= keep { self.clipboard_panel_cursor - keep } else { 0 }
    }
}

proof fn lemma_index_of_path_push(clip: Seq<ClipboardEntry>, x: ClipboardEntry, path: Seq<char>)
    requires
        index_of_path(clip, path) == -1,
        x.source_path@ == path,
    ensures
        index_of_path(clip.push(x), path) == clip.len(),
    decreases clip.len(),
{
    if clip.len() == 0 {
        assert(clip.push(x)[0] == x);
    } else {
        assert(clip.push(x)[0] == clip[0]);
        assert(clip.push(x).drop_first() =~= clip.drop_first().push(x));
        lemma_index_of_path_push(clip.drop_first(), x, path);
    }
}

/// Marking an entry for copying and marking it again leaves the marks and
/// their side as they were, when the entry was not marked (itself or
/// through a directory it lies in) and the marks came from its side or
/// there were none (the marks' side being set exactly while there are
/// marks).
pub proof fn law_mark_twice(a: FileBrowserState, b: FileBrowserState, c: FileBrowserState)
    requires
        yank_toggle_effect(a, b),
        yank_toggle_effect(b, c),
        entry_at(panel_on(a, a.active_side)) matches Some(e) && e.name@ != ".."@
            && !a.effectively_selected(e.name@, a.active_side, panel_on(a, a.active_side).cursor as nat),
        index_of_path(a.clipboard@, entry_path(panel_on(a, a.active_side))) == -1,
        a.clipboard_side is None || a.clipboard_side == Some(a.active_side),
        a.clipboard_side is None <==> a.clipboard@.len() == 0,
    ensures
        c.clipboard@ == a.clipboard@,
        c.clipboard_side == a.clipboard_side,
{
    let side = a.active_side;
    let p = panel_on(a, side);
    let path = entry_path(p);
    let clip = a.clipboard@;
    let x = b.clipboard@.last();
    assert(b.clipboard@ =~= clip.push(x));
    assert(panel_on(b, b.active_side) == p);
    lemma_index_of_path_push(clip, x, path);
    assert(b.clipboard@.remove(clip.len() as int) =~= clip);
}

/// Switching panels twice comes back to the panel one started on, with
/// both panels and everything else untouched, the status showing that
/// panel's entry count (its tree's rows while directories are expanded).
pub proof fn law_toggle_side_twice(a: FileBrowserState, b: FileBrowserState, c: FileBrowserState)
    requires
        toggle_side_effect(a, b),
        toggle_side_effect(b, c),
    ensures
        c.active_side == a.active_side,
        c.local == a.local,
        c.remote == a.remote,
        c.same_but_panels(a),
        ({
            let p = panel_on(a, a.active_side);
            c.status@ == count_text(if p.expanded_dirs@.len() == 0 { p.entries@.len() } else { p.tree_entries@.len() })
        }),
{
    assert(a.active_side.other_side().other_side() == a.active_side) by {
        match a.active_side {
            Side::Local => {},
            Side::Remote => {},
        }
    }
}

} // verus!
