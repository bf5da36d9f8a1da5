//! The two-panel file browser: sides, panels with a scrolling cursor, the
//! expanded-directory tree and entry formatting.

use vstd::prelude::*;
use crate::sftp::FileEntry;
use crate::text::{owned, push_str, repeat_char, str_chars, string_of};

verus! {

/// Which panel of the file browser.
#[derive(Clone, Copy, PartialEq, Eq, Structural, Debug)]
pub enum Side {
    Local,
    Remote,
}

impl Side {
    /// The opposite panel.
    pub fn other(self) -> (r: Side)
        ensures
            r != self,
    {
        match self {
            Side::Local => Side::Remote,
            Side::Remote => Side::Local,
        }
    }

    /// The panel's heading.
    pub fn label(self) -> (r: &'static str)
        ensures
            r@ == (match self { Side::Local => "LOCAL"@, Side::Remote => "REMOTE"@ }),
    {
        match self {
            Side::Local => "LOCAL",
            Side::Remote => "REMOTE",
        }
    }
}

/// A file entry placed in the expanded tree at `depth` (0 for the current
/// directory's own entries).
#[derive(Clone)]
pub struct TreeEntry {
    pub entry: FileEntry,
    pub depth: usize,
}

/// One panel's directory, listing, cursor and tree state.
pub struct PanelState {
    pub entries: Vec<FileEntry>,
    pub cursor: usize,
    pub scroll_offset: usize,
    pub current_path: String,
    pub prev_dir_name: Option<String>,
    pub tree_entries: Vec<TreeEntry>,
    pub expanded_dirs: Vec<String>,
}

/// Cursor after moving by `delta` over `len` rows, clamped to the rows.
pub open spec fn clamped_cursor(cursor: usize, delta: isize, len: nat) -> nat {
    let target: int = (cursor as isize) as int + delta as int;
    if target < 0 { 0 } else if target > len - 1 { (len - 1) as nat } else { target as nat }
}

impl PanelState {
    /// A panel showing `path`, with nothing listed yet.
    pub fn new(path: String) -> (r: PanelState)
        ensures
            r.entries@.len() == 0,
            r.cursor == 0,
            r.scroll_offset == 0,
            r.current_path == path,
            r.prev_dir_name is None,
            r.tree_entries@.len() == 0,
            r.expanded_dirs@.len() == 0,
    {
        PanelState {
            entries: Vec::new(),
            cursor: 0,
            scroll_offset: 0,
            current_path: path,
            prev_dir_name: None,
            tree_entries: Vec::new(),
            expanded_dirs: Vec::new(),
        }
    }

    /// Moves the cursor by `delta` rows within the tree, scrolling so that
    /// it stays among the `visible_rows` shown.
    pub fn move_cursor(&mut self, delta: isize, visible_rows: usize)
        requires
            old(self).tree_entries@.len() > 0 ==> isize::MIN <= (old(self).cursor as isize) as int + delta as int <= isize::MAX,
            old(self).tree_entries@.len() > 0
                && clamped_cursor(old(self).cursor, delta, old(self).tree_entries@.len()) >= old(self).scroll_offset
                ==> old(self).scroll_offset + visible_rows <= usize::MAX,
        ensures
            old(self).tree_entries@.len() == 0 ==> final(self).cursor == old(self).cursor
                && final(self).scroll_offset == old(self).scroll_offset,
            old(self).tree_entries@.len() > 0 ==> ({
                let c = clamped_cursor(old(self).cursor, delta, old(self).tree_entries@.len());
                &&& final(self).cursor == c
                &&& final(self).scroll_offset == if c < old(self).scroll_offset {
                    c
                } else if c >= old(self).scroll_offset + visible_rows {
                    (c + 1 - visible_rows) as nat
                } else {
                    old(self).scroll_offset as nat
                }
            }),
            final(self).tree_entries == old(self).tree_entries,
            final(self).entries == old(self).entries,
            final(self).current_path == old(self).current_path,
            final(self).prev_dir_name == old(self).prev_dir_name,
            final(self).expanded_dirs == old(self).expanded_dirs,
    {
        let len = self.tree_entries.len();
        if len == 0 {
            return;
        }
        let target: isize = self.cursor as isize + delta;
        let new: usize = if target < 0 {
            0
        } else if target as usize > len - 1 {
            len - 1
        } else {
            target as usize
        };
        self.cursor = new;
        if new < self.scroll_offset {
            self.scroll_offset = new;
        } else if new >= self.scroll_offset + visible_rows {
            self.scroll_offset = new + 1 - visible_rows;
        }
    }

    /// Moves the cursor to the first row and scrolls to the top.
    pub fn cursor_first(&mut self)
        ensures
            old(self).tree_entries@.len() > 0 ==> final(self).cursor == 0 && final(self).scroll_offset == 0,
            old(self).tree_entries@.len() == 0 ==> final(self).cursor == old(self).cursor
                && final(self).scroll_offset == old(self).scroll_offset,
            final(self).tree_entries == old(self).tree_entries,
            final(self).entries == old(self).entries,
            final(self).current_path == old(self).current_path,
            final(self).prev_dir_name == old(self).prev_dir_name,
            final(self).expanded_dirs == old(self).expanded_dirs,
    {
        if self.tree_entries.len() > 0 {
            self.cursor = 0;
            self.scroll_offset = 0;
        }
    }

    /// Moves the cursor to the last row, scrolling it into view.
    pub fn cursor_last(&mut self, visible_rows: usize)
        requires
            old(self).tree_entries@.len() > 0 ==> old(self).scroll_offset + visible_rows <= usize::MAX,
        ensures
            old(self).tree_entries@.len() > 0 ==> ({
                let last = (old(self).tree_entries@.len() - 1) as nat;
                &&& final(self).cursor == last
                &&& final(self).scroll_offset == if last >= old(self).scroll_offset + visible_rows {
                    if old(self).tree_entries@.len() > visible_rows { (old(self).tree_entries@.len() - visible_rows) as nat } else { 0 }
                } else {
                    old(self).scroll_offset as nat
                }
            }),
            old(self).tree_entries@.len() == 0 ==> final(self).cursor == old(self).cursor
                && final(self).scroll_offset == old(self).scroll_offset,
            final(self).tree_entries == old(self).tree_entries,
            final(self).entries == old(self).entries,
            final(self).current_path == old(self).current_path,
            final(self).prev_dir_name == old(self).prev_dir_name,
            final(self).expanded_dirs == old(self).expanded_dirs,
    {
        let len = self.tree_entries.len();
        if len > 0 {
            self.cursor = len - 1;
            if self.cursor >= self.scroll_offset + visible_rows {
                self.scroll_offset = if len > visible_rows { len - visible_rows } else { 0 };
            }
        }
    }
}

/// `base` joined with `name` the way `Path::join` does on Unix: an absolute
/// name replaces the base, otherwise a `/` separates them unless the base is
/// empty or already ends with one.
pub open spec fn path_join(base: Seq<char>, name: Seq<char>) -> Seq<char> {
    if name.len() > 0 && name[0] == '/' {
        name
    } else if base.len() == 0 || base.last() == '/' {
        base + name
    } else {
        base + seq!['/'] + name
    }
}

/// `base` joined with each of `parts` in turn.
pub open spec fn path_join_all(base: Seq<char>, parts: Seq<Seq<char>>) -> Seq<char>
    decreases parts.len(),
{
    if parts.len() == 0 {
        base
    } else {
        path_join(path_join_all(base, parts.drop_last()), parts.last())
    }
}

/// Joins `name` onto the path `base`.
pub fn join_path(base: &Vec<char>, name: &Vec<char>) -> (r: Vec<char>)
    ensures
        r@ == path_join(base@, name@),
{
    let mut out: Vec<char> = Vec::new();
    if name.len() > 0 && name[0] == '/' {
        let mut i: usize = 0;
        while i < name.len()
            invariant
                i <= name.len(),
                out@ == name@.take(i as int),
            decreases name.len() - i,
        {
            out.push(name[i]);
            i = i + 1;
            assert(out@ =~= name@.take(i as int));
        }
        assert(name@.take(name.len() as int) =~= name@);
        return out;
    }
    let mut i: usize = 0;
    while i < base.len()
        invariant
            i <= base.len(),
            out@ == base@.take(i as int),
        decreases base.len() - i,
    {
        out.push(base[i]);
        i = i + 1;
        assert(out@ =~= base@.take(i as int));
    }
    assert(base@.take(base.len() as int) =~= base@);
    if !(base.len() == 0 || base[base.len() - 1] == '/') {
        out.push('/');
    }
    let ghost mid = out@;
    let mut j: usize = 0;
    while j < name.len()
        invariant
            j <= name.len(),
            out@ == mid + name@.take(j as int),
        decreases name.len() - j,
    {
        out.push(name[j]);
        j = j + 1;
        assert(out@ =~= mid + name@.take(j as int));
    }
    assert(name@.take(name.len() as int) =~= name@);
    out
}

/// Names of the directories that lead to tree row `i` from the panel's own
/// directory, outermost first: walking up from row `i`, the nearest earlier
/// row one level shallower is the parent, until depth 0 is reached.
pub open spec fn tree_ancestors(rows: Seq<TreeEntry>, i: int, need: nat) -> Seq<Seq<char>>
    decreases i,
{
    if i <= 0 || need == 0 {
        Seq::empty()
    } else if rows[i - 1].depth + 1 == need {
        tree_ancestors(rows, i - 1, rows[i - 1].depth as nat).push(rows[i - 1].entry.name@)
    } else {
        tree_ancestors(rows, i - 1, need)
    }
}

/// Full path of tree row `i` of a panel showing `dir`.
pub open spec fn tree_row_path(dir: Seq<char>, rows: Seq<TreeEntry>, i: int) -> Seq<char> {
    path_join(path_join_all(dir, tree_ancestors(rows, i, rows[i].depth as nat)), rows[i].entry.name@)
}

impl PanelState {
    /// Full path of the entry on tree row `cursor`.
    pub fn tree_entry_path(&self, cursor: usize) -> (r: String)
        requires
            cursor < self.tree_entries@.len(),
        ensures
            r@ == tree_row_path(self.current_path@, self.tree_entries@, cursor as int),
    {
        let rows = &self.tree_entries;
        let te = &rows[cursor];
        let ghost want = tree_ancestors(rows@, cursor as int, te.depth as nat);
        // Ancestors found so far, nearest first.
        let mut found: Vec<Vec<char>> = Vec::new();
        let mut need = te.depth;
        let mut i: usize = cursor;
        while i > 0 && need > 0
            invariant
                i <= cursor < rows@.len(),
                want == tree_ancestors(rows@, i as int, need as nat)
                    + found@.map_values(|x: Vec<char>| x@).reverse(),
            decreases i,
        {
            let prev = &rows[i - 1];
            if prev.depth < need && prev.depth + 1 == need {
                let ghost before = found@.map_values(|x: Vec<char>| x@);
                found.push(str_chars(prev.entry.name.as_str()));
                assert(found@.map_values(|x: Vec<char>| x@) =~= before.push(prev.entry.name@));
                assert(before.push(prev.entry.name@).reverse() =~= seq![prev.entry.name@] + before.reverse());
                need = prev.depth;
            }
            i = i - 1;
        }
        assert(tree_ancestors(rows@, i as int, need as nat) =~= Seq::<Seq<char>>::empty());
        let mut path = str_chars(self.current_path.as_str());
        let mut k: usize = found.len();
        assert(want.take(0) =~= Seq::<Seq<char>>::empty());
        while k > 0
            invariant
                k <= found@.len(),
                want == found@.map_values(|x: Vec<char>| x@).reverse(),
                path@ == path_join_all(self.current_path@, want.take(found@.len() - k)),
            decreases k,
        {
            let ghost done = (found@.len() - k) as int;
            assert(want[done] == found@[k - 1]@);
            assert(want.take(done + 1).drop_last() =~= want.take(done));
            path = join_path(&path, &found[k - 1]);
            k = k - 1;
        }
        assert(want.take(found@.len() as int) =~= want);
        let name = str_chars(te.entry.name.as_str());
        let full = join_path(&path, &name);
        string_of(&full)
    }
}

/// Width of the size column in the file browser.
pub const SIZE_COLUMN: usize = 8;

/// The size column for an entry: blank for directories, otherwise the
/// formatted size right-aligned in eight columns.
pub fn format_entry_size(size: u64, is_dir: bool) -> (r: String)
    ensures
        r@ == crate::display::padded_left(
            if is_dir { Seq::empty() } else { crate::display::size_text(size as nat) }, SIZE_COLUMN as nat),
{
    if is_dir {
        let blank = String::new();
        crate::display::pad_left(blank.as_str(), SIZE_COLUMN)
    } else {
        let s = crate::display::format_size(size);
        crate::display::pad_left(s.as_str(), SIZE_COLUMN)
    }
}

/// An entry name cut to fit `max_width` columns.
pub fn truncate_name(name: &str, max_width: usize) -> (r: String)
    ensures
        r@ == crate::display::truncated(name@, max_width as nat),
{
    crate::display::truncate_to_width(name, max_width)
}

/// Progress of the running transfer, shared with the transfer thread.
pub struct TransferProgressState {
    pub file_name: String,
    pub bytes: u64,
    pub total: u64,
}

/// How a background file operation finished.
pub enum ActionResult {
    TransferDone(Side),
    Error(String),
    Aborted,
}

} // verus!
