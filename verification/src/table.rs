//! The machine list table: columns, rows, cursor and scrolling.

use vstd::prelude::*;
use crate::machine::Machine;
use crate::text::{dec_int, owned, push_dec_i64, string_of};
use crate::width::{str_width, str_width_of};

verus! {

/// One table column: its heading and width in display columns.
#[derive(Clone)]
pub struct Column {
    pub title: String,
    pub width: usize,
}

/// The machine list with a cursor over its rows.
pub struct MachineTable {
    pub columns: Vec<Column>,
    pub rows: Vec<Vec<String>>,
    pub cursor: usize,
    pub width: u16,
    pub height: u16,
}

/// Index of the last row, or 0 when there is none.
pub open spec fn last_row(n: nat) -> nat {
    if n == 0 { 0 } else { (n - 1) as nat }
}

impl MachineTable {
    /// An empty table with the given columns and the cursor on top.
    pub fn new(columns: Vec<Column>) -> (r: MachineTable)
        ensures
            r.columns == columns,
            r.rows@.len() == 0,
            r.cursor == 0,
            r.width == 0,
            r.height == 0,
    {
        MachineTable { columns, rows: Vec::new(), cursor: 0, width: 0, height: 0 }
    }

    /// Records the drawing area's size.
    pub fn set_size(&mut self, w: u16, h: u16)
        ensures
            final(self).width == w,
            final(self).height == h,
            final(self).rows == old(self).rows,
            final(self).columns == old(self).columns,
            final(self).cursor == old(self).cursor,
    {
        self.width = w;
        self.height = h;
    }

    /// Replaces the rows, pulling the cursor back onto the last row if it
    /// fell off the end (it stays put when there are no rows).
    pub fn set_rows(&mut self, rows: Vec<Vec<String>>)
        ensures
            final(self).rows == rows,
            final(self).cursor as nat == (if old(self).cursor >= rows@.len() && rows@.len() > 0 {
                (rows@.len() - 1) as nat
            } else {
                old(self).cursor as nat
            }),
            final(self).columns == old(self).columns,
            final(self).width == old(self).width,
            final(self).height == old(self).height,
    {
        self.rows = rows;
        if self.cursor >= self.rows.len() && self.rows.len() > 0 {
            self.cursor = self.rows.len() - 1;
        }
    }

    /// The selected row's index.
    pub fn cursor(&self) -> (r: usize)
        ensures
            r == self.cursor,
    {
        self.cursor
    }

    /// Selects row `n`, or the last row when `n` is past the end.
    pub fn set_cursor(&mut self, n: usize)
        ensures
            final(self).cursor as nat == (if n as nat <= last_row(old(self).rows@.len()) { n as nat } else { last_row(old(self).rows@.len()) }),
            final(self).rows == old(self).rows,
            final(self).columns == old(self).columns,
            final(self).width == old(self).width,
            final(self).height == old(self).height,
    {
        let last = if self.rows.len() == 0 { 0 } else { self.rows.len() - 1 };
        self.cursor = if n < last { n } else { last };
    }

    /// Moves the cursor up one row, stopping at the top.
    pub fn move_up(&mut self)
        ensures
            final(self).cursor == (if old(self).cursor > 0 { (old(self).cursor - 1) as usize } else { old(self).cursor }),
            final(self).rows == old(self).rows,
            final(self).columns == old(self).columns,
            final(self).width == old(self).width,
            final(self).height == old(self).height,
    {
        if self.cursor > 0 {
            self.cursor = self.cursor - 1;
        }
    }

    /// Moves the cursor down one row, stopping at the last row.
    pub fn move_down(&mut self)
        ensures
            final(self).cursor as nat == (if (old(self).cursor as nat) < last_row(old(self).rows@.len()) {
                old(self).cursor as nat + 1
            } else {
                old(self).cursor as nat
            }),
            final(self).rows == old(self).rows,
            final(self).columns == old(self).columns,
            final(self).width == old(self).width,
            final(self).height == old(self).height,
    {
        let last = if self.rows.len() == 0 { 0 } else { self.rows.len() - 1 };
        if self.cursor < last {
            self.cursor = self.cursor + 1;
        }
    }

    /// Moves the cursor to the first row.
    pub fn goto_top(&mut self)
        ensures
            final(self).cursor == 0,
            final(self).rows == old(self).rows,
            final(self).columns == old(self).columns,
            final(self).width == old(self).width,
            final(self).height == old(self).height,
    {
        self.cursor = 0;
    }

    /// Moves the cursor to the last row, if there is one.
    pub fn goto_bottom(&mut self)
        ensures
            final(self).cursor as nat == (if old(self).rows@.len() > 0 { (old(self).rows@.len() - 1) as nat } else { old(self).cursor as nat }),
            final(self).rows == old(self).rows,
            final(self).columns == old(self).columns,
            final(self).width == old(self).width,
            final(self).height == old(self).height,
    {
        if self.rows.len() > 0 {
            self.cursor = self.rows.len() - 1;
        }
    }

    /// Number of rows.
    pub fn rows_count(&self) -> (r: usize)
        ensures
            r == self.rows@.len(),
    {
        self.rows.len()
    }

    /// Index of the first row drawn when `visible` rows fit under the
    /// heading: the cursor is kept near the middle, the window inside the rows.
    pub fn scroll_top(&self) -> (r: usize)
        ensures
            r as nat == window_top(self.cursor as nat, self.rows@.len(), self.height as nat),
    {
        let visible: usize = if self.height > 0 { (self.height - 1) as usize } else { 0 };
        let total = self.rows.len();
        let top: usize = if total <= visible {
            0
        } else if self.cursor > visible / 2 {
            self.cursor - visible / 2
        } else {
            0
        };
        let max_top = if total > visible { total - visible } else { 0 };
        if top < max_top { top } else { max_top }
    }
}

/// First row shown for a table of `total` rows drawn `height` lines high
/// (one line is the heading), with the cursor on row `cursor`.
pub open spec fn window_top(cursor: nat, total: nat, height: nat) -> nat {
    let visible: nat = if height > 0 { (height - 1) as nat } else { 0 };
    let top: nat = if total <= visible {
        0
    } else if cursor > visible / 2 {
        (cursor - visible / 2) as nat
    } else {
        0
    };
    let max_top: nat = if total > visible { (total - visible) as nat } else { 0 };
    if top < max_top { top } else { max_top }
}

/// The cells shown for machine `m`; with secrets shown the password and
/// key columns are added. Empty values show as `"-"`.
pub open spec fn machine_row(m: Machine, show_secrets: bool) -> Seq<Seq<char>> {
    let d = |s: Seq<char>| if s.len() == 0 { seq!['-'] } else { s };
    if show_secrets {
        seq![dec_int(m.num as int), m.ip@, Seq::empty(), d(m.nat_ip@), m.username@, d(m.password@),
            Seq::empty(), d(m.private_key_path@), d(m.device@), d(m.remark@)]
    } else {
        seq![dec_int(m.num as int), m.ip@, Seq::empty(), d(m.nat_ip@), m.username@, d(m.device@), d(m.remark@)]
    }
}

/// The characters of each string.
pub open spec fn views(v: Seq<String>) -> Seq<Seq<char>> {
    v.map_values(|s: String| s@)
}

fn dash_if_empty(s: &String) -> (r: String)
    ensures
        r@ == (if s@.len() == 0 { seq!['-'] } else { s@ }),
{
    if s.as_str().is_empty() {
        let r = owned("-");
        proof { reveal_strlit("-"); }
        assert(r@ =~= seq!['-']);
        r
    } else {
        s.clone()
    }
}

/// The table cells for machine `m`.
pub fn format_machine_row(m: &Machine, show_secrets: bool) -> (r: Vec<String>)
    ensures
        views(r@) == machine_row(*m, show_secrets),
{
    let mut num: Vec<char> = Vec::new();
    push_dec_i64(&mut num, m.num as i64);
    let mut r: Vec<String> = Vec::new();
    r.push(string_of(&num));
    r.push(m.ip.clone());
    r.push(String::new());
    r.push(dash_if_empty(&m.nat_ip));
    r.push(m.username.clone());
    if show_secrets {
        r.push(dash_if_empty(&m.password));
        r.push(String::new());
        r.push(dash_if_empty(&m.private_key_path));
        r.push(dash_if_empty(&m.device));
        r.push(dash_if_empty(&m.remark));
    } else {
        r.push(dash_if_empty(&m.device));
        r.push(dash_if_empty(&m.remark));
    }
    assert(views(r@) =~= machine_row(*m, show_secrets));
    r
}

/// Headings and widths of the table without secrets.
pub open spec fn default_layout() -> Seq<(Seq<char>, nat)> {
    seq![("#"@, 4), ("IP"@, 15), (""@, 2), ("NAT"@, 12), ("User"@, 10), ("Device"@, 10), ("Remark"@, 20)]
}

/// Headings and widths of the table with secrets.
pub open spec fn secrets_layout() -> Seq<(Seq<char>, nat)> {
    seq![("#"@, 4), ("IP"@, 15), (""@, 2), ("NAT"@, 12), ("User"@, 10), ("Password"@, 15), (""@, 2),
        ("Key"@, 20), ("Device"@, 10), ("Remark"@, 20)]
}

/// The columns' headings and widths.
pub open spec fn layout_of(cols: Seq<Column>) -> Seq<(Seq<char>, nat)> {
    cols.map_values(|c: Column| (c.title@, c.width as nat))
}

fn column(title: &str, width: usize) -> (r: Column)
    ensures
        r.title@ == title@,
        r.width == width,
{
    Column { title: owned(title), width }
}

/// The columns shown when secrets are hidden.
pub fn default_columns() -> (r: Vec<Column>)
    ensures
        layout_of(r@) == default_layout(),
{
    let mut r: Vec<Column> = Vec::new();
    r.push(column("#", 4));
    r.push(column("IP", 15));
    r.push(column("", 2));
    r.push(column("NAT", 12));
    r.push(column("User", 10));
    r.push(column("Device", 10));
    r.push(column("Remark", 20));
    assert(layout_of(r@) =~= default_layout());
    r
}

/// The columns shown when secrets are visible.
pub fn secrets_columns() -> (r: Vec<Column>)
    ensures
        layout_of(r@) == secrets_layout(),
{
    let mut r: Vec<Column> = Vec::new();
    r.push(column("#", 4));
    r.push(column("IP", 15));
    r.push(column("", 2));
    r.push(column("NAT", 12));
    r.push(column("User", 10));
    r.push(column("Password", 15));
    r.push(column("", 2));
    r.push(column("Key", 20));
    r.push(column("Device", 10));
    r.push(column("Remark", 20));
    assert(layout_of(r@) =~= secrets_layout());
    r
}

/// Gap added to each fitted column.
pub const COL_GAP: usize = 2;

/// Widest cell of column `i` among `rows` (rows without that cell count 0).
pub open spec fn widest_cell(rows: Seq<Seq<Seq<char>>>, i: int) -> nat
    decreases rows.len(),
{
    if rows.len() == 0 {
        0
    } else {
        let rest = widest_cell(rows.drop_last(), i);
        let here: nat = if 0 <= i < rows.last().len() { str_width(rows.last()[i]) as nat } else { 0 };
        if here > rest { here } else { rest }
    }
}

/// Width of a fitted column: the widest of heading, cells and 3, plus the gap.
pub open spec fn fitted_width(title: Seq<char>, rows: Seq<Seq<Seq<char>>>, i: int) -> nat {
    let t = str_width(title) as nat;
    let c = widest_cell(rows, i);
    let m: nat = if t > c { t } else { c };
    (if m > 3 { m } else { 3 }) + COL_GAP as nat
}

/// The rows as character sequences.
pub open spec fn row_views(rows: Seq<Vec<String>>) -> Seq<Seq<Seq<char>>> {
    rows.map_values(|r: Vec<String>| views(r@))
}

/// Columns fitted to their content: untitled spacer columns stay as they
/// are, every other column gets `fitted_width`.
pub open spec fn fitted_layout(cols: Seq<Column>, rows: Seq<Seq<Seq<char>>>) -> Seq<(Seq<char>, nat)> {
    Seq::new(cols.len(), |i: int|
        if cols[i].title@.len() == 0 {
            (cols[i].title@, cols[i].width as nat)
        } else {
            (cols[i].title@, fitted_width(cols[i].title@, rows, i))
        })
}

/// The fitted width of every titled column is a `usize`.
pub open spec fn fitted_widths_fit(cols: Seq<Column>, rows: Seq<Seq<Seq<char>>>) -> bool {
    forall|i: int| 0 <= i < cols.len() && cols[i].title@.len() != 0
        ==> fitted_width(cols[i].title@, rows, i) <= usize::MAX
}

pub(crate) fn widest_cell_of(rows: &Vec<Vec<String>>, i: usize) -> (r: usize)
    ensures
        r as nat == widest_cell(row_views(rows@), i as int),
{
    let mut best: usize = 0;
    let mut j: usize = 0;
    while j < rows.len()
        invariant
            j <= rows@.len(),
            best as nat == widest_cell(row_views(rows@).take(j as int), i as int),
        decreases rows@.len() - j,
    {
        assert(row_views(rows@).take(j as int + 1).drop_last() =~= row_views(rows@).take(j as int));
        assert(row_views(rows@).take(j as int + 1).last() == views(rows@[j as int]@));
        if i < rows[j].len() {
            let w = str_width_of(rows[j][i].as_str());
            assert(views(rows@[j as int]@)[i as int] == rows@[j as int]@[i as int]@);
            if w > best {
                best = w;
            }
        }
        j = j + 1;
    }
    assert(row_views(rows@).take(rows@.len() as int) =~= row_views(rows@));
    best
}

/// Fits each titled column to the widest of its heading and cells.
pub fn auto_column_widths(columns: &Vec<Column>, rows: &Vec<Vec<String>>) -> (r: Vec<Column>)
    requires
        fitted_widths_fit(columns@, row_views(rows@)),
    ensures
        layout_of(r@) == fitted_layout(columns@, row_views(rows@)),
{
    let mut out: Vec<Column> = Vec::new();
    let mut i: usize = 0;
    while i < columns.len()
        invariant
            i <= columns@.len(),
            fitted_widths_fit(columns@, row_views(rows@)),
            out@.len() == i,
            layout_of(out@) == fitted_layout(columns@, row_views(rows@)).take(i as int),
        decreases columns@.len() - i,
    {
        let col = &columns[i];
        let c = if col.title.as_str().is_empty() {
            Column { title: col.title.clone(), width: col.width }
        } else {
            let t = str_width_of(col.title.as_str());
            let d = widest_cell_of(rows, i);
            let m = if t > d { t } else { d };
            let m = if m > 3 { m } else { 3 };
            assert(fitted_width(columns@[i as int].title@, row_views(rows@), i as int) <= usize::MAX);
            Column { title: col.title.clone(), width: m + COL_GAP }
        };
        assert((c.title@, c.width as nat) == fitted_layout(columns@, row_views(rows@))[i as int]);
        let ghost prev = out@;
        out.push(c);
        assert(out@ == prev.push(c));
        assert(layout_of(out@).len() == i + 1);
        assert forall|j: int| 0 <= j <= i implies layout_of(out@)[j] == fitted_layout(columns@, row_views(rows@))[j] by {
            if j < i {
                assert(layout_of(out@)[j] == layout_of(prev)[j]);
            }
        }
        i = i + 1;
        assert(layout_of(out@) =~= fitted_layout(columns@, row_views(rows@)).take(i as int));
    }
    assert(fitted_layout(columns@, row_views(rows@)).take(columns@.len() as int)
        =~= fitted_layout(columns@, row_views(rows@)));
    out
}

/// Fits the columns as `auto_column_widths` does, or gives `None` when a
/// fitted width would not fit in a `usize`.
pub fn fit_columns(columns: &Vec<Column>, rows: &Vec<Vec<String>>) -> (r: Option<Vec<Column>>)
    ensures
        r matches Some(cols) ==> layout_of(cols@) == fitted_layout(columns@, row_views(rows@)),
        r is None <==> !fitted_widths_fit(columns@, row_views(rows@)),
{
    let mut i: usize = 0;
    while i < columns.len()
        invariant
            i <= columns@.len(),
            forall|j: int| 0 <= j < i && columns@[j].title@.len() != 0
                ==> fitted_width(columns@[j].title@, row_views(rows@), j) <= usize::MAX,
        decreases columns@.len() - i,
    {
        if columns[i].title.as_str().is_empty() {
            i = i + 1;
            continue;
        }
        let t = str_width_of(columns[i].title.as_str());
        let d = widest_cell_of(rows, i);
        let m = if t > d { t } else { d };
        let m = if m > 3 { m } else { 3 };
        if m > usize::MAX - COL_GAP {
            return None;
        }
        i = i + 1;
    }
    Some(auto_column_widths(columns, rows))
}

} // verus!
