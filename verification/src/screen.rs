//! The machine list screen: search, table, dialogs and what each key does.
//! Store queries, logins and the file browser are the caller's work; the
//! screen says when they are due.

use vstd::prelude::*;
use crate::form::{FormState, DeleteState, machine_text_fits};
use crate::form_input::{FormKey, FormOutcome, key_effect, paste_effect};
use crate::machine::Machine;
use crate::table::{MachineTable, Column, machine_row, views, layout_of, fitted_layout, row_views,
    fitted_widths_fit, default_layout, secrets_layout, default_columns, secrets_columns, format_machine_row,
    fit_columns, last_row, fitted_width};
use crate::text::{dec, owned, push_dec, push_str, string_of};
use crate::utf8::{utf8_len, utf8_len_of};
use crate::width::str_width;

verus! {

/// A key as the machine list sees it.
#[derive(Debug, Clone, Copy, PartialEq, Eq, Structural)]
pub enum ScreenKey {
    /// Ctrl+C.
    CtrlC,
    Esc,
    Enter,
    Backspace,
    Up,
    Down,
    PageUp,
    PageDown,
    Tab,
    BackTab,
    Left,
    Right,
    Char(char),
    Other,
}

/// Work the caller does after a key.
#[derive(Debug, Clone, Copy, PartialEq, Eq, Structural)]
pub enum ScreenAction {
    /// Nothing beyond what the screen already did.
    Nothing,
    /// Leave the program.
    Quit,
    /// Search the store for the current search text and hand the result to
    /// `show_machines`.
    Reload,
    /// Log in to the machine on row `i`.
    Login(usize),
    /// Open the file browser on the machine on row `i`.
    Browse(usize),
    /// Store the machine the open form describes, then call `save_finished`.
    SaveForm,
    /// Delete the machine with this id, then call `delete_finished`.
    DeleteMachine(i64),
}

/// The machine list screen.
pub struct Screen {
    pub machines: Vec<Machine>,
    pub table: MachineTable,
    pub search_input: String,
    pub search_focused: bool,
    pub show_secrets: bool,
    pub form: Option<FormState>,
    pub delete_confirm: Option<DeleteState>,
}

/// The table rows for `ms`.
pub open spec fn screen_rows(ms: Seq<Machine>, show_secrets: bool) -> Seq<Seq<Seq<char>>> {
    ms.map_values(|m: Machine| machine_row(m, show_secrets))
}

/// The columns before fitting: with or without the secret ones.
pub open spec fn base_layout(show_secrets: bool) -> Seq<(Seq<char>, nat)> {
    if show_secrets { secrets_layout() } else { default_layout() }
}

/// The layout `l` with every titled column fitted to `rows`.
pub open spec fn fitted_to(l: Seq<(Seq<char>, nat)>, rows: Seq<Seq<Seq<char>>>) -> Seq<(Seq<char>, nat)> {
    Seq::new(l.len(), |i: int| if l[i].0.len() == 0 { l[i] } else { (l[i].0, fitted_width(l[i].0, rows, i)) })
}

/// Every fitted width of layout `l` is a `usize`.
pub open spec fn layout_fits(l: Seq<(Seq<char>, nat)>, rows: Seq<Seq<Seq<char>>>) -> bool {
    forall|i: int| 0 <= i < l.len() && l[i].0.len() != 0 ==> fitted_width(l[i].0, rows, i) <= usize::MAX
}

proof fn lemma_fitted_to(cols: Seq<Column>, rows: Seq<Seq<Seq<char>>>)
    ensures
        fitted_layout(cols, rows) == fitted_to(layout_of(cols), rows),
        fitted_widths_fit(cols, rows) == layout_fits(layout_of(cols), rows),
{
    assert(fitted_layout(cols, rows) =~= fitted_to(layout_of(cols), rows));
    if fitted_widths_fit(cols, rows) {
        assert forall|i: int| 0 <= i < layout_of(cols).len() && layout_of(cols)[i].0.len() != 0
            implies fitted_width(layout_of(cols)[i].0, rows, i) <= usize::MAX by {
            assert(cols[i].title@ == layout_of(cols)[i].0);
        }
    }
    if layout_fits(layout_of(cols), rows) {
        assert forall|i: int| 0 <= i < cols.len() && cols[i].title@.len() != 0
            implies fitted_width(cols[i].title@, rows, i) <= usize::MAX by {
            assert(cols[i].title@ == layout_of(cols)[i].0);
        }
    }
}

/// The cursor after moving up `n` rows.
pub open spec fn up_by(cursor: nat, n: nat) -> nat {
    if cursor >= n { (cursor - n) as nat } else { 0 }
}

/// The cursor after moving down `n` rows, stopping at the last row.
pub open spec fn down_by(cursor: nat, n: nat, rows: nat) -> nat {
    let last = last_row(rows);
    if cursor >= last { cursor } else if cursor + n <= last { cursor + n } else { last }
}

/// Moving down `n` rows goes as far as `n` single steps do, and stops only
/// at the last row: from above the last row, any move of at least one row
/// moves down, to `cursor + n` or, when fewer rows remain below, to the last
/// row; at or past the last row the cursor stays.
pub proof fn law_page_down_reaches_last_row(cursor: nat, n: nat, rows: nat)
    ensures
        rows > 0 && cursor < rows - 1 && n >= 1 ==> cursor < down_by(cursor, n, rows) <= rows - 1,
        rows > 0 && cursor < rows - 1 ==> down_by(cursor, n, rows)
            == (if cursor + n <= rows - 1 { cursor + n } else { (rows - 1) as nat }),
        rows > 0 && cursor >= rows - 1 ==> down_by(cursor, n, rows) == cursor,
        n >= 1 ==> down_by(cursor, n, rows) == down_by(down_by(cursor, (n - 1) as nat, rows), 1, rows),
        down_by(cursor, 0, rows) == cursor,
{
}

/// Moving up `n` rows goes as far as `n` single steps do and stops only at
/// the top: from below the top, any move of at least one row moves up, to
/// `cursor - n` or, when fewer rows lie above, to the top row.
pub proof fn law_page_up_reaches_top(cursor: nat, n: nat)
    ensures
        cursor > 0 && n >= 1 ==> up_by(cursor, n) < cursor,
        up_by(cursor, n) == (if cursor >= n { (cursor - n) as nat } else { 0 }),
        n >= 1 ==> up_by(cursor, n) == up_by(up_by(cursor, (n - 1) as nat), 1),
        up_by(cursor, 0) == cursor,
{
}

/// A text field of `m` holds a value whose UTF-8 length is a `usize`.
fn text_fits(m: &Machine) -> (r: bool)
    ensures
        r == machine_text_fits(*m),
{
    let a = utf8_len_of(&crate::text::str_chars(m.ip.as_str()));
    let b = utf8_len_of(&crate::text::str_chars(m.nat_ip.as_str()));
    let c = utf8_len_of(&crate::text::str_chars(m.username.as_str()));
    let d = utf8_len_of(&crate::text::str_chars(m.password.as_str()));
    let e = utf8_len_of(&crate::text::str_chars(m.private_key_path.as_str()));
    let f = utf8_len_of(&crate::text::str_chars(m.remark.as_str()));
    let max = usize::MAX as u128;
    a <= max && b <= max && c <= max && d <= max && e <= max && f <= max
}

impl Screen {
    /// The table shows a row per machine, built the way `show_secrets` asks.
    pub open spec fn table_matches(&self) -> bool {
        row_views(self.table.rows@) == screen_rows(self.machines@, self.show_secrets)
    }

    /// The open form, if any, is usable.
    pub open spec fn dialogs_ok(&self) -> bool {
        self.form matches Some(f) ==> f.ready()
    }

    /// A screen over `machines` with the search empty and no dialog open.
    pub fn new(machines: Vec<Machine>) -> (r: Screen)
        ensures
            r.machines@ == machines@,
            r.search_input@ == Seq::<char>::empty(),
            !r.search_focused,
            !r.show_secrets,
            r.form is None,
            r.delete_confirm is None,
            r.table_matches(),
            r.table.cursor == 0,
    {
        let mut s = Screen {
            machines,
            table: MachineTable::new(default_columns()),
            search_input: String::new(),
            search_focused: false,
            show_secrets: false,
            form: None,
            delete_confirm: None,
        };
        s.rebuild_table();
        s
    }

    /// Rebuilds the table rows from the machines and fits the columns to
    /// them (keeping the unfitted widths in the case, unreachable with real
    /// text, where a fitted width would not fit in a `usize`).
    pub fn rebuild_table(&mut self)
        ensures
            final(self).table_matches(),
            final(self).machines == old(self).machines,
            final(self).search_input == old(self).search_input,
            final(self).search_focused == old(self).search_focused,
            final(self).show_secrets == old(self).show_secrets,
            final(self).form == old(self).form,
            final(self).delete_confirm == old(self).delete_confirm,
            layout_fits(base_layout(old(self).show_secrets), screen_rows(old(self).machines@, old(self).show_secrets))
                ==> layout_of(final(self).table.columns@) == fitted_to(base_layout(old(self).show_secrets),
                    screen_rows(old(self).machines@, old(self).show_secrets)),
            final(self).table.cursor as nat == (if old(self).table.cursor >= old(self).machines@.len()
                && old(self).machines@.len() > 0 {
                (old(self).machines@.len() - 1) as nat
            } else {
                old(self).table.cursor as nat
            }),
    {
        let mut rows: Vec<Vec<String>> = Vec::new();
        let mut i: usize = 0;
        while i < self.machines.len()
            invariant
                i <= self.machines@.len(),
                rows@.len() == i,
                forall|k: int| 0 <= k < i ==> #[trigger] views(rows@[k]@) == machine_row(self.machines@[k], self.show_secrets),
            decreases self.machines@.len() - i,
        {
            rows.push(format_machine_row(&self.machines[i], self.show_secrets));
            i = i + 1;
        }
        assert(row_views(rows@) =~= screen_rows(self.machines@, self.show_secrets));
        let columns = if self.show_secrets { secrets_columns() } else { default_columns() };
        proof {
            lemma_fitted_to(columns@, row_views(rows@));
        }
        let fitted = match fit_columns(&columns, &rows) {
            Some(c) => c,
            None => columns,
        };
        self.table.columns = fitted;
        self.table.set_rows(rows);
    }

    /// Replaces the machines with the result of a search and rebuilds the
    /// table.
    pub fn show_machines(&mut self, machines: Vec<Machine>)
        ensures
            final(self).machines@ == machines@,
            final(self).table_matches(),
            final(self).search_input == old(self).search_input,
            final(self).search_focused == old(self).search_focused,
            final(self).show_secrets == old(self).show_secrets,
            final(self).form == old(self).form,
            final(self).delete_confirm == old(self).delete_confirm,
    {
        self.machines = machines;
        self.rebuild_table();
    }
}


/// The form key a screen key stands for.
pub open spec fn form_key_of(key: ScreenKey) -> FormKey {
    match key {
        ScreenKey::Esc => FormKey::Esc,
        ScreenKey::Up => FormKey::Up,
        ScreenKey::BackTab => FormKey::BackTab,
        ScreenKey::Down => FormKey::Down,
        ScreenKey::Tab => FormKey::Tab,
        ScreenKey::Enter => FormKey::Enter,
        ScreenKey::Left => FormKey::Left,
        ScreenKey::Right => FormKey::Right,
        ScreenKey::Char(c) => FormKey::Char(c),
        ScreenKey::Backspace => FormKey::Backspace,
        _ => FormKey::Other,
    }
}

fn form_key(key: ScreenKey) -> (r: FormKey)
    ensures
        r == form_key_of(key),
{
    match key {
        ScreenKey::Esc => FormKey::Esc,
        ScreenKey::Up => FormKey::Up,
        ScreenKey::BackTab => FormKey::BackTab,
        ScreenKey::Down => FormKey::Down,
        ScreenKey::Tab => FormKey::Tab,
        ScreenKey::Enter => FormKey::Enter,
        ScreenKey::Left => FormKey::Left,
        ScreenKey::Right => FormKey::Right,
        ScreenKey::Char(c) => FormKey::Char(c),
        ScreenKey::Backspace => FormKey::Backspace,
        _ => FormKey::Other,
    }
}

/// `s` without its last character (unchanged when empty).
pub open spec fn popped(s: Seq<char>) -> Seq<char> {
    if s.len() == 0 { s } else { s.drop_last() }
}

/// `s` without its last character (unchanged when empty).
pub fn pop_text(s: &String) -> (r: String)
    ensures
        r@ == popped(s@),
{
    pop_char(s)
}

fn pop_char(s: &String) -> (r: String)
    ensures
        r@ == popped(s@),
{
    let v = crate::text::str_chars(s.as_str());
    let mut out: Vec<char> = Vec::new();
    if v.len() > 0 {
        let mut i: usize = 0;
        while i + 1 < v.len()
            invariant
                v@ == s@,
                v.len() > 0,
                i + 1 <= v.len(),
                out@ == v@.take(i as int),
            decreases v.len() - i,
        {
            out.push(v[i]);
            i = i + 1;
            assert(out@ =~= v@.take(i as int));
        }
        assert(out@ =~= v@.drop_last());
    } else {
        assert(out@ =~= v@);
    }
    string_of(&out)
}

impl Screen {
    /// The table matches the machines and any open form is usable.
    pub open spec fn ok(&self) -> bool {
        self.table_matches() && self.dialogs_ok()
    }

    /// Only the cursor may have moved; everything else is as in `other`.
    pub open spec fn same_but_cursor(&self, other: Screen) -> bool {
        &&& self.machines == other.machines
        &&& self.table.rows == other.table.rows
        &&& self.table.columns == other.table.columns
        &&& self.search_input == other.search_input
        &&& self.show_secrets == other.show_secrets
        &&& self.form == other.form
        &&& self.delete_confirm == other.delete_confirm
    }

    /// Handles one key on the machine list.
    ///
    /// Ctrl+C quits from anywhere. An open form takes every other key (see
    /// `FormState::handle_key`); Esc there closes it and a successful Enter
    /// on the last field asks to save. An open delete confirmation takes
    /// `y` (delete), `n` or Esc (close). While the search is focused, typing
    /// and Backspace edit it and ask for a reload, Esc clears it and Enter
    /// commits it (both leave the search and reload), the arrows leave the
    /// search and move the cursor. Otherwise: `q` quits; arrows, `j`/`k`,
    /// Page Up/Down (ten rows), `g` and `G` move the cursor; Enter logs in
    /// and `b` browses the selected machine; Esc clears a search; `/` starts
    /// one; `a` opens an empty form, `e` one filled from the selected
    /// machine and `d` the delete confirmation for it; `s` shows or hides
    /// the secret columns.
    pub fn on_key(&mut self, key: ScreenKey) -> (r: ScreenAction)
        requires
            old(self).ok(),
        ensures
            final(self).ok(),
            final(self).machines == old(self).machines,
            key == ScreenKey::CtrlC ==> r == ScreenAction::Quit && *final(self) == *old(self),
            (key != ScreenKey::CtrlC && old(self).form is Some) ==> ({
                let f = old(self).form->0;
                &&& final(self).same_but_form(*old(self))
                &&& (final(self).form is None <==> key == ScreenKey::Esc)
                &&& (r == ScreenAction::SaveForm <==> (key == ScreenKey::Enter && f.step == 7
                    && crate::form::validation_error(f.fields@) is None))
                &&& (r == ScreenAction::SaveForm || r == ScreenAction::Nothing)
                &&& key != ScreenKey::Esc ==> (final(self).form matches Some(g) && key_effect(f, form_key_of(key), g,
                    if r == ScreenAction::SaveForm { FormOutcome::Save } else { FormOutcome::Editing }))
            }),
            (key != ScreenKey::CtrlC && old(self).form is None && old(self).delete_confirm is Some) ==> ({
                let d = old(self).delete_confirm->0;
                if key == ScreenKey::Char('y') || key == ScreenKey::Char('Y') {
                    r == ScreenAction::DeleteMachine(d.target.id) && *final(self) == *old(self)
                } else if key == ScreenKey::Char('n') || key == ScreenKey::Char('N') || key == ScreenKey::Esc {
                    r == ScreenAction::Nothing && final(self).delete_confirm is None
                        && final(self).same_but_dialog(*old(self))
                } else {
                    r == ScreenAction::Nothing && *final(self) == *old(self)
                }
            }),
            (key != ScreenKey::CtrlC && old(self).form is None && old(self).delete_confirm is None
                && old(self).search_focused) ==> ({
                let q = old(self).search_input@;
                match key {
                    ScreenKey::Esc => r == ScreenAction::Reload && !final(self).search_focused
                        && final(self).search_input@ == Seq::<char>::empty() && final(self).same_but_search(*old(self)),
                    ScreenKey::Enter => r == ScreenAction::Reload && !final(self).search_focused
                        && final(self).search_input == old(self).search_input && final(self).same_but_search(*old(self)),
                    ScreenKey::Backspace => r == ScreenAction::Reload && final(self).search_focused
                        && final(self).search_input@ == popped(q) && final(self).same_but_search(*old(self)),
                    ScreenKey::Char(c) => r == ScreenAction::Reload && final(self).search_focused
                        && final(self).search_input@ == q.push(c) && final(self).same_but_search(*old(self)),
                    ScreenKey::Up => r == ScreenAction::Nothing && !final(self).search_focused
                        && final(self).same_but_cursor(*old(self))
                        && final(self).table.cursor as nat == up_by(old(self).table.cursor as nat, 1),
                    ScreenKey::Down => r == ScreenAction::Nothing && !final(self).search_focused
                        && final(self).same_but_cursor(*old(self))
                        && final(self).table.cursor as nat == down_by(old(self).table.cursor as nat, 1,
                            old(self).table.rows@.len()),
                    _ => r == ScreenAction::Nothing && *final(self) == *old(self),
                }
            }),
            (key != ScreenKey::CtrlC && old(self).form is None && old(self).delete_confirm is None
                && !old(self).search_focused) ==> ({
                let cur = old(self).table.cursor as nat;
                let n = old(self).machines@.len();
                let rows = old(self).table.rows@.len();
                let on_machine = cur < n;
                match key {
                    ScreenKey::Char('q') => r == ScreenAction::Quit && *final(self) == *old(self),
                    ScreenKey::Up | ScreenKey::Char('k') => r == ScreenAction::Nothing
                        && final(self).same_but_cursor(*old(self)) && !final(self).search_focused
                        && final(self).table.cursor as nat == up_by(cur, 1),
                    ScreenKey::Down | ScreenKey::Char('j') => r == ScreenAction::Nothing
                        && final(self).same_but_cursor(*old(self)) && !final(self).search_focused
                        && final(self).table.cursor as nat == down_by(cur, 1, rows),
                    ScreenKey::PageUp => r == ScreenAction::Nothing
                        && final(self).same_but_cursor(*old(self)) && !final(self).search_focused
                        && final(self).table.cursor as nat == up_by(cur, 10),
                    ScreenKey::PageDown => r == ScreenAction::Nothing
                        && final(self).same_but_cursor(*old(self)) && !final(self).search_focused
                        && final(self).table.cursor as nat == down_by(cur, 10, rows),
                    ScreenKey::Char('g') => r == ScreenAction::Nothing
                        && final(self).same_but_cursor(*old(self)) && !final(self).search_focused
                        && final(self).table.cursor == 0,
                    ScreenKey::Char('G') => r == ScreenAction::Nothing
                        && final(self).same_but_cursor(*old(self)) && !final(self).search_focused
                        && final(self).table.cursor as nat == (if rows > 0 { (rows - 1) as nat } else { cur }),
                    ScreenKey::Enter => *final(self) == *old(self)
                        && r == (if on_machine { ScreenAction::Login(cur as usize) } else { ScreenAction::Nothing }),
                    ScreenKey::Char('b') => *final(self) == *old(self)
                        && r == (if on_machine { ScreenAction::Browse(cur as usize) } else { ScreenAction::Nothing }),
                    ScreenKey::Esc => if old(self).search_input@.len() > 0 {
                        r == ScreenAction::Reload && final(self).search_input@ == Seq::<char>::empty()
                            && !final(self).search_focused && final(self).same_but_search(*old(self))
                    } else {
                        r == ScreenAction::Nothing && *final(self) == *old(self)
                    },
                    ScreenKey::Char('/') => r == ScreenAction::Nothing && final(self).search_focused
                        && final(self).search_input@ == Seq::<char>::empty() && final(self).same_but_search(*old(self)),
                    ScreenKey::Char('a') => r == ScreenAction::Nothing && final(self).same_but_form(*old(self))
                        && (final(self).form matches Some(f) && !f.is_edit && f.step == 0 && f.error is None),
                    ScreenKey::Char('e') => r == ScreenAction::Nothing && final(self).same_but_form(*old(self))
                        && if on_machine && machine_text_fits(old(self).machines@[cur as int]) {
                            final(self).form matches Some(f) && f.is_edit && f.step == 0 && f.error is None
                                && f.target_id == Some(old(self).machines@[cur as int].id)
                        } else {
                            final(self).form is None
                        },
                    ScreenKey::Char('d') => r == ScreenAction::Nothing && final(self).same_but_dialog(*old(self))
                        && if on_machine {
                            final(self).delete_confirm matches Some(d) && d.target == old(self).machines@[cur as int]
                        } else {
                            final(self).delete_confirm is None
                        },
                    ScreenKey::Char('s') => r == ScreenAction::Nothing
                        && final(self).show_secrets == !old(self).show_secrets
                        && final(self).search_input == old(self).search_input
                        && final(self).search_focused == old(self).search_focused
                        && final(self).form == old(self).form
                        && final(self).delete_confirm == old(self).delete_confirm
                        && (layout_fits(base_layout(!old(self).show_secrets),
                            screen_rows(old(self).machines@, !old(self).show_secrets))
                            ==> layout_of(final(self).table.columns@) == fitted_to(
                                base_layout(!old(self).show_secrets),
                                screen_rows(old(self).machines@, !old(self).show_secrets)))
                        && final(self).table.cursor as nat == (if cur >= n && n > 0 { (n - 1) as nat } else { cur }),
                    _ => r == ScreenAction::Nothing && *final(self) == *old(self),
                }
            }),
    {
        if key == ScreenKey::CtrlC {
            return ScreenAction::Quit;
        }
        if self.form.is_some() {
            let mut f = self.form.take().unwrap();
            let outcome = f.handle_key(form_key(key));
            match outcome {
                FormOutcome::Closed => {
                    return ScreenAction::Nothing;
                },
                FormOutcome::Save => {
                    self.form = Some(f);
                    return ScreenAction::SaveForm;
                },
                FormOutcome::Editing => {
                    self.form = Some(f);
                    return ScreenAction::Nothing;
                },
            }
        }
        if self.delete_confirm.is_some() {
            match key {
                ScreenKey::Char('y') | ScreenKey::Char('Y') => {
                    let id = match &self.delete_confirm {
                        Some(d) => d.target.id,
                        None => 0,
                    };
                    return ScreenAction::DeleteMachine(id);
                },
                ScreenKey::Char('n') | ScreenKey::Char('N') | ScreenKey::Esc => {
                    self.delete_confirm = None;
                    return ScreenAction::Nothing;
                },
                _ => {
                    return ScreenAction::Nothing;
                },
            }
        }
        if self.search_focused {
            match key {
                ScreenKey::Esc => {
                    self.search_focused = false;
                    self.search_input = String::new();
                    ScreenAction::Reload
                },
                ScreenKey::Enter => {
                    self.search_focused = false;
                    ScreenAction::Reload
                },
                ScreenKey::Backspace => {
                    self.search_input = pop_char(&self.search_input);
                    ScreenAction::Reload
                },
                ScreenKey::Up => {
                    self.search_focused = false;
                    self.table.move_up();
                    ScreenAction::Nothing
                },
                ScreenKey::Down => {
                    self.search_focused = false;
                    self.table.move_down();
                    ScreenAction::Nothing
                },
                ScreenKey::Char(c) => {
                    crate::text::push_char(&mut self.search_input, c);
                    ScreenAction::Reload
                },
                _ => ScreenAction::Nothing,
            }
        } else {
            let on_machine = self.table.cursor < self.machines.len();
            match key {
                ScreenKey::Char('q') => ScreenAction::Quit,
                ScreenKey::Up | ScreenKey::Char('k') => {
                    self.table.move_up();
                    ScreenAction::Nothing
                },
                ScreenKey::Down | ScreenKey::Char('j') => {
                    self.table.move_down();
                    ScreenAction::Nothing
                },
                ScreenKey::PageUp => {
                    let mut i: usize = 0;
                    let ghost start = self.table.cursor as nat;
                    while i < 10
                        invariant
                            i <= 10,
                            self.table.cursor as nat == up_by(start, i as nat),
                            self.same_but_cursor(*old(self)),
                            self.search_focused == old(self).search_focused,
                        decreases 10 - i,
                    {
                        self.table.move_up();
                        i = i + 1;
                    }
                    ScreenAction::Nothing
                },
                ScreenKey::PageDown => {
                    let mut i: usize = 0;
                    let ghost start = self.table.cursor as nat;
                    while i < 10
                        invariant
                            i <= 10,
                            self.table.cursor as nat == down_by(start, i as nat, old(self).table.rows@.len()),
                            self.same_but_cursor(*old(self)),
                            self.search_focused == old(self).search_focused,
                        decreases 10 - i,
                    {
                        self.table.move_down();
                        i = i + 1;
                    }
                    ScreenAction::Nothing
                },
                ScreenKey::Char('g') => {
                    self.table.goto_top();
                    ScreenAction::Nothing
                },
                ScreenKey::Char('G') => {
                    self.table.goto_bottom();
                    ScreenAction::Nothing
                },
                ScreenKey::Enter => {
                    if on_machine { ScreenAction::Login(self.table.cursor) } else { ScreenAction::Nothing }
                },
                ScreenKey::Char('b') => {
                    if on_machine { ScreenAction::Browse(self.table.cursor) } else { ScreenAction::Nothing }
                },
                ScreenKey::Esc => {
                    if !self.search_input.as_str().is_empty() {
                        self.search_input = String::new();
                        ScreenAction::Reload
                    } else {
                        ScreenAction::Nothing
                    }
                },
                ScreenKey::Char('/') => {
                    self.search_focused = true;
                    self.search_input = String::new();
                    ScreenAction::Nothing
                },
                ScreenKey::Char('a') => {
                    self.form = Some(FormState::new_add());
                    ScreenAction::Nothing
                },
                ScreenKey::Char('e') => {
                    if on_machine {
                        let m = &self.machines[self.table.cursor];
                        if text_fits(m) {
                            let f = FormState::new_edit(m);
                            self.form = Some(f);
                        }
                    }
                    ScreenAction::Nothing
                },
                ScreenKey::Char('d') => {
                    if on_machine {
                        let m = self.machines[self.table.cursor].duplicate();
                        self.delete_confirm = Some(DeleteState::new(m));
                    }
                    ScreenAction::Nothing
                },
                ScreenKey::Char('s') => {
                    self.show_secrets = !self.show_secrets;
                    self.rebuild_table();
                    ScreenAction::Nothing
                },
                _ => ScreenAction::Nothing,
            }
        }
    }

    /// Only the open form may differ from `other`.
    pub open spec fn same_but_form(&self, other: Screen) -> bool {
        &&& self.machines == other.machines
        &&& self.table == other.table
        &&& self.search_input == other.search_input
        &&& self.search_focused == other.search_focused
        &&& self.show_secrets == other.show_secrets
        &&& self.delete_confirm == other.delete_confirm
    }

    /// Only the delete confirmation may differ from `other`.
    pub open spec fn same_but_dialog(&self, other: Screen) -> bool {
        &&& self.machines == other.machines
        &&& self.table == other.table
        &&& self.search_input == other.search_input
        &&& self.search_focused == other.search_focused
        &&& self.show_secrets == other.show_secrets
        &&& self.form == other.form
    }

    /// Only the search text and focus may differ from `other`.
    pub open spec fn same_but_search(&self, other: Screen) -> bool {
        &&& self.machines == other.machines
        &&& self.table == other.table
        &&& self.show_secrets == other.show_secrets
        &&& self.form == other.form
        &&& self.delete_confirm == other.delete_confirm
    }

    /// Handles text pasted into the screen: typed into the open form, or
    /// appended to a focused search (which then asks for a reload).
    pub fn on_paste(&mut self, data: &str) -> (r: ScreenAction)
        requires
            old(self).ok(),
        ensures
            final(self).ok(),
            old(self).form is Some ==> r == ScreenAction::Nothing && final(self).same_but_form(*old(self))
                && (final(self).form matches Some(g) && paste_effect(old(self).form->0, data@, g)),
            (old(self).form is None && old(self).search_focused) ==> r == ScreenAction::Reload
                && final(self).search_input@ == old(self).search_input@ + data@
                && final(self).search_focused && final(self).same_but_search(*old(self)),
            (old(self).form is None && !old(self).search_focused) ==> r == ScreenAction::Nothing
                && *final(self) == *old(self),
    {
        if self.form.is_some() {
            let mut f = self.form.take().unwrap();
            f.handle_paste(data);
            self.form = Some(f);
            ScreenAction::Nothing
        } else if self.search_focused {
            let mut v = crate::text::str_chars(self.search_input.as_str());
            push_str(&mut v, data);
            self.search_input = string_of(&v);
            ScreenAction::Reload
        } else {
            ScreenAction::Nothing
        }
    }

    /// Reports how storing the form went: on success the form closes and
    /// the list reloads; an error is shown in the form, which stays open.
    pub fn save_finished(&mut self, error: Option<String>) -> (r: ScreenAction)
        requires
            old(self).ok(),
        ensures
            final(self).ok(),
            final(self).same_but_form(*old(self)),
            error is None ==> r == ScreenAction::Reload && final(self).form is None,
            error matches Some(e) ==> r == ScreenAction::Nothing && (old(self).form is Some
                ==> (final(self).form matches Some(f) && f.error == Some(e)
                    && f.fields == old(self).form->0.fields && f.step == old(self).form->0.step)),
    {
        match error {
            None => {
                self.form = None;
                ScreenAction::Reload
            },
            Some(e) => {
                if self.form.is_some() {
                    let mut f = self.form.take().unwrap();
                    f.error = Some(e);
                    self.form = Some(f);
                }
                ScreenAction::Nothing
            },
        }
    }

    /// Reports how deleting went: on success the confirmation closes and
    /// the list reloads; on failure the confirmation stays open.
    pub fn delete_finished(&mut self, ok: bool) -> (r: ScreenAction)
        requires
            old(self).ok(),
        ensures
            final(self).ok(),
            ok ==> r == ScreenAction::Reload && final(self).delete_confirm is None
                && final(self).same_but_dialog(*old(self)),
            !ok ==> r == ScreenAction::Nothing && *final(self) == *old(self),
    {
        if ok {
            self.delete_confirm = None;
            ScreenAction::Reload
        } else {
            ScreenAction::Nothing
        }
    }
}

/// The search bar's text.
pub open spec fn search_line(input: Seq<char>, focused: bool) -> Seq<char> {
    if focused {
        "search> "@ + input + seq!['▌']
    } else if input.len() > 0 {
        "search> "@ + input
    } else {
        "search> (press / to search)"@
    }
}

/// Key hints for the bottom bar: for the focused search, the open form, the
/// delete confirmation, or the list itself.
pub open spec fn help_spec(search_focused: bool, form_open: bool, delete_open: bool) -> Seq<(Seq<char>, Seq<char>)> {
    if search_focused {
        seq![("Esc"@, "clear"@), ("↵"@, "commit"@), ("↑↓"@, "navigate"@)]
    } else if form_open {
        seq![("↑↓"@, "field"@), ("Tab"@, "next"@), ("S-Tab"@, "prev"@), ("↵"@, "save"@), ("Esc"@, "cancel"@)]
    } else if delete_open {
        seq![("y"@, "yes"@), ("n"@, "no"@), ("Esc"@, "cancel"@)]
    } else {
        seq![("↑↓"@, "sel"@), ("↵"@, "login"@), ("b"@, "browse"@), ("e"@, "edit"@), ("a"@, "add"@),
            ("d"@, "del"@), ("s"@, "secrets"@), ("/"@, "search"@), ("q"@, "quit"@)]
    }
}

/// The status texts at the left of the bottom bar: position, separator,
/// user, `@`, `host:port`, separator, `secrets ` and `show` or `hide` for the
/// selected machine; `0/0`, separator and `no machines` when none is.
pub open spec fn status_spec(ms: Seq<Machine>, cursor: nat, show_secrets: bool) -> Seq<Seq<char>> {
    if cursor < ms.len() {
        let m = ms[cursor as int];
        seq![dec(cursor + 1) + seq!['/'] + dec(ms.len()), " │ "@, m.username@, "@"@,
            m.target() + seq![':'] + crate::text::dec_int(m.port as int), " │ "@, "secrets "@,
            if show_secrets { "show"@ } else { "hide"@ }]
    } else {
        seq!["0/0"@, " │ "@, "no machines"@]
    }
}

/// Columns taken by the hints: key, colon, description and two spaces each.
pub open spec fn hints_width(items: Seq<(Seq<char>, Seq<char>)>) -> nat
    decreases items.len(),
{
    if items.len() == 0 {
        0
    } else {
        hints_width(items.drop_last()) + str_width(items.last().0) as nat + 1 + utf8_len(items.last().1) + 2
    }
}

/// Columns taken by the status texts.
pub open spec fn texts_width(parts: Seq<Seq<char>>) -> nat
    decreases parts.len(),
{
    if parts.len() == 0 { 0 } else { texts_width(parts.drop_last()) + str_width(parts.last()) as nat }
}

/// The string pairs `r` spell the pairs `h`.
pub open spec fn pairs_are(r: Seq<(&'static str, &'static str)>, h: Seq<(Seq<char>, Seq<char>)>) -> bool {
    r.len() == h.len() && forall|i: int| 0 <= i < r.len() ==> (#[trigger] r[i]).0@ == h[i].0 && r[i].1@ == h[i].1
}

/// Blank columns between the status texts and the hints on a bar `width`
/// columns wide, none when they do not fit.
pub open spec fn padding_for(width: nat, parts: Seq<Seq<char>>, items: Seq<(Seq<char>, Seq<char>)>) -> nat {
    let used = texts_width(parts) + hints_width(items);
    if used >= width { 0 } else { (width - used) as nat }
}

fn add_capped(total: usize, term: u128, cap: usize) -> (r: usize)
    requires
        total <= cap,
    ensures
        r as int == (if total + term >= cap { cap as int } else { total + term }),
{
    if term >= (cap - total) as u128 {
        cap
    } else {
        total + term as usize
    }
}

/// Blank columns between the status texts and the hints (see `padding_for`).
pub fn bottom_padding(width: usize, parts: &Vec<String>, items: &Vec<(&'static str, &'static str)>) -> (r: usize)
    ensures
        r as nat == padding_for(width as nat, parts@.map_values(|p: String| p@),
            items@.map_values(|h: (&'static str, &'static str)| (h.0@, h.1@))),
{
    let ghost ps = parts@.map_values(|p: String| p@);
    let ghost hs = items@.map_values(|h: (&'static str, &'static str)| (h.0@, h.1@));
    let mut total: usize = 0;
    let mut i: usize = 0;
    while i < parts.len()
        invariant
            i <= parts@.len(),
            ps == parts@.map_values(|p: String| p@),
            total <= width,
            total as int == (if texts_width(ps.take(i as int)) >= width { width as int } else { texts_width(ps.take(i as int)) as int }),
        decreases parts@.len() - i,
    {
        let w = crate::width::str_width_of(parts[i].as_str());
        assert(ps.take(i as int + 1).drop_last() =~= ps.take(i as int));
        total = add_capped(total, w as u128, width);
        i = i + 1;
    }
    assert(ps.take(parts@.len() as int) =~= ps);
    let mut j: usize = 0;
    while j < items.len()
        invariant
            j <= items@.len(),
            ps == parts@.map_values(|p: String| p@),
            hs == items@.map_values(|h: (&'static str, &'static str)| (h.0@, h.1@)),
            total <= width,
            total as int == (if texts_width(ps) + hints_width(hs.take(j as int)) >= width { width as int }
                else { (texts_width(ps) + hints_width(hs.take(j as int))) as int }),
        decreases items@.len() - j,
    {
        let (k, d) = items[j];
        let kw = crate::width::str_width_of(k);
        let dl = utf8_len_of(&crate::text::str_chars(d));
        assert(hs.take(j as int + 1).drop_last() =~= hs.take(j as int));
        total = add_capped(total, kw as u128, width);
        total = add_capped(total, 1, width);
        if dl >= (width - total) as u128 {
            total = width;
        } else {
            total = total + dl as usize;
        }
        total = add_capped(total, 2, width);
        j = j + 1;
    }
    assert(hs.take(items@.len() as int) =~= hs);
    width - total
}

impl Screen {
    /// The search bar's text.
    pub fn search_text(&self) -> (r: String)
        ensures
            r@ == search_line(self.search_input@, self.search_focused),
    {
        let mut v: Vec<char> = Vec::new();
        proof {
            reveal_strlit("search> ");
            reveal_strlit("search> (press / to search)");
        }
        if self.search_focused {
            push_str(&mut v, "search> ");
            push_str(&mut v, self.search_input.as_str());
            v.push('▌');
        } else if !self.search_input.as_str().is_empty() {
            push_str(&mut v, "search> ");
            push_str(&mut v, self.search_input.as_str());
        } else {
            push_str(&mut v, "search> (press / to search)");
        }
        assert(v@ =~= search_line(self.search_input@, self.search_focused));
        string_of(&v)
    }

    /// The key hints for the bottom bar.
    pub fn help_items(&self) -> (r: Vec<(&'static str, &'static str)>)
        ensures
            pairs_are(r@, help_spec(self.search_focused, self.form is Some, self.delete_confirm is Some)),
    {
        proof {
            reveal_strlit("Esc"); reveal_strlit("clear"); reveal_strlit("↵"); reveal_strlit("commit");
            reveal_strlit("↑↓"); reveal_strlit("navigate"); reveal_strlit("field"); reveal_strlit("Tab");
            reveal_strlit("next"); reveal_strlit("S-Tab"); reveal_strlit("prev"); reveal_strlit("save");
            reveal_strlit("cancel"); reveal_strlit("y"); reveal_strlit("yes"); reveal_strlit("n");
            reveal_strlit("no"); reveal_strlit("sel"); reveal_strlit("login"); reveal_strlit("b");
            reveal_strlit("browse"); reveal_strlit("e"); reveal_strlit("edit"); reveal_strlit("a");
            reveal_strlit("add"); reveal_strlit("d"); reveal_strlit("del"); reveal_strlit("s");
            reveal_strlit("secrets"); reveal_strlit("/"); reveal_strlit("search"); reveal_strlit("q");
            reveal_strlit("quit");
        }
        if self.search_focused {
            vec![("Esc", "clear"), ("↵", "commit"), ("↑↓", "navigate")]
        } else if self.form.is_some() {
            vec![("↑↓", "field"), ("Tab", "next"), ("S-Tab", "prev"), ("↵", "save"), ("Esc", "cancel")]
        } else if self.delete_confirm.is_some() {
            vec![("y", "yes"), ("n", "no"), ("Esc", "cancel")]
        } else {
            vec![("↑↓", "sel"), ("↵", "login"), ("b", "browse"), ("e", "edit"), ("a", "add"), ("d", "del"),
                ("s", "secrets"), ("/", "search"), ("q", "quit")]
        }
    }

    /// The status texts at the left of the bottom bar (see `status_spec`).
    pub fn status_parts(&self) -> (r: Vec<String>)
        ensures
            r@.map_values(|p: String| p@) == status_spec(self.machines@, self.table.cursor as nat, self.show_secrets),
    {
        let mut r: Vec<String> = Vec::new();
        proof {
            reveal_strlit(" │ "); reveal_strlit("@"); reveal_strlit("secrets "); reveal_strlit("show");
            reveal_strlit("hide"); reveal_strlit("0/0"); reveal_strlit("no machines");
        }
        if self.table.cursor < self.machines.len() {
            let m = &self.machines[self.table.cursor];
            let mut pos: Vec<char> = Vec::new();
            push_dec(&mut pos, (self.table.cursor + 1) as u128);
            pos.push('/');
            push_dec(&mut pos, self.machines.len() as u128);
            r.push(string_of(&pos));
            r.push(owned(" │ "));
            r.push(m.username.clone());
            r.push(owned("@"));
            let mut host: Vec<char> = Vec::new();
            push_str(&mut host, m.effective_host());
            host.push(':');
            crate::text::push_dec_i64(&mut host, m.port as i64);
            r.push(string_of(&host));
            r.push(owned(" │ "));
            r.push(owned("secrets "));
            r.push(owned(if self.show_secrets { "show" } else { "hide" }));
            assert(r@[0]@ == dec(self.table.cursor as nat + 1) + seq!['/'] + dec(self.machines@.len()));
            assert(r@[4]@ == m.target() + seq![':'] + crate::text::dec_int(m.port as int));
        } else {
            r.push(owned("0/0"));
            r.push(owned(" │ "));
            r.push(owned("no machines"));
        }
        assert(r@.map_values(|p: String| p@) =~= status_spec(self.machines@, self.table.cursor as nat, self.show_secrets));
        r
    }
}

/// Typing a character into the search and erasing it again gives back the
/// search text from before.
pub proof fn law_type_then_erase(q: Seq<char>, c: char)
    ensures
        popped(q.push(c)) == q,
{
    assert(q.push(c).drop_last() =~= q);
}

} // verus!
