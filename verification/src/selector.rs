//! The inline picker shown when a quick-login query matches several
//! machines: its rows, its key handling and the text that redraws a row.

use vstd::prelude::*;
use crate::display::{pad_right, padded_right};
use crate::machine::Machine;
use crate::text::{dec, dec_int, push_dec, push_dec_i64, push_str, string_of};

verus! {

/// Escape sequence for bold cyan text.
pub const BOLD_CYAN: &'static str = "\x1b[1;36m";
/// Escape sequence for bold green text.
pub const BOLD_GREEN: &'static str = "\x1b[1;32m";
/// Escape sequence for bold bright white text.
pub const BOLD_WHITE: &'static str = "\x1b[1;97m";
/// Escape sequence for dim grey text.
pub const DIM: &'static str = "\x1b[90m";
/// Escape sequence that resets all attributes.
pub const RESET: &'static str = "\x1b[0m";

/// The picker row for the machine at position `idx` (counting from 0).
pub open spec fn picker_row(idx: nat, m: Machine) -> Seq<char> {
    padded_right(dec(idx + 1), 4) + padded_right(m.ip@, 15) + padded_right(m.nat_ip@, 12)
        + padded_right(dec_int(m.port as int), 6) + padded_right(m.username@, 10)
        + padded_right(m.remark@, 20)
}

/// The row text for the machine at position `idx`.
pub fn format_row(idx: usize, m: &Machine) -> (r: String)
    requires
        idx < usize::MAX,
    ensures
        r@ == picker_row(idx as nat, *m),
{
    let mut ord: Vec<char> = Vec::new();
    push_dec(&mut ord, (idx + 1) as u128);
    let ord = string_of(&ord);
    let mut port: Vec<char> = Vec::new();
    push_dec_i64(&mut port, m.port as i64);
    let port = string_of(&port);
    let mut out: Vec<char> = Vec::new();
    push_str(&mut out, pad_right(ord.as_str(), 4).as_str());
    push_str(&mut out, pad_right(m.ip.as_str(), 15).as_str());
    push_str(&mut out, pad_right(m.nat_ip.as_str(), 12).as_str());
    push_str(&mut out, pad_right(port.as_str(), 6).as_str());
    push_str(&mut out, pad_right(m.username.as_str(), 10).as_str());
    push_str(&mut out, pad_right(m.remark.as_str(), 20).as_str());
    assert(out@ =~= picker_row(idx as nat, *m));
    string_of(&out)
}

/// The picker's heading: each column title padded to its width, in bold cyan.
pub open spec fn picker_header() -> Seq<char> {
    "  "@
        + BOLD_CYAN@ + padded_right("#"@, 4) + RESET@
        + BOLD_CYAN@ + padded_right("IP"@, 15) + RESET@
        + BOLD_CYAN@ + padded_right("NAT-IP"@, 12) + RESET@
        + BOLD_CYAN@ + padded_right("Port"@, 6) + RESET@
        + BOLD_CYAN@ + padded_right("User"@, 10) + RESET@
        + BOLD_CYAN@ + padded_right("Remark"@, 20) + RESET@
}

fn push_heading(out: &mut Vec<char>, title: &str, width: usize)
    ensures
        final(out)@ == old(out)@ + BOLD_CYAN@ + padded_right(title@, width as nat) + RESET@,
{
    push_str(out, BOLD_CYAN);
    push_str(out, pad_right(title, width).as_str());
    push_str(out, RESET);
    assert(final(out)@ =~= old(out)@ + BOLD_CYAN@ + padded_right(title@, width as nat) + RESET@);
}

/// The heading line printed above the picker rows.
pub fn header_line() -> (r: String)
    ensures
        r@ == picker_header(),
{
    let mut out: Vec<char> = Vec::new();
    push_str(&mut out, "  ");
    push_heading(&mut out, "#", 4);
    push_heading(&mut out, "IP", 15);
    push_heading(&mut out, "NAT-IP", 12);
    push_heading(&mut out, "Port", 6);
    push_heading(&mut out, "User", 10);
    push_heading(&mut out, "Remark", 20);
    assert(out@ =~= picker_header());
    string_of(&out)
}

/// A picker line: the marker `▸` in bold white on the selected row, a dim
/// blank otherwise, then the row text.
pub open spec fn marked_row(text: Seq<char>, selected: bool) -> Seq<char> {
    if selected {
        BOLD_WHITE@ + seq!['▸'] + RESET@ + text
    } else {
        DIM@ + seq![' '] + RESET@ + text
    }
}

/// A picker line as first printed, indented by two spaces.
pub fn row_line(text: &str, selected: bool) -> (r: String)
    ensures
        r@ == "  "@ + marked_row(text@, selected),
{
    let mut out: Vec<char> = Vec::new();
    push_str(&mut out, "  ");
    if selected {
        push_str(&mut out, BOLD_WHITE);
        out.push('▸');
    } else {
        push_str(&mut out, DIM);
        out.push(' ');
    }
    push_str(&mut out, RESET);
    push_str(&mut out, text);
    assert(out@ =~= "  "@ + marked_row(text@, selected));
    string_of(&out)
}

/// The output that repaints row `idx` of `count` printed rows in place, with
/// the cursor resting on the last row: move up to it, clear it, print it
/// marked or not, and move back down.
pub open spec fn redraw_text(count: nat, idx: nat, text: Seq<char>, selected: bool) -> Seq<char> {
    let up = count - 1 - idx;
    let go_up = if up > 0 { "\x1b["@ + dec(up as nat) + "A"@ } else { Seq::empty() };
    let go_down = if up > 0 { "\x1b["@ + dec(up as nat) + "B"@ } else { Seq::empty() };
    go_up + "\r\x1b[2K  "@ + marked_row(text, selected) + go_down
}

/// The text that repaints row `idx` (see `redraw_text`).
pub fn redraw_row(machine_count: usize, idx: usize, text: &str, selected: bool) -> (r: String)
    requires
        idx < machine_count,
    ensures
        r@ == redraw_text(machine_count as nat, idx as nat, text@, selected),
{
    let up = machine_count - 1 - idx;
    let mut out: Vec<char> = Vec::new();
    if up > 0 {
        push_str(&mut out, "\x1b[");
        push_dec(&mut out, up as u128);
        push_str(&mut out, "A");
    }
    push_str(&mut out, "\r\x1b[2K  ");
    if selected {
        push_str(&mut out, BOLD_WHITE);
        out.push('▸');
    } else {
        push_str(&mut out, DIM);
        out.push(' ');
    }
    push_str(&mut out, RESET);
    push_str(&mut out, text);
    if up > 0 {
        push_str(&mut out, "\x1b[");
        push_dec(&mut out, up as u128);
        push_str(&mut out, "B");
    }
    assert(out@ =~= redraw_text(machine_count as nat, idx as nat, text@, selected));
    string_of(&out)
}

/// A key as the picker sees it.
#[derive(Debug, Clone, Copy, PartialEq, Eq, Structural)]
pub enum PickKey {
    /// Up arrow or `k`.
    Up,
    /// Down arrow or `j`.
    Down,
    /// Enter.
    Enter,
    /// Esc, `q` or Ctrl+C.
    Cancel,
    /// Anything else.
    Other,
}

/// What the picker does after a key.
#[derive(Debug, Clone, Copy, PartialEq, Eq, Structural)]
pub enum PickStep {
    /// Nothing changes.
    Stay,
    /// The cursor moved: repaint row `old` unmarked and row `new` marked.
    Moved { old: usize, new: usize },
    /// The picker closes; the chosen row, if any.
    Finish(Option<usize>),
}

/// An open picker over at least two machines.
pub struct Picker {
    pub machines: Vec<Machine>,
    pub rows: Vec<String>,
    pub cursor: usize,
}

impl Picker {
    /// The picker holds a row per machine and its cursor is on one of them.
    pub open spec fn well_formed(&self) -> bool {
        &&& self.machines@.len() >= 2
        &&& self.rows@.len() == self.machines@.len()
        &&& self.cursor < self.machines@.len()
        &&& forall|i: int| 0 <= i < self.rows@.len()
            ==> #[trigger] self.rows@[i]@ == picker_row(i as nat, self.machines@[i])
    }

    /// Handles one key: arrows move the cursor within the rows, Enter
    /// chooses the row under it, Esc, `q` and Ctrl+C close with no choice.
    pub fn on_key(&mut self, key: PickKey) -> (r: PickStep)
        requires
            old(self).well_formed(),
        ensures
            final(self).well_formed(),
            final(self).machines@ == old(self).machines@,
            final(self).rows@ == old(self).rows@,
            r == (match key {
                PickKey::Up => if old(self).cursor > 0 {
                    PickStep::Moved { old: old(self).cursor, new: (old(self).cursor - 1) as usize }
                } else {
                    PickStep::Stay
                },
                PickKey::Down => if old(self).cursor + 1 < old(self).machines@.len() {
                    PickStep::Moved { old: old(self).cursor, new: (old(self).cursor + 1) as usize }
                } else {
                    PickStep::Stay
                },
                PickKey::Enter => PickStep::Finish(Some(old(self).cursor)),
                PickKey::Cancel => PickStep::Finish(None),
                PickKey::Other => PickStep::Stay,
            }),
            final(self).cursor == (match r {
                PickStep::Moved { old, new } => new,
                _ => old(self).cursor,
            }),
    {
        match key {
            PickKey::Up => {
                if self.cursor > 0 {
                    let old = self.cursor;
                    self.cursor = self.cursor - 1;
                    PickStep::Moved { old, new: self.cursor }
                } else {
                    PickStep::Stay
                }
            },
            PickKey::Down => {
                if self.cursor < self.machines.len() - 1 {
                    let old = self.cursor;
                    self.cursor = self.cursor + 1;
                    PickStep::Moved { old, new: self.cursor }
                } else {
                    PickStep::Stay
                }
            },
            PickKey::Enter => PickStep::Finish(Some(self.cursor)),
            PickKey::Cancel => PickStep::Finish(None),
            PickKey::Other => PickStep::Stay,
        }
    }
}

/// How a selection starts.
pub enum Selection {
    /// Decided without asking: nothing to choose from, or the only machine.
    Done(Option<Machine>),
    /// Several machines: the picker to show, its cursor on the first row.
    Ask(Picker),
}

/// Starts choosing among `machines`: none gives no choice, one is chosen
/// at once, several open a picker on the first row.
pub fn select_machine(machines: Vec<Machine>) -> (r: Selection)
    ensures
        machines@.len() == 0 ==> r matches Selection::Done(None),
        machines@.len() == 1 ==> (r matches Selection::Done(Some(m)) && m == machines@[0]),
        machines@.len() >= 2 ==> (r matches Selection::Ask(p) && p.well_formed() && p.cursor == 0
            && p.machines@ == machines@),
{
    if machines.len() == 0 {
        return Selection::Done(None);
    }
    if machines.len() == 1 {
        let mut machines = machines;
        let m = machines.remove(0);
        return Selection::Done(Some(m));
    }
    let mut rows: Vec<String> = Vec::new();
    let mut i: usize = 0;
    while i < machines.len()
        invariant
            i <= machines@.len(),
            rows@.len() == i,
            forall|k: int| 0 <= k < i ==> #[trigger] rows@[k]@ == picker_row(k as nat, machines@[k]),
        decreases machines@.len() - i,
    {
        rows.push(format_row(i, &machines[i]));
        i = i + 1;
    }
    Selection::Ask(Picker { machines, rows, cursor: 0 })
}

} // verus!
