//! The plain-text machine listing printed by the `show` command.

use vstd::prelude::*;
use crate::display::{pad_left, pad_right, padded_left, padded_right};
use crate::machine::{Machine, shown_field, shown_value};
use crate::table::{widest_cell, widest_cell_of, row_views, views};
use crate::text::{dec, dec_int, push_dec, push_dec_i64, push_repeat, push_str, repeat_char, str_chars, string_of};
use crate::utf8::{utf8_len, lemma_utf8_len_encoded};
use crate::width::{str_width, str_width_of};

verus! {

/// `s` aligned in a column of `width`: padded on the right when
/// `align_left`, on the left otherwise.
pub open spec fn aligned(s: Seq<char>, width: nat, align_left: bool) -> Seq<char> {
    if align_left { padded_right(s, width) } else { padded_left(s, width) }
}

/// Pads `s` to `width` display columns on the side away from its alignment.
pub fn pad_str(s: &str, width: usize, align_left: bool) -> (r: String)
    ensures
        r@ == aligned(s@, width as nat, align_left),
{
    if align_left {
        pad_right(s, width)
    } else {
        pad_left(s, width)
    }
}

/// Column headings of the listing.
pub open spec fn listing_titles() -> Seq<Seq<char>> {
    seq!["#"@, "IP"@, "NAT-IP"@, "Port"@, "User"@, "Password"@, "Key"@, "Device"@, "Remark"@]
}

/// Every column is left-aligned except the ordinal and the port.
pub open spec fn listing_left(i: int) -> bool {
    i != 0 && i != 3
}

/// The cells printed for one machine.
pub open spec fn listing_cells(m: Machine) -> Seq<Seq<char>> {
    seq![dec_int(m.num as int), m.ip@, shown_field(m.nat_ip@), dec_int(m.port as int), m.username@,
        shown_field(m.password@), shown_field(m.private_key_path@), shown_field(m.device@),
        shown_field(m.remark@)]
}

/// Width of listing column `i`: the widest of its heading, its cells and 3.
pub open spec fn listing_width(rows: Seq<Seq<Seq<char>>>, i: int) -> nat {
    let t = str_width(listing_titles()[i]) as nat;
    let c = widest_cell(rows, i);
    let m: nat = if t > c { t } else { c };
    if m > 3 { m } else { 3 }
}

/// The first `n` cells, each aligned to its column, separated by two spaces.
pub open spec fn listing_line(cells: Seq<Seq<char>>, widths: Seq<nat>, n: nat) -> Seq<char>
    decreases n,
{
    if n == 0 {
        Seq::empty()
    } else if n == 1 {
        aligned(cells[0], widths[0], listing_left(0))
    } else {
        listing_line(cells, widths, (n - 1) as nat) + "  "@
            + aligned(cells[n - 1], widths[n - 1], listing_left(n - 1))
    }
}

/// Column widths of a listing of `ms`.
pub open spec fn listing_widths(ms: Seq<Machine>) -> Seq<nat> {
    let rows = ms.map_values(|m: Machine| listing_cells(m));
    Seq::new(9, |i: int| listing_width(rows, i))
}

/// The heading line of a listing of `ms`.
pub open spec fn listing_header(ms: Seq<Machine>) -> Seq<char> {
    listing_line(listing_titles(), listing_widths(ms), 9)
}

/// The rule under and over the rows: one `-` per byte of the heading line.
pub open spec fn listing_rule(ms: Seq<Machine>) -> Seq<char> {
    repeat_char('-', (utf8_len(listing_header(ms)) as usize) as nat)
}

/// The closing count, right-aligned under the heading's byte length.
pub open spec fn listing_total(ms: Seq<Machine>) -> Seq<char> {
    let text = "Total: "@ + dec(ms.len()) + " machines"@;
    let hb = (utf8_len(listing_header(ms)) as usize) as nat;
    let w = str_width(text) as nat;
    repeat_char(' ', if hb > w { (hb - w) as nat } else { 0 }) + text
}

/// Every line printed for `ms`: heading, rule, one line per machine, rule
/// and total.
pub open spec fn listing_lines(ms: Seq<Machine>) -> Seq<Seq<char>> {
    seq![listing_header(ms), listing_rule(ms)]
        + ms.map_values(|m: Machine| listing_line(listing_cells(m), listing_widths(ms), 9))
        + seq![listing_rule(ms), listing_total(ms)]
}

fn dec_string(i: i32) -> (r: String)
    ensures
        r@ == dec_int(i as int),
{
    let mut v: Vec<char> = Vec::new();
    push_dec_i64(&mut v, i as i64);
    string_of(&v)
}

fn machine_cells(m: &Machine) -> (r: Vec<String>)
    ensures
        views(r@) == listing_cells(*m),
{
    let mut r: Vec<String> = Vec::new();
    r.push(dec_string(m.num));
    r.push(m.ip.clone());
    r.push(shown_value(&m.nat_ip));
    r.push(dec_string(m.port));
    r.push(m.username.clone());
    r.push(shown_value(&m.password));
    r.push(shown_value(&m.private_key_path));
    r.push(shown_value(&m.device));
    r.push(shown_value(&m.remark));
    assert(views(r@) =~= listing_cells(*m));
    r
}

fn title_list() -> (r: Vec<&'static str>)
    ensures
        r@.len() == 9,
        forall|i: int| 0 <= i < 9 ==> #[trigger] r@[i]@ == listing_titles()[i],
{
    proof {
        reveal_strlit("#");
        reveal_strlit("IP");
        reveal_strlit("NAT-IP");
        reveal_strlit("Port");
        reveal_strlit("User");
        reveal_strlit("Password");
        reveal_strlit("Key");
        reveal_strlit("Device");
        reveal_strlit("Remark");
    }
    vec!["#", "IP", "NAT-IP", "Port", "User", "Password", "Key", "Device", "Remark"]
}

fn line_of(cells: &Vec<String>, widths: &Vec<usize>, ghost_widths: Ghost<Seq<nat>>) -> (r: Vec<char>)
    requires
        cells@.len() == 9,
        widths@.len() == 9,
        ghost_widths@.len() == 9,
        forall|i: int| 0 <= i < 9 ==> widths@[i] as nat == #[trigger] ghost_widths@[i],
    ensures
        r@ == listing_line(views(cells@), ghost_widths@, 9),
{
    let mut out: Vec<char> = Vec::new();
    let mut i: usize = 0;
    while i < 9
        invariant
            i <= 9,
            cells@.len() == 9,
            widths@.len() == 9,
            ghost_widths@.len() == 9,
            forall|k: int| 0 <= k < 9 ==> widths@[k] as nat == #[trigger] ghost_widths@[k],
            out@ == listing_line(views(cells@), ghost_widths@, i as nat),
        decreases 9 - i,
    {
        if i > 0 {
            push_str(&mut out, "  ");
        }
        let cell = pad_str(cells[i].as_str(), widths[i], i != 0 && i != 3);
        push_str(&mut out, cell.as_str());
        proof {
            reveal_strlit("  ");
            assert(views(cells@)[i as int] == cells@[i as int]@);
        }
        i = i + 1;
        assert(out@ =~= listing_line(views(cells@), ghost_widths@, i as nat));
    }
    out
}

/// The lines that `show` prints for `machines`.
pub fn machine_listing(machines: &Vec<Machine>) -> (r: Vec<String>)
    ensures
        views(r@) == listing_lines(machines@),
{
    let ghost ms = machines@;
    let ghost rows_spec = ms.map_values(|m: Machine| listing_cells(m));
    let mut rows: Vec<Vec<String>> = Vec::new();
    let mut k: usize = 0;
    while k < machines.len()
        invariant
            k <= machines@.len(),
            ms == machines@,
            rows@.len() == k,
            forall|j: int| 0 <= j < k ==> #[trigger] views(rows@[j]@) == listing_cells(ms[j]),
        decreases machines@.len() - k,
    {
        rows.push(machine_cells(&machines[k]));
        k = k + 1;
    }
    assert(row_views(rows@) =~= rows_spec);
    let titles = title_list();
    let ghost gw = listing_widths(ms);
    let mut widths: Vec<usize> = Vec::new();
    let mut i: usize = 0;
    while i < 9
        invariant
            i <= 9,
            titles@.len() == 9,
            forall|j: int| 0 <= j < 9 ==> #[trigger] titles@[j]@ == listing_titles()[j],
            row_views(rows@) == rows_spec,
            rows_spec == ms.map_values(|m: Machine| listing_cells(m)),
            gw == listing_widths(ms),
            widths@.len() == i,
            forall|j: int| 0 <= j < i ==> widths@[j] as nat == #[trigger] gw[j],
        decreases 9 - i,
    {
        let t = str_width_of(titles[i]);
        let c = widest_cell_of(&rows, i);
        let m = if t > c { t } else { c };
        widths.push(if m > 3 { m } else { 3 });
        i = i + 1;
    }
    let mut title_cells: Vec<String> = Vec::new();
    let mut j: usize = 0;
    while j < 9
        invariant
            j <= 9,
            titles@.len() == 9,
            forall|q: int| 0 <= q < 9 ==> #[trigger] titles@[q]@ == listing_titles()[q],
            title_cells@.len() == j,
            forall|q: int| 0 <= q < j ==> #[trigger] title_cells@[q]@ == listing_titles()[q],
        decreases 9 - j,
    {
        title_cells.push(crate::text::owned(titles[j]));
        j = j + 1;
    }
    assert(views(title_cells@) =~= listing_titles());
    let header_chars = line_of(&title_cells, &widths, Ghost(gw));
    let header = string_of(&header_chars);
    let hb = header.as_str().len();
    proof {
        lemma_utf8_len_encoded(header@);
    }
    let mut rule_chars: Vec<char> = Vec::new();
    push_repeat(&mut rule_chars, '-', hb);
    let rule = string_of(&rule_chars);
    let mut lines: Vec<String> = Vec::new();
    lines.push(header);
    lines.push(rule.clone());
    let mut q: usize = 0;
    while q < rows.len()
        invariant
            q <= rows@.len(),
            rows@.len() == ms.len(),
            forall|p: int| 0 <= p < ms.len() ==> #[trigger] views(rows@[p]@) == listing_cells(ms[p]),
            widths@.len() == 9,
            gw.len() == 9,
            forall|p: int| 0 <= p < 9 ==> widths@[p] as nat == #[trigger] gw[p],
            gw == listing_widths(ms),
            lines@.len() == 2 + q,
            views(lines@) == seq![listing_header(ms), listing_rule(ms)]
                + ms.take(q as int).map_values(|m: Machine| listing_line(listing_cells(m), listing_widths(ms), 9)),
        decreases rows@.len() - q,
    {
        assert(rows@[q as int]@.len() == 9) by {
            assert(views(rows@[q as int]@).len() == listing_cells(ms[q as int]).len());
        }
        let l = line_of(&rows[q], &widths, Ghost(gw));
        let ghost before = lines@;
        lines.push(string_of(&l));
        assert(lines@[lines@.len() - 1]@ == listing_line(listing_cells(ms[q as int]), listing_widths(ms), 9));
        assert(views(lines@) =~= views(before).push(listing_line(listing_cells(ms[q as int]), listing_widths(ms), 9)));
        q = q + 1;
        assert(ms.take(q as int) =~= ms.take(q - 1).push(ms[q - 1]));
        assert(views(lines@) =~= seq![listing_header(ms), listing_rule(ms)]
            + ms.take(q as int).map_values(|m: Machine| listing_line(listing_cells(m), listing_widths(ms), 9)));
    }
    assert(ms.take(ms.len() as int) =~= ms);
    let mut total: Vec<char> = Vec::new();
    push_str(&mut total, "Total: ");
    push_dec(&mut total, machines.len() as u128);
    push_str(&mut total, " machines");
    let total_text = string_of(&total);
    let w = str_width_of(total_text.as_str());
    let pad = if hb > w { hb - w } else { 0 };
    let mut last: Vec<char> = Vec::new();
    push_repeat(&mut last, ' ', pad);
    push_str(&mut last, total_text.as_str());
    proof {
        reveal_strlit("Total: ");
        reveal_strlit(" machines");
    }
    lines.push(rule);
    lines.push(string_of(&last));
    assert(views(lines@) =~= listing_lines(ms));
    lines
}

} // verus!
