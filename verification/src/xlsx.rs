//! Spreadsheet rows: recognising description rows, turning imported rows
//! into machines and machines into exported rows.

use vstd::prelude::*;
use crate::machine::{Machine, shown_field, shown_value};
use crate::text::{dec, dec_int, owned, push_dec, push_dec_i64, str_chars, string_of};

verus! {

/// What `str::to_uppercase` (std) returns for a string with characters `s`.
pub uninterp spec fn uppercase(s: Seq<char>) -> Seq<char>;

/// The upper-case form of an ASCII character: `a` to `z` become `A` to
/// `Z`, every other character stays.
pub open spec fn ascii_upper(c: char) -> char {
    if 'a' <= c && c <= 'z' { ((c as u32) - 32) as char } else { c }
}

/// Every character of `s` is ASCII.
pub open spec fn all_ascii(s: Seq<char>) -> bool {
    forall|i: int| 0 <= i < s.len() ==> (#[trigger] s[i] as u32) < 128
}

/// `str::to_uppercase`: the Unicode upper-case mapping of the whole string,
/// named `uppercase`. Stated beyond the name: on ASCII text, whose Unicode
/// upper-case mapping is the ASCII one, each letter `a`-`z` becomes `A`-`Z`
/// and every other character stays.
#[verifier::external_body]
fn to_uppercase(s: &str) -> (r: String)
    ensures
        r@ == uppercase(s@),
        all_ascii(s@) ==> r@ == s@.map_values(|c: char| ascii_upper(c)),
{
    s.to_uppercase()
}

/// `t` occurs in `s` as a contiguous run of characters.
pub open spec fn has_substring(s: Seq<char>, t: Seq<char>) -> bool {
    exists|i: int| 0 <= i && i + t.len() <= s.len() && #[trigger] s.subrange(i, i + t.len()) == t
}

/// A CJK ideograph from the basic block or extension A.
pub open spec fn is_han(c: char) -> bool {
    let u = c as u32;
    (0x4E00 <= u && u <= 0x9FFF) || (0x3400 <= u && u <= 0x4DBF)
}

/// A first cell that describes the sheet rather than holding an address:
/// empty, containing Chinese text, or mentioning IP, SSH or LOCAL in any case.
pub open spec fn is_description(s: Seq<char>) -> bool {
    s.len() == 0
        || (exists|i: int| 0 <= i < s.len() && is_han(#[trigger] s[i]))
        || has_substring(uppercase(s), "IP"@)
        || has_substring(uppercase(s), "SSH"@)
        || has_substring(uppercase(s), "LOCAL"@)
}

fn contains_text(s: &Vec<char>, t: &Vec<char>) -> (r: bool)
    ensures
        r == has_substring(s@, t@),
{
    if t.len() > s.len() {
        return false;
    }
    let mut i: usize = 0;
    while i <= s.len() - t.len()
        invariant
            t.len() <= s.len(),
            i <= s.len() - t.len() + 1,
            forall|k: int| 0 <= k < i ==> #[trigger] s@.subrange(k, k + t@.len()) != t@,
        decreases s.len() - i,
    {
        let mut j: usize = 0;
        while j < t.len() && s[i + j] == t[j]
            invariant
                i + t.len() <= s.len(),
                j <= t.len(),
                forall|m: int| 0 <= m < j ==> s@[i + m] == t@[m],
            decreases t.len() - j,
        {
            j = j + 1;
        }
        if j == t.len() {
            assert(s@.subrange(i as int, i + t@.len()) =~= t@);
            return true;
        }
        assert(s@.subrange(i as int, i + t@.len())[j as int] != t@[j as int]);
        i = i + 1;
    }
    assert forall|k: int| 0 <= k && k + t@.len() <= s@.len() implies #[trigger] s@.subrange(k, k + t@.len()) != t@ by {
        assert(k < i);
    }
    false
}

/// True when the upper-cased text `upper` mentions `IP`, `SSH` or `LOCAL`.
pub fn mentions_keyword(upper: &str) -> (r: bool)
    ensures
        r == (has_substring(upper@, "IP"@) || has_substring(upper@, "SSH"@) || has_substring(upper@, "LOCAL"@)),
{
    let up = str_chars(upper);
    contains_text(&up, &str_chars("IP")) || contains_text(&up, &str_chars("SSH"))
        || contains_text(&up, &str_chars("LOCAL"))
}

/// True when the first cell of a row is a description, not an address.
pub fn looks_like_description(s: &str) -> (r: bool)
    ensures
        r == is_description(s@),
{
    let v = str_chars(s);
    if v.len() == 0 {
        return true;
    }
    let mut i: usize = 0;
    while i < v.len()
        invariant
            v@ == s@,
            i <= v.len(),
            forall|k: int| 0 <= k < i ==> !is_han(#[trigger] v@[k]),
        decreases v.len() - i,
    {
        let u = v[i] as u32;
        if (0x4E00 <= u && u <= 0x9FFF) || (0x3400 <= u && u <= 0x4DBF) {
            assert(is_han(s@[i as int]));
            return true;
        }
        i = i + 1;
    }
    let upper = to_uppercase(s);
    mentions_keyword(upper.as_str())
}

/// Cell `i` of a row, empty when the row is shorter.
pub open spec fn cell(row: Seq<Seq<char>>, i: int) -> Seq<char> {
    if 0 <= i < row.len() { row[i] } else { Seq::empty() }
}

/// `s`, or `default` when `s` is empty.
pub open spec fn or_default(s: Seq<char>, default: Seq<char>) -> Seq<char> {
    if s.len() == 0 { default } else { s }
}

/// The machine an imported row describes (cells already read as text), or
/// `None` for a row whose first cell is empty or a description. Missing
/// values become `"-"` (`root` for the user), an unreadable port 22.
pub open spec fn row_machine(row: Seq<Seq<char>>) -> Option<(Seq<char>, Seq<char>, int, Seq<char>, Seq<char>, Seq<char>, Seq<char>, Seq<char>)> {
    let ip = cell(row, 0);
    if ip.len() == 0 || is_description(ip) {
        None
    } else {
        Some((ip, or_default(cell(row, 1), seq!['-']),
            match crate::text::parsed_i32(cell(row, 2)) { Some(p) => p, None => 22 },
            or_default(cell(row, 3), "root"@), or_default(cell(row, 4), seq!['-']),
            or_default(cell(row, 5), seq!['-']), or_default(cell(row, 6), seq!['-']),
            or_default(cell(row, 7), seq!['-'])))
    }
}

/// The fields of a machine, in the order `row_machine` gives them.
pub open spec fn machine_fields(m: Machine) -> (Seq<char>, Seq<char>, int, Seq<char>, Seq<char>, Seq<char>, Seq<char>, Seq<char>) {
    (m.ip@, m.nat_ip@, m.port as int, m.username@, m.password@, m.private_key_path@, m.device@, m.remark@)
}

fn cell_or(row: &Vec<String>, i: usize, default: &str) -> (r: String)
    ensures
        r@ == or_default(cell(row@.map_values(|s: String| s@), i as int), default@),
{
    if i < row.len() && !row[i].as_str().is_empty() {
        row[i].clone()
    } else {
        owned(default)
    }
}

/// Reads one imported row (its cells as text) into a machine.
pub fn machine_from_row(row: &Vec<String>) -> (r: Option<Machine>)
    ensures
        match r {
            Some(m) => row_machine(row@.map_values(|s: String| s@)) == Some(machine_fields(m))
                && m.id == 0 && m.num == 0,
            None => row_machine(row@.map_values(|s: String| s@)) is None,
        },
{
    let ghost cells = row@.map_values(|s: String| s@);
    if row.len() == 0 || row[0].as_str().is_empty() || looks_like_description(row[0].as_str()) {
        return None;
    }
    let port: i32 = if row.len() > 2 {
        match crate::text::parse_i32(row[2].as_str()) { Some(p) => p, None => 22 }
    } else {
        proof { reveal_strlit(""); }
        match crate::text::parse_i32("") { Some(p) => p, None => 22 }
    };
    let m = Machine {
        id: 0,
        num: 0,
        nat_ip: cell_or(row, 1, "-"),
        ip: row[0].clone(),
        username: cell_or(row, 3, "root"),
        password: cell_or(row, 4, "-"),
        port,
        private_key_path: cell_or(row, 5, "-"),
        device: cell_or(row, 6, "-"),
        remark: cell_or(row, 7, "-"),
    };
    proof { reveal_strlit("-"); }
    assert(seq!['-'] =~= "-"@);
    Some(m)
}

/// Why an import was refused.
#[derive(Debug, Clone, Copy, PartialEq, Eq, Structural)]
pub enum ImportError {
    /// The sheet lacks a header row plus at least one data row.
    TooFewRows,
}

/// Reads the machines from a sheet's rows (cells as text), skipping the
/// header row and every row that `machine_from_row` rejects.
pub fn machines_from_rows(rows: &Vec<Vec<String>>) -> (r: Result<Vec<Machine>, ImportError>)
    ensures
        rows@.len() < 2 <==> r is Err,
        r matches Ok(ms) ==> ms@.map_values(|m: Machine| machine_fields(m))
            == rows@.skip(1).map_values(|row: Vec<String>| row_machine(row@.map_values(|s: String| s@)))
                .filter(|o: Option<_>| o is Some).map_values(|o: Option<_>| o->0),
{
    if rows.len() < 2 {
        return Err(ImportError::TooFewRows);
    }
    let ghost all = rows@.skip(1).map_values(|row: Vec<String>| row_machine(row@.map_values(|s: String| s@)));
    let ghost some = |o: Option<(Seq<char>, Seq<char>, int, Seq<char>, Seq<char>, Seq<char>, Seq<char>, Seq<char>)>| o is Some;
    let ghost get = |o: Option<(Seq<char>, Seq<char>, int, Seq<char>, Seq<char>, Seq<char>, Seq<char>, Seq<char>)>| o->0;
    let mut out: Vec<Machine> = Vec::new();
    let mut i: usize = 1;
    while i < rows.len()
        invariant
            1 <= i <= rows@.len(),
            all == rows@.skip(1).map_values(|row: Vec<String>| row_machine(row@.map_values(|s: String| s@))),
            some == (|o: Option<(Seq<char>, Seq<char>, int, Seq<char>, Seq<char>, Seq<char>, Seq<char>, Seq<char>)>| o is Some),
            get == (|o: Option<(Seq<char>, Seq<char>, int, Seq<char>, Seq<char>, Seq<char>, Seq<char>, Seq<char>)>| o->0),
            out@.map_values(|m: Machine| machine_fields(m)) == all.take(i - 1).filter(some).map_values(get),
        decreases rows@.len() - i,
    {
        let ghost k = i - 1;
        assert(all[k] == row_machine(rows@[i as int]@.map_values(|s: String| s@)));
        proof {
            all.take(k).lemma_filter_push(all[k], some);
            assert(all.take(k + 1) =~= all.take(k).push(all[k]));
        }
        match machine_from_row(&rows[i]) {
            Some(m) => {
                let ghost before = out@;
                out.push(m);
                assert(out@.map_values(|m: Machine| machine_fields(m))
                    =~= before.map_values(|m: Machine| machine_fields(m)).push(machine_fields(m)));
                assert(all.take(k).push(all[k]).filter(some) == all.take(k).filter(some).push(all[k]));
                assert(all.take(k).filter(some).push(all[k]).map_values(get)
                    =~= all.take(k).filter(some).map_values(get).push(get(all[k])));
            },
            None => {},
        }
        i = i + 1;
    }
    assert(all.take(rows@.len() - 1) =~= all);
    Ok(out)
}

/// The exported row for the machine at position `idx` (counting from 0):
/// its ordinal, address, NAT address, port, user, password, key, device
/// and remark.
pub open spec fn export_row_spec(idx: nat, m: Machine) -> Seq<Seq<char>> {
    seq![dec(idx + 1), shown_field(m.ip@), shown_field(m.nat_ip@), shown_field(dec_int(m.port as int)),
        shown_field(m.username@), shown_field(m.password@), shown_field(m.private_key_path@),
        shown_field(m.device@), shown_field(m.remark@)]
}

/// The cells written for machine `m` at position `idx` of an export.
pub fn export_row(idx: usize, m: &Machine) -> (r: Vec<String>)
    requires
        idx < usize::MAX,
    ensures
        r@.map_values(|s: String| s@) == export_row_spec(idx as nat, *m),
{
    let mut ord: Vec<char> = Vec::new();
    push_dec(&mut ord, (idx + 1) as u128);
    let mut port: Vec<char> = Vec::new();
    push_dec_i64(&mut port, m.port as i64);
    let port = string_of(&port);
    let mut r: Vec<String> = Vec::new();
    r.push(string_of(&ord));
    r.push(shown_value(&m.ip));
    r.push(shown_value(&m.nat_ip));
    r.push(shown_value(&port));
    r.push(shown_value(&m.username));
    r.push(shown_value(&m.password));
    r.push(shown_value(&m.private_key_path));
    r.push(shown_value(&m.device));
    r.push(shown_value(&m.remark));
    assert(r@.map_values(|s: String| s@) =~= export_row_spec(idx as nat, *m));
    r
}

} // verus!
