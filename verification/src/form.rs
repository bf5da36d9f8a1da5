//! The add/edit machine form: text fields with a UTF-8 byte cursor, a
//! device selector, validation and conversion to a machine record.

use vstd::prelude::*;
use crate::utf8::{char_len, utf8_len, chars_before, on_boundary, len_utf8, utf8_len_of, char_index_at,
    byte_offset, lemma_boundary_take, lemma_chars_before_prefix, lemma_utf8_len_take_mono, lemma_utf8_len_push};
use crate::text::{owned, str_chars, string_of};

verus! {

/// Field value and cursor after typing `c`: the character goes in at the
/// cursor and the cursor moves past it, unless the value would grow beyond
/// `max` bytes.
pub open spec fn typed(v: Seq<char>, b: nat, max: nat, c: char) -> (Seq<char>, nat) {
    if utf8_len(v) + char_len(c) <= max {
        (v.insert(chars_before(v, b as int) as int, c), b + char_len(c))
    } else {
        (v, b)
    }
}

/// Field value and cursor after typing every character of `s` in turn.
pub open spec fn typed_all(v: Seq<char>, b: nat, max: nat, s: Seq<char>) -> (Seq<char>, nat)
    decreases s.len(),
{
    if s.len() == 0 {
        (v, b)
    } else {
        let (v1, b1) = typed(v, b, max, s[0]);
        typed_all(v1, b1, max, s.drop_first())
    }
}

/// Field value and cursor after a backspace: the character before the
/// cursor goes and the cursor moves to where it started.
pub open spec fn backspaced(v: Seq<char>, b: nat) -> (Seq<char>, nat) {
    if b > 0 {
        let k = chars_before(v, b as int);
        (v.remove(k - 1), utf8_len(v.take(k - 1)))
    } else {
        (v, b)
    }
}

/// Cursor after moving one character to the left.
pub open spec fn moved_left(v: Seq<char>, b: nat) -> nat {
    if b > 0 {
        utf8_len(v.take(chars_before(v, b as int) - 1))
    } else {
        b
    }
}

/// Cursor after moving one character to the right.
pub open spec fn moved_right(v: Seq<char>, b: nat) -> nat {
    if b < utf8_len(v) {
        utf8_len(v.take(chars_before(v, b as int) as int + 1))
    } else {
        b
    }
}

/// One input field of the form.
pub struct FormField {
    pub label: String,
    pub value: String,
    /// Largest value length, in UTF-8 bytes.
    pub max_length: usize,
    pub width: usize,
    /// Cursor position, as a byte offset into `value`.
    pub cursor_pos: usize,
    pub select_options: Option<Vec<String>>,
    pub select_index: usize,
}

impl FormField {
    /// The cursor sits between two characters (or at an end) of the value.
    pub open spec fn cursor_ok(&self) -> bool {
        on_boundary(self.value@, self.cursor_pos as int)
    }

    /// Everything but value and cursor is as in `other`.
    pub open spec fn same_setup(&self, other: FormField) -> bool {
        &&& self.label == other.label
        &&& self.max_length == other.max_length
        &&& self.width == other.width
        &&& self.select_options == other.select_options
        &&& self.select_index == other.select_index
    }

    /// An empty text field.
    pub fn new(label: &str, max_length: usize, width: usize) -> (r: FormField)
        ensures
            r.label@ == label@,
            r.value@ == Seq::<char>::empty(),
            r.max_length == max_length,
            r.width == width,
            r.cursor_pos == 0,
            r.select_options is None,
            r.select_index == 0,
            r.cursor_ok(),
    {
        let r = FormField {
            label: owned(label),
            value: String::new(),
            max_length,
            width,
            cursor_pos: 0,
            select_options: None,
            select_index: 0,
        };
        assert(r.value@.take(0) =~= Seq::<char>::empty());
        r
    }

    /// A selector over `options`, showing the first one.
    pub fn new_select(label: &str, options: Vec<String>) -> (r: FormField)
        requires
            options.len() > 0,
        ensures
            r.label@ == label@,
            r.value@ == options@[0]@,
            r.max_length == 0,
            r.width == 0,
            r.cursor_pos == 0,
            r.select_options == Some(options),
            r.select_index == 0,
            r.cursor_ok(),
    {
        let value = options[0].clone();
        let r = FormField {
            label: owned(label),
            value,
            max_length: 0,
            width: 0,
            cursor_pos: 0,
            select_options: Some(options),
            select_index: 0,
        };
        proof { lemma_chars_before_prefix(r.value@, 0); assert(r.value@.take(0) =~= Seq::<char>::empty()); }
        r
    }

    /// Types `c` at the cursor if the value stays within `max_length` bytes.
    pub fn insert_char(&mut self, c: char)
        requires
            utf8_len(old(self).value@) + char_len(c) <= old(self).max_length ==> old(self).cursor_ok(),
        ensures
            (final(self).value@, final(self).cursor_pos as nat)
                == typed(old(self).value@, old(self).cursor_pos as nat, old(self).max_length as nat, c),
            final(self).same_setup(*old(self)),
            old(self).cursor_ok() ==> final(self).cursor_ok(),
    {
        let v = str_chars(self.value.as_str());
        let len = utf8_len_of(&v);
        let cl = len_utf8(c);
        if len + cl as u128 <= self.max_length as u128 {
            let k = char_index_at(&v, self.cursor_pos);
            let ghost b = self.cursor_pos as int;
            proof { lemma_boundary_take(v@, b); }
            let mut out: Vec<char> = Vec::new();
            let mut i: usize = 0;
            while i < k
                invariant
                    i <= k <= v.len(),
                    out@ == v@.take(i as int),
                decreases k - i,
            {
                out.push(v[i]);
                i = i + 1;
                assert(out@ =~= v@.take(i as int));
            }
            out.push(c);
            while i < v.len()
                invariant
                    k <= i <= v.len(),
                    out@ == v@.take(k as int).push(c) + v@.subrange(k as int, i as int),
                decreases v.len() - i,
            {
                out.push(v[i]);
                i = i + 1;
                assert(out@ =~= v@.take(k as int).push(c) + v@.subrange(k as int, i as int));
            }
            assert(out@ =~= v@.insert(k as int, c));
            proof {
                lemma_utf8_len_take_mono(v@, k as int, v.len() as int);
                assert(v@.take(v.len() as int) =~= v@);
                assert(out@.take(k as int + 1) =~= v@.take(k as int).push(c));
                lemma_utf8_len_push(v@.take(k as int), c);
                lemma_chars_before_prefix(out@, k as int + 1);
            }
            self.value = string_of(&out);
            self.cursor_pos = self.cursor_pos + cl;
        }
    }

    /// Deletes the character before the cursor.
    pub fn delete_char(&mut self)
        requires
            old(self).cursor_pos > 0 ==> old(self).cursor_ok(),
        ensures
            (final(self).value@, final(self).cursor_pos as nat)
                == backspaced(old(self).value@, old(self).cursor_pos as nat),
            final(self).same_setup(*old(self)),
            old(self).cursor_ok() ==> final(self).cursor_ok(),
    {
        if self.cursor_pos > 0 {
            let v = str_chars(self.value.as_str());
            let k = char_index_at(&v, self.cursor_pos);
            proof {
                lemma_boundary_take(v@, self.cursor_pos as int);
                if k == 0 {
                    assert(v@.take(0) =~= Seq::<char>::empty());
                }
            }
            let prev = byte_offset(&v, k - 1);
            let mut out: Vec<char> = Vec::new();
            let mut i: usize = 0;
            while i < v.len()
                invariant
                    0 < k <= v.len(),
                    i <= v.len(),
                    out@ == (if i < k { v@.take(i as int) } else { v@.take(k as int - 1) + v@.subrange(k as int, i as int) }),
                decreases v.len() - i,
            {
                if i != k - 1 {
                    out.push(v[i]);
                }
                i = i + 1;
                assert(out@ =~= (if i < k { v@.take(i as int) } else { v@.take(k as int - 1) + v@.subrange(k as int, i as int) }));
            }
            assert(v@.take(v.len() as int) =~= v@);
            assert(out@ =~= v@.remove(k as int - 1));
            proof {
                lemma_utf8_len_take_mono(v@, k as int - 1, k as int);
                assert(out@.take(k as int - 1) =~= v@.take(k as int - 1));
                lemma_chars_before_prefix(out@, k as int - 1);
            }
            self.value = string_of(&out);
            self.cursor_pos = prev as usize;
        }
    }

    /// Moves the cursor one character to the left.
    pub fn move_cursor_left(&mut self)
        requires
            old(self).cursor_pos > 0 ==> old(self).cursor_ok(),
        ensures
            final(self).cursor_pos as nat == moved_left(old(self).value@, old(self).cursor_pos as nat),
            final(self).value == old(self).value,
            final(self).same_setup(*old(self)),
            old(self).cursor_ok() ==> final(self).cursor_ok(),
    {
        if self.cursor_pos > 0 {
            let v = str_chars(self.value.as_str());
            let k = char_index_at(&v, self.cursor_pos);
            proof {
                lemma_boundary_take(v@, self.cursor_pos as int);
                if k == 0 {
                    assert(v@.take(0) =~= Seq::<char>::empty());
                }
                lemma_utf8_len_take_mono(v@, k as int - 1, k as int);
                lemma_chars_before_prefix(v@, k as int - 1);
            }
            let prev = byte_offset(&v, k - 1);
            self.cursor_pos = prev as usize;
        }
    }

    /// Moves the cursor one character to the right.
    pub fn move_cursor_right(&mut self)
        requires
            old(self).cursor_ok(),
            utf8_len(old(self).value@) <= usize::MAX,
        ensures
            final(self).cursor_pos as nat == moved_right(old(self).value@, old(self).cursor_pos as nat),
            final(self).value == old(self).value,
            final(self).same_setup(*old(self)),
            final(self).cursor_ok(),
    {
        let v = str_chars(self.value.as_str());
        let len = utf8_len_of(&v);
        if (self.cursor_pos as u128) < len {
            let k = char_index_at(&v, self.cursor_pos);
            proof {
                lemma_boundary_take(v@, self.cursor_pos as int);
                assert(v@.take(v.len() as int) =~= v@);
                if k == v.len() {
                    assert(false);
                }
                lemma_utf8_len_take_mono(v@, k as int + 1, v.len() as int);
                lemma_chars_before_prefix(v@, k as int + 1);
            }
            let next = byte_offset(&v, k + 1);
            self.cursor_pos = next as usize;
        }
    }

    /// Types each character of `s` in turn, skipping any that no longer fit.
    pub fn insert_str(&mut self, s: &str)
        requires
            old(self).cursor_ok(),
        ensures
            (final(self).value@, final(self).cursor_pos as nat)
                == typed_all(old(self).value@, old(self).cursor_pos as nat, old(self).max_length as nat, s@),
            final(self).same_setup(*old(self)),
            final(self).cursor_ok(),
    {
        let cs = str_chars(s);
        let mut i: usize = 0;
        assert(cs@.skip(0) =~= cs@);
        while i < cs.len()
            invariant
                cs@ == s@,
                i <= cs.len(),
                self.cursor_ok(),
                self.same_setup(*old(self)),
                typed_all(self.value@, self.cursor_pos as nat, self.max_length as nat, cs@.skip(i as int))
                    == typed_all(old(self).value@, old(self).cursor_pos as nat, old(self).max_length as nat, s@),
            decreases cs.len() - i,
        {
            assert(cs@.skip(i as int)[0] == cs@[i as int]);
            assert(cs@.skip(i as int).drop_first() =~= cs@.skip(i as int + 1));
            self.insert_char(cs[i]);
            i = i + 1;
        }
        assert(cs@.skip(i as int).len() == 0);
    }

    /// Empties the field.
    pub fn clear(&mut self)
        ensures
            final(self).value@ == Seq::<char>::empty(),
            final(self).cursor_pos == 0,
            final(self).same_setup(*old(self)),
            final(self).cursor_ok(),
    {
        self.value = String::new();
        self.cursor_pos = 0;
        assert(self.value@.take(0) =~= Seq::<char>::empty());
    }
}

} // verus!

verus! {

pub(crate) proof fn lemma_utf8_len_insert(v: Seq<char>, k: int, c: char)
    requires
        0 <= k <= v.len(),
    ensures
        utf8_len(v.insert(k, c)) == utf8_len(v) + char_len(c),
{
    crate::utf8::lemma_utf8_len_concat(v.take(k).push(c), v.skip(k));
    crate::utf8::lemma_utf8_len_concat(v.take(k), v.skip(k));
    lemma_utf8_len_push(v.take(k), c);
    assert(v.insert(k, c) =~= v.take(k).push(c) + v.skip(k));
    assert(v =~= v.take(k) + v.skip(k));
}

/// Typing a character and then pressing backspace gives back the value and
/// cursor from before, whenever the character fit.
pub proof fn law_type_then_backspace(v: Seq<char>, b: nat, max: nat, c: char)
    requires
        on_boundary(v, b as int),
        utf8_len(v) + char_len(c) <= max,
    ensures
        backspaced(typed(v, b, max, c).0, typed(v, b, max, c).1) == (v, b),
{
    let k = chars_before(v, b as int) as int;
    lemma_boundary_take(v, b as int);
    let w = v.insert(k, c);
    assert(w.take(k + 1) =~= v.take(k).push(c));
    lemma_utf8_len_push(v.take(k), c);
    lemma_chars_before_prefix(w, k + 1);
    assert(w.remove(k) =~= v);
    assert(w.take(k) =~= v.take(k));
}

/// Moving right and then left returns the cursor to where it was, when it
/// was not already at the end.
pub proof fn law_right_then_left(v: Seq<char>, b: nat)
    requires
        on_boundary(v, b as int),
        b < utf8_len(v),
    ensures
        moved_left(v, moved_right(v, b)) == b,
{
    let k = chars_before(v, b as int) as int;
    lemma_boundary_take(v, b as int);
    assert(v.take(v.len() as int) =~= v);
    if k == v.len() {
        assert(false);
    }
    lemma_utf8_len_take_mono(v, k + 1, v.len() as int);
    lemma_utf8_len_take_mono(v, k, k + 1);
    lemma_chars_before_prefix(v, k + 1);
}

/// Typing never takes a value that is within the byte limit beyond it.
pub proof fn law_typing_respects_limit(v: Seq<char>, b: nat, max: nat, c: char)
    requires
        on_boundary(v, b as int),
        utf8_len(v) <= max,
    ensures
        utf8_len(typed(v, b, max, c).0) <= max,
        on_boundary(typed(v, b, max, c).0, typed(v, b, max, c).1 as int),
{
    if utf8_len(v) + char_len(c) <= max {
        let k = chars_before(v, b as int) as int;
        lemma_boundary_take(v, b as int);
        lemma_utf8_len_insert(v, k, c);
        let w = v.insert(k, c);
        assert(w.take(k + 1) =~= v.take(k).push(c));
        lemma_utf8_len_push(v.take(k), c);
        lemma_chars_before_prefix(w, k + 1);
    }
}

} // verus!

verus! {

/// Label, byte limit and display width of each form field, in order.
pub const FORM_FIELDS: [(&'static str, usize, usize); 8] = [
    ("IP:", 64, 40),
    ("NAT-IP:", 64, 40),
    ("Port:", 5, 10),
    ("Username:", 64, 40),
    ("Password:", 64, 40),
    ("PrivateKey:", 64, 40),
    ("Device:", 64, 40),
    ("Remark:", 64, 40),
];

/// Index of the device selector among the fields.
pub const DEVICE_FIELD: usize = 6;

/// Label of field `i`.
pub open spec fn form_label(i: int) -> Seq<char> {
    if i == 0 { "IP:"@ }
    else if i == 1 { "NAT-IP:"@ }
    else if i == 2 { "Port:"@ }
    else if i == 3 { "Username:"@ }
    else if i == 4 { "Password:"@ }
    else if i == 5 { "PrivateKey:"@ }
    else if i == 6 { "Device:"@ }
    else { "Remark:"@ }
}

/// Byte limit of text field `i`.
pub open spec fn form_max(i: int) -> nat {
    if i == 2 { 5 } else { 64 }
}

/// Display width of text field `i`.
pub open spec fn form_width(i: int) -> nat {
    if i == 2 { 10 } else { 40 }
}

/// The choices of the device selector.
pub open spec fn device_options() -> Seq<Seq<char>> {
    seq!["Linux"@, "Router"@, "Switch"@, "Other"@]
}

/// The device selector's options as strings.
pub fn device_option_strings() -> (r: Vec<String>)
    ensures
        r@.len() == 4,
        forall|i: int| 0 <= i < 4 ==> #[trigger] r@[i]@ == device_options()[i],
{
    let mut r: Vec<String> = Vec::new();
    r.push(owned("Linux"));
    r.push(owned("Router"));
    r.push(owned("Switch"));
    r.push(owned("Other"));
    r
}

/// The whole form being filled in.
pub struct FormState {
    pub fields: Vec<FormField>,
    pub step: usize,
    pub is_edit: bool,
    pub target_id: Option<i64>,
    pub num: i32,
    pub error: Option<String>,
}

/// Field `i` is the text field of the table, with `value` and the cursor
/// at `cursor`.
pub open spec fn text_field_is(f: FormField, i: int, value: Seq<char>, cursor: nat) -> bool {
    &&& f.label@ == form_label(i)
    &&& f.max_length == form_max(i)
    &&& f.width == form_width(i)
    &&& f.value@ == value
    &&& f.cursor_pos == cursor
    &&& f.select_options is None
    &&& f.select_index == 0
}

/// Field `f` is the device selector showing option `idx`.
pub open spec fn device_field_is(f: FormField, idx: int) -> bool {
    &&& f.label@ == form_label(6)
    &&& f.select_options matches Some(opts) && opts@.len() == 4
        && (forall|j: int| 0 <= j < 4 ==> #[trigger] opts@[j]@ == device_options()[j])
    &&& f.select_index == idx
    &&& f.value@ == device_options()[idx]
    &&& f.cursor_pos == 0
}

/// Index of the device option `v`: the first option equal to it, or the
/// first option when the field is empty or matches none.
pub open spec fn device_index(v: Seq<char>) -> int {
    if v.len() == 0 || v == seq!['-'] {
        0
    } else if v == device_options()[0] {
        0
    } else if v == device_options()[1] {
        1
    } else if v == device_options()[2] {
        2
    } else if v == device_options()[3] {
        3
    } else {
        0
    }
}

/// The value shown in text field `i` when editing `m`: the machine's field,
/// with an empty one shown as `"-"`.
pub open spec fn edit_value(m: crate::machine::Machine, i: int) -> Seq<char> {
    let raw = if i == 0 { m.ip@ }
        else if i == 1 { m.nat_ip@ }
        else if i == 2 { crate::text::dec_int(m.port as int) }
        else if i == 3 { m.username@ }
        else if i == 4 { m.password@ }
        else if i == 5 { m.private_key_path@ }
        else if i == 6 { m.device@ }
        else { m.remark@ };
    if raw.len() == 0 { seq!['-'] } else { raw }
}

/// Every text field of `m` fits in memory as a `String`: its UTF-8 length
/// is a `usize`.
pub open spec fn machine_text_fits(m: crate::machine::Machine) -> bool {
    &&& utf8_len(m.ip@) <= usize::MAX
    &&& utf8_len(m.nat_ip@) <= usize::MAX
    &&& utf8_len(m.username@) <= usize::MAX
    &&& utf8_len(m.password@) <= usize::MAX
    &&& utf8_len(m.private_key_path@) <= usize::MAX
    &&& utf8_len(m.remark@) <= usize::MAX
}

fn text_field_with(label: &str, max_length: usize, width: usize, value: &String) -> (r: FormField)
    requires
        utf8_len(value@) <= usize::MAX,
    ensures
        r.label@ == label@,
        r.max_length == max_length,
        r.width == width,
        r.value@ == (if value@.len() == 0 { seq!['-'] } else { value@ }),
        r.cursor_pos == utf8_len(r.value@),
        r.select_options is None,
        r.select_index == 0,
{
    let mut f = FormField::new(label, max_length, width);
    if value.as_str().is_empty() {
        f.value = owned("-");
        proof {
            reveal_strlit("-");
            assert(f.value@ =~= seq!['-']);
            assert(seq!['-'].drop_first() =~= Seq::<char>::empty());
            assert(utf8_len(Seq::<char>::empty()) == 0);
            assert(('-' as u32) < 0x80);
            assert(utf8_len(seq!['-']) == char_len('-') + utf8_len(seq!['-'].drop_first()));
            assert(utf8_len(seq!['-']) == 1);
        }
        f.cursor_pos = 1;
    } else {
        f.value = value.clone();
        let v = str_chars(value.as_str());
        let n = utf8_len_of(&v);
        f.cursor_pos = n as usize;
    }
    f
}

fn device_field_for(value: &String) -> (r: FormField)
    ensures
        device_field_is(r, device_index(value@)),
{
    let options = device_option_strings();
    let idx: usize = if value.as_str().is_empty() || crate::text::is_dash(value.as_str()) {
        0
    } else if crate::text::str_eq(value.as_str(), "Linux") {
        0
    } else if crate::text::str_eq(value.as_str(), "Router") {
        1
    } else if crate::text::str_eq(value.as_str(), "Switch") {
        2
    } else if crate::text::str_eq(value.as_str(), "Other") {
        3
    } else {
        0
    };
    let shown = options[idx].clone();
    let mut f = FormField::new_select("Device:", options);
    f.select_index = idx;
    f.value = shown;
    f
}

impl FormState {
    /// A blank form for adding a machine, on its first field.
    pub fn new_add() -> (r: FormState)
        ensures
            r.fields@.len() == 8,
            forall|i: int| 0 <= i < 8 && i != 6 ==> text_field_is(#[trigger] r.fields@[i], i, Seq::empty(), 0),
            device_field_is(r.fields@[6], 0),
            r.step == 0,
            !r.is_edit,
            r.target_id is None,
            r.num == 0,
            r.error is None,
            r.ready(),
    {
        let mut fields: Vec<FormField> = Vec::new();
        fields.push(FormField::new("IP:", 64, 40));
        fields.push(FormField::new("NAT-IP:", 64, 40));
        fields.push(FormField::new("Port:", 5, 10));
        fields.push(FormField::new("Username:", 64, 40));
        fields.push(FormField::new("Password:", 64, 40));
        fields.push(FormField::new("PrivateKey:", 64, 40));
        fields.push(FormField::new_select("Device:", device_option_strings()));
        fields.push(FormField::new("Remark:", 64, 40));
        let r = FormState { fields, step: 0, is_edit: false, target_id: None, num: 0, error: None };
        proof {
            assert(utf8_len(Seq::<char>::empty()) == 0);
            lemma_chars_before_prefix(Seq::<char>::empty(), 0);
            assert(Seq::<char>::empty().take(0) =~= Seq::<char>::empty());
            assert forall|i: int| 0 <= i < 8 implies (#[trigger] r.fields@[i]).usable() by {
                if i != 6 {
                    assert(text_field_is(r.fields@[i], i, Seq::empty(), 0));
                }
            }
        }
        r
    }

    /// A form pre-filled from `m` for editing it, on its first field; each
    /// text cursor sits at the end of its value.
    pub fn new_edit(m: &crate::machine::Machine) -> (r: FormState)
        requires
            machine_text_fits(*m),
        ensures
            r.fields@.len() == 8,
            forall|i: int| 0 <= i < 8 && i != 6 ==> text_field_is(#[trigger] r.fields@[i], i,
                edit_value(*m, i), utf8_len(edit_value(*m, i))),
            device_field_is(r.fields@[6], device_index(m.device@)),
            r.step == 0,
            r.is_edit,
            r.target_id == Some(m.id),
            r.num == m.num,
            r.error is None,
            r.ready(),
    {
        let mut port: Vec<char> = Vec::new();
        crate::text::push_dec_i64(&mut port, m.port as i64);
        let port = string_of(&port);
        proof {
            let p = crate::text::dec_int(m.port as int);
            assert(crate::display::ten_pow(10) == 10_000_000_000) by {
                reveal_with_fuel(crate::display::ten_pow, 11);
            }
            let a: int = if m.port < 0 { -(m.port as int) } else { m.port as int };
            lemma_dec_len_bound(a as nat, 10);
            assert(p.len() <= 11);
            lemma_utf8_len_le(p);
        }
        let mut fields: Vec<FormField> = Vec::new();
        fields.push(text_field_with("IP:", 64, 40, &m.ip));
        fields.push(text_field_with("NAT-IP:", 64, 40, &m.nat_ip));
        fields.push(text_field_with("Port:", 5, 10, &port));
        fields.push(text_field_with("Username:", 64, 40, &m.username));
        fields.push(text_field_with("Password:", 64, 40, &m.password));
        fields.push(text_field_with("PrivateKey:", 64, 40, &m.private_key_path));
        fields.push(device_field_for(&m.device));
        fields.push(text_field_with("Remark:", 64, 40, &m.remark));
        let r = FormState { fields, step: 0, is_edit: true, target_id: Some(m.id), num: m.num, error: None };
        proof {
            assert forall|i: int| 0 <= i < 8 implies (#[trigger] r.fields@[i]).usable() by {
                if i != 6 {
                    let v = r.fields@[i].value@;
                    assert(v.take(v.len() as int) =~= v);
                    lemma_chars_before_prefix(v, v.len() as int);
                }
            }
        }
        r
    }

    /// Moves to the next field, wrapping around after the last.
    pub fn navigate_next(&mut self)
        requires
            old(self).fields@.len() > 0,
            old(self).step < usize::MAX,
        ensures
            final(self).step == (old(self).step + 1) % (old(self).fields@.len() as int),
            final(self).fields == old(self).fields,
            final(self).error == old(self).error,
            final(self).is_edit == old(self).is_edit,
            final(self).target_id == old(self).target_id,
            final(self).num == old(self).num,
    {
        self.step = (self.step + 1) % self.fields.len();
    }

    /// Moves to the previous field, wrapping around before the first.
    pub fn navigate_prev(&mut self)
        requires
            old(self).fields@.len() > 0,
        ensures
            final(self).step == (if old(self).step == 0 { old(self).fields@.len() - 1 } else { old(self).step - 1 }),
            final(self).fields == old(self).fields,
            final(self).error == old(self).error,
            final(self).is_edit == old(self).is_edit,
            final(self).target_id == old(self).target_id,
            final(self).num == old(self).num,
    {
        self.step = if self.step == 0 { self.fields.len() - 1 } else { self.step - 1 };
    }
}

/// The device an edit form shows for a machine with device `v`: `v` itself
/// when it is one of the options, the first option otherwise.
pub open spec fn shown_device(v: Seq<char>) -> Seq<char> {
    if device_options().contains(v) { v } else { device_options()[0] }
}

/// Reopening a machine in the edit form and saving it unchanged gives the
/// machine back: same id and number, each text field as it was (an empty
/// one as the placeholder `"-"`), the port parsed back to the same number,
/// and the device kept when it is one of the options.
pub proof fn law_edit_form_round_trip(m: crate::machine::Machine, f: FormState)
    requires
        f.fields@.len() == 8,
        forall|i: int| 0 <= i < 8 && i != 6 ==> text_field_is(#[trigger] f.fields@[i], i,
            edit_value(m, i), utf8_len(edit_value(m, i))),
        device_field_is(f.fields@[6], device_index(m.device@)),
        f.target_id == Some(m.id),
        f.num == m.num,
    ensures
        (match f.target_id { Some(id) => id, None => 0 }) == m.id,
        f.num == m.num,
        or_dash(f.fields@[0].value@) == or_dash(m.ip@),
        or_dash(f.fields@[1].value@) == or_dash(m.nat_ip@),
        crate::text::parsed_i32(f.fields@[2].value@) == Some(m.port as int),
        or_dash(f.fields@[3].value@) == or_dash(m.username@),
        or_dash(f.fields@[4].value@) == or_dash(m.password@),
        or_dash(f.fields@[5].value@) == or_dash(m.private_key_path@),
        or_dash(f.fields@[6].value@) == shown_device(m.device@),
        or_dash(f.fields@[7].value@) == or_dash(m.remark@),
{
    assert(text_field_is(f.fields@[0], 0, edit_value(m, 0), utf8_len(edit_value(m, 0))));
    assert(text_field_is(f.fields@[1], 1, edit_value(m, 1), utf8_len(edit_value(m, 1))));
    assert(text_field_is(f.fields@[2], 2, edit_value(m, 2), utf8_len(edit_value(m, 2))));
    assert(text_field_is(f.fields@[3], 3, edit_value(m, 3), utf8_len(edit_value(m, 3))));
    assert(text_field_is(f.fields@[4], 4, edit_value(m, 4), utf8_len(edit_value(m, 4))));
    assert(text_field_is(f.fields@[5], 5, edit_value(m, 5), utf8_len(edit_value(m, 5))));
    assert(text_field_is(f.fields@[7], 7, edit_value(m, 7), utf8_len(edit_value(m, 7))));
    crate::text::lemma_dec_int_parses(m.port as int);
    crate::text::lemma_dec_reads_back(if m.port < 0 { (-m.port) as nat } else { m.port as nat });
    assert(crate::text::dec_int(m.port as int).len() > 0);
    reveal_strlit("Linux");
    reveal_strlit("Router");
    reveal_strlit("Switch");
    reveal_strlit("Other");
    let v = m.device@;
    let idx = device_index(v);
    if device_options().contains(v) {
        let j = choose|j: int| 0 <= j < 4 && device_options()[j] == v;
        assert(device_options()[j] == v);
    }
    assert(device_options()[idx].len() > 0);
}

proof fn lemma_dec_len_bound(n: nat, k: nat)
    requires
        k >= 1,
        n < crate::display::ten_pow(k),
    ensures
        crate::text::dec(n).len() <= k,
    decreases k,
{
    if n >= 10 {
        if k == 1 {
            assert(crate::display::ten_pow(1) == 10) by { reveal_with_fuel(crate::display::ten_pow, 2); }
        } else {
            assert(crate::display::ten_pow(k) == 10 * crate::display::ten_pow((k - 1) as nat));
            lemma_dec_len_bound(n / 10, (k - 1) as nat);
        }
    }
}

proof fn lemma_utf8_len_le(s: Seq<char>)
    ensures
        utf8_len(s) <= 4 * s.len(),
    decreases s.len(),
{
    if s.len() > 0 {
        lemma_utf8_len_le(s.drop_first());
    }
}

} // verus!

verus! {

/// Message when a field other than password and key holds a space.
pub const ERR_SPACE: &'static str = "字段不能包含空格";
/// Message when neither an IP nor a NAT-IP is given.
pub const ERR_NO_ADDRESS: &'static str = "IP 和 NAT-IP 不能同时为空";
/// Message when the user name is missing.
pub const ERR_NO_USER: &'static str = "用户名不能为空";
/// Message when the port is missing.
pub const ERR_NO_PORT: &'static str = "端口不能为空";
/// Message when the port is not a 16-bit number.
pub const ERR_BAD_PORT: &'static str = "端口格式无效";
/// Message when neither a password nor a key is given.
pub const ERR_NO_SECRET: &'static str = "密码和密钥不能同时为空";

/// Some text field other than password (4) and key (5) holds a space.
pub open spec fn has_spaced_field(fields: Seq<FormField>) -> bool {
    exists|i: int| 0 <= i < fields.len() && i != 4 && i != 5 && (#[trigger] fields[i]).select_options is None
        && fields[i].value@.contains(' ')
}

/// The first problem with the form's values, if any, as `validate` reports it.
pub open spec fn validation_error(fields: Seq<FormField>) -> Option<Seq<char>> {
    let ip = crate::text::trimmed(fields[0].value@);
    let nat_ip = crate::text::trimmed(fields[1].value@);
    let port = crate::text::trimmed(fields[2].value@);
    let user = crate::text::trimmed(fields[3].value@);
    let password = crate::text::trimmed(fields[4].value@);
    let key = crate::text::trimmed(fields[5].value@);
    if has_spaced_field(fields) {
        Some(ERR_SPACE@)
    } else if crate::machine::empty_field(ip) && crate::machine::empty_field(nat_ip) {
        Some(ERR_NO_ADDRESS@)
    } else if crate::machine::empty_field(user) {
        Some(ERR_NO_USER@)
    } else if port.len() == 0 {
        Some(ERR_NO_PORT@)
    } else if !crate::text::parses_as_u16(port) {
        Some(ERR_BAD_PORT@)
    } else if crate::machine::empty_field(password) && crate::machine::empty_field(key) {
        Some(ERR_NO_SECRET@)
    } else {
        None
    }
}

/// A form is accepted only when every required value is there: no field
/// but password and key holds a space, there is an address or a NAT address,
/// a user name, a port that reads as a number from 0 to 65535, and a password
/// or a key (each trimmed, `"-"` counting as empty). With an address but no
/// user name the form is refused for the user name, and a refusal always
/// gives one of the form's error messages.
pub proof fn law_validation_needs_every_value(fields: Seq<FormField>)
    requires
        fields.len() >= 6,
    ensures
        validation_error(fields) is None <==> ({
            let t = |i: int| crate::text::trimmed(fields[i].value@);
            &&& !has_spaced_field(fields)
            &&& !(crate::machine::empty_field(t(0)) && crate::machine::empty_field(t(1)))
            &&& !crate::machine::empty_field(t(3))
            &&& t(2).len() > 0 && crate::text::parses_as_u16(t(2))
            &&& !(crate::machine::empty_field(t(4)) && crate::machine::empty_field(t(5)))
        }),
        (!has_spaced_field(fields)
            && !(crate::machine::empty_field(crate::text::trimmed(fields[0].value@))
                && crate::machine::empty_field(crate::text::trimmed(fields[1].value@)))
            && crate::machine::empty_field(crate::text::trimmed(fields[3].value@)))
            ==> validation_error(fields) == Some(ERR_NO_USER@),
        validation_error(fields) matches Some(e) ==> e == ERR_SPACE@ || e == ERR_NO_ADDRESS@
            || e == ERR_NO_USER@ || e == ERR_NO_PORT@ || e == ERR_BAD_PORT@ || e == ERR_NO_SECRET@,
{
}

/// An optional string slice by its characters.
pub open spec fn opt_str_view(o: Option<&str>) -> Option<Seq<char>> {
    match o {
        Some(s) => Some(s@),
        None => None,
    }
}

/// `s`, with an empty value stored as the placeholder `"-"`.
pub open spec fn or_dash(s: Seq<char>) -> Seq<char> {
    if s.len() == 0 { seq!['-'] } else { s }
}

fn or_dash_string(s: &String) -> (r: String)
    ensures
        r@ == or_dash(s@),
{
    if s.as_str().is_empty() {
        let r = owned("-");
        proof { reveal_strlit("-"); }
        assert(r@ =~= seq!['-']);
        r
    } else {
        s.clone()
    }
}

fn chars_empty_field(v: &Vec<char>) -> (r: bool)
    ensures
        r == crate::machine::empty_field(v@),
{
    let r = v.len() == 0 || (v.len() == 1 && v[0] == '-');
    proof {
        if v.len() == 1 && v[0] == '-' {
            assert(v@ =~= seq!['-']);
        }
    }
    r
}

impl FormState {
    /// Checks the values before saving; returns the first problem found.
    pub fn validate(&self) -> (r: Option<&'static str>)
        requires
            self.fields@.len() >= 6,
        ensures
            opt_str_view(r) == validation_error(self.fields@),
    {
        let mut i: usize = 0;
        while i < self.fields.len()
            invariant
                i <= self.fields@.len(),
                forall|j: int| 0 <= j < i && j != 4 && j != 5 && (#[trigger] self.fields@[j]).select_options is None
                    ==> !self.fields@[j].value@.contains(' '),
            decreases self.fields@.len() - i,
        {
            let f = &self.fields[i];
            if f.select_options.is_none() && i != 4 && i != 5 {
                if crate::text::contains_char(f.value.as_str(), ' ') {
                    assert(has_spaced_field(self.fields@)) by {
                        assert(self.fields@[i as int] == *f);
                    }
                    return Some(ERR_SPACE);
                }
            }
            i = i + 1;
        }
        let ip = crate::text::trim_chars(self.fields[0].value.as_str());
        let nat_ip = crate::text::trim_chars(self.fields[1].value.as_str());
        let port = crate::text::trim_chars(self.fields[2].value.as_str());
        let user = crate::text::trim_chars(self.fields[3].value.as_str());
        let password = crate::text::trim_chars(self.fields[4].value.as_str());
        let key = crate::text::trim_chars(self.fields[5].value.as_str());
        if chars_empty_field(&ip) && chars_empty_field(&nat_ip) {
            return Some(ERR_NO_ADDRESS);
        }
        if chars_empty_field(&user) {
            return Some(ERR_NO_USER);
        }
        if port.len() == 0 {
            return Some(ERR_NO_PORT);
        }
        let port_text = string_of(&port);
        if !crate::text::parses_u16(port_text.as_str()) {
            return Some(ERR_BAD_PORT);
        }
        if chars_empty_field(&password) && chars_empty_field(&key) {
            return Some(ERR_NO_SECRET);
        }
        None
    }

    /// The machine the form describes: empty values stored as `"-"`, a port
    /// that does not parse as `22`, the edited machine's id (0 when adding).
    pub fn to_machine(&self) -> (r: crate::machine::Machine)
        requires
            self.fields@.len() >= 8,
        ensures
            r.id == match self.target_id { Some(id) => id, None => 0 },
            r.num == self.num,
            r.ip@ == or_dash(self.fields@[0].value@),
            r.nat_ip@ == or_dash(self.fields@[1].value@),
            r.port as int == match crate::text::parsed_i32(self.fields@[2].value@) { Some(p) => p, None => 22 },
            r.username@ == or_dash(self.fields@[3].value@),
            r.password@ == or_dash(self.fields@[4].value@),
            r.private_key_path@ == or_dash(self.fields@[5].value@),
            r.device@ == or_dash(self.fields@[6].value@),
            r.remark@ == or_dash(self.fields@[7].value@),
    {
        let port: i32 = match crate::text::parse_i32(self.fields[2].value.as_str()) {
            Some(p) => p,
            None => 22,
        };
        crate::machine::Machine {
            id: match self.target_id { Some(id) => id, None => 0 },
            num: self.num,
            ip: or_dash_string(&self.fields[0].value),
            nat_ip: or_dash_string(&self.fields[1].value),
            port,
            username: or_dash_string(&self.fields[3].value),
            password: or_dash_string(&self.fields[4].value),
            private_key_path: or_dash_string(&self.fields[5].value),
            device: or_dash_string(&self.fields[6].value),
            remark: or_dash_string(&self.fields[7].value),
        }
    }
}

/// The delete confirmation dialog for one machine.
pub struct DeleteState {
    pub target: crate::machine::Machine,
}

impl DeleteState {
    /// Asks to confirm deleting `target`.
    pub fn new(target: crate::machine::Machine) -> (r: DeleteState)
        ensures
            r.target == target,
    {
        DeleteState { target }
    }
}

} // verus!
