//! Keys and pasted text arriving while the add/edit form is open.

use vstd::prelude::*;
use crate::form::{FormField, FormState, typed, typed_all, backspaced, moved_left, moved_right,
    lemma_utf8_len_insert};
use crate::text::{all_digits, is_digit, owned};
use crate::utf8::{utf8_len, chars_before, lemma_chars_before_le, lemma_chars_before_prefix};

verus! {

/// Error shown when a space is typed into a field that cannot hold one.
pub const ERR_TYPED_SPACE: &'static str = "不能包含空格";
/// Error shown when something other than a digit is typed into the port.
pub const ERR_PORT_DIGITS: &'static str = "端口只能输入数字";

/// A key as the form sees it.
#[derive(Debug, Clone, Copy, PartialEq, Eq, Structural)]
pub enum FormKey {
    Esc,
    Up,
    BackTab,
    Down,
    Tab,
    Enter,
    Left,
    Right,
    Char(char),
    Backspace,
    Other,
}

/// What the screen does with the form after a key.
#[derive(Debug, Clone, Copy, PartialEq, Eq, Structural)]
pub enum FormOutcome {
    /// The form stays open.
    Editing,
    /// The form is dismissed without saving.
    Closed,
    /// The values passed validation on the last field: save them.
    Save,
}

impl FormField {
    /// A text field whose cursor is on a character boundary and whose value
    /// fits in memory, or a selector showing one of its options.
    pub open spec fn usable(&self) -> bool {
        match self.select_options {
            None => self.cursor_ok() && utf8_len(self.value@) <= usize::MAX,
            Some(opts) => opts@.len() > 0 && self.select_index < opts@.len()
                && self.value@ == opts@[self.select_index as int]@,
        }
    }
}

/// `g` is selector `f` moved to option `idx`.
pub open spec fn selected_option(f: FormField, g: FormField, idx: usize) -> bool {
    &&& g.label == f.label
    &&& g.max_length == f.max_length
    &&& g.width == f.width
    &&& g.cursor_pos == f.cursor_pos
    &&& g.select_options == f.select_options
    &&& g.select_index == idx
    &&& f.select_options matches Some(opts) && g.value@ == opts@[idx as int]@
}

/// `g` is text field `f` with the value and cursor `vc`.
pub open spec fn edited(f: FormField, g: FormField, vc: (Seq<char>, nat)) -> bool {
    g.same_setup(f) && g.value@ == vc.0 && g.cursor_pos as nat == vc.1
}

impl FormState {
    /// The form has its eight fields, the current step is one of them and
    /// every field is usable.
    pub open spec fn ready(&self) -> bool {
        &&& self.fields@.len() == 8
        &&& self.step < 8
        &&& forall|i: int| 0 <= i < 8 ==> (#[trigger] self.fields@[i]).usable()
    }

    /// The form shows the error `msg`.
    pub open spec fn shows_error(&self, msg: Seq<char>) -> bool {
        self.error matches Some(m) && m@ == msg
    }

    /// Only field `s` may differ between the two forms.
    pub open spec fn others_kept(&self, other: FormState, s: int) -> bool {
        &&& self.fields@.len() == other.fields@.len()
        &&& forall|j: int| 0 <= j < self.fields@.len() && j != s ==> #[trigger] self.fields@[j] == other.fields@[j]
    }
}

proof fn lemma_typed_fits(v: Seq<char>, b: nat, max: nat, c: char)
    requires
        on_boundary_ok(v, b),
        utf8_len(v) <= usize::MAX,
        max <= usize::MAX,
    ensures
        utf8_len(typed(v, b, max, c).0) <= usize::MAX,
{
    if utf8_len(v) + crate::utf8::char_len(c) <= max {
        lemma_chars_before_le(v, b as int);
        lemma_utf8_len_insert(v, chars_before(v, b as int) as int, c);
    }
}

/// `b` lies on a character boundary of `v`.
spec fn on_boundary_ok(v: Seq<char>, b: nat) -> bool {
    crate::utf8::on_boundary(v, b as int)
}

proof fn lemma_typed_all_fits(v: Seq<char>, b: nat, max: nat, s: Seq<char>)
    requires
        crate::utf8::on_boundary(v, b as int),
        utf8_len(v) <= usize::MAX,
        max <= usize::MAX,
    ensures
        utf8_len(typed_all(v, b, max, s).0) <= usize::MAX,
    decreases s.len(),
{
    if s.len() > 0 {
        let (v1, b1) = typed(v, b, max, s[0]);
        lemma_typed_fits(v, b, max, s[0]);
        lemma_typed_boundary(v, b, max, s[0]);
        lemma_typed_all_fits(v1, b1, max, s.drop_first());
    }
}

proof fn lemma_typed_boundary(v: Seq<char>, b: nat, max: nat, c: char)
    requires
        crate::utf8::on_boundary(v, b as int),
    ensures
        crate::utf8::on_boundary(typed(v, b, max, c).0, typed(v, b, max, c).1 as int),
{
    if utf8_len(v) + crate::utf8::char_len(c) <= max {
        let k = chars_before(v, b as int) as int;
        lemma_chars_before_le(v, b as int);
        let w = v.insert(k, c);
        assert(w.take(k + 1) =~= v.take(k).push(c));
        crate::utf8::lemma_utf8_len_push(v.take(k), c);
        lemma_chars_before_prefix(w, k + 1);
    }
}

proof fn lemma_backspaced_fits(v: Seq<char>, b: nat)
    requires
        crate::utf8::on_boundary(v, b as int),
    ensures
        utf8_len(backspaced(v, b).0) <= utf8_len(v),
{
    if b > 0 {
        let k = chars_before(v, b as int) as int;
        lemma_chars_before_le(v, b as int);
        if k == 0 {
            assert(v.take(0) =~= Seq::<char>::empty());
        } else {
            let r = v.remove(k - 1);
            lemma_utf8_len_insert(r, k - 1, v[k - 1]);
            assert(r.insert(k - 1, v[k - 1]) =~= v);
        }
    }
}

fn set_error(form: &mut FormState, msg: &str)
    ensures
        final(form).shows_error(msg@),
        final(form).fields == old(form).fields,
        final(form).step == old(form).step,
        final(form).is_edit == old(form).is_edit,
        final(form).target_id == old(form).target_id,
        final(form).num == old(form).num,
{
    form.error = Some(owned(msg));
}

/// What a key does to the form `before`, leaving it as `after` with outcome
/// `r` (see `FormState::handle_key`).
pub open spec fn key_effect(before: FormState, key: FormKey, after: FormState, r: FormOutcome) -> bool {
    &&& after.is_edit == before.is_edit
    &&& after.target_id == before.target_id
    &&& after.num == before.num
    &&& key == FormKey::Esc ==> r == FormOutcome::Closed && after == before
    &&& (key == FormKey::Up || key == FormKey::BackTab) ==> r == FormOutcome::Editing
        && after.error is None && after.fields == before.fields
        && after.step == (if before.step == 0 { 7 } else { before.step - 1 })
    &&& (key == FormKey::Down || key == FormKey::Tab || (key == FormKey::Enter && before.step != 7))
        ==> r == FormOutcome::Editing && after.error is None
        && after.fields == before.fields
        && after.step == (before.step + 1) % 8
    &&& (key == FormKey::Enter && before.step == 7) ==> after.fields == before.fields
        && after.step == before.step
        && match crate::form::validation_error(before.fields@) {
            Some(e) => r == FormOutcome::Editing && after.shows_error(e),
            None => r == FormOutcome::Save && after.error is None,
        }
    &&& key == FormKey::Left ==> r == FormOutcome::Editing && after.error is None
        && after.step == before.step && after.others_kept(before, before.step as int)
        && ({
            let f = before.fields@[before.step as int];
            let g = after.fields@[before.step as int];
            match f.select_options {
                Some(_) => if f.select_index > 0 {
                    selected_option(f, g, (f.select_index - 1) as usize)
                } else {
                    g == f
                },
                None => g.value == f.value && g.same_setup(f)
                    && g.cursor_pos as nat == moved_left(f.value@, f.cursor_pos as nat),
            }
        })
    &&& key == FormKey::Right ==> r == FormOutcome::Editing && after.error is None
        && after.step == before.step && after.others_kept(before, before.step as int)
        && ({
            let f = before.fields@[before.step as int];
            let g = after.fields@[before.step as int];
            match f.select_options {
                Some(opts) => if f.select_index + 1 < opts@.len() {
                    selected_option(f, g, (f.select_index + 1) as usize)
                } else {
                    g == f
                },
                None => g.value == f.value && g.same_setup(f)
                    && g.cursor_pos as nat == moved_right(f.value@, f.cursor_pos as nat),
            }
        })
    &&& key matches FormKey::Char(c) ==> r == FormOutcome::Editing && after.step == before.step
        && ({
            let s = before.step as int;
            let f = before.fields@[s];
            if f.select_options is Some {
                after.fields == before.fields && after.error is None
            } else if c == ' ' && s != 4 && s != 5 {
                after.fields == before.fields
                    && after.shows_error(ERR_TYPED_SPACE@)
            } else if s == 2 && !is_digit(c) {
                after.fields == before.fields
                    && after.shows_error(ERR_PORT_DIGITS@)
            } else {
                after.error is None && after.others_kept(before, s)
                    && edited(f, after.fields@[s],
                        typed(f.value@, f.cursor_pos as nat, f.max_length as nat, c))
            }
        })
    &&& key == FormKey::Backspace ==> r == FormOutcome::Editing && after.error is None
        && after.step == before.step && after.others_kept(before, before.step as int)
        && ({
            let f = before.fields@[before.step as int];
            let g = after.fields@[before.step as int];
            if f.select_options is Some {
                g == f
            } else {
                edited(f, g, backspaced(f.value@, f.cursor_pos as nat))
            }
        })
    &&& key == FormKey::Other ==> r == FormOutcome::Editing && after == before
}

/// What pasting `data` does to the form `before`, leaving it as `after`
/// (see `FormState::handle_paste`).
pub open spec fn paste_effect(before: FormState, data: Seq<char>, after: FormState) -> bool {
    &&& after.step == before.step
    &&& after.is_edit == before.is_edit
    &&& after.target_id == before.target_id
    &&& after.num == before.num
    &&& ({
        let s = before.step as int;
        let f = before.fields@[s];
        if f.select_options is Some {
            after.fields == before.fields && after.error is None
        } else if data.contains(' ') && s != 4 && s != 5 {
            after.fields == before.fields
                && after.shows_error(ERR_TYPED_SPACE@)
        } else if s == 2 && !all_digits(data) {
            after.fields == before.fields
                && after.shows_error(ERR_PORT_DIGITS@)
        } else {
            after.error is None && after.others_kept(before, s)
                && edited(f, after.fields@[s],
                    typed_all(f.value@, f.cursor_pos as nat, f.max_length as nat, data))
        }
    })
}

impl FormState {
    /// Handles one key while the form is open.
    ///
    /// Esc dismisses the form. Up and Shift-Tab move to the previous field,
    /// Down and Tab to the next, Enter too except on the last field, where it
    /// validates: a problem is shown as the error, otherwise the form asks to
    /// be saved. Left and Right step through a selector's options or move a
    /// text cursor. A typed character goes into a text field, except a space
    /// outside password and key, and a non-digit in the port, which set an
    /// error instead. Backspace deletes before a text cursor. Each of these
    /// keys first clears the error; any other key leaves the form as it is.
    pub fn handle_key(&mut self, key: FormKey) -> (r: FormOutcome)
        requires
            old(self).ready(),
        ensures
            final(self).ready(),
            key_effect(*old(self), key, *final(self), r),
    {
        let ghost start = *self;
        match key {
            FormKey::Esc => FormOutcome::Closed,
            FormKey::Up | FormKey::BackTab => {
                self.error = None;
                self.navigate_prev();
                FormOutcome::Editing
            },
            FormKey::Down | FormKey::Tab => {
                self.error = None;
                self.navigate_next();
                FormOutcome::Editing
            },
            FormKey::Enter => {
                if self.step == self.fields.len() - 1 {
                    match self.validate() {
                        Some(err) => {
                            set_error(self, err);
                            FormOutcome::Editing
                        },
                        None => {
                            self.error = None;
                            FormOutcome::Save
                        },
                    }
                } else {
                    self.error = None;
                    self.navigate_next();
                    FormOutcome::Editing
                }
            },
            FormKey::Left => {
                self.error = None;
                let s = self.step;
                assert(self.fields@[s as int].usable());
                let mut f = self.fields.remove(s);
                if f.select_options.is_some() {
                    if f.select_index > 0 {
                        let idx = f.select_index - 1;
                        let v = match &f.select_options {
                            Some(opts) => opts[idx].clone(),
                            None => f.value.clone(),
                        };
                        f.select_index = idx;
                        f.value = v;
                    }
                } else {
                    f.move_cursor_left();
                }
                self.fields.insert(s, f);
                assert(self.fields@ =~= start.fields@.update(s as int, self.fields@[s as int]));
                FormOutcome::Editing
            },
            FormKey::Right => {
                self.error = None;
                let s = self.step;
                assert(self.fields@[s as int].usable());
                let mut f = self.fields.remove(s);
                if f.select_options.is_some() {
                    let len = match &f.select_options {
                        Some(opts) => opts.len(),
                        None => 0,
                    };
                    if f.select_index < len - 1 {
                        let idx = f.select_index + 1;
                        let v = match &f.select_options {
                            Some(opts) => opts[idx].clone(),
                            None => f.value.clone(),
                        };
                        f.select_index = idx;
                        f.value = v;
                    }
                } else {
                    proof { lemma_chars_before_prefix(f.value@, 0); }
                    f.move_cursor_right();
                }
                self.fields.insert(s, f);
                assert(self.fields@ =~= start.fields@.update(s as int, self.fields@[s as int]));
                FormOutcome::Editing
            },
            FormKey::Char(c) => {
                self.error = None;
                let s = self.step;
                if self.fields[s].select_options.is_some() {
                    return FormOutcome::Editing;
                }
                if c == ' ' && s != 4 && s != 5 {
                    set_error(self, ERR_TYPED_SPACE);
                    return FormOutcome::Editing;
                }
                if s == 2 && !(c >= '0' && c <= '9') {
                    set_error(self, ERR_PORT_DIGITS);
                    return FormOutcome::Editing;
                }
                assert(self.fields@[s as int].usable());
                let mut f = self.fields.remove(s);
                proof {
                    lemma_typed_fits(f.value@, f.cursor_pos as nat, f.max_length as nat, c);
                }
                f.insert_char(c);
                self.fields.insert(s, f);
                assert(self.fields@ =~= start.fields@.update(s as int, self.fields@[s as int]));
                FormOutcome::Editing
            },
            FormKey::Backspace => {
                self.error = None;
                let s = self.step;
                assert(self.fields@[s as int].usable());
                if self.fields[s].select_options.is_none() {
                    let mut f = self.fields.remove(s);
                    proof {
                        lemma_backspaced_fits(f.value@, f.cursor_pos as nat);
                    }
                    f.delete_char();
                    self.fields.insert(s, f);
                    assert(self.fields@ =~= start.fields@.update(s as int, self.fields@[s as int]));
                }
                FormOutcome::Editing
            },
            FormKey::Other => FormOutcome::Editing,
        }
    }

    /// Handles text pasted into the form: ignored by a selector; refused
    /// with an error when it holds a space outside password and key, or a
    /// non-digit in the port; otherwise typed in character by character.
    /// The error is cleared first.
    pub fn handle_paste(&mut self, data: &str)
        requires
            old(self).ready(),
        ensures
            final(self).ready(),
            paste_effect(*old(self), data@, *final(self)),
    {
        let ghost start = *self;
        self.error = None;
        let s = self.step;
        if self.fields[s].select_options.is_some() {
            return;
        }
        if s != 4 && s != 5 && crate::text::contains_char(data, ' ') {
            set_error(self, ERR_TYPED_SPACE);
            return;
        }
        if s == 2 && !all_digit_text(data) {
            set_error(self, ERR_PORT_DIGITS);
            return;
        }
        assert(self.fields@[s as int].usable());
        let mut f = self.fields.remove(s);
        proof {
            lemma_typed_all_fits(f.value@, f.cursor_pos as nat, f.max_length as nat, data@);
        }
        f.insert_str(data);
        self.fields.insert(s, f);
        assert(self.fields@ =~= start.fields@.update(s as int, self.fields@[s as int]));
    }
}

fn all_digit_text(s: &str) -> (r: bool)
    ensures
        r == all_digits(s@),
{
    let v = crate::text::str_chars(s);
    let mut i: usize = 0;
    while i < v.len()
        invariant
            v@ == s@,
            i <= v.len(),
            forall|k: int| 0 <= k < i ==> is_digit(#[trigger] v@[k]),
        decreases v.len() - i,
    {
        if !(v[i] >= '0' && v[i] <= '9') {
            assert(!is_digit(v@[i as int]));
            return false;
        }
        i = i + 1;
    }
    true
}

/// Moving to the next field and back to the previous one returns to the
/// same field (the fields wrap around at both ends).
pub proof fn law_next_then_prev(step: nat, len: nat)
    requires
        step < len,
    ensures
        ({
            let next = (step as int + 1) % (len as int);
            (if next == 0 { len - 1 } else { next - 1 }) == step
        }),
{
    if step + 1 < len {
        assert((step as int + 1) % (len as int) == step + 1) by {
            vstd::arithmetic::div_mod::lemma_small_mod((step + 1) as nat, len);
        }
    } else {
        assert((step as int + 1) % (len as int) == 0) by {
            vstd::arithmetic::div_mod::lemma_mod_self_0(len as int);
        }
    }
}

} // verus!
