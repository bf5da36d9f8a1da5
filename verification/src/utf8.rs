//! Byte lengths of UTF-8 text and byte offsets that fall between characters.

use vstd::prelude::*;

verus! {

/// Bytes taken by `c` in UTF-8.
pub open spec fn char_len(c: char) -> nat {
    if (c as u32) < 0x80 {
        1
    } else if (c as u32) < 0x800 {
        2
    } else if (c as u32) < 0x10000 {
        3
    } else {
        4
    }
}

/// Bytes taken by the characters `s` in UTF-8.
pub open spec fn utf8_len(s: Seq<char>) -> nat
    decreases s.len(),
{
    if s.len() == 0 {
        0
    } else {
        char_len(s[0]) + utf8_len(s.drop_first())
    }
}

/// Number of whole characters at the front of `s` that fit in `b` bytes.
pub open spec fn chars_before(s: Seq<char>, b: int) -> nat
    decreases s.len(),
{
    if s.len() == 0 || b < char_len(s[0]) {
        0
    } else {
        1 + chars_before(s.drop_first(), b - char_len(s[0]))
    }
}

/// True when byte offset `b` of the UTF-8 form of `s` starts a character
/// or is the end of the text.
pub open spec fn on_boundary(s: Seq<char>, b: int) -> bool {
    utf8_len(s.take(chars_before(s, b) as int)) == b
}

/// UTF-8 length of a character, as `char::len_utf8` computes it.
pub fn len_utf8(c: char) -> (r: usize)
    ensures
        r as nat == char_len(c),
        1 <= r <= 4,
{
    let u = c as u32;
    if u < 0x80 {
        1
    } else if u < 0x800 {
        2
    } else if u < 0x10000 {
        3
    } else {
        4
    }
}

pub proof fn lemma_utf8_len_concat(a: Seq<char>, b: Seq<char>)
    ensures
        utf8_len(a + b) == utf8_len(a) + utf8_len(b),
    decreases a.len(),
{
    if a.len() > 0 {
        lemma_utf8_len_concat(a.drop_first(), b);
        assert((a + b).drop_first() =~= a.drop_first() + b);
    } else {
        assert(a + b =~= b);
    }
}

pub proof fn lemma_utf8_len_push(a: Seq<char>, c: char)
    ensures
        utf8_len(a.push(c)) == utf8_len(a) + char_len(c),
{
    lemma_utf8_len_concat(a, seq![c]);
    assert(a.push(c) =~= a + seq![c]);
    assert(seq![c].drop_first() =~= Seq::<char>::empty());
    assert(utf8_len(Seq::<char>::empty()) == 0);
    assert(utf8_len(seq![c]) == char_len(c) + utf8_len(seq![c].drop_first()));
}

pub proof fn lemma_utf8_len_take_mono(s: Seq<char>, i: int, j: int)
    requires
        0 <= i <= j <= s.len(),
    ensures
        utf8_len(s.take(i)) <= utf8_len(s.take(j)),
        i < j ==> utf8_len(s.take(i)) < utf8_len(s.take(j)),
    decreases j - i,
{
    if i < j {
        lemma_utf8_len_take_mono(s, i, j - 1);
        lemma_utf8_len_push(s.take(j - 1), s[j - 1]);
        assert(s.take(j - 1).push(s[j - 1]) =~= s.take(j));
    }
}

/// The character count that byte offset `utf8_len(s.take(k))` points at is
/// `k`, so every such offset is on a boundary.
pub proof fn lemma_chars_before_prefix(s: Seq<char>, k: int)
    requires
        0 <= k <= s.len(),
    ensures
        chars_before(s, utf8_len(s.take(k)) as int) == k,
        on_boundary(s, utf8_len(s.take(k)) as int),
    decreases s.len(),
{
    if k == 0 {
        assert(s.take(0) =~= Seq::<char>::empty());
    } else {
        let t = s.drop_first();
        lemma_chars_before_prefix(t, k - 1);
        assert(s.take(k).drop_first() =~= t.take(k - 1));
        assert(s.take(k)[0] == s[0]);
    }
}

/// Splits the prefix sums at a boundary: the bytes before character
/// `chars_before(s, b)` are exactly `b`.
pub proof fn lemma_boundary_take(s: Seq<char>, b: int)
    requires
        on_boundary(s, b),
    ensures
        utf8_len(s.take(chars_before(s, b) as int)) == b,
        chars_before(s, b) <= s.len(),
{
    lemma_chars_before_le(s, b);
}

pub proof fn lemma_chars_before_le(s: Seq<char>, b: int)
    ensures
        chars_before(s, b) <= s.len(),
    decreases s.len(),
{
    if s.len() > 0 {
        lemma_chars_before_le(s.drop_first(), b - char_len(s[0]));
    }
}

/// Byte length of the characters `v`, as a wide integer.
pub fn utf8_len_of(v: &Vec<char>) -> (r: u128)
    ensures
        r as nat == utf8_len(v@),
        r <= 4 * v.len(),
{
    let mut total: u128 = 0;
    let mut i: usize = 0;
    while i < v.len()
        invariant
            i <= v.len(),
            total as nat == utf8_len(v@.take(i as int)),
            total <= 4 * i,
        decreases v.len() - i,
    {
        proof {
            lemma_utf8_len_push(v@.take(i as int), v@[i as int]);
            assert(v@.take(i as int).push(v@[i as int]) =~= v@.take(i as int + 1));
        }
        total = total + len_utf8(v[i]) as u128;
        i = i + 1;
    }
    assert(v@.take(v.len() as int) =~= v@);
    total
}

/// The character index that byte offset `b` points at in `v`.
pub fn char_index_at(v: &Vec<char>, b: usize) -> (r: usize)
    ensures
        r as nat == chars_before(v@, b as int),
        r <= v.len(),
{
    let mut acc: usize = 0;
    let mut i: usize = 0;
    let mut done = false;
    assert(v@.skip(0) =~= v@);
    while i < v.len() && !done
        invariant
            i <= v.len(),
            acc <= b,
            chars_before(v@, b as int) == i + chars_before(v@.skip(i as int), b - acc),
            done ==> i < v.len() && (b - acc) < char_len(v@[i as int]),
        decreases v.len() - i + (if done { 0int } else { 1int }),
    {
        let cl = len_utf8(v[i]);
        assert(v@.skip(i as int)[0] == v@[i as int]);
        assert(v@.skip(i as int).drop_first() =~= v@.skip(i as int + 1));
        if cl > b - acc {
            done = true;
        } else {
            acc = acc + cl;
            i = i + 1;
        }
    }
    proof {
        if !done {
            assert(v@.skip(i as int).len() == 0);
        } else {
            assert(v@.skip(i as int)[0] == v@[i as int]);
        }
    }
    i
}

/// Byte offset of character index `k` in `v`.
pub fn byte_offset(v: &Vec<char>, k: usize) -> (r: u128)
    requires
        k <= v.len(),
    ensures
        r as nat == utf8_len(v@.take(k as int)),
{
    let mut total: u128 = 0;
    let mut i: usize = 0;
    while i < k
        invariant
            i <= k <= v.len(),
            total as nat == utf8_len(v@.take(i as int)),
            total <= 4 * i,
        decreases k - i,
    {
        proof {
            lemma_utf8_len_push(v@.take(i as int), v@[i as int]);
            assert(v@.take(i as int).push(v@[i as int]) =~= v@.take(i as int + 1));
        }
        total = total + len_utf8(v[i]) as u128;
        i = i + 1;
    }
    total
}

/// `utf8_len` is the length of vstd's UTF-8 encoding of the characters.
pub proof fn lemma_utf8_len_encoded(s: Seq<char>)
    ensures
        vstd::utf8::encode_utf8(s).len() == utf8_len(s),
    decreases s.len(),
{
    if s.len() > 0 {
        vstd::utf8::char_is_scalar(s[0]);
        let c = s[0] as u32;
        assert(vstd::utf8::encode_scalar(c).len() == char_len(s[0]));
        lemma_utf8_len_encoded(s.drop_first());
    }
}

} // verus!
