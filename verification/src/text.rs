//! Character-level string helpers shared by the formatting code.

use vstd::prelude::*;

verus! {

/// Appends one character to a `String` (std `String::push`).
#[verifier::external_body]
pub(crate) fn push_char(s: &mut String, c: char)
    ensures
        final(s)@ == old(s)@.push(c),
{
    s.push(c);
}

/// The characters of a string slice, in order.
pub fn str_chars(s: &str) -> (v: Vec<char>)
    ensures
        v@ == s@,
{
    let mut v: Vec<char> = Vec::new();
    broadcast use vstd::string::group_string_axioms;
    for c in it: s.chars()
        invariant
            it.seq() == s@,
            v@ == s@.take(it.index() as int),
    {
        v.push(c);
        assert(s@.take(it.index() as int + 1) == s@.take(it.index() as int).push(c));
    }
    assert(v@ == s@);
    v
}

} // verus!

verus! {

/// True when the string is exactly the placeholder `"-"`.
pub fn is_dash(s: &str) -> (r: bool)
    ensures
        r == (s@ == seq!['-']),
{
    let v = str_chars(s);
    let r = v.len() == 1 && v[0] == '-';
    proof {
        if r {
            assert(s@ =~= seq!['-']);
        }
    }
    r
}

} // verus!

verus! {

/// The decimal digit character for `d` (taken modulo ten).
pub open spec fn digit_char(d: nat) -> char {
    ((d % 10) + 48) as char
}

/// Decimal representation of a natural number, without sign or padding.
pub open spec fn dec(n: nat) -> Seq<char>
    decreases n,
{
    if n < 10 {
        seq![digit_char(n)]
    } else {
        dec(n / 10).push(digit_char(n % 10))
    }
}

/// Decimal representation of an integer, with a leading `-` when negative.
pub open spec fn dec_int(i: int) -> Seq<char> {
    if i < 0 {
        seq!['-'] + dec((-i) as nat)
    } else {
        dec(i as nat)
    }
}

/// `n` copies of character `c`.
pub open spec fn repeat_char(c: char, n: nat) -> Seq<char> {
    Seq::new(n, |i: int| c)
}

fn digit(d: u128) -> (c: char)
    requires
        d < 10,
    ensures
        c == digit_char(d as nat),
{
    let b: u8 = d as u8;
    (48u8 + b) as char
}

/// Appends the decimal digits of `n` to `out`.
pub fn push_dec(out: &mut Vec<char>, n: u128)
    ensures
        final(out)@ == old(out)@ + dec(n as nat),
    decreases n,
{
    if n >= 10 {
        push_dec(out, n / 10);
        out.push(digit(n % 10));
        assert(final(out)@ =~= old(out)@ + dec(n as nat));
    } else {
        out.push(digit(n));
        assert(final(out)@ =~= old(out)@ + dec(n as nat));
    }
}

/// Appends the decimal form of a signed integer to `out`.
pub fn push_dec_i64(out: &mut Vec<char>, i: i64)
    ensures
        final(out)@ == old(out)@ + dec_int(i as int),
{
    if i < 0 {
        out.push('-');
        let m: i128 = -(i as i128);
        push_dec(out, m as u128);
        assert(final(out)@ =~= old(out)@ + dec_int(i as int));
    } else {
        push_dec(out, i as u128);
    }
}

/// Appends `n` copies of `c` to `out`.
pub fn push_repeat(out: &mut Vec<char>, c: char, n: usize)
    ensures
        final(out)@ == old(out)@ + repeat_char(c, n as nat),
{
    let ghost start = out@;
    let mut i: usize = 0;
    while i < n
        invariant
            i <= n,
            out@ == start + repeat_char(c, i as nat),
        decreases n - i,
    {
        out.push(c);
        i = i + 1;
        assert(out@ =~= start + repeat_char(c, i as nat));
    }
}

/// Appends the characters of `s` to `out`.
pub fn push_str(out: &mut Vec<char>, s: &str)
    ensures
        final(out)@ == old(out)@ + s@,
{
    let v = str_chars(s);
    let ghost start = out@;
    let mut i: usize = 0;
    while i < v.len()
        invariant
            i <= v.len(),
            v@ == s@,
            out@ == start + v@.take(i as int),
        decreases v.len() - i,
    {
        out.push(v[i]);
        i = i + 1;
        assert(out@ =~= start + v@.take(i as int));
    }
    assert(v@.take(v.len() as int) =~= v@);
}

/// Builds a `String` holding exactly the given characters.
pub fn string_of(v: &Vec<char>) -> (s: String)
    ensures
        s@ == v@,
{
    let mut s = String::new();
    let mut i: usize = 0;
    while i < v.len()
        invariant
            i <= v.len(),
            s@ == v@.take(i as int),
        decreases v.len() - i,
    {
        push_char(&mut s, v[i]);
        i = i + 1;
        assert(s@ =~= v@.take(i as int));
    }
    assert(v@.take(v.len() as int) =~= v@);
    s
}

} // verus!

verus! {

/// An owned copy of a string slice.
pub fn owned(s: &str) -> (r: String)
    ensures
        r@ == s@,
{
    let v = str_chars(s);
    string_of(&v)
}

/// True when the two strings hold the same characters.
pub fn str_eq(a: &str, b: &str) -> (r: bool)
    ensures
        r == (a@ == b@),
{
    let x = str_chars(a);
    let y = str_chars(b);
    if x.len() != y.len() {
        return false;
    }
    let mut i: usize = 0;
    while i < x.len()
        invariant
            x@ == a@,
            y@ == b@,
            x.len() == y.len(),
            i <= x.len(),
            forall|j: int| 0 <= j < i ==> x@[j] == y@[j],
        decreases x.len() - i,
    {
        if x[i] != y[i] {
            return false;
        }
        i = i + 1;
    }
    assert(x@ =~= y@);
    true
}

} // verus!

verus! {

/// `char::is_whitespace`: the Unicode `White_Space` characters.
pub open spec fn is_ws(c: char) -> bool {
    let u = c as u32;
    (0x09 <= u && u <= 0x0D) || u == 0x20 || u == 0x85 || u == 0xA0 || u == 0x1680
        || (0x2000 <= u && u <= 0x200A) || u == 0x2028 || u == 0x2029 || u == 0x202F
        || u == 0x205F || u == 0x3000
}

/// `s` without leading whitespace.
pub open spec fn trim_start_ws(s: Seq<char>) -> Seq<char>
    decreases s.len(),
{
    if s.len() > 0 && is_ws(s[0]) {
        trim_start_ws(s.drop_first())
    } else {
        s
    }
}

/// `s` without trailing whitespace.
pub open spec fn trim_end_ws(s: Seq<char>) -> Seq<char>
    decreases s.len(),
{
    if s.len() > 0 && is_ws(s.last()) {
        trim_end_ws(s.drop_last())
    } else {
        s
    }
}

/// `s` without leading and trailing whitespace, as `str::trim` gives it.
pub open spec fn trimmed(s: Seq<char>) -> Seq<char> {
    trim_end_ws(trim_start_ws(s))
}

/// True when `c` is whitespace.
pub fn is_whitespace(c: char) -> (r: bool)
    ensures
        r == is_ws(c),
{
    let u = c as u32;
    (0x09 <= u && u <= 0x0D) || u == 0x20 || u == 0x85 || u == 0xA0 || u == 0x1680
        || (0x2000 <= u && u <= 0x200A) || u == 0x2028 || u == 0x2029 || u == 0x202F
        || u == 0x205F || u == 0x3000
}

/// The characters of `s` without leading and trailing whitespace.
pub fn trim_chars(s: &str) -> (r: Vec<char>)
    ensures
        r@ == trimmed(s@),
{
    let v = str_chars(s);
    let mut lo: usize = 0;
    assert(v@.skip(0) =~= v@);
    while lo < v.len() && is_whitespace(v[lo])
        invariant
            v@ == s@,
            lo <= v.len(),
            trim_start_ws(v@.skip(lo as int)) == trim_start_ws(s@),
        decreases v.len() - lo,
    {
        assert(v@.skip(lo as int).drop_first() =~= v@.skip(lo as int + 1));
        lo = lo + 1;
    }
    let ghost mid = v@.skip(lo as int);
    assert(trim_start_ws(mid) == mid);
    let mut hi: usize = v.len();
    assert(mid =~= v@.subrange(lo as int, hi as int));
    while hi > lo && is_whitespace(v[hi - 1])
        invariant
            v@ == s@,
            lo <= hi <= v.len(),
            trim_end_ws(v@.subrange(lo as int, hi as int)) == trim_end_ws(mid),
        decreases hi - lo,
    {
        assert(v@.subrange(lo as int, hi as int).drop_last() =~= v@.subrange(lo as int, hi as int - 1));
        hi = hi - 1;
    }
    let mut out: Vec<char> = Vec::new();
    let mut i: usize = lo;
    while i < hi
        invariant
            lo <= i <= hi <= v.len(),
            out@ == v@.subrange(lo as int, i as int),
        decreases hi - i,
    {
        out.push(v[i]);
        i = i + 1;
        assert(out@ =~= v@.subrange(lo as int, i as int));
    }
    out
}

/// `s` cut at its first `sep`: what comes before and what comes after it,
/// or `None` when `sep` does not occur.
pub open spec fn split_once_on(s: Seq<char>, sep: char) -> Option<(Seq<char>, Seq<char>)> {
    if exists|i: int| 0 <= i < s.len() && s[i] == sep {
        let i = choose|i: int| 0 <= i < s.len() && s[i] == sep && forall|j: int| 0 <= j < i ==> s[j] != sep;
        Some((s.take(i), s.skip(i + 1)))
    } else {
        None
    }
}

/// `s` cut at its first `sep`, as `str::split_once` with a character does.
pub fn split_once_char(s: &str, sep: char) -> (r: Option<(String, String)>)
    ensures
        match r {
            Some((a, b)) => split_once_on(s@, sep) == Some((a@, b@)),
            None => split_once_on(s@, sep) is None,
        },
{
    let v = str_chars(s);
    let mut i: usize = 0;
    while i < v.len()
        invariant
            v@ == s@,
            i <= v@.len(),
            forall|j: int| 0 <= j < i ==> v@[j] != sep,
        decreases v@.len() - i,
    {
        if v[i] == sep {
            let mut a: Vec<char> = Vec::new();
            let mut k: usize = 0;
            while k < i
                invariant
                    k <= i < v@.len(),
                    a@ == v@.take(k as int),
                decreases i - k,
            {
                a.push(v[k]);
                proof { assert(v@.take(k + 1) =~= v@.take(k as int).push(v@[k as int])); }
                k = k + 1;
            }
            let mut b: Vec<char> = Vec::new();
            let mut m: usize = i + 1;
            while m < v.len()
                invariant
                    i + 1 <= m <= v@.len(),
                    b@ == v@.subrange(i + 1, m as int),
                decreases v@.len() - m,
            {
                b.push(v[m]);
                proof { assert(v@.subrange(i + 1, m + 1) =~= v@.subrange(i + 1, m as int).push(v@[m as int])); }
                m = m + 1;
            }
            proof {
                let w = choose|w: int| 0 <= w < s@.len() && s@[w] == sep && forall|j: int| 0 <= j < w ==> s@[j] != sep;
                assert(0 <= i < s@.len() && s@[i as int] == sep && forall|j: int| 0 <= j < i ==> s@[j] != sep);
                assert(w == i) by {
                    if w < i { assert(s@[w] != sep); }
                    if w > i { assert(s@[i as int] != sep); }
                }
                assert(v@.subrange(i + 1, v@.len() as int) =~= v@.skip(i + 1));
            }
            return Some((string_of(&a), string_of(&b)));
        }
        i = i + 1;
    }
    None
}

/// The pieces of `s` between the occurrences of `sep` (one piece more than
/// there are separators).
pub open spec fn split_on(s: Seq<char>, sep: char) -> Seq<Seq<char>>
    decreases s.len(),
{
    if s.len() == 0 {
        seq![Seq::empty()]
    } else {
        let init = split_on(s.drop_last(), sep);
        if s.last() == sep {
            init.push(Seq::empty())
        } else {
            init.update(init.len() - 1, init.last().push(s.last()))
        }
    }
}

proof fn lemma_split_on_nonempty(s: Seq<char>, sep: char)
    ensures
        split_on(s, sep).len() >= 1,
    decreases s.len(),
{
    if s.len() > 0 {
        lemma_split_on_nonempty(s.drop_last(), sep);
    }
}

/// `t` holds no `c`.
pub open spec fn free_of(t: Seq<char>, c: char) -> bool {
    forall|i: int| 0 <= i < t.len() ==> t[i] != c
}

/// Text without `sep` is one piece.
pub proof fn lemma_split_single(t: Seq<char>, sep: char)
    requires
        free_of(t, sep),
    ensures
        split_on(t, sep) == seq![t],
    decreases t.len(),
{
    if t.len() > 0 {
        lemma_split_single(t.drop_last(), sep);
        assert(t.drop_last().push(t.last()) =~= t);
        assert(seq![t.drop_last()].update(0, t) =~= seq![t]);
    } else {
        assert(t =~= Seq::<char>::empty());
    }
}

/// Splitting at a separator between `x` and `y` gives the pieces of `x`
/// followed by those of `y`.
pub proof fn lemma_split_join(x: Seq<char>, y: Seq<char>, sep: char)
    ensures
        split_on(x + seq![sep] + y, sep) == split_on(x, sep) + split_on(y, sep),
    decreases y.len(),
{
    let xs = x + seq![sep];
    if y.len() == 0 {
        assert(xs + y =~= xs);
        assert(xs.drop_last() =~= x);
    } else {
        lemma_split_join(x, y.drop_last(), sep);
        lemma_split_on_nonempty(y.drop_last(), sep);
        assert((xs + y).drop_last() =~= xs + y.drop_last());
        assert((xs + y).last() == y.last());
        let a = split_on(x, sep);
        let b = split_on(y.drop_last(), sep);
        if y.last() == sep {
            assert((a + b).push(Seq::empty()) =~= a + b.push(Seq::empty()));
        } else {
            assert((a + b).update((a + b).len() - 1, (a + b).last().push(y.last()))
                =~= a + b.update(b.len() - 1, b.last().push(y.last())));
        }
    }
}

/// `s` cut at each `sep`, as `str::split` with a character does.
pub fn split_char(s: &str, sep: char) -> (r: Vec<String>)
    ensures
        r@.map_values(|t: String| t@) == split_on(s@, sep),
{
    let v = str_chars(s);
    let mut done: Vec<String> = Vec::new();
    let mut cur: Vec<char> = Vec::new();
    let mut i: usize = 0;
    while i < v.len()
        invariant
            v@ == s@,
            i <= v@.len(),
            done@.map_values(|t: String| t@).push(cur@) == split_on(v@.take(i as int), sep),
        decreases v@.len() - i,
    {
        let ghost prev = v@.take(i as int);
        proof {
            lemma_split_on_nonempty(prev, sep);
            assert(v@.take(i + 1).drop_last() =~= prev);
        }
        if v[i] == sep {
            let piece = string_of(&cur);
            done.push(piece);
            cur = Vec::new();
            assert(done@.map_values(|t: String| t@).push(cur@)
                =~= split_on(prev, sep).push(Seq::empty()));
        } else {
            cur.push(v[i]);
            assert(done@.map_values(|t: String| t@).push(cur@)
                =~= split_on(prev, sep).update(split_on(prev, sep).len() - 1,
                    split_on(prev, sep).last().push(v@[i as int])));
        }
        i = i + 1;
    }
    assert(v@.take(v@.len() as int) =~= v@);
    done.push(string_of(&cur));
    assert(done@.map_values(|t: String| t@) =~= split_on(s@, sep));
    done
}

/// True when `c` occurs in `s`.
pub fn contains_char(s: &str, c: char) -> (r: bool)
    ensures
        r == s@.contains(c),
{
    let v = str_chars(s);
    let mut i: usize = 0;
    while i < v.len()
        invariant
            v@ == s@,
            i <= v.len(),
            forall|j: int| 0 <= j < i ==> v@[j] != c,
        decreases v.len() - i,
    {
        if v[i] == c {
            assert(s@[i as int] == c);
            return true;
        }
        i = i + 1;
    }
    false
}

/// True when `c` is an ASCII decimal digit.
pub open spec fn is_digit(c: char) -> bool {
    '0' <= c && c <= '9'
}

/// Every character of `s` is an ASCII decimal digit.
pub open spec fn all_digits(s: Seq<char>) -> bool {
    forall|i: int| 0 <= i < s.len() ==> is_digit(#[trigger] s[i])
}

/// The number written by the decimal digits `s`.
pub open spec fn digits_value(s: Seq<char>) -> nat
    decreases s.len(),
{
    if s.len() == 0 {
        0
    } else {
        10 * digits_value(s.drop_last()) + ((s.last() as u32) - 48) as nat
    }
}

/// `s` without one leading `+`.
pub open spec fn without_plus(s: Seq<char>) -> Seq<char> {
    if s.len() > 0 && s[0] == '+' { s.drop_first() } else { s }
}

/// What `s.parse::<u16>()` accepts: an optional `+`, then one or more
/// decimal digits whose value fits in 16 bits.
pub open spec fn parses_as_u16(s: Seq<char>) -> bool {
    let d = without_plus(s);
    d.len() > 0 && all_digits(d) && digits_value(d) <= 0xFFFF
}

/// What `s.parse::<i32>()` gives: an optional sign, then one or more decimal
/// digits; `None` when the text is malformed or the value out of range.
pub open spec fn parsed_i32(s: Seq<char>) -> Option<int> {
    let neg = s.len() > 0 && s[0] == '-';
    let d = if s.len() > 0 && (s[0] == '-' || s[0] == '+') { s.drop_first() } else { s };
    let v: int = if neg { -(digits_value(d) as int) } else { digits_value(d) as int };
    if d.len() > 0 && all_digits(d) && -0x8000_0000 <= v && v <= 0x7FFF_FFFF {
        Some(v)
    } else {
        None
    }
}

/// The decimal digits of `n` read back as `n`.
pub(crate) proof fn lemma_dec_reads_back(n: nat)
    ensures
        dec(n).len() > 0,
        all_digits(dec(n)),
        digits_value(dec(n)) == n,
    decreases n,
{
    let c = digit_char(n);
    assert((c as u32) == (n % 10) + 48);
    if n < 10 {
        assert(dec(n).drop_last() =~= Seq::<char>::empty());
        assert(digits_value(dec(n).drop_last()) == 0);
    } else {
        lemma_dec_reads_back(n / 10);
        assert(dec(n).drop_last() =~= dec(n / 10));
        assert(dec(n).last() == c);
        assert(((c as u32) - 48) as nat == n % 10);
        assert(10 * (n / 10) + n % 10 == n);
    }
}

/// A decimal `i32` written out parses back to itself.
pub(crate) proof fn lemma_dec_int_parses(i: int)
    requires
        -0x8000_0000 <= i <= 0x7FFF_FFFF,
    ensures
        parsed_i32(dec_int(i)) == Some(i),
{
    if i < 0 {
        lemma_dec_reads_back((-i) as nat);
        let s = dec_int(i);
        assert(s.drop_first() =~= dec((-i) as nat));
        assert(s[0] == '-');
    } else {
        lemma_dec_reads_back(i as nat);
        let d = dec(i as nat);
        assert(is_digit(d[0]));
    }
}

/// Reads the digits `d`, giving their value capped at `cap + 1`, or `None`
/// when a character is not a digit.
fn digits_capped(d: &Vec<char>, start: usize, cap: u64) -> (r: Option<u64>)
    requires
        start <= d.len(),
        cap < 0xFFFF_FFFF_FFFF,
    ensures
        match r {
            Some(v) => all_digits(d@.skip(start as int))
                && v == if digits_value(d@.skip(start as int)) > cap { cap as nat + 1 } else { digits_value(d@.skip(start as int)) },
            None => !all_digits(d@.skip(start as int)),
        },
{
    let ghost t = d@.skip(start as int);
    let mut v: u64 = 0;
    let mut i: usize = start;
    while i < d.len()
        invariant
            start <= i <= d.len(),
            t == d@.skip(start as int),
            all_digits(t.take(i - start)),
            v == if digits_value(t.take(i - start)) > cap { cap as nat + 1 } else { digits_value(t.take(i - start)) },
            cap < 0xFFFF_FFFF_FFFF,
        decreases d.len() - i,
    {
        let c = d[i];
        assert(t[i - start] == c);
        if !('0' <= c && c <= '9') {
            assert(!is_digit(t[i - start]));
            return None;
        }
        let dig: u64 = (c as u32 - 48) as u64;
        assert(t.take(i - start + 1).drop_last() =~= t.take(i - start));
        assert(t.take(i - start + 1).last() == c);
        v = if v > cap { cap + 1 } else {
            let w = v * 10 + dig;
            if w > cap { cap + 1 } else { w }
        };
        i = i + 1;
        assert forall|j: int| 0 <= j < t.take(i - start).len() implies is_digit(#[trigger] t.take(i - start)[j]) by {
            if j < i - start - 1 {
                assert(t.take(i - start)[j] == t.take(i - start - 1)[j]);
            }
        }
    }
    assert(t.take(i - start) =~= t);
    Some(v)
}

/// True when `s.parse::<u16>()` succeeds.
pub fn parses_u16(s: &str) -> (r: bool)
    ensures
        r == parses_as_u16(s@),
{
    let v = str_chars(s);
    let start: usize = if v.len() > 0 && v[0] == '+' { 1 } else { 0 };
    assert(without_plus(s@) =~= v@.skip(start as int));
    if start >= v.len() {
        return false;
    }
    match digits_capped(&v, start, 0xFFFF) {
        Some(n) => n <= 0xFFFF,
        None => false,
    }
}

/// `s.parse::<i32>()`, as an `Option`.
pub fn parse_i32(s: &str) -> (r: Option<i32>)
    ensures
        r matches Some(v) ==> parsed_i32(s@) == Some(v as int),
        r is None ==> parsed_i32(s@) is None,
{
    let v = str_chars(s);
    let signed = v.len() > 0 && (v[0] == '-' || v[0] == '+');
    let neg = v.len() > 0 && v[0] == '-';
    let start: usize = if signed { 1 } else { 0 };
    let ghost d = if s@.len() > 0 && (s@[0] == '-' || s@[0] == '+') { s@.drop_first() } else { s@ };
    assert(d =~= v@.skip(start as int));
    if start >= v.len() {
        return None;
    }
    match digits_capped(&v, start, 0x8000_0000) {
        Some(n) => {
            if neg {
                if n <= 0x8000_0000 {
                    let x: i64 = -(n as i64);
                    Some(x as i32)
                } else {
                    None
                }
            } else {
                if n <= 0x7FFF_FFFF {
                    Some(n as i32)
                } else {
                    None
                }
            }
        },
        None => None,
    }
}

} // verus!
