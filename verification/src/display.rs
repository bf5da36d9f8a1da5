//! Human-readable sizes and fixed-width column padding.

use vstd::prelude::*;
use crate::text::{dec, digit_char, repeat_char, push_dec, push_repeat, push_str, str_chars, string_of};
use crate::width::{cell_width, char_width_of, str_width, str_width_of};

verus! {

/// Number of binary digits of `n` (zero has none).
pub open spec fn bit_len(n: nat) -> nat
    decreases n,
{
    if n == 0 {
        0
    } else {
        1 + bit_len(n / 2)
    }
}

/// `2^e`.
pub open spec fn two_pow(e: nat) -> nat
    decreases e,
{
    if e == 0 {
        1
    } else {
        2 * two_pow((e - 1) as nat)
    }
}

/// `1024^k`.
pub open spec fn kib_pow(k: nat) -> nat
    decreases k,
{
    if k == 0 {
        1
    } else {
        1024 * kib_pow((k - 1) as nat)
    }
}

/// `10^p`.
pub open spec fn ten_pow(p: nat) -> nat
    decreases p,
{
    if p == 0 {
        1
    } else {
        10 * ten_pow((p - 1) as nat)
    }
}

/// `a / b` rounded to the nearest integer, ties to the even neighbour.
pub open spec fn div_round_even(a: nat, b: nat) -> nat
    recommends
        b > 0,
{
    let q = a / b;
    let r = a % b;
    if 2 * r > b || (2 * r == b && q % 2 == 1) {
        q + 1
    } else {
        q
    }
}

/// The integer nearest to `n` that has at most 53 significant bits
/// (ties to even): the value a 64-bit float holds for `n`.
pub open spec fn float_value(n: nat) -> nat {
    if bit_len(n) <= 53 {
        n
    } else {
        let e = (bit_len(n) - 53) as nat;
        div_round_even(n, two_pow(e)) * two_pow(e)
    }
}

/// Index of the unit (B, K, M, G, T) chosen for value `v`, starting the
/// search at unit `k`: keep dividing by 1024 while the value is at least
/// 1024 and a larger unit exists.
pub open spec fn unit_index(v: nat, k: nat) -> nat
    decreases 4 - k,
{
    if k < 4 && v >= kib_pow(k + 1) {
        unit_index(v, k + 1)
    } else {
        k
    }
}

/// Letter of unit `k` (1 to 4).
pub open spec fn unit_letter(k: nat) -> char {
    if k == 1 {
        'K'
    } else if k == 2 {
        'M'
    } else if k == 3 {
        'G'
    } else {
        'T'
    }
}

/// Decimal places used for the scaled value `v / d`: none from 100 up,
/// one from 10 up, two below.
pub open spec fn precision(v: nat, d: nat) -> nat {
    if v >= 100 * d {
        0
    } else if v >= 10 * d {
        1
    } else {
        2
    }
}

/// `s` left-padded with zeros to at least `p` characters.
pub open spec fn zero_pad(s: Seq<char>, p: nat) -> Seq<char> {
    if s.len() >= p {
        s
    } else {
        repeat_char('0', (p - s.len()) as nat) + s
    }
}

/// The number `n / 10^p` written with exactly `p` decimal places.
pub open spec fn fixed_point(n: nat, p: nat) -> Seq<char> {
    if p == 0 {
        dec(n)
    } else {
        dec(n / ten_pow(p)) + seq!['.'] + zero_pad(dec(n % ten_pow(p)), p)
    }
}

/// Text of `format_size(size)`: whole bytes below 1024, otherwise the value
/// scaled to K/M/G/T with 0, 1 or 2 decimals, rounded half to even.
pub open spec fn size_text(size: nat) -> Seq<char> {
    let v = float_value(size);
    let k = unit_index(v, 0);
    if k == 0 {
        dec(size) + seq![' ', 'B']
    } else {
        let d = kib_pow(k);
        let p = precision(v, d);
        fixed_point(div_round_even(v * ten_pow(p), d), p) + seq![' ', unit_letter(k)]
    }
}

proof fn lemma_bit_len_bound(n: nat)
    ensures
        n < two_pow(bit_len(n)),
        n > 0 ==> two_pow((bit_len(n) - 1) as nat) <= n,
    decreases n,
{
    if n > 0 {
        lemma_bit_len_bound(n / 2);
    }
}

proof fn lemma_two_pow_mono(a: nat, b: nat)
    requires
        a <= b,
    ensures
        two_pow(a) <= two_pow(b),
    decreases b,
{
    if a < b {
        lemma_two_pow_mono(a, (b - 1) as nat);
    }
}

proof fn lemma_kib_pow_is_two_pow(k: nat)
    ensures
        kib_pow(k) == two_pow(10 * k),
    decreases k,
{
    if k > 0 {
        lemma_kib_pow_is_two_pow((k - 1) as nat);
        lemma_two_pow_add(10, (10 * (k - 1)) as nat);
        lemma_two_pow_values();
    }
}

proof fn lemma_two_pow_add(a: nat, b: nat)
    ensures
        two_pow(a + b) == two_pow(a) * two_pow(b),
    decreases a,
{
    if a > 0 {
        let a1 = (a - 1) as nat;
        lemma_two_pow_add(a1, b);
        assert(a + b == (a1 + b) + 1);
        assert(two_pow(a + b) == 2 * two_pow(a1 + b));
        assert(two_pow(a) == 2 * two_pow(a1));
        assert(two_pow(a) * two_pow(b) == 2 * (two_pow(a1) * two_pow(b))) by (nonlinear_arith)
            requires two_pow(a) == 2 * two_pow(a1);
    } else {
        assert(two_pow(0) == 1);
        assert(a + b == b);
        assert(1 * two_pow(b) == two_pow(b));
    }
}

proof fn lemma_two_pow_is_pow2(e: nat)
    ensures
        two_pow(e) == vstd::arithmetic::power2::pow2(e),
    decreases e,
{
    if e > 0 {
        lemma_two_pow_is_pow2((e - 1) as nat);
        vstd::arithmetic::power2::lemma_pow2_unfold(e);
    } else {
        vstd::arithmetic::power2::lemma2_to64();
    }
}

proof fn lemma_two_pow_values()
    ensures
        two_pow(10) == 1024,
        two_pow(30) == 0x4000_0000,
        two_pow(64) == 0x1_0000_0000_0000_0000,
{
    lemma_two_pow_is_pow2(10);
    lemma_two_pow_is_pow2(30);
    lemma_two_pow_is_pow2(64);
    vstd::arithmetic::power2::lemma2_to64();
}

proof fn lemma_two_pow_pos(e: nat)
    ensures
        two_pow(e) >= 1,
    decreases e,
{
    if e > 0 {
        lemma_two_pow_pos((e - 1) as nat);
    }
}

/// Number of bits of `n`, computed by halving.
fn bit_length(n: u64) -> (r: u64)
    ensures
        r as nat == bit_len(n as nat),
        r <= 64,
{
    let mut m = n;
    let mut count: u64 = 0;
    proof {
        lemma_bit_len_bound(n as nat);
        if bit_len(n as nat) > 64 {
            lemma_two_pow_mono(64, (bit_len(n as nat) - 1) as nat);
            lemma_two_pow_values();
        }
    }
    while m > 0
        invariant
            count + bit_len(m as nat) == bit_len(n as nat),
            count + bit_len(m as nat) <= 64,
        decreases m,
    {
        m = m / 2;
        count = count + 1;
    }
    count
}

/// The value of `size` once converted to a 64-bit float, as an integer.
fn float_value_of(size: u64) -> (v: u128)
    ensures
        v as nat == float_value(size as nat),
        v <= 0x1_0000_0000_0000_0000 * 2048,
{
    let bl = bit_length(size);
    if bl <= 53 {
        return size as u128;
    }
    let e = bl - 53;
    let mut p2: u128 = 1;
    let mut i: u64 = 0;
    while i < e
        invariant
            i <= e,
            e <= 11,
            p2 as nat == two_pow(i as nat),
            p2 <= 2048,
            p2 >= 1,
        decreases e - i,
    {
        proof {
            lemma_two_pow_mono(i as nat, 10);
            lemma_two_pow_values();
        }
        p2 = p2 * 2;
        i = i + 1;
    }
    let q = size as u128 / p2;
    let rem = size as u128 % p2;
    let up = 2 * rem > p2 || (2 * rem == p2 && q % 2 == 1);
    let q2 = if up { q + 1 } else { q };
    assert(q2 * p2 <= 0x1_0000_0000_0000_0000 * 2048) by (nonlinear_arith)
        requires
            q2 <= q + 1,
            q == size as u128 / p2,
            p2 >= 1,
            p2 <= 2048,
            size <= 0xffff_ffff_ffff_ffff,
    ;
    q2 * p2
}

/// The unit index for value `v` and `1024` raised to it.
fn unit_of(v: u128) -> (r: (u64, u128))
    ensures
        r.0 as nat == unit_index(v as nat, 0),
        r.1 as nat == kib_pow(r.0 as nat),
        r.0 <= 4,
        r.1 >= 1,
        r.1 <= 0x100_0000_0000,
{
    let mut k: u64 = 0;
    let mut d: u128 = 1;
    while k < 4 && v >= d * 1024
        invariant
            k <= 4,
            d as nat == kib_pow(k as nat),
            unit_index(v as nat, 0) == unit_index(v as nat, k as nat),
            d <= 0x100_0000_0000,
            d >= 1,
        decreases 4 - k,
    {
        proof {
            lemma_kib_pow_is_two_pow(k as nat);
            lemma_two_pow_mono(10 * k as nat, 30);
            lemma_two_pow_values();
        }
        d = d * 1024;
        k = k + 1;
    }
    (k, d)
}

/// Appends `n / 10^p` written with `p` (at most two) decimal places.
fn push_fixed_point(out: &mut Vec<char>, n: u128, p: u64)
    requires
        p <= 2,
    ensures
        final(out)@ == old(out)@ + fixed_point(n as nat, p as nat),
{
    let scale: u128 = if p == 0 { 1 } else if p == 1 { 10 } else { 100 };
    assert(scale as nat == ten_pow(p as nat)) by { reveal_with_fuel(ten_pow, 3); }
    let whole = n / scale;
    let frac = n % scale;
    push_dec(out, whole);
    if p > 0 {
        out.push('.');
        if p == 2 && frac < 10 {
            out.push('0');
        }
        push_dec(out, frac);
    }
    proof {
        if p == 2 && frac < 10 {
            assert(dec(frac as nat).len() == 1);
            assert(zero_pad(dec(frac as nat), 2) =~= seq!['0'] + dec(frac as nat));
        } else if p == 2 {
            assert(dec(frac as nat) == dec(frac as nat / 10).push(digit_char(frac as nat % 10)));
            assert(dec(frac as nat).len() >= 2);
        } else if p == 1 {
            assert(dec(frac as nat).len() == 1);
        }
    }
    assert(final(out)@ =~= old(out)@ + fixed_point(n as nat, p as nat));
}

/// Formats a byte count for display, e.g. `0 B`, `1023 B`, `1.50 K`,
/// `12.3 M`, `512 G`.
pub fn format_size(size: u64) -> (r: String)
    ensures
        r@ == size_text(size as nat),
{
    let v = float_value_of(size);
    let (k, d) = unit_of(v);
    let mut out: Vec<char> = Vec::new();
    if k == 0 {
        push_dec(&mut out, size as u128);
        out.push(' ');
        out.push('B');
        assert(out@ =~= size_text(size as nat));
        return string_of(&out);
    }
    let p: u64 = if v >= 100 * d { 0 } else if v >= 10 * d { 1 } else { 2 };
    let scale: u128 = if p == 0 { 1 } else if p == 1 { 10 } else { 100 };
    assert(scale as nat == ten_pow(p as nat)) by { reveal_with_fuel(ten_pow, 3); }
    let num = v * scale;
    let q = num / d;
    let rem = num % d;
    let n = if 2 * rem > d || (2 * rem == d && q % 2 == 1) { q + 1 } else { q };
    assert(n as nat == div_round_even(v as nat * ten_pow(p as nat), d as nat));
    push_fixed_point(&mut out, n, p);
    out.push(' ');
    let letter = if k == 1 { 'K' } else if k == 2 { 'M' } else if k == 3 { 'G' } else { 'T' };
    out.push(letter);
    assert(out@ =~= size_text(size as nat));
    string_of(&out)
}

} // verus!

verus! {

/// The longest prefix of `s` whose character widths fit in `budget`
/// columns, stopping at the first character that does not fit.
pub open spec fn truncated(s: Seq<char>, budget: nat) -> Seq<char>
    decreases s.len(),
{
    if s.len() == 0 || cell_width(s[0]) > budget {
        Seq::empty()
    } else {
        seq![s[0]] + truncated(s.drop_first(), (budget - cell_width(s[0])) as nat)
    }
}

/// Sum of the column widths of the characters of `t`, counting control
/// characters as zero.
pub open spec fn cells_width(t: Seq<char>) -> nat
    decreases t.len(),
{
    if t.len() == 0 { 0 } else { cell_width(t[0]) + cells_width(t.drop_first()) }
}

/// Truncating keeps the longest start of `s` whose character widths fit in
/// `budget`: the result is a prefix of `s`, fits, and no longer prefix
/// fits; in particular `s` comes back whole when it fits.
pub proof fn law_truncate_longest_fit(s: Seq<char>, budget: nat)
    ensures
        truncated(s, budget).len() <= s.len(),
        truncated(s, budget) == s.take(truncated(s, budget).len() as int),
        cells_width(truncated(s, budget)) <= budget,
        forall|i: int| 0 <= i <= s.len() && cells_width(#[trigger] s.take(i)) <= budget
            ==> i <= truncated(s, budget).len(),
        cells_width(s) <= budget ==> truncated(s, budget) == s,
    decreases s.len(),
{
    let r = truncated(s, budget);
    if s.len() == 0 {
        assert(s.take(0) =~= s);
    } else {
        let rest = s.drop_first();
        let w0 = cell_width(s[0]);
        assert forall|i: int| 1 <= i <= s.len() implies cells_width(#[trigger] s.take(i))
            == w0 + cells_width(rest.take(i - 1)) by {
            assert(s.take(i).drop_first() =~= rest.take(i - 1));
        }
        if w0 > budget {
            assert(s.take(0) =~= r);
        } else {
            let b = (budget - w0) as nat;
            law_truncate_longest_fit(rest, b);
            let r2 = truncated(rest, b);
            assert(r.drop_first() =~= r2);
            assert(r =~= s.take(r.len() as int));
            assert forall|i: int| 0 <= i <= s.len() && cells_width(#[trigger] s.take(i)) <= budget
                implies i <= r.len() by {
                if i >= 1 {
                    assert(cells_width(rest.take(i - 1)) <= b);
                }
            }
        }
    }
    if cells_width(s) <= budget {
        assert(s.take(s.len() as int) =~= s);
    }
}

/// `s` truncated or right-padded with spaces to `width` columns.
pub open spec fn padded_right(s: Seq<char>, width: nat) -> Seq<char> {
    if str_width(s) >= width {
        truncated(s, width)
    } else {
        s + repeat_char(' ', (width - str_width(s)) as nat)
    }
}

/// `s` truncated or left-padded with spaces to `width` columns.
pub open spec fn padded_left(s: Seq<char>, width: nat) -> Seq<char> {
    if str_width(s) >= width {
        truncated(s, width)
    } else {
        repeat_char(' ', (width - str_width(s)) as nat) + s
    }
}

/// Keeps the leading characters of `s` that fit in `max_width` columns.
pub fn truncate_to_width(s: &str, max_width: usize) -> (r: String)
    ensures
        r@ == truncated(s@, max_width as nat),
{
    let v = str_chars(s);
    let mut out: Vec<char> = Vec::new();
    let mut current: usize = 0;
    let mut i: usize = 0;
    let mut full = false;
    assert(v@.skip(0) =~= v@);
    assert(out@ + truncated(v@.skip(0), max_width as nat) =~= truncated(s@, max_width as nat));
    while i < v.len() && !full
        invariant
            v@ == s@,
            i <= v.len(),
            current <= max_width,
            full ==> i < v.len() && cell_width(v@[i as int]) > max_width - current,
            out@ + truncated(v@.skip(i as int), (max_width - current) as nat)
                == truncated(s@, max_width as nat),
        decreases v.len() - i + (if full { 0int } else { 1int }),
    {
        let c = v[i];
        let cw: usize = match char_width_of(c) {
            Some(w) => w,
            None => 0,
        };
        assert(v@.skip(i as int)[0] == c);
        if cw > max_width - current {
            full = true;
        } else {
            assert(v@.skip(i as int).drop_first() =~= v@.skip(i as int + 1));
            out.push(c);
            current = current + cw;
            i = i + 1;
            assert(out@ + truncated(v@.skip(i as int), (max_width - current) as nat)
                =~= truncated(s@, max_width as nat));
        }
    }
    proof {
        if full {
            assert(v@.skip(i as int)[0] == v@[i as int]);
        } else {
            assert(v@.skip(i as int).len() == 0);
        }
        assert(truncated(v@.skip(i as int), (max_width - current) as nat) =~= Seq::<char>::empty());
    }
    assert(out@ =~= truncated(s@, max_width as nat));
    string_of(&out)
}

/// Right-aligns `s` in a column of `width` display columns.
pub fn pad_left(s: &str, width: usize) -> (r: String)
    ensures
        r@ == padded_left(s@, width as nat),
{
    let w = str_width_of(s);
    if w >= width {
        truncate_to_width(s, width)
    } else {
        let mut out: Vec<char> = Vec::new();
        push_repeat(&mut out, ' ', width - w);
        push_str(&mut out, s);
        string_of(&out)
    }
}

/// Left-aligns `s` in a column of `width` display columns.
pub fn pad_right(s: &str, width: usize) -> (r: String)
    ensures
        r@ == padded_right(s@, width as nat),
{
    let w = str_width_of(s);
    if w >= width {
        truncate_to_width(s, width)
    } else {
        let mut out: Vec<char> = Vec::new();
        push_str(&mut out, s);
        push_repeat(&mut out, ' ', width - w);
        string_of(&out)
    }
}

} // verus!
