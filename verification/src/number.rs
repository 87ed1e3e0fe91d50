//! Number literals as the lexer reads them: decimal digits with at most one
//! decimal point. The literal is kept as written; this module renders it the
//! way the language prints a number and reads the array size it denotes.
use vstd::prelude::*;
use vstd::arithmetic::power::pow;
use crate::text::{chars_of, push_char};
use crate::unicode::ascii_digit;

verus! {

/// Index of the first `c` in `s` at or after `from`, or `s.len()`.
pub open spec fn find_char(s: Seq<char>, c: char, from: int) -> int
    decreases s.len() - from,
{
    if from >= s.len() {
        s.len() as int
    } else if s[from] == c {
        from
    } else {
        find_char(s, c, from + 1)
    }
}

/// The digits before the decimal point.
pub open spec fn integer_digits(lit: Seq<char>) -> Seq<char> {
    lit.take(find_char(lit, '.', 0))
}

/// The digits after the decimal point (empty when there is none).
pub open spec fn fraction_digits(lit: Seq<char>) -> Seq<char> {
    let d = find_char(lit, '.', 0);
    if d < lit.len() {
        lit.skip(d + 1)
    } else {
        Seq::empty()
    }
}

pub open spec fn strip_leading_zeros(s: Seq<char>) -> Seq<char>
    decreases s.len(),
{
    if s.len() > 0 && s[0] == '0' {
        strip_leading_zeros(s.drop_first())
    } else {
        s
    }
}

pub open spec fn strip_trailing_zeros(s: Seq<char>) -> Seq<char>
    decreases s.len(),
{
    if s.len() > 0 && s.last() == '0' {
        strip_trailing_zeros(s.drop_last())
    } else {
        s
    }
}

/// How a number literal prints: no leading zeros before the point (but at
/// least one digit), no trailing zeros after it, and no point when nothing
/// is left after it. `"007.50"` prints as `"7.5"`, `".5"` as `"0.5"`,
/// `"3.0"` as `"3"`.
pub open spec fn number_display(lit: Seq<char>) -> Seq<char> {
    let i = strip_leading_zeros(integer_digits(lit));
    let whole = if i.len() == 0 { seq!['0'] } else { i };
    let f = strip_trailing_zeros(fraction_digits(lit));
    if f.len() == 0 {
        whole
    } else {
        whole + seq!['.'] + f
    }
}

/// The value of one decimal digit (zero for any other character).
pub open spec fn digit_value(c: char) -> nat {
    if ascii_digit(c) {
        (c as int - '0' as int) as nat
    } else {
        0
    }
}

/// The value of a run of decimal digits.
pub open spec fn digits_value(s: Seq<char>) -> nat
    decreases s.len(),
{
    if s.len() == 0 {
        0
    } else {
        digits_value(s.drop_last()) * 10 + digit_value(s.last())
    }
}

/// The array size a literal denotes: the whole part of its value, capped
/// at `usize::MAX`.
pub open spec fn literal_size(lit: Seq<char>) -> nat {
    let v = digits_value(integer_digits(lit));
    if v > usize::MAX {
        usize::MAX as nat
    } else {
        v
    }
}

proof fn lemma_find_char_bounds(s: Seq<char>, c: char, from: int)
    requires
        0 <= from,
    ensures
        from <= find_char(s, c, from) || find_char(s, c, from) == s.len(),
        find_char(s, c, from) <= s.len() || from > s.len(),
        find_char(s, c, from) < s.len() ==> s[find_char(s, c, from)] == c,
        forall|k: int| from <= k < find_char(s, c, from) && k < s.len() ==> s[k] != c,
    decreases s.len() - from,
{
    if from < s.len() && s[from] != c {
        lemma_find_char_bounds(s, c, from + 1);
    }
}

fn find_dot(v: &Vec<char>) -> (d: usize)
    ensures
        d == find_char(v@, '.', 0),
{
    let mut i: usize = 0;
    while i < v.len() && v[i] != '.'
        invariant
            i <= v.len(),
            find_char(v@, '.', i as int) == find_char(v@, '.', 0),
        decreases v.len() - i,
    {
        i = i + 1;
    }
    i
}

/// Renders a number literal the way the language prints the number.
pub fn display_number(lit: &str) -> (r: String)
    ensures
        r@ == number_display(lit@),
{
    let v = chars_of(lit);
    let d = find_dot(&v);
    proof {
        lemma_find_char_bounds(v@, '.', 0);
    }
    let ghost ip = integer_digits(v@);
    let ghost fp = fraction_digits(v@);
    // leading zeros of the whole part
    let mut a: usize = 0;
    assert(ip.skip(0) =~= ip);
    while a < d && v[a] == '0'
        invariant
            a <= d <= v.len(),
            ip == v@.take(d as int),
            strip_leading_zeros(ip.skip(a as int)) == strip_leading_zeros(ip),
        decreases d - a,
    {
        assert(ip.skip(a as int).drop_first() =~= ip.skip(a + 1));
        a = a + 1;
    }
    assert(strip_leading_zeros(ip.skip(a as int)) == ip.skip(a as int)) by {
        if ip.skip(a as int).len() > 0 {
            assert(ip.skip(a as int)[0] == v@[a as int]);
        }
    }
    let mut r = String::new();
    if a == d {
        push_char(&mut r, '0');
    } else {
        let mut k = a;
        while k < d
            invariant
                a <= k <= d <= v.len(),
                r@ == v@.subrange(a as int, k as int),
            decreases d - k,
        {
            push_char(&mut r, v[k]);
            k = k + 1;
            assert(r@ =~= v@.subrange(a as int, k as int));
        }
        assert(ip.skip(a as int) =~= v@.subrange(a as int, d as int));
    }
    // trailing zeros of the fraction
    if d < v.len() {
        let mut e: usize = v.len();
        while e > d + 1 && v[e - 1] == '0'
            invariant
                d + 1 <= e <= v.len(),
                fp == v@.skip(d + 1),
                strip_trailing_zeros(v@.subrange(d + 1, e as int)) == strip_trailing_zeros(fp),
            decreases e,
        {
            assert(v@.subrange(d + 1, e as int).drop_last() =~= v@.subrange(d + 1, e - 1));
            e = e - 1;
        }
        assert(v@.subrange(d + 1, v.len() as int) =~= fp);
        assert(strip_trailing_zeros(v@.subrange(d + 1, e as int)) == v@.subrange(d + 1, e as int));
        if e > d + 1 {
            let ghost whole = r@;
            push_char(&mut r, '.');
            let mut k = d + 1;
            while k < e
                invariant
                    d + 1 <= k <= e <= v.len(),
                    r@ == whole + seq!['.'] + v@.subrange(d + 1, k as int),
                decreases e - k,
            {
                push_char(&mut r, v[k]);
                k = k + 1;
                assert(r@ =~= whole + seq!['.'] + v@.subrange(d + 1, k as int));
            }
        }
    } else {
        assert(fp =~= Seq::<char>::empty());
    }
    r
}

/// The array size a literal denotes (see `literal_size`).
pub fn number_size(lit: &str) -> (n: usize)
    ensures
        n as nat == literal_size(lit@),
{
    let v = chars_of(lit);
    let d = find_dot(&v);
    proof {
        lemma_find_char_bounds(v@, '.', 0);
    }
    let ghost ip = integer_digits(v@);
    let mut n: usize = 0;
    let mut k: usize = 0;
    while k < d
        invariant
            k <= d <= v.len(),
            ip == v@.take(d as int),
            n as nat == (if digits_value(ip.take(k as int)) > usize::MAX { usize::MAX as nat } else { digits_value(ip.take(k as int)) }),
        decreases d - k,
    {
        let c = v[k];
        let dv: usize = if '0' <= c && c <= '9' { (c as u32 - '0' as u32) as usize } else { 0 };
        assert(ip.take(k + 1).drop_last() =~= ip.take(k as int));
        assert(ip.take(k + 1).last() == c);
        n = match n.checked_mul(10) {
            Some(m) => match m.checked_add(dv) {
                Some(x) => x,
                None => usize::MAX,
            },
            None => usize::MAX,
        };
        k = k + 1;
    }
    assert(ip.take(d as int) =~= ip);
    n
}

/// `find_char` stops at the first `c` from `from` on, or at the end.
proof fn lemma_find_char_at(s: Seq<char>, c: char, from: int, n: int)
    requires
        0 <= from <= n <= s.len(),
        forall|k: int| from <= k < n ==> s[k] != c,
        n == s.len() || s[n] == c,
    ensures
        find_char(s, c, from) == n,
    decreases n - from,
{
    if from < n {
        lemma_find_char_at(s, c, from + 1, n);
    }
}

proof fn lemma_zero_value()
    ensures
        digits_value(seq!['0']) == 0,
{
    let z = seq!['0'];
    assert(z.drop_last() =~= Seq::<char>::empty());
    assert(z.last() == '0');
    assert(digit_value('0') == 0);
    assert(digits_value(z) == digits_value(z.drop_last()) * 10 + digit_value(z.last()));
}

/// A leading zero adds nothing to the value of a run of digits.
proof fn lemma_leading_zero_value(s: Seq<char>)
    ensures
        digits_value(seq!['0'] + s) == digits_value(s),
    decreases s.len(),
{
    if s.len() > 0 {
        lemma_leading_zero_value(s.drop_last());
        assert((seq!['0'] + s).drop_last() =~= seq!['0'] + s.drop_last());
        assert((seq!['0'] + s).last() == s.last());
    } else {
        assert(seq!['0'] + s =~= seq!['0']);
        lemma_zero_value();
    }
}

/// Stripping leading zeros leaves a tail of the digits with the same value,
/// which does not start with a zero.
proof fn lemma_strip_leading(s: Seq<char>)
    ensures
        strip_leading_zeros(s).len() <= s.len(),
        forall|j: int| 0 <= j < strip_leading_zeros(s).len() ==>
            #[trigger] strip_leading_zeros(s)[j] == s[j + s.len() - strip_leading_zeros(s).len()],
        strip_leading_zeros(s).len() > 0 ==> strip_leading_zeros(s)[0] != '0',
        digits_value(strip_leading_zeros(s)) == digits_value(s),
    decreases s.len(),
{
    if s.len() > 0 && s[0] == '0' {
        let t = s.drop_first();
        lemma_strip_leading(t);
        assert(s =~= seq!['0'] + t);
        lemma_leading_zero_value(t);
        assert forall|j: int| 0 <= j < strip_leading_zeros(s).len() implies
            #[trigger] strip_leading_zeros(s)[j] == s[j + s.len() - strip_leading_zeros(s).len()] by {
            assert(strip_leading_zeros(t)[j] == t[j + t.len() - strip_leading_zeros(t).len()]);
        }
    }
}

/// Stripping trailing zeros scales the value of a fraction's digits by the
/// same power of ten as it shortens them, and leaves no trailing zero.
proof fn lemma_strip_trailing(s: Seq<char>)
    ensures
        digits_value(strip_trailing_zeros(s)) * pow(10, s.len()) == digits_value(s) * pow(10, strip_trailing_zeros(s).len()),
        strip_trailing_zeros(s).len() > 0 ==> strip_trailing_zeros(s).last() != '0',
    decreases s.len(),
{
    if s.len() > 0 && s.last() == '0' {
        let t = s.drop_last();
        lemma_strip_trailing(t);
        let a = digits_value(strip_trailing_zeros(t));
        let q = pow(10, strip_trailing_zeros(t).len());
        let pt = pow(10, t.len());
        assert(digit_value('0') == 0);
        assert(digits_value(s) == digits_value(t) * 10);
        reveal(pow);
        assert(pow(10, s.len()) == 10 * pt);
        let b = digits_value(t);
        assert(a * pt == b * q);
        assert(a * (10 * pt) == (b * 10) * q) by (nonlinear_arith)
            requires
                a * pt == b * q,
        ;
    }
}

/// Printing a number keeps its value: the printed whole part has the value
/// of the literal's whole part, and the printed fraction the value of the
/// literal's fraction (its digits over the matching power of ten). The
/// printed whole part is never empty and starts with a zero only when it is
/// `0`; the printed fraction never ends with a zero.
pub proof fn lemma_display_keeps_value(lit: Seq<char>)
    ensures
        integer_digits(number_display(lit)).len() > 0,
        integer_digits(number_display(lit))[0] == '0' ==> integer_digits(number_display(lit)) == seq!['0'],
        digits_value(integer_digits(number_display(lit))) == digits_value(integer_digits(lit)),
        digits_value(fraction_digits(number_display(lit))) * pow(10, fraction_digits(lit).len())
            == digits_value(fraction_digits(lit)) * pow(10, fraction_digits(number_display(lit)).len()),
        fraction_digits(number_display(lit)).len() > 0 ==> fraction_digits(number_display(lit)).last() != '0',
{
    let d = find_char(lit, '.', 0);
    lemma_find_char_bounds(lit, '.', 0);
    let ip = integer_digits(lit);
    let i = strip_leading_zeros(ip);
    lemma_strip_leading(ip);
    let whole = if i.len() == 0 { seq!['0'] } else { i };
    let fr = fraction_digits(lit);
    let f = strip_trailing_zeros(fr);
    lemma_strip_trailing(fr);
    let disp = number_display(lit);
    assert forall|k: int| 0 <= k < whole.len() implies whole[k] != '.' by {
        if i.len() > 0 {
            assert(i[k] == ip[k + ip.len() - i.len()]);
        }
    }
    if i.len() == 0 {
        lemma_zero_value();
    }
    if f.len() == 0 {
        assert(disp == whole);
        lemma_find_char_at(disp, '.', 0, whole.len() as int);
        assert(disp.take(whole.len() as int) =~= whole);
        assert(fraction_digits(disp) =~= f);
    } else {
        assert(disp == whole + seq!['.'] + f);
        assert forall|k: int| 0 <= k < whole.len() implies disp[k] != '.' by {
            assert(disp[k] == whole[k]);
        }
        assert(disp[whole.len() as int] == '.');
        lemma_find_char_at(disp, '.', 0, whole.len() as int);
        assert(disp.take(whole.len() as int) =~= whole);
        assert(disp.skip(whole.len() as int + 1) =~= f);
    }
}

} // verus!
