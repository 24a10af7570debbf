//! Decimal text for the configuration's fields: unsigned integers and
//! fixed-point numbers in millionths.
use vstd::prelude::*;
use vstd::string::*;

verus! {

/// A decimal digit.
pub open spec fn is_digit(c: char) -> bool {
    '0' <= c && c <= '9'
}

/// Value of decimal digit `c`.
pub open spec fn digit_value(c: char) -> int {
    c as int - '0' as int
}

/// Every character of `s` is a decimal digit.
pub open spec fn all_digits(s: Seq<char>) -> bool {
    forall|i: int| 0 <= i < s.len() ==> is_digit(#[trigger] s[i])
}

/// Value of the digit string `s`, most significant first.
pub open spec fn digits_value(s: Seq<char>) -> int
    decreases s.len(),
{
    if s.len() == 0 {
        0
    } else {
        digits_value(s.drop_last()) * 10 + digit_value(s.last())
    }
}

/// `s` without one leading plus sign.
pub open spec fn unsigned_part(s: Seq<char>) -> Seq<char> {
    if s.len() > 0 && s[0] == '+' {
        s.skip(1)
    } else {
        s
    }
}

/// An unsigned integer: an optional plus sign and one or more digits whose
/// value fits in a `u32`.
pub open spec fn parse_uint(s: Seq<char>) -> Option<u32> {
    let t = unsigned_part(s);
    if t.len() > 0 && all_digits(t) && digits_value(t) <= u32::MAX {
        Some(digits_value(t) as u32)
    } else {
        None
    }
}

/// Index of the first '.' in `s` at or after `i`, or `s.len()`.
pub open spec fn dot_from(s: Seq<char>, i: int) -> int
    decreases s.len() - i,
{
    if i >= s.len() || i < 0 {
        s.len() as int
    } else if s[i] == '.' {
        i
    } else {
        dot_from(s, i + 1)
    }
}

/// The first `k` fraction digits of `b`, padded with zeros, as an integer.
pub open spec fn fraction_digits(b: Seq<char>, k: int) -> int
    decreases k,
{
    if k <= 0 {
        0
    } else {
        fraction_digits(b, k - 1) * 10 + if k - 1 < b.len() {
            digit_value(b[k - 1])
        } else {
            0
        }
    }
}

/// A non-negative decimal in millionths: an optional plus sign, integer
/// digits, and optionally a point and fraction digits, with at least one
/// digit in all. Fraction digits past the sixth are dropped. `None` when
/// the text has another form or the value does not fit in a `u32`.
pub open spec fn parse_fixed(s: Seq<char>) -> Option<u32> {
    let t = unsigned_part(s);
    let k = dot_from(t, 0);
    let a = t.take(k);
    let b = if k < t.len() {
        t.skip(k + 1)
    } else {
        Seq::empty()
    };
    let v = digits_value(a) * 1_000_000 + fraction_digits(b, 6);
    if a.len() + b.len() > 0 && all_digits(a) && all_digits(b) && v <= u32::MAX {
        Some(v as u32)
    } else {
        None
    }
}

/// The character of digit `d`.
pub open spec fn digit_char(d: int) -> char {
    if d == 0 {
        '0'
    } else if d == 1 {
        '1'
    } else if d == 2 {
        '2'
    } else if d == 3 {
        '3'
    } else if d == 4 {
        '4'
    } else if d == 5 {
        '5'
    } else if d == 6 {
        '6'
    } else if d == 7 {
        '7'
    } else if d == 8 {
        '8'
    } else {
        '9'
    }
}

/// Decimal text of `n`, without leading zeros.
pub open spec fn decimal(n: nat) -> Seq<char>
    decreases n,
{
    if n < 10 {
        seq![digit_char(n as int)]
    } else {
        decimal(n / 10) + seq![digit_char((n % 10) as int)]
    }
}

/// The last `k` decimal digits of `f`, zero-padded on the left.
pub open spec fn padded(f: nat, k: nat) -> Seq<char>
    decreases k,
{
    if k == 0 {
        Seq::empty()
    } else {
        padded(f / 10, (k - 1) as nat) + seq![digit_char((f % 10) as int)]
    }
}

/// `s` without its trailing zeros.
pub open spec fn strip_zeros(s: Seq<char>) -> Seq<char>
    decreases s.len(),
{
    if s.len() > 0 && s.last() == '0' {
        strip_zeros(s.drop_last())
    } else {
        s
    }
}

/// Text of `v` millionths: the integer part, then, unless the fraction is
/// zero, a point and the six fraction digits without trailing zeros.
pub open spec fn fixed_text(v: nat) -> Seq<char> {
    let f = v % 1_000_000;
    if f == 0 {
        decimal(v / 1_000_000)
    } else {
        decimal(v / 1_000_000) + seq!['.'] + strip_zeros(padded(f, 6))
    }
}

/// Whether `a` and `b` hold the same characters.
pub fn same_text(a: &str, b: &str) -> (r: bool)
    ensures
        r == (a@ == b@),
{
    let n = a.unicode_len();
    if n != b.unicode_len() {
        return false;
    }
    let mut i: usize = 0;
    while i < n
        invariant
            n == a@.len(),
            n == b@.len(),
            0 <= i <= n,
            forall|j: int| 0 <= j < i ==> a@[j] == b@[j],
        decreases n - i,
    {
        if a.get_char(i) != b.get_char(i) {
            return false;
        }
        i = i + 1;
    }
    assert(a@ =~= b@);
    true
}

fn digit_of(c: char) -> (r: Option<u32>)
    ensures
        r is Some <==> is_digit(c),
        r matches Some(d) ==> d == digit_value(c) && d < 10,
{
    if '0' <= c && c <= '9' {
        Some((c as u32) - ('0' as u32))
    } else {
        None
    }
}

/// Reads an unsigned integer (see [`parse_uint`]).
pub fn read_uint(s: &str) -> (r: Option<u32>)
    ensures
        r == parse_uint(s@),
{
    let n = s.unicode_len();
    let start: usize = if n > 0 && s.get_char(0) == '+' {
        1
    } else {
        0
    };
    let ghost t = unsigned_part(s@);
    assert(t =~= s@.skip(start as int));
    let big: u64 = 0x1_0000_0000;
    let mut value: u64 = 0;
    let mut i: usize = start;
    while i < n
        invariant
            n == s@.len(),
            start <= i <= n,
            big == 0x1_0000_0000,
            t == s@.skip(start as int),
            t == unsigned_part(s@),
            all_digits(s@.subrange(start as int, i as int)),
            value == if digits_value(s@.subrange(start as int, i as int)) < big {
                digits_value(s@.subrange(start as int, i as int))
            } else {
                big as int
            },
        decreases n - i,
    {
        let c = s.get_char(i);
        match digit_of(c) {
            None => {
                assert(t[i - start] == c);
                assert(!is_digit(t[i - start]));
                return None;
            },
            Some(d) => {
                let ghost p = s@.subrange(start as int, i as int);
                let ghost q = s@.subrange(start as int, i + 1);
                assert(q.drop_last() =~= p);
                assert(q.last() == c);
                assert(digits_value(p) >= 0) by {
                    lemma_digits_value_nonneg(p);
                }
                value = if value >= big {
                    big
                } else {
                    let v = value * 10 + d as u64;
                    if v >= big {
                        big
                    } else {
                        v
                    }
                };
                i = i + 1;
            },
        }
    }
    assert(s@.subrange(start as int, n as int) =~= t);
    if i == start || value >= big {
        None
    } else {
        Some(value as u32)
    }
}

/// Reads a fixed-point decimal in millionths (see [`parse_fixed`]).
pub fn read_fixed(s: &str) -> (r: Option<u32>)
    ensures
        r == parse_fixed(s@),
{
    let n = s.unicode_len();
    let start: usize = if n > 0 && s.get_char(0) == '+' {
        1
    } else {
        0
    };
    let ghost t = unsigned_part(s@);
    assert(t =~= s@.skip(start as int));
    // An integer part of 4295 or more cannot fit in a u32 of millionths.
    let big: u64 = 4295;
    let mut whole: u64 = 0;
    let mut i: usize = start;
    while i < n && s.get_char(i) != '.'
        invariant
            n == s@.len(),
            start <= i <= n,
            big == 4295,
            t == s@.skip(start as int),
            t == unsigned_part(s@),
            dot_from(t, 0) == dot_from(t, i - start),
            all_digits(t.take(i - start)),
            whole == if digits_value(t.take(i - start)) < big {
                digits_value(t.take(i - start))
            } else {
                big as int
            },
        decreases n - i,
    {
        let c = s.get_char(i);
        assert(t[i - start] == c);
        match digit_of(c) {
            None => {
                proof {
                    let k = dot_from(t, 0);
                    lemma_dot_after(t, i - start);
                    lemma_dot_from_at_least(t, 0);
                    assert(i - start < k <= t.len());
                    assert(t.take(k)[i - start] == c);
                    assert(!is_digit(t.take(k)[i - start]));
                }
                return None;
            },
            Some(d) => {
                let ghost p = t.take(i - start);
                let ghost q = t.take(i - start + 1);
                assert(q.drop_last() =~= p);
                assert(q.last() == c);
                assert(digits_value(p) >= 0) by {
                    lemma_digits_value_nonneg(p);
                }
                assert forall|j: int| 0 <= j < q.len() implies is_digit(#[trigger] q[j]) by {
                    if j < p.len() {
                        assert(q[j] == p[j]);
                    }
                }
                whole = if whole >= big {
                    big
                } else {
                    let v = whole * 10 + d as u64;
                    if v >= big {
                        big
                    } else {
                        v
                    }
                };
                i = i + 1;
            },
        }
    }
    let int_len: usize = i - start;
    let ghost k = int_len as int;
    assert(dot_from(t, k) == k);
    assert(dot_from(t, 0) == k);
    let ghost a = t.take(k);
    let ghost b = if k < t.len() {
        t.skip(k + 1)
    } else {
        Seq::<char>::empty()
    };
    let mut frac: u64 = 0;
    let mut frac_len: usize = 0;
    proof {
        lemma_pow10_six();
    }
    if i < n {
        i = i + 1;
        let fstart: usize = i;
        assert(b =~= s@.skip(fstart as int));
        while i < n
            invariant
                n == s@.len(),
                fstart <= i <= n,
                b == s@.skip(fstart as int),
                t == unsigned_part(s@),
                k == dot_from(t, 0),
                k < t.len(),
                b == t.skip(k + 1),
                all_digits(b.take(i - fstart)),
                frac == fraction_digits(b, if i - fstart < 6 {
                    i - fstart
                } else {
                    6
                }),
                frac < pow10(if i - fstart < 6 {
                    (i - fstart) as nat
                } else {
                    6
                }),
                pow10(6) == 1_000_000,
            decreases n - i,
        {
            let c = s.get_char(i);
            assert(b[i - fstart] == c);
            match digit_of(c) {
                None => {
                    assert(!is_digit(b[i - fstart]));
                    return None;
                },
                Some(d) => {
                    let ghost p = b.take(i - fstart);
                    let ghost q = b.take(i - fstart + 1);
                    assert forall|j: int| 0 <= j < q.len() implies is_digit(#[trigger] q[j]) by {
                        if j < p.len() {
                            assert(q[j] == p[j]);
                        }
                    }
                    if i - fstart < 6 {
                        proof {
                            lemma_pow10_le(((i - fstart) + 1) as nat, 6);
                        }
                        assert(frac * 10 + d < pow10(((i - fstart) + 1) as nat));
                        frac = frac * 10 + d as u64;
                    }
                    i = i + 1;
                },
            }
        }
        assert(b.take(n - fstart) =~= b);
        frac_len = n - fstart;
    } else {
        assert(b.len() == 0);
    }
    let mut m: usize = if frac_len < 6 {
        frac_len
    } else {
        6
    };
    while m < 6
        invariant
            m <= 6,
            m >= b.len() || m == 6,
            frac == fraction_digits(b, m as int),
            frac < pow10(m as nat),
            pow10(6) == 1_000_000,
        decreases 6 - m,
    {
        proof {
            lemma_pow10_le((m + 1) as nat, 6);
        }
        frac = frac * 10;
        m = m + 1;
    }
    proof {
        lemma_digits_value_nonneg(a);
    }
    if int_len + frac_len == 0 || whole >= big {
        return None;
    }
    let v: u64 = whole * 1_000_000 + frac;
    if v > 0xffff_ffff {
        None
    } else {
        Some(v as u32)
    }
}

/// `10` to the power `k`.
pub open spec fn pow10(k: nat) -> nat
    decreases k,
{
    if k == 0 {
        1
    } else {
        10 * pow10((k - 1) as nat)
    }
}

proof fn lemma_pow10_six()
    ensures
        pow10(6) == 1_000_000,
{
    assert(pow10(0) == 1);
    assert(pow10(1) == 10);
    assert(pow10(2) == 100);
    assert(pow10(3) == 1000);
    assert(pow10(4) == 10000);
    assert(pow10(5) == 100000);
    assert(pow10(6) == 1000000);
}

proof fn lemma_pow10_le(j: nat, k: nat)
    requires
        j <= k,
    ensures
        pow10(j) <= pow10(k),
        pow10(j) >= 1,
    decreases k,
{
    if j < k {
        lemma_pow10_le(j, (k - 1) as nat);
    } else if k > 0 {
        lemma_pow10_le((j - 1) as nat, (k - 1) as nat);
    }
}

proof fn lemma_dot_after(t: Seq<char>, i: int)
    requires
        0 <= i < t.len(),
        t[i] != '.',
    ensures
        dot_from(t, i) == dot_from(t, i + 1),
        dot_from(t, i + 1) > i,
    decreases t.len() - i,
{
    lemma_dot_from_at_least(t, i + 1);
}

proof fn lemma_dot_from_at_least(t: Seq<char>, i: int)
    requires
        0 <= i,
    ensures
        dot_from(t, i) >= i || i > t.len(),
        dot_from(t, i) <= t.len(),
    decreases t.len() - i,
{
    if i < t.len() && t[i] != '.' {
        lemma_dot_from_at_least(t, i + 1);
    }
}

fn digit_text(d: u32) -> (r: &'static str)
    requires
        d < 10,
    ensures
        r@ == seq![digit_char(d as int)],
{
    let r = if d == 0 {
        "0"
    } else if d == 1 {
        "1"
    } else if d == 2 {
        "2"
    } else if d == 3 {
        "3"
    } else if d == 4 {
        "4"
    } else if d == 5 {
        "5"
    } else if d == 6 {
        "6"
    } else if d == 7 {
        "7"
    } else if d == 8 {
        "8"
    } else {
        "9"
    };
    proof {
        reveal_strlit("0");
        reveal_strlit("1");
        reveal_strlit("2");
        reveal_strlit("3");
        reveal_strlit("4");
        reveal_strlit("5");
        reveal_strlit("6");
        reveal_strlit("7");
        reveal_strlit("8");
        reveal_strlit("9");
    }
    assert(r@ =~= seq![digit_char(d as int)]);
    r
}

fn push_decimal(s: &mut String, n: u32)
    ensures
        final(s)@ == old(s)@ + decimal(n as nat),
    decreases n,
{
    if n >= 10 {
        push_decimal(s, n / 10);
    }
    s.append(digit_text(n % 10));
    proof {
        if n >= 10 {
            assert(final(s)@ =~= old(s)@ + decimal(n as nat));
        } else {
            assert(final(s)@ =~= old(s)@ + decimal(n as nat));
        }
    }
}

fn push_padded(s: &mut String, f: u32, k: u32)
    ensures
        final(s)@ == old(s)@ + padded(f as nat, k as nat),
    decreases k,
{
    if k > 0 {
        push_padded(s, f / 10, k - 1);
        s.append(digit_text(f % 10));
        assert(final(s)@ =~= old(s)@ + padded(f as nat, k as nat));
    } else {
        assert(final(s)@ =~= old(s)@ + padded(f as nat, k as nat));
    }
}

/// Decimal text of `n`.
pub fn uint_text(n: u32) -> (r: String)
    ensures
        r@ == decimal(n as nat),
{
    let mut s = String::new();
    push_decimal(&mut s, n);
    assert(s@ =~= decimal(n as nat));
    s
}

/// Text of `v` millionths (see [`fixed_text`]).
pub fn fixed_to_text(v: u32) -> (r: String)
    ensures
        r@ == fixed_text(v as nat),
{
    let mut s = String::new();
    push_decimal(&mut s, v / 1_000_000);
    let f: u32 = v % 1_000_000;
    if f != 0 {
        s.append(".");
        let mut g: u32 = f;
        let mut k: u32 = 6;
        while k > 0 && g % 10 == 0
            invariant
                k <= 6,
                strip_zeros(padded(g as nat, k as nat)) == strip_zeros(padded(f as nat, 6)),
            decreases k,
        {
            let ghost p = padded(g as nat, k as nat);
            assert(p.drop_last() =~= padded((g / 10) as nat, (k - 1) as nat));
            g = g / 10;
            k = k - 1;
        }
        assert(strip_zeros(padded(g as nat, k as nat)) == padded(g as nat, k as nat));
        push_padded(&mut s, g, k);
        proof {
            reveal_strlit(".");
        }
        assert(s@ =~= fixed_text(v as nat));
    } else {
        assert(s@ =~= fixed_text(v as nat));
    }
    s
}

proof fn lemma_digits_value_nonneg(s: Seq<char>)
    requires
        all_digits(s),
    ensures
        digits_value(s) >= 0,
    decreases s.len(),
{
    if s.len() > 0 {
        assert(is_digit(s[s.len() - 1]));
        assert(s.drop_last().len() == s.len() - 1);
        assert forall|i: int| 0 <= i < s.drop_last().len() implies is_digit(
            #[trigger] s.drop_last()[i],
        ) by {
            assert(s.drop_last()[i] == s[i]);
        }
        lemma_digits_value_nonneg(s.drop_last());
    }
}

} // verus!
