//! Decimal numbers as text: reading a credit balance, and writing amounts
//! into discount messages.
use vstd::prelude::*;
use crate::decimal::{Decimal, MAX_SCALE, pow10, pow10_exec, lemma_pow10_max_scale};

verus! {

/// The character of the decimal digit `d` (`d < 10`).
pub open spec fn digit_char(d: nat) -> char {
    if d == 0 {
        '0'
    } else if d == 1 {
        '1'
    } else if d == 2 {
        '2'
    } else if d == 3 {
        '3'
    } else if d == 4 {
        '4'
    } else if d == 5 {
        '5'
    } else if d == 6 {
        '6'
    } else if d == 7 {
        '7'
    } else if d == 8 {
        '8'
    } else {
        '9'
    }
}

/// `n` in decimal, without leading zeros.
pub open spec fn nat_text(n: nat) -> Seq<char>
    decreases n,
{
    if n < 10 {
        seq![digit_char(n)]
    } else {
        nat_text(n / 10).push(digit_char(n % 10))
    }
}

/// The last `w` decimal digits of `f`, zeros in front where `f` is shorter.
pub open spec fn fixed_digits(f: nat, w: nat) -> Seq<char>
    decreases w,
{
    if w == 0 {
        seq![]
    } else {
        fixed_digits(f / 10, (w - 1) as nat).push(digit_char(f % 10))
    }
}

/// The magnitude of an integer.
pub open spec fn magnitude(u: int) -> nat {
    if u < 0 {
        (-u) as nat
    } else {
        u as nat
    }
}

/// `"-"` for a negative number, else nothing.
pub open spec fn sign_text(d: Decimal) -> Seq<char> {
    if d.units < 0 {
        seq!['-']
    } else {
        seq![]
    }
}

/// `m / 10^k` with the trailing zeros of the fraction removed.
pub open spec fn trimmed(m: nat, k: nat) -> (nat, nat)
    decreases k,
{
    if k > 0 && m % 10 == 0 {
        trimmed(m / 10, (k - 1) as nat)
    } else {
        (m, k)
    }
}

/// The shortest plain text of `d`: `15`, `15.5`, `-0.25` (no exponent, no
/// trailing zeros in the fraction).
pub open spec fn plain_text(d: Decimal) -> Seq<char> {
    let (m, k) = trimmed(magnitude(d.units as int), d.scale as nat);
    let whole = nat_text((m as int / pow10(k)) as nat);
    if k > 0 {
        sign_text(d) + whole + seq!['.'] + fixed_digits((m as int % pow10(k)) as nat, k)
    } else {
        sign_text(d) + whole
    }
}

/// The magnitude of `d` in hundredths, rounded half up.
pub open spec fn rounded_cents(d: Decimal) -> nat {
    let m = magnitude(d.units as int) as int;
    let k = d.scale as nat;
    if k <= 2 {
        (m * pow10((2 - k) as nat)) as nat
    } else {
        let q = pow10((k - 2) as nat);
        (m / q + (if 2 * (m % q) >= q {
            1int
        } else {
            0int
        })) as nat
    }
}

/// `d` with exactly two decimal places, rounded half up: `12.50`, `0.07`.
pub open spec fn cents_text(d: Decimal) -> Seq<char> {
    let c = rounded_cents(d);
    sign_text(d) + nat_text(c / 100) + seq!['.'] + fixed_digits(c % 100, 2)
}

fn append_digit(s: &mut String, d: u128)
    requires
        d < 10,
    ensures
        final(s)@ == old(s)@.push(digit_char(d as nat)),
{
    let lit: &str = if d == 0 {
        "0"
    } else if d == 1 {
        "1"
    } else if d == 2 {
        "2"
    } else if d == 3 {
        "3"
    } else if d == 4 {
        "4"
    } else if d == 5 {
        "5"
    } else if d == 6 {
        "6"
    } else if d == 7 {
        "7"
    } else if d == 8 {
        "8"
    } else {
        "9"
    };
    proof {
        reveal_strlit("0");
        reveal_strlit("1");
        reveal_strlit("2");
        reveal_strlit("3");
        reveal_strlit("4");
        reveal_strlit("5");
        reveal_strlit("6");
        reveal_strlit("7");
        reveal_strlit("8");
        reveal_strlit("9");
        assert(lit@ =~= seq![digit_char(d as nat)]);
    }
    s.append(lit);
}

/// Appends `n` in decimal.
fn append_nat(s: &mut String, n: u128)
    ensures
        final(s)@ == old(s)@ + nat_text(n as nat),
    decreases n,
{
    if n >= 10 {
        append_nat(s, n / 10);
    }
    append_digit(s, n % 10);
    proof {
        assert(final(s)@ =~= old(s)@ + nat_text(n as nat));
    }
}

/// Appends the last `w` digits of `f`.
fn append_fixed(s: &mut String, f: u128, w: u32)
    ensures
        final(s)@ == old(s)@ + fixed_digits(f as nat, w as nat),
    decreases w,
{
    if w > 0 {
        append_fixed(s, f / 10, w - 1);
        append_digit(s, f % 10);
    }
    proof {
        assert(final(s)@ =~= old(s)@ + fixed_digits(f as nat, w as nat));
    }
}

fn magnitude_exec(u: i64) -> (r: u128)
    ensures
        r == magnitude(u as int),
        r <= 9_223_372_036_854_775_808,
{
    if u < 0 {
        (-(u as i128)) as u128
    } else {
        u as u128
    }
}

fn append_sign(s: &mut String, d: &Decimal)
    ensures
        final(s)@ == old(s)@ + sign_text(*d),
{
    if d.units < 0 {
        proof {
            reveal_strlit("-");
        }
        s.append("-");
    }
    proof {
        assert(final(s)@ =~= old(s)@ + sign_text(*d));
    }
}

/// Appends the shortest plain text of `d`.
pub fn append_plain(s: &mut String, d: &Decimal)
    requires
        d.wf(),
    ensures
        final(s)@ == old(s)@ + plain_text(*d),
{
    let mut m = magnitude_exec(d.units);
    let mut k: u32 = d.scale;
    while k > 0 && m % 10 == 0
        invariant
            k <= d.scale <= MAX_SCALE,
            m <= 9_223_372_036_854_775_808,
            trimmed(m as nat, k as nat) == trimmed(magnitude(d.units as int), d.scale as nat),
        decreases k,
    {
        m = m / 10;
        k = k - 1;
    }
    assert(trimmed(m as nat, k as nat) == (m as nat, k as nat));
    let p = pow10_exec(k);
    proof {
        lemma_pow10_max_scale(k as nat);
    }
    let p = p as u128;
    append_sign(s, d);
    append_nat(s, m / p);
    if k > 0 {
        proof {
            reveal_strlit(".");
        }
        s.append(".");
        append_fixed(s, m % p, k);
    }
    proof {
        assert(final(s)@ =~= old(s)@ + plain_text(*d));
    }
}

/// Appends `d` with exactly two decimal places, rounded half up.
pub fn append_cents(s: &mut String, d: &Decimal)
    requires
        d.wf(),
    ensures
        final(s)@ == old(s)@ + cents_text(*d),
{
    let m = magnitude_exec(d.units);
    let c: u128 = if d.scale <= 2 {
        let p = pow10_exec(2 - d.scale);
        proof {
            lemma_pow10_max_scale((2 - d.scale) as nat);
            assert(p <= 100) by {
                reveal_with_fuel(pow10, 3);
            }
            assert(m * p <= 9_223_372_036_854_775_808 * 100) by (nonlinear_arith)
                requires
                    m <= 9_223_372_036_854_775_808,
                    p <= 100,
            ;
        }
        m * (p as u128)
    } else {
        let q = pow10_exec(d.scale - 2);
        proof {
            lemma_pow10_max_scale((d.scale - 2) as nat);
        }
        let q = q as u128;
        let r = m % q;
        if 2 * r >= q {
            m / q + 1
        } else {
            m / q
        }
    };
    assert(c == rounded_cents(*d));
    append_sign(s, d);
    append_nat(s, c / 100);
    proof {
        reveal_strlit(".");
    }
    s.append(".");
    append_fixed(s, c % 100, 2);
    proof {
        assert(final(s)@ =~= old(s)@ + cents_text(*d));
    }
}

/// `c` is one of `0` to `9`.
pub open spec fn is_digit(c: char) -> bool {
    '0' <= c && c <= '9'
}

/// The value of the digit character `c`.
pub open spec fn digit_value(c: char) -> nat {
    ((c as u32) - ('0' as u32)) as nat
}

pub open spec fn all_digits(s: Seq<char>) -> bool {
    forall|i: int| 0 <= i < s.len() ==> is_digit(#[trigger] s[i])
}

/// The number that the digits `s` spell, read left to right.
pub open spec fn digits_value(s: Seq<char>) -> nat
    decreases s.len(),
{
    if s.len() == 0 {
        0
    } else {
        digits_value(s.drop_last()) * 10 + digit_value(s.last())
    }
}

/// `s` starts with `+` or `-`.
pub open spec fn has_sign(s: Seq<char>) -> bool {
    s.len() > 0 && (s[0] == '-' || s[0] == '+')
}

/// `s` without its leading sign, if any.
pub open spec fn unsigned_part(s: Seq<char>) -> Seq<char> {
    if has_sign(s) {
        s.drop_first()
    } else {
        s
    }
}

/// The index of the first `.` in `s`, or `s.len()` if there is none.
pub open spec fn first_dot(s: Seq<char>) -> nat
    decreases s.len(),
{
    if s.len() == 0 || s[0] == '.' {
        0
    } else {
        1 + first_dot(s.drop_first())
    }
}

/// What stands before the point.
pub open spec fn whole_digits(s: Seq<char>) -> Seq<char> {
    let b = unsigned_part(s);
    b.take(first_dot(b) as int)
}

/// What stands after the point (nothing if there is no point).
pub open spec fn fraction_digits(s: Seq<char>) -> Seq<char> {
    let b = unsigned_part(s);
    if first_dot(b) < b.len() {
        b.skip(first_dot(b) as int + 1)
    } else {
        seq![]
    }
}

/// `s` is a plain decimal: an optional sign, digits, and optionally a point
/// followed by digits, with at least one digit in all (`25`, `-3.5`, `.5`,
/// `7.`).
pub open spec fn is_decimal_text(s: Seq<char>) -> bool {
    all_digits(whole_digits(s)) && all_digits(fraction_digits(s)) && whole_digits(s).len()
        + fraction_digits(s).len() >= 1
}

/// The decimal that `s` spells, where it is plain decimal text whose digits
/// fit an `i64` and whose fraction has at most `MAX_SCALE` digits.
pub open spec fn parse_spec(s: Seq<char>) -> Option<Decimal> {
    let mag = digits_value(whole_digits(s) + fraction_digits(s));
    let scale = fraction_digits(s).len();
    if is_decimal_text(s) && mag <= i64::MAX && scale <= MAX_SCALE {
        Some(
            Decimal {
                units: (if s.len() > 0 && s[0] == '-' {
                    -mag
                } else {
                    mag as int
                }) as i64,
                scale: scale as u32,
            },
        )
    } else {
        None
    }
}

proof fn lemma_digits_value_grows(a: Seq<char>, b: Seq<char>)
    ensures
        digits_value(a) <= digits_value(a + b),
    decreases b.len(),
{
    if b.len() > 0 {
        lemma_digits_value_grows(a, b.drop_last());
        assert((a + b).drop_last() =~= a + b.drop_last());
    }
}

proof fn lemma_digits_value_step(a: Seq<char>, c: char)
    ensures
        digits_value(a.push(c)) == digits_value(a) * 10 + digit_value(c),
{
    assert(a.push(c).drop_last() =~= a);
}

proof fn lemma_first_dot(b: Seq<char>, k: int)
    requires
        0 <= k <= b.len(),
        forall|i: int| 0 <= i < k ==> b[i] != '.',
        k == b.len() || b[k] == '.',
    ensures
        first_dot(b) == k,
    decreases k,
{
    if k > 0 {
        lemma_first_dot(b.drop_first(), k - 1);
    }
}

proof fn lemma_first_dot_at_least(b: Seq<char>, k: int)
    requires
        0 <= k <= b.len(),
        forall|i: int| 0 <= i < k ==> b[i] != '.',
    ensures
        k <= first_dot(b) <= b.len(),
    decreases k,
{
    if k > 0 {
        lemma_first_dot_at_least(b.drop_first(), k - 1);
    } else {
        lemma_first_dot_bounded(b);
    }
}

proof fn lemma_first_dot_bounded(b: Seq<char>)
    ensures
        first_dot(b) <= b.len(),
    decreases b.len(),
{
    if b.len() > 0 && b[0] != '.' {
        lemma_first_dot_bounded(b.drop_first());
    }
}

/// Reads plain decimal text: `Some` exactly where `parse_spec` gives one.
pub fn parse_decimal(text: &str) -> (r: Option<Decimal>)
    ensures
        r == parse_spec(text@),
        r matches Some(d) ==> d.wf(),
{
    let n = text.unicode_len();
    let ghost s = text@;
    let mut start: usize = 0;
    let mut negative = false;
    if n > 0 {
        let c0 = text.get_char(0);
        if c0 == '-' {
            negative = true;
            start = 1;
        } else if c0 == '+' {
            start = 1;
        }
    }
    let ghost b = unsigned_part(s);
    assert(b =~= s.skip(start as int));
    let mut acc: u64 = 0;
    let mut i: usize = start;
    while i < n && text.get_char(i) != '.'
        invariant
            start <= i <= n,
            n == s.len(),
            s == text@,
            b == s.skip(start as int),
            b == unsigned_part(s),
            negative == (s.len() > 0 && s[0] == '-'),
            all_digits(b.take(i - start)),
            forall|j: int| 0 <= j < i - start ==> b[j] != '.',
            acc == digits_value(b.take(i - start)),
            acc <= i64::MAX,
        decreases n - i,
    {
        let c = text.get_char(i);
        proof {
            assert(b[i - start] == c);
            lemma_first_dot_at_least(b, (i + 1 - start) as int);
            let j = (i + 1 - start) as int;
            lemma_digits_value_grows(b.take(j), b.skip(j).take(first_dot(b) - j));
            assert(b.take(j) + b.skip(j).take(first_dot(b) - j) =~= whole_digits(s));
            lemma_digits_value_grows(whole_digits(s), fraction_digits(s));
        }
        if !('0' <= c && c <= '9') {
            proof {
                assert(whole_digits(s)[(i - start) as int] == c);
            }
            return None;
        }
        let d = (c as u32 - '0' as u32) as u64;
        proof {
            lemma_digits_value_step(b.take((i - start) as int), c);
            assert(b.take((i - start) as int).push(c) =~= b.take((i + 1 - start) as int));
        }
        if acc > (9_223_372_036_854_775_807u64 - d) / 10 {
            return None;
        }
        acc = acc * 10 + d;
        i = i + 1;
    }
    let k = i;
    proof {
        lemma_first_dot(b, (k - start) as int);
        assert(whole_digits(s) =~= b.take(k - start));
    }
    let mut scale: u32 = 0;
    if k < n {
        i = k + 1;
        while i < n
            invariant
                start <= k < i <= n,
                n == s.len(),
                s == text@,
                b == s.skip(start as int),
                b == unsigned_part(s),
            b == unsigned_part(s),
                first_dot(b) == k - start,
                negative == (s.len() > 0 && s[0] == '-'),
                scale == i - k - 1,
                scale <= MAX_SCALE,
                all_digits(whole_digits(s)),
                all_digits(b.subrange(k - start + 1, i - start)),
                acc == digits_value(whole_digits(s) + b.subrange(k - start + 1, i - start)),
                acc <= i64::MAX,
            decreases n - i,
        {
            let c = text.get_char(i);
            let ghost done = b.subrange(k - start + 1, i - start);
            proof {
                assert(b.len() == n - start);
                assert(b[i - start] == c);
                assert(fraction_digits(s) == b.skip(k - start + 1));
                assert(fraction_digits(s) =~= done + b.subrange(i - start, b.len() as int));
                assert(whole_digits(s) + fraction_digits(s) =~= (whole_digits(s) + done) + b.subrange(i - start, b.len() as int));
                lemma_digits_value_grows(whole_digits(s) + done, b.subrange(i - start, b.len() as int));
            }
            if !('0' <= c && c <= '9') {
                proof {
                    assert(fraction_digits(s)[(i - k - 1) as int] == c);
                }
                return None;
            }
            if scale == MAX_SCALE {
                return None;
            }
            let d = (c as u32 - '0' as u32) as u64;
            proof {
                lemma_digits_value_step(whole_digits(s) + done, c);
                assert((whole_digits(s) + done).push(c) =~= whole_digits(s) + b.subrange(k - start + 1, i + 1 - start));
                assert(b.subrange(k - start + 1, i + 1 - start) =~= done.push(c));
                assert(whole_digits(s) + fraction_digits(s) =~= (whole_digits(s) + done.push(c)) + b.subrange(i + 1 - start, b.len() as int));
                lemma_digits_value_grows(whole_digits(s) + done.push(c), b.subrange(i + 1 - start, b.len() as int));
            }
            if acc > (9_223_372_036_854_775_807u64 - d) / 10 {
                return None;
            }
            acc = acc * 10 + d;
            scale = scale + 1;
            i = i + 1;
        }
        proof {
            assert(b.len() == n - start);
            assert(fraction_digits(s) == b.skip(k - start + 1));
            assert(fraction_digits(s) =~= b.subrange(k - start + 1, n - start));
        }
    } else {
        proof {
            assert(fraction_digits(s) =~= seq![]);
            assert(whole_digits(s) + fraction_digits(s) =~= whole_digits(s));
        }
    }
    if k - start == 0 && scale == 0 {
        return None;
    }
    let units: i64 = if negative {
        -(acc as i64)
    } else {
        acc as i64
    };
    Some(Decimal { units, scale })
}

} // verus!
