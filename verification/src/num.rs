//! Fixed-point numbers: a signed count of ten-thousandths of one.
//!
//! The dialect displays numbers rounded to four decimal places, so values
//! are stored exactly at that precision.  Arithmetic saturates at the ends
//! of the representable range; division by zero saturates in the direction
//! of the dividend's sign and `0 / 0` is `0`; the remainder of a zero
//! divisor is `0`.

use vstd::prelude::*;

verus! {

/// Number of fixed-point units that make up one whole value.
pub const UNITS_PER_ONE: i64 = 10000;

/// Integer-part cap while reading digits: any integer part at or above
/// this saturates the parsed value.
pub const INT_CAP: u64 = 1000000000000000;

/// A numeric value: a signed count of ten-thousandths.
#[derive(Debug, Clone, Copy, PartialEq, Eq, Structural)]
pub struct Fixed {
    pub units: i64,
}

/// Clamps a mathematical integer into the range of an `i64`.
pub open spec fn fx_clamp(n: int) -> int {
    if n > i64::MAX {
        i64::MAX as int
    } else if n < i64::MIN {
        i64::MIN as int
    } else {
        n
    }
}

/// Absolute value of a mathematical integer.
pub open spec fn abs_int(x: int) -> int {
    if x >= 0 {
        x
    } else {
        -x
    }
}

/// Saturating sum of two unit counts.
pub open spec fn fx_add(a: int, b: int) -> int {
    fx_clamp(a + b)
}

/// Saturating difference of two unit counts.
pub open spec fn fx_sub(a: int, b: int) -> int {
    fx_clamp(a - b)
}

/// Product of two unit counts, rounded half away from zero at the fourth
/// decimal place and saturating.
pub open spec fn fx_mul(a: int, b: int) -> int {
    let m = abs_int(a) * abs_int(b);
    let q = (m + 5000) / 10000;
    if (a < 0) != (b < 0) {
        fx_clamp(-q)
    } else {
        fx_clamp(q)
    }
}

/// Quotient of two unit counts, rounded half away from zero at the fourth
/// decimal place and saturating; a zero divisor saturates in the direction
/// of the dividend's sign.
pub open spec fn fx_div(a: int, b: int) -> int {
    if b == 0 {
        if a > 0 {
            i64::MAX as int
        } else if a < 0 {
            i64::MIN as int
        } else {
            0
        }
    } else {
        let m = abs_int(a) * 10000;
        let d = abs_int(b);
        let q = (2 * m + d) / (2 * d);
        if (a < 0) != (b < 0) {
            fx_clamp(-q)
        } else {
            fx_clamp(q)
        }
    }
}

/// Remainder of two unit counts under truncated division (the result keeps
/// the dividend's sign); a zero divisor yields zero.
pub open spec fn fx_rem(a: int, b: int) -> int {
    if b == 0 {
        0
    } else {
        let t = abs_int(a) % abs_int(b);
        if a < 0 {
            -t
        } else {
            t
        }
    }
}

/// The character for one decimal digit.
pub open spec fn digit_char(d: int) -> char {
    ((48 + d) as u8) as char
}

/// Decimal digits of a nonnegative integer, most significant first.
pub open spec fn dec_digits(n: int) -> Seq<char>
    decreases n,
{
    if n <= 9 {
        seq![digit_char(if n < 0 { 0 } else { n })]
    } else {
        dec_digits(n / 10) + seq![digit_char(n % 10)]
    }
}

/// The fractional suffix for a unit remainder in `0 ..= 9999`: empty for
/// zero, otherwise a point followed by the digits with trailing zeros
/// dropped.
pub open spec fn frac_seq(f: int) -> Seq<char> {
    if f == 0 {
        Seq::empty()
    } else {
        let d1 = digit_char(f / 1000);
        let d2 = digit_char((f / 100) % 10);
        let d3 = digit_char((f / 10) % 10);
        let d4 = digit_char(f % 10);
        if f % 10 != 0 {
            seq!['.', d1, d2, d3, d4]
        } else if f % 100 != 0 {
            seq!['.', d1, d2, d3]
        } else if f % 1000 != 0 {
            seq!['.', d1, d2]
        } else {
            seq!['.', d1]
        }
    }
}

/// Decimal text of a nonnegative unit count.
pub open spec fn format_mag(m: int) -> Seq<char> {
    dec_digits(m / 10000) + frac_seq(m % 10000)
}

/// Decimal text of a unit count: the value in ones, with at most four
/// fractional digits and no trailing zeros.
pub open spec fn format_units(u: int) -> Seq<char> {
    if u < 0 {
        seq!['-'] + format_mag(-u)
    } else {
        format_mag(u)
    }
}

/// True for the ten decimal digit characters.
pub open spec fn is_digit(c: char) -> bool {
    48 <= c as int && c as int <= 57
}

/// Numeric value of a digit character.
pub open spec fn digit_of(c: char) -> int {
    c as int - 48
}

/// First position at or after `i` that does not hold a digit.
pub open spec fn digits_end(s: Seq<char>, i: int) -> int
    decreases s.len() - i,
{
    if 0 <= i < s.len() && is_digit(s[i]) {
        digits_end(s, i + 1)
    } else {
        i
    }
}

/// Folds the digits in `s[i .. j)` onto an accumulator, capping it at
/// `INT_CAP` so that huge inputs saturate rather than grow without bound.
pub open spec fn acc_digits(s: Seq<char>, i: int, j: int, acc: int) -> int
    decreases j - i,
{
    if i < j && 0 <= i < s.len() {
        let a2 = if acc * 10 + digit_of(s[i]) > INT_CAP as int {
            INT_CAP as int
        } else {
            acc * 10 + digit_of(s[i])
        };
        acc_digits(s, i + 1, j, a2)
    } else {
        acc
    }
}

/// The digit at offset `off` of the fraction `s[k .. e)`, zero when the
/// fraction is shorter.
pub open spec fn frac_digit(s: Seq<char>, k: int, e: int, off: int) -> int {
    if k + off < e && 0 <= k + off < s.len() {
        digit_of(s[k + off])
    } else {
        0
    }
}

/// Unit value of the first four fractional digits.
pub open spec fn frac_val(s: Seq<char>, k: int, e: int) -> int {
    frac_digit(s, k, e, 0) * 1000 + frac_digit(s, k, e, 1) * 100 + frac_digit(s, k, e, 2) * 10
        + frac_digit(s, k, e, 3)
}

/// One when the fifth fractional digit rounds the value up, else zero.
pub open spec fn frac_round(s: Seq<char>, k: int, e: int) -> int {
    if k + 4 < e && 0 <= k + 4 < s.len() && digit_of(s[k + 4]) >= 5 {
        1
    } else {
        0
    }
}

/// Combines a sign, a capped integer part, a fractional part and a
/// rounding carry into a clamped unit count.
pub open spec fn signed_units(neg: bool, iv: int, fv: int, r: int) -> int {
    if iv >= INT_CAP as int {
        if neg {
            i64::MIN as int
        } else {
            i64::MAX as int
        }
    } else {
        let m = iv * 10000 + fv + r;
        if neg {
            fx_clamp(-m)
        } else {
            fx_clamp(m)
        }
    }
}

/// Unit count denoted by a piece of text: an optional sign, then decimal
/// digits with an optional point, rounded half away from zero at the
/// fourth decimal place.  Any other text denotes zero.
pub open spec fn parse_units(s: Seq<char>) -> int {
    let neg = s.len() > 0 && s[0] == '-';
    let i0: int = if s.len() > 0 && (s[0] == '-' || s[0] == '+') {
        1
    } else {
        0
    };
    let j = digits_end(s, i0);
    if j == s.len() {
        if j == i0 {
            0
        } else {
            signed_units(neg, acc_digits(s, i0, j, 0), 0, 0)
        }
    } else if s[j] == '.' {
        let k = j + 1;
        let e = digits_end(s, k);
        if e == s.len() && (j > i0 || e > k) {
            signed_units(neg, acc_digits(s, i0, j, 0), frac_val(s, k, e), frac_round(s, k, e))
        } else {
            0
        }
    } else {
        0
    }
}

/// Between a position and the end of its digit run, every character is a
/// digit, and the run stays inside the text.
pub proof fn lemma_digits_end_range(s: Seq<char>, i: int)
    requires
        0 <= i <= s.len(),
    ensures
        i <= digits_end(s, i) <= s.len(),
        forall|m: int| i <= m < digits_end(s, i) ==> is_digit(s[m]),
    decreases s.len() - i,
{
    if 0 <= i < s.len() && is_digit(s[i]) {
        lemma_digits_end_range(s, i + 1);
    }
}

/// The character for one decimal digit.
fn digit_to_char(d: u64) -> (c: char)
    requires
        d <= 9,
    ensures
        c == digit_char(d as int),
{
    (48 + d as u8) as char
}

/// True for the ten decimal digit characters.
fn is_digit_exec(c: char) -> (r: bool)
    ensures
        r == is_digit(c),
{
    48 <= c as u32 && c as u32 <= 57
}

/// Appends the decimal digits of `n`, most significant first.
fn push_dec(n: u64, out: &mut Vec<char>)
    ensures
        final(out)@ == old(out)@ + dec_digits(n as int),
    decreases n,
{
    if n <= 9 {
        out.push(digit_to_char(n));
        assert(final(out)@ =~= old(out)@ + dec_digits(n as int));
    } else {
        push_dec(n / 10, out);
        out.push(digit_to_char(n % 10));
        assert(final(out)@ =~= old(out)@ + dec_digits(n as int));
    }
}

/// Renders a number as text: sign, whole part, and up to four fractional
/// digits with trailing zeros dropped.
pub fn format_fixed(x: Fixed) -> (r: Vec<char>)
    ensures
        r@ == format_units(x.units as int),
{
    let mut out: Vec<char> = Vec::new();
    let neg = x.units < 0;
    if neg {
        out.push('-');
    }
    let m = mag_i64(x.units);
    let ip = m / 10000;
    let fp = m % 10000;
    push_dec(ip, &mut out);
    if fp != 0 {
        out.push('.');
        let d1 = digit_to_char(fp / 1000);
        let d2 = digit_to_char((fp / 100) % 10);
        let d3 = digit_to_char((fp / 10) % 10);
        let d4 = digit_to_char(fp % 10);
        if fp % 10 != 0 {
            out.push(d1);
            out.push(d2);
            out.push(d3);
            out.push(d4);
        } else if fp % 100 != 0 {
            out.push(d1);
            out.push(d2);
            out.push(d3);
        } else if fp % 1000 != 0 {
            out.push(d1);
            out.push(d2);
        } else {
            out.push(d1);
        }
    }
    assert(out@ =~= format_units(x.units as int));
    out
}

/// Scans the digit run starting at `i`, returning its end and the capped
/// value of its digits.
pub fn scan_digits(s: &Vec<char>, i: usize) -> (r: (usize, u64))
    requires
        i <= s@.len(),
    ensures
        r.0 as int == digits_end(s@, i as int),
        r.1 as int == acc_digits(s@, i as int, digits_end(s@, i as int), 0),
        r.1 <= INT_CAP,
        i <= r.0 <= s@.len(),
{
    let len = s.len();
    let ghost de = digits_end(s@, i as int);
    proof {
        lemma_digits_end_range(s@, i as int);
    }
    let mut j = i;
    let mut acc: u64 = 0;
    while j < len && is_digit_exec(s[j])
        invariant
            len == s@.len(),
            i <= j <= len,
            acc <= INT_CAP,
            digits_end(s@, j as int) == de,
            acc_digits(s@, i as int, de, 0) == acc_digits(s@, j as int, de, acc as int),
        decreases len - j,
    {
        proof {
            lemma_digits_end_range(s@, j as int);
            lemma_digits_end_range(s@, j as int + 1);
            assert(digits_end(s@, j as int) == digits_end(s@, j as int + 1));
        }
        let d = (s[j] as u32 - 48) as u64;
        let a2 = acc * 10 + d;
        let acc2 = if a2 > INT_CAP {
            INT_CAP
        } else {
            a2
        };
        proof {
            assert(acc_digits(s@, j as int, de, acc as int) == acc_digits(
                s@,
                j as int + 1,
                de,
                acc2 as int,
            ));
        }
        acc = acc2;
        j = j + 1;
    }
    assert(digits_end(s@, j as int) == j as int);
    assert(acc_digits(s@, j as int, de, acc as int) == acc as int);
    (j, acc)
}

/// Combines a sign, a capped integer part, a fractional part and a
/// rounding carry into a clamped number.
fn make_units(neg: bool, iv: u64, fv: u64, r: u64) -> (x: Fixed)
    requires
        iv <= INT_CAP,
        fv <= 9999,
        r <= 1,
    ensures
        x.units as int == signed_units(neg, iv as int, fv as int, r as int),
{
    if iv >= INT_CAP {
        if neg {
            Fixed { units: i64::MIN }
        } else {
            Fixed { units: i64::MAX }
        }
    } else {
        let m = (iv as u128) * 10000 + fv as u128 + r as u128;
        Fixed { units: clamp_mag(neg, m) }
    }
}

/// Reads a number from text; text that is not a plain decimal number
/// denotes zero.
pub fn parse_fixed_chars(s: &Vec<char>) -> (x: Fixed)
    ensures
        x.units as int == parse_units(s@),
{
    let len = s.len();
    let mut i: usize = 0;
    let mut neg = false;
    if len > 0 && s[0] == '-' {
        neg = true;
        i = 1;
    } else if len > 0 && s[0] == '+' {
        i = 1;
    }
    let i0 = i;
    let ghost de = digits_end(s@, i0 as int);
    let mut acc: u64 = 0;
    while i < len && is_digit_exec(s[i])
        invariant
            len == s@.len(),
            i0 <= i <= len,
            acc <= INT_CAP,
            digits_end(s@, i as int) == de,
            acc_digits(s@, i0 as int, de, 0) == acc_digits(s@, i as int, de, acc as int),
        decreases len - i,
    {
        proof {
            lemma_digits_end_range(s@, i as int);
            lemma_digits_end_range(s@, i as int + 1);
            assert(digits_end(s@, i as int) == digits_end(s@, i as int + 1));
        }
        let d = (s[i] as u32 - 48) as u64;
        let a2 = acc * 10 + d;
        let acc2 = if a2 > INT_CAP {
            INT_CAP
        } else {
            a2
        };
        proof {
            assert(acc_digits(s@, i as int, de, acc as int) == acc_digits(
                s@,
                i as int + 1,
                de,
                acc2 as int,
            ));
        }
        acc = acc2;
        i = i + 1;
    }
    let j = i;
    assert(digits_end(s@, j as int) == j as int);
    assert(acc_digits(s@, j as int, de, acc as int) == acc as int);
    if j == len {
        if j == i0 {
            return Fixed { units: 0 };
        }
        return make_units(neg, acc, 0, 0);
    }
    if s[j] != '.' {
        return Fixed { units: 0 };
    }
    let k = j + 1;
    let mut e = k;
    let ghost fe = digits_end(s@, k as int);
    while e < len && is_digit_exec(s[e])
        invariant
            len == s@.len(),
            k <= e <= len,
            digits_end(s@, e as int) == fe,
        decreases len - e,
    {
        e = e + 1;
    }
    assert(digits_end(s@, e as int) == e as int);
    if e != len {
        return Fixed { units: 0 };
    }
    if j == i0 && e == k {
        return Fixed { units: 0 };
    }
    proof {
        lemma_digits_end_range(s@, k as int);
    }
    let nfrac = e - k;
    let f1: u64 = if nfrac >= 1 {
        (s[k] as u32 - 48) as u64
    } else {
        0
    };
    let f2: u64 = if nfrac >= 2 {
        (s[k + 1] as u32 - 48) as u64
    } else {
        0
    };
    let f3: u64 = if nfrac >= 3 {
        (s[k + 2] as u32 - 48) as u64
    } else {
        0
    };
    let f4: u64 = if nfrac >= 4 {
        (s[k + 3] as u32 - 48) as u64
    } else {
        0
    };
    let r: u64 = if nfrac >= 5 && (s[k + 4] as u32) >= 53 {
        1
    } else {
        0
    };
    let fv = f1 * 1000 + f2 * 100 + f3 * 10 + f4;
    make_units(neg, acc, fv, r)
}

/// A digit character carries its digit.
pub proof fn lemma_digit_char_value(d: int)
    requires
        0 <= d <= 9,
    ensures
        is_digit(digit_char(d)),
        digit_of(digit_char(d)) == d,
{
}

/// The decimal digits of a number are digit characters, at least one.
pub proof fn lemma_dec_digits_wf(n: int)
    requires
        n >= 0,
    ensures
        dec_digits(n).len() >= 1,
        forall|k: int| 0 <= k < dec_digits(n).len() ==> is_digit(#[trigger] dec_digits(n)[k]),
    decreases n,
{
    if n <= 9 {
        lemma_digit_char_value(n);
    } else {
        lemma_dec_digits_wf(n / 10);
        lemma_digit_char_value(n % 10);
        assert forall|k: int| 0 <= k < dec_digits(n).len() implies is_digit(
            #[trigger] dec_digits(n)[k],
        ) by {
            if k < dec_digits(n / 10).len() {
                assert(dec_digits(n)[k] == dec_digits(n / 10)[k]);
            } else {
                assert(dec_digits(n)[k] == digit_char(n % 10));
            }
        }
    }
}

/// A run of digits ends exactly at the first non-digit or the text's end.
pub proof fn lemma_digits_end_upto(s: Seq<char>, i: int, j: int)
    requires
        0 <= i <= j <= s.len(),
        forall|k: int| i <= k < j ==> is_digit(s[k]),
        j == s.len() || !is_digit(s[j]),
    ensures
        digits_end(s, i) == j,
    decreases j - i,
{
    if i < j {
        lemma_digits_end_upto(s, i + 1, j);
    }
}

/// Extending a digit scan by one position applies one accumulator step.
pub proof fn lemma_acc_digits_snoc(s: Seq<char>, i: int, j: int, acc: int)
    requires
        0 <= i <= j < s.len(),
    ensures
        acc_digits(s, i, j + 1, acc) == ({
            let a = acc_digits(s, i, j, acc);
            if a * 10 + digit_of(s[j]) > INT_CAP as int {
                INT_CAP as int
            } else {
                a * 10 + digit_of(s[j])
            }
        }),
    decreases j - i,
{
    let a2 = if acc * 10 + digit_of(s[i]) > INT_CAP as int {
        INT_CAP as int
    } else {
        acc * 10 + digit_of(s[i])
    };
    if i < j {
        lemma_acc_digits_snoc(s, i + 1, j, a2);
        assert(acc_digits(s, i, j + 1, acc) == acc_digits(s, i + 1, j + 1, a2));
        assert(acc_digits(s, i, j, acc) == acc_digits(s, i + 1, j, a2));
    } else {
        assert(acc_digits(s, i + 1, j + 1, a2) == a2);
        assert(acc_digits(s, i, j + 1, acc) == a2);
        assert(acc_digits(s, i, j, acc) == acc);
    }
}

/// Scanning the digit text of a number below the cap recovers the number.
pub proof fn lemma_acc_of_dec(s: Seq<char>, i: int, n: int)
    requires
        0 <= n < INT_CAP,
        0 <= i,
        i + dec_digits(n).len() <= s.len(),
        s.subrange(i, i + dec_digits(n).len() as int) == dec_digits(n),
    ensures
        acc_digits(s, i, i + dec_digits(n).len() as int, 0) == n,
    decreases n,
{
    let d = dec_digits(n);
    let len = d.len() as int;
    assert forall|k: int| 0 <= k < len implies s[i + k] == d[k] by {
        assert(s.subrange(i, i + len)[k] == s[i + k]);
        assert(s.subrange(i, i + len)[k] == d[k]);
    }
    if n <= 9 {
        lemma_digit_char_value(n);
        assert(s[i + 0] == d[0]);
        assert(s[i] == digit_char(n));
        assert(digit_of(s[i]) == n);
        assert(acc_digits(s, i + 1, i + 1, n) == n);
        assert(acc_digits(s, i, i + 1, 0) == acc_digits(s, i + 1, i + 1, n));
    } else {
        let dh = dec_digits(n / 10);
        assert(d == dh + seq![digit_char(n % 10)]);
        assert(s.subrange(i, i + len - 1) =~= dh) by {
            assert(forall|k: int| 0 <= k < len - 1 ==> s.subrange(i, i + len - 1)[k] == s[i + k]
                && d[k] == dh[k]);
        }
        lemma_acc_of_dec(s, i, n / 10);
        lemma_acc_digits_snoc(s, i, i + len - 1, 0);
        lemma_digit_char_value(n % 10);
        assert(s[i + (len - 1)] == d[len - 1]);
        assert(s[i + len - 1] == digit_char(n % 10));
        assert(digit_of(s[i + len - 1]) == n % 10);
        assert((n / 10) * 10 + n % 10 == n);
        assert((n / 10) * 10 + n % 10 <= INT_CAP as int);
    }
}

/// The fractional digits of a unit remainder recover it exactly.
proof fn lemma_frac_decompose(fp: int)
    requires
        0 <= fp <= 9999,
    ensures
        (fp / 1000) * 1000 + ((fp / 100) % 10) * 100 + ((fp / 10) % 10) * 10 + fp % 10 == fp,
        0 <= fp / 1000 <= 9,
        0 <= (fp / 100) % 10 <= 9,
        0 <= (fp / 10) % 10 <= 9,
        0 <= fp % 10 <= 9,
{
    assert((fp / 1000) * 1000 + ((fp / 100) % 10) * 100 + ((fp / 10) % 10) * 10 + fp % 10 == fp)
        by (nonlinear_arith)
        requires
            0 <= fp <= 9999,
    ;
}

/// Law: printing a number and reading the text back yields the number
/// exactly — every representable value survives the display round trip.
pub proof fn lemma_format_parse_round_trip(u: i64)
    ensures
        parse_units(format_units(u as int)) == u as int,
{
    let s = format_units(u as int);
    let mag = abs_int(u as int);
    let ip = mag / 10000;
    let fp = mag % 10000;
    let neg = u < 0;
    let d = dec_digits(ip);
    let fs = frac_seq(fp);
    let dlen = d.len() as int;
    lemma_dec_digits_wf(ip);
    lemma_frac_decompose(fp);
    let i0: int = if neg {
        1
    } else {
        0
    };
    let sign: Seq<char> = if neg {
        seq!['-']
    } else {
        Seq::empty()
    };
    assert(s =~= sign + d + fs);
    assert(forall|k: int| 0 <= k < dlen ==> s[i0 + k] == d[k]);
    assert(s.len() > 0);
    if neg {
        assert(s[0] == '-');
    } else {
        assert(s[0] == d[0]);
        assert(is_digit(s[0]));
        assert(s[0] != '-' && s[0] != '+');
    }
    assert(ip < INT_CAP as int);
    assert(s.subrange(i0, i0 + dlen) =~= d);
    lemma_acc_of_dec(s, i0, ip);
    if fp == 0 {
        assert(fs =~= Seq::<char>::empty());
        assert(s.len() == i0 + dlen);
        lemma_digits_end_upto(s, i0, i0 + dlen);
        assert(parse_units(s) == signed_units(neg, ip, 0, 0));
        assert(ip * 10000 + 0 + 0 == mag);
        assert(signed_units(neg, ip, 0, 0) == u as int);
    } else {
        let d1 = fp / 1000;
        let d2 = (fp / 100) % 10;
        let d3 = (fp / 10) % 10;
        let d4 = fp % 10;
        lemma_digit_char_value(d1);
        lemma_digit_char_value(d2);
        lemma_digit_char_value(d3);
        lemma_digit_char_value(d4);
        assert(fs[0] == '.');
        assert(!is_digit('.'));
        lemma_digits_end_upto(s, i0, i0 + dlen);
        assert(s[i0 + dlen] == '.');
        let k = i0 + dlen + 1;
        let e = s.len() as int;
        assert(forall|m: int| k <= m < e ==> s[m] == fs[m - (i0 + dlen)]);
        assert(forall|m: int| k <= m < e ==> is_digit(s[m]));
        lemma_digits_end_upto(s, k, e);
        assert(e - k == fs.len() - 1 <= 4);
        assert(frac_round(s, k, e) == 0);
        assert(frac_val(s, k, e) == fp) by {
            if fp % 10 != 0 {
                assert(fs =~= seq!['.', digit_char(d1), digit_char(d2), digit_char(d3), digit_char(d4)]);
                assert(frac_digit(s, k, e, 0) == d1);
                assert(frac_digit(s, k, e, 1) == d2);
                assert(frac_digit(s, k, e, 2) == d3);
                assert(frac_digit(s, k, e, 3) == d4);
            } else if fp % 100 != 0 {
                assert(fs =~= seq!['.', digit_char(d1), digit_char(d2), digit_char(d3)]);
                assert(frac_digit(s, k, e, 0) == d1);
                assert(frac_digit(s, k, e, 1) == d2);
                assert(frac_digit(s, k, e, 2) == d3);
                assert(frac_digit(s, k, e, 3) == 0);
                assert(d4 == 0);
            } else if fp % 1000 != 0 {
                assert(fs =~= seq!['.', digit_char(d1), digit_char(d2)]);
                assert(frac_digit(s, k, e, 0) == d1);
                assert(frac_digit(s, k, e, 1) == d2);
                assert(frac_digit(s, k, e, 2) == 0);
                assert(frac_digit(s, k, e, 3) == 0);
                assert(d3 == 0 && d4 == 0) by (nonlinear_arith)
                    requires
                        0 <= fp <= 9999 && fp % 100 == 0 && d3 == (fp / 10) % 10 && d4 == fp % 10,
                ;
            } else {
                assert(fs =~= seq!['.', digit_char(d1)]);
                assert(frac_digit(s, k, e, 0) == d1);
                assert(frac_digit(s, k, e, 1) == 0);
                assert(frac_digit(s, k, e, 2) == 0);
                assert(frac_digit(s, k, e, 3) == 0);
                assert(d2 == 0 && d3 == 0 && d4 == 0) by (nonlinear_arith)
                    requires
                        0 <= fp <= 9999 && fp % 1000 == 0 && fp % 100 == 0 && fp % 10 == 0 && d2
                            == (fp / 100) % 10 && d3 == (fp / 10) % 10 && d4 == fp % 10,
                ;
            }
        }
        assert(parse_units(s) == signed_units(neg, ip, fp, 0));
        assert(ip * 10000 + fp == mag);
        assert(signed_units(neg, ip, fp, 0) == u as int);
    }
}

/// Magnitude of an `i64` as a `u64`.
fn mag_i64(x: i64) -> (r: u64)
    ensures
        r as int == abs_int(x as int),
{
    if x >= 0 {
        x as u64
    } else {
        (-(x as i128)) as u64
    }
}

/// Clamps a signed magnitude into an `i64`.
fn clamp_mag(neg: bool, m: u128) -> (r: i64)
    ensures
        r as int == fx_clamp(
            if neg {
                -(m as int)
            } else {
                m as int
            },
        ),
{
    if neg {
        if m >= 9223372036854775808u128 {
            i64::MIN
        } else {
            -(m as i64)
        }
    } else {
        if m > 9223372036854775807u128 {
            i64::MAX
        } else {
            m as i64
        }
    }
}

/// Clamps an `i128` into an `i64`.
pub(crate) fn clamp_i128(s: i128) -> (r: i64)
    ensures
        r as int == fx_clamp(s as int),
{
    if s > i64::MAX as i128 {
        i64::MAX
    } else if s < i64::MIN as i128 {
        i64::MIN
    } else {
        s as i64
    }
}

impl Fixed {
    /// The number zero.
    pub fn zero() -> (r: Fixed)
        ensures
            r.units == 0,
    {
        Fixed { units: 0 }
    }

    /// The number one.
    pub fn one() -> (r: Fixed)
        ensures
            r.units == UNITS_PER_ONE,
    {
        Fixed { units: UNITS_PER_ONE }
    }

    /// Saturating addition.
    pub fn plus(self, other: Fixed) -> (r: Fixed)
        ensures
            r.units as int == fx_add(self.units as int, other.units as int),
    {
        let s: i128 = self.units as i128 + other.units as i128;
        Fixed { units: clamp_i128(s) }
    }

    /// Saturating subtraction.
    pub fn minus(self, other: Fixed) -> (r: Fixed)
        ensures
            r.units as int == fx_sub(self.units as int, other.units as int),
    {
        let s: i128 = self.units as i128 - other.units as i128;
        Fixed { units: clamp_i128(s) }
    }

    /// Saturating multiplication with round-half-away-from-zero.
    pub fn times(self, other: Fixed) -> (r: Fixed)
        ensures
            r.units as int == fx_mul(self.units as int, other.units as int),
    {
        let neg = (self.units < 0) != (other.units < 0);
        let ma = mag_i64(self.units) as u128;
        let mb = mag_i64(other.units) as u128;
        proof {
            assert(ma * mb <= 0x8000000000000000u128 * 0x8000000000000000u128) by (nonlinear_arith)
                requires
                    ma <= 0x8000000000000000u128,
                    mb <= 0x8000000000000000u128,
            ;
        }
        let m = ma * mb;
        let q = (m + 5000) / 10000;
        Fixed { units: clamp_mag(neg, q) }
    }

    /// Saturating division with round-half-away-from-zero; a zero divisor
    /// saturates in the direction of the dividend's sign.
    pub fn divided_by(self, other: Fixed) -> (r: Fixed)
        ensures
            r.units as int == fx_div(self.units as int, other.units as int),
    {
        if other.units == 0 {
            if self.units > 0 {
                Fixed { units: i64::MAX }
            } else if self.units < 0 {
                Fixed { units: i64::MIN }
            } else {
                Fixed { units: 0 }
            }
        } else {
            let neg = (self.units < 0) != (other.units < 0);
            let m = mag_i64(self.units) as u128 * 10000;
            let d = mag_i64(other.units) as u128;
            let q = (2 * m + d) / (2 * d);
            Fixed { units: clamp_mag(neg, q) }
        }
    }

    /// Remainder under truncated division; a zero divisor yields zero.
    pub fn rem(self, other: Fixed) -> (r: Fixed)
        ensures
            r.units as int == fx_rem(self.units as int, other.units as int),
    {
        if other.units == 0 {
            Fixed { units: 0 }
        } else {
            let ma = mag_i64(self.units);
            let mb = mag_i64(other.units);
            let t = ma % mb;
            if self.units < 0 {
                Fixed { units: -(t as i64) }
            } else {
                Fixed { units: t as i64 }
            }
        }
    }
}

} // verus!
