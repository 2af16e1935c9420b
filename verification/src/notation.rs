//! Decimals in writing.
//!
//! A decimal is written as an optional sign, the digits of its whole part, and
//! optionally a point and the digits of its fraction: `-12.5`, `+3`, `0.001`,
//! `.5`, `7.`. At least one digit is required. Digits after the eighth of the
//! fraction are read and dropped.

use vstd::prelude::*;
use vstd::string::{StrSliceExecFns, StringExecFns};
use crate::decimal::SCALE;

verus! {

/// Digits that a decimal keeps after the point.
pub const FRACTION_DIGITS: usize = 8;

pub open spec fn is_digit(c: char) -> bool {
    '0' <= c && c <= '9'
}

/// The number that the digit `c` stands for.
pub open spec fn digit_of(c: char) -> int {
    c as int - '0' as int
}

/// Every character is a digit.
pub open spec fn all_digits(s: Seq<char>) -> bool {
    forall|i: int| 0 <= i < s.len() ==> is_digit(#[trigger] s[i])
}

/// The number that a string of digits stands for; zero for the empty string.
pub open spec fn number_of(digits: Seq<char>) -> int
    decreases digits.len(),
{
    if digits.len() == 0 {
        0
    } else {
        10 * number_of(digits.drop_last()) + digit_of(digits.last())
    }
}

/// Ten to the power `k`.
pub open spec fn tens(k: nat) -> int
    decreases k,
{
    if k == 0 {
        1
    } else {
        10 * tens((k - 1) as nat)
    }
}

/// The units that the fraction digits stand for: the first eight count, with
/// zeros for those that are missing.
pub open spec fn fraction_units(fraction: Seq<char>) -> int {
    let kept = if fraction.len() < FRACTION_DIGITS {
        fraction.len()
    } else {
        FRACTION_DIGITS as nat
    };
    number_of(fraction.take(kept as int)) * tens((FRACTION_DIGITS - kept) as nat)
}

/// The index of the first point in `s`, or the length of `s` without one.
pub open spec fn point_index(s: Seq<char>) -> int
    decreases s.len(),
{
    if s.len() == 0 {
        0
    } else if s[0] == '.' {
        0
    } else {
        1 + point_index(s.drop_first())
    }
}

/// Whether `s` begins with a sign.
pub open spec fn has_sign(s: Seq<char>) -> bool {
    s.len() > 0 && (s[0] == '-' || s[0] == '+')
}

/// The decimal that `s` denotes, if it denotes one that an `i64` holds.
pub open spec fn decimal_of(s: Seq<char>) -> Option<i64> {
    let body = if has_sign(s) {
        s.drop_first()
    } else {
        s
    };
    let point = point_index(body);
    let whole = body.take(point);
    let fraction = if point < body.len() {
        body.skip(point + 1)
    } else {
        Seq::empty()
    };
    if whole.len() + fraction.len() == 0 || !all_digits(whole) || !all_digits(fraction) {
        None
    } else {
        let magnitude = number_of(whole) * SCALE + fraction_units(fraction);
        let value = if has_sign(s) && s[0] == '-' {
            -magnitude
        } else {
            magnitude
        };
        if i64::MIN <= value <= i64::MAX {
            Some(value as i64)
        } else {
            None
        }
    }
}

proof fn lemma_point_index(s: Seq<char>, i: int)
    requires
        0 <= i <= s.len(),
        forall|j: int| 0 <= j < i ==> s[j] != '.',
        i < s.len() ==> s[i] == '.',
    ensures
        point_index(s) == i,
    decreases i,
{
    if i > 0 {
        let rest = s.drop_first();
        assert forall|j: int| 0 <= j < i - 1 implies rest[j] != '.' by {
            assert(rest[j] == s[j + 1]);
        }
        if i < s.len() {
            assert(rest[i - 1] == s[i]);
        }
        lemma_point_index(rest, i - 1);
    }
}

proof fn lemma_point_index_bounds(s: Seq<char>)
    ensures
        0 <= point_index(s) <= s.len(),
        forall|j: int| 0 <= j < point_index(s) ==> s[j] != '.',
        point_index(s) < s.len() ==> s[point_index(s)] == '.',
    decreases s.len(),
{
    if s.len() > 0 && s[0] != '.' {
        let rest = s.drop_first();
        lemma_point_index_bounds(rest);
        assert forall|j: int| 0 <= j < point_index(s) implies s[j] != '.' by {
            if j > 0 {
                assert(rest[j - 1] == s[j]);
            }
        }
        if point_index(s) < s.len() {
            assert(rest[point_index(rest)] == s[point_index(s)]);
        }
    }
}

proof fn lemma_number_nonnegative(digits: Seq<char>)
    requires
        all_digits(digits),
    ensures
        number_of(digits) >= 0,
    decreases digits.len(),
{
    if digits.len() > 0 {
        assert(is_digit(digits[digits.len() - 1]));
        lemma_number_nonnegative(digits.drop_last());
    }
}

/// The largest whole part that is still told apart: any larger one is beyond
/// the range of a decimal.
pub const WHOLE_CAP: u128 = 1_000_000_000_000;

/// The largest number that is still told apart when reading a whole number:
/// any larger one is beyond the range of an `i64`.
pub const INTEGER_CAP: u128 = 10_000_000_000_000_000_000;

/// `value`, or `cap` where it is larger.
pub open spec fn capped(value: int, cap: int) -> int {
    if value < cap {
        value
    } else {
        cap
    }
}

/// Reads the digits of `text` from index `from` up to the first character
/// that is no digit, and their number, capped at `cap`.
fn read_digits(text: &str, n: usize, from: usize, cap: u128) -> (r: (usize, u128))
    requires
        n == text@.len(),
        from <= n,
        cap <= INTEGER_CAP,
    ensures
        from <= r.0 <= n,
        all_digits(text@.subrange(from as int, r.0 as int)),
        r.0 < n ==> !is_digit(text@[r.0 as int]),
        r.1 == capped(number_of(text@.subrange(from as int, r.0 as int)), cap as int),
{
    let mut i: usize = from;
    let mut value: u128 = 0;
    let mut done = false;
    assert(text@.subrange(from as int, from as int) =~= Seq::<char>::empty());
    while i < n && !done
        invariant
            from <= i <= n == text@.len(),
            cap <= INTEGER_CAP,
            all_digits(text@.subrange(from as int, i as int)),
            done ==> i < n && !is_digit(text@[i as int]),
            value == capped(number_of(text@.subrange(from as int, i as int)), cap as int),
        decreases n - i + if done {
            0int
        } else {
            1int
        },
    {
        let c = text.get_char(i);
        if c >= '0' && c <= '9' {
            proof {
                let read = text@.subrange(from as int, i as int);
                let grown = text@.subrange(from as int, i + 1);
                assert(grown.drop_last() =~= read);
                assert(grown.last() == c);
                lemma_number_nonnegative(read);
                assert forall|j: int| 0 <= j < grown.len() implies is_digit(#[trigger] grown[j]) by {
                    if j < i - from {
                        assert(read[j] == grown[j]);
                    }
                }
            }
            let d: u128 = (c as u32 - '0' as u32) as u128;
            value = value * 10 + d;
            if value > cap {
                value = cap;
            }
            i += 1;
        } else {
            done = true;
        }
    }
    (i, value)
}

/// The whole number that `s` denotes, if it denotes one that an `i64`
/// holds: an optional sign and at least one digit.
pub open spec fn integer_of(s: Seq<char>) -> Option<i64> {
    let body = if has_sign(s) {
        s.drop_first()
    } else {
        s
    };
    if body.len() == 0 || !all_digits(body) {
        None
    } else {
        let value = if has_sign(s) && s[0] == '-' {
            -number_of(body)
        } else {
            number_of(body)
        };
        if i64::MIN <= value <= i64::MAX {
            Some(value as i64)
        } else {
            None
        }
    }
}

/// The whole number that `text` denotes, or `None` where it denotes none or
/// one beyond the range of an `i64`.
pub fn parse_integer(text: &str) -> (r: Option<i64>)
    ensures
        r == integer_of(text@),
{
    let n = text.unicode_len();
    let mut start: usize = 0;
    let mut negative = false;
    if n > 0 {
        let first = text.get_char(0);
        if first == '-' {
            negative = true;
            start = 1;
        } else if first == '+' {
            start = 1;
        }
    }
    let ghost body = text@.skip(start as int);
    assert(body =~= if has_sign(text@) {
        text@.drop_first()
    } else {
        text@
    });
    let (i, value) = read_digits(text, n, start, INTEGER_CAP);
    if i < n {
        assert(body[i - start] == text@[i as int]);
        assert(!is_digit(body[i - start]));
        return None;
    }
    assert(body =~= text@.subrange(start as int, i as int));
    if i == start || value >= INTEGER_CAP {
        return None;
    }
    if negative {
        if value > 0x8000_0000_0000_0000 {
            None
        } else {
            Some((-(value as i128)) as i64)
        }
    } else {
        if value > 0x7fff_ffff_ffff_ffff {
            None
        } else {
            Some(value as i64)
        }
    }
}

/// Reads the digits of a fraction from index `from` up to the first
/// character that is no digit, and the units they stand for.
fn read_fraction(text: &str, n: usize, from: usize) -> (r: (usize, u128))
    requires
        n == text@.len(),
        from <= n,
    ensures
        from <= r.0 <= n,
        all_digits(text@.subrange(from as int, r.0 as int)),
        r.0 < n ==> !is_digit(text@[r.0 as int]),
        r.1 == fraction_units(text@.subrange(from as int, r.0 as int)),
        r.1 < 100_000_000,
{
    let mut k: usize = from;
    let mut units: u128 = 0;
    let mut kept: usize = 0;
    let mut done = false;
    assert(text@.subrange(from as int, from as int) =~= Seq::<char>::empty());
    assert(text@.subrange(from as int, from as int).take(0) =~= Seq::<char>::empty());
    proof {
        reveal_with_fuel(tens, 9);
    }
    while k < n && !done
        invariant
            from <= k <= n == text@.len(),
            all_digits(text@.subrange(from as int, k as int)),
            done ==> k < n && !is_digit(text@[k as int]),
            kept == if k - from < FRACTION_DIGITS {
                (k - from) as int
            } else {
                FRACTION_DIGITS as int
            },
            units == number_of(text@.subrange(from as int, from + kept)),
            units < tens(kept as nat),
            tens(8) == 100_000_000,
        decreases n - k + if done {
            0int
        } else {
            1int
        },
    {
        let c = text.get_char(k);
        if c >= '0' && c <= '9' {
            proof {
                let read = text@.subrange(from as int, k as int);
                let grown = text@.subrange(from as int, k + 1);
                assert forall|j: int| 0 <= j < grown.len() implies is_digit(#[trigger] grown[j]) by {
                    if j < k - from {
                        assert(read[j] == grown[j]);
                    }
                }
            }
            if kept < FRACTION_DIGITS {
                proof {
                    let grown = text@.subrange(from as int, from + kept + 1);
                    assert(grown.drop_last() =~= text@.subrange(from as int, from + kept));
                    assert(grown.last() == c);
                    lemma_tens_grow(kept as nat, 8);
                }
                let d: u128 = (c as u32 - '0' as u32) as u128;
                units = units * 10 + d;
                kept += 1;
            }
            k += 1;
        } else {
            done = true;
        }
    }
    let ghost fraction = text@.subrange(from as int, k as int);
    assert(fraction.take(kept as int) =~= text@.subrange(from as int, from + kept));
    let mut missing: usize = FRACTION_DIGITS - kept;
    proof {
        lemma_tens_split(kept as nat, missing as nat);
        lemma_tens_positive(missing as nat);
        assert(0 <= units * tens(missing as nat) < tens(kept as nat) * tens(missing as nat))
            by (nonlinear_arith)
            requires
                0 <= units < tens(kept as nat),
                tens(missing as nat) >= 1,
        ;
    }
    let ghost target = units * tens(missing as nat);
    while missing > 0
        invariant
            missing <= FRACTION_DIGITS,
            units * tens(missing as nat) == target,
            0 <= target < 100_000_000,
        decreases missing,
    {
        proof {
            lemma_tens_positive((missing - 1) as nat);
            assert(units * 10 * tens((missing - 1) as nat) == target) by (nonlinear_arith)
                requires
                    units * (10 * tens((missing - 1) as nat)) == target,
            ;
            assert(units * 10 <= target) by (nonlinear_arith)
                requires
                    units * 10 * tens((missing - 1) as nat) == target,
                    tens((missing - 1) as nat) >= 1,
                    units >= 0,
            ;
        }
        units = units * 10;
        missing -= 1;
    }
    assert(units == target) by (nonlinear_arith)
        requires
            units * tens(0) == target,
            tens(0) == 1,
    ;
    (k, units)
}

/// The decimal that `text` denotes, or `None` where it denotes none or one
/// beyond the range of an `i64`.
pub fn parse_decimal(text: &str) -> (r: Option<i64>)
    ensures
        r == decimal_of(text@),
{
    let n = text.unicode_len();
    let mut start: usize = 0;
    let mut negative = false;
    if n > 0 {
        let first = text.get_char(0);
        if first == '-' {
            negative = true;
            start = 1;
        } else if first == '+' {
            start = 1;
        }
    }
    let ghost body = text@.skip(start as int);
    assert(body =~= if has_sign(text@) {
        text@.drop_first()
    } else {
        text@
    });
    let (i, whole) = read_digits(text, n, start, WHOLE_CAP);
    let ghost point = i - start;
    assert(body.take(point) =~= text@.subrange(start as int, i as int));
    proof {
        assert forall|j: int| 0 <= j < point implies body[j] != '.' by {
            assert(body.take(point)[j] == body[j]);
            assert(is_digit(body[j]));
        }
    }
    let mut units: u128 = 0;
    let mut fraction_len: usize = 0;
    if i < n {
        let c = text.get_char(i);
        assert(c == body[point]);
        if c != '.' {
            proof {
                lemma_point_index_bounds(body);
                let p = point_index(body);
                if p < point {
                    assert(body.take(point)[p] == body[p]);
                    assert(is_digit(body[p]));
                }
                assert(p > point);
                assert(!is_digit(body.take(p)[point]));
                assert(!all_digits(body.take(p)));
            }
            return None;
        }
        proof {
            lemma_point_index(body, point);
        }
        let (k, read) = read_fraction(text, n, i + 1);
        if k < n {
            proof {
                let fraction = body.skip(point + 1);
                assert(fraction[k - (i + 1)] == text@[k as int]);
                assert(!is_digit(fraction[k - (i + 1)]));
                assert(!all_digits(fraction));
            }
            return None;
        }
        assert(body.skip(point + 1) =~= text@.subrange(i + 1, k as int));
        units = read;
        fraction_len = n - (i + 1);
    } else {
        proof {
            lemma_point_index(body, point);
            lemma_no_fraction();
        }
    }
    if (i - start) + fraction_len == 0 {
        return None;
    }
    if whole >= WHOLE_CAP {
        return None;
    }
    let magnitude: u128 = whole * 100_000_000 + units;
    if negative {
        if magnitude > 0x8000_0000_0000_0000 {
            None
        } else {
            Some((-(magnitude as i128)) as i64)
        }
    } else {
        if magnitude > 0x7fff_ffff_ffff_ffff {
            None
        } else {
            Some(magnitude as i64)
        }
    }
}

proof fn lemma_tens_positive(k: nat)
    ensures
        tens(k) >= 1,
    decreases k,
{
    if k > 0 {
        lemma_tens_positive((k - 1) as nat);
    }
}

proof fn lemma_tens_grow(k: nat, m: nat)
    requires
        k <= m,
    ensures
        tens(k) <= tens(m),
    decreases m - k,
{
    if k < m {
        lemma_tens_grow(k + 1, m);
        lemma_tens_positive(k);
    }
}

/// A number below ten to the `k`, times ten to the `m`, is below ten to
/// the `k + m`.
proof fn lemma_tens_split(k: nat, m: nat)
    ensures
        tens(k) * tens(m) == tens(k + m),
    decreases k,
{
    if k > 0 {
        lemma_tens_split((k - 1) as nat, m);
        assert(10 * tens((k - 1) as nat) * tens(m) == 10 * (tens((k - 1) as nat) * tens(m)))
            by (nonlinear_arith);
    } else {
        assert(1 * tens(m) == tens(m));
    }
}


/// The character for the digit `d`.
pub open spec fn digit_char(d: int) -> char {
    if d == 0 {
        '0'
    } else if d == 1 {
        '1'
    } else if d == 2 {
        '2'
    } else if d == 3 {
        '3'
    } else if d == 4 {
        '4'
    } else if d == 5 {
        '5'
    } else if d == 6 {
        '6'
    } else if d == 7 {
        '7'
    } else if d == 8 {
        '8'
    } else {
        '9'
    }
}

/// The digits of `n`, without leading zeros; `0` for zero.
pub open spec fn numeral(n: nat) -> Seq<char>
    decreases n,
{
    if n < 10 {
        seq![digit_char(n as int)]
    } else {
        numeral(n / 10).push(digit_char((n % 10) as int))
    }
}

/// The last `width` digits of `n`, with leading zeros.
pub open spec fn padded(n: nat, width: nat) -> Seq<char>
    decreases width,
{
    if width == 0 {
        Seq::empty()
    } else {
        padded(n / 10, (width - 1) as nat).push(digit_char((n % 10) as int))
    }
}

/// The digits of a fraction of `width` digits, without trailing zeros.
pub open spec fn fraction_text(units: nat, width: nat) -> Seq<char>
    decreases width,
{
    if width > 0 && units % 10 == 0 {
        fraction_text(units / 10, (width - 1) as nat)
    } else {
        padded(units, width)
    }
}

/// The size of `v` without its sign.
pub open spec fn magnitude_of(v: i64) -> nat {
    if v < 0 {
        (-v) as nat
    } else {
        v as nat
    }
}

/// A decimal in writing: a minus sign where it is negative, its whole part,
/// and, unless it is whole, a point and its fraction without trailing zeros.
pub open spec fn decimal_text(v: i64) -> Seq<char> {
    let whole = magnitude_of(v) / (SCALE as nat);
    let units = magnitude_of(v) % (SCALE as nat);
    let head = if v < 0 {
        seq!['-'] + numeral(whole)
    } else {
        numeral(whole)
    };
    if units == 0 {
        head
    } else {
        head + seq!['.'] + fraction_text(units, FRACTION_DIGITS as nat)
    }
}

/// The digit `d` as a string.
fn digit_text(d: u64) -> (s: &'static str)
    requires
        d < 10,
    ensures
        s@ == seq![digit_char(d as int)],
{
    proof {
        reveal_strlit("0");
        reveal_strlit("1");
        reveal_strlit("2");
        reveal_strlit("3");
        reveal_strlit("4");
        reveal_strlit("5");
        reveal_strlit("6");
        reveal_strlit("7");
        reveal_strlit("8");
        reveal_strlit("9");
    }
    let s = if d == 0 {
        "0"
    } else if d == 1 {
        "1"
    } else if d == 2 {
        "2"
    } else if d == 3 {
        "3"
    } else if d == 4 {
        "4"
    } else if d == 5 {
        "5"
    } else if d == 6 {
        "6"
    } else if d == 7 {
        "7"
    } else if d == 8 {
        "8"
    } else {
        "9"
    };
    assert(s@ =~= seq![digit_char(d as int)]);
    s
}

/// The digits of `n`.
pub fn format_integer(n: u64) -> (text: String)
    ensures
        text@ == numeral(n as nat),
{
    let mut text = String::new();
    push_numeral(&mut text, n);
    assert(text@ =~= numeral(n as nat));
    text
}

/// Appends the digits of `n`.
fn push_numeral(out: &mut String, n: u64)
    ensures
        final(out)@ == old(out)@ + numeral(n as nat),
    decreases n,
{
    if n >= 10 {
        push_numeral(out, n / 10);
    }
    out.append(digit_text(n % 10));
    assert(out@ =~= old(out)@ + numeral(n as nat));
}

/// Appends the last `width` digits of `n`.
fn push_padded(out: &mut String, n: u64, width: usize)
    ensures
        final(out)@ == old(out)@ + padded(n as nat, width as nat),
    decreases width,
{
    if width > 0 {
        push_padded(out, n / 10, width - 1);
        out.append(digit_text(n % 10));
    }
    assert(out@ =~= old(out)@ + padded(n as nat, width as nat));
}

/// The decimal `v` in writing.
pub fn format_decimal(v: i64) -> (text: String)
    ensures
        text@ == decimal_text(v),
{
    let magnitude: u64 = if v < 0 {
        (-(v as i128)) as u64
    } else {
        v as u64
    };
    let whole: u64 = magnitude / 100_000_000;
    let mut units: u64 = magnitude % 100_000_000;
    let mut text = String::new();
    if v < 0 {
        proof {
            reveal_strlit("-");
        }
        text.append("-");
        assert(text@ =~= seq!['-']);
    }
    push_numeral(&mut text, whole);
    if units != 0 {
        proof {
            reveal_strlit(".");
        }
        text.append(".");
        let ghost head = text@;
        let ghost first = units;
        let mut width: usize = FRACTION_DIGITS;
        while width > 0 && units % 10 == 0
            invariant
                fraction_text(units as nat, width as nat) == fraction_text(
                    first as nat,
                    FRACTION_DIGITS as nat,
                ),
                text@ == head,
            decreases width,
        {
            units = units / 10;
            width -= 1;
        }
        push_padded(&mut text, units, width);
        assert(text@ =~= decimal_text(v));
    } else {
        assert(text@ =~= decimal_text(v));
    }
    text
}


proof fn lemma_digit_char(d: int)
    requires
        0 <= d < 10,
    ensures
        is_digit(digit_char(d)),
        digit_of(digit_char(d)) == d,
        digit_char(d) != '.',
        digit_char(d) != '-',
        digit_char(d) != '+',
{
}

proof fn lemma_numeral(n: nat)
    ensures
        numeral(n).len() >= 1,
        all_digits(numeral(n)),
        number_of(numeral(n)) == n,
    decreases n,
{
    if n < 10 {
        lemma_digit_char(n as int);
        let s = numeral(n);
        assert(s.drop_last() =~= Seq::<char>::empty());
        assert(number_of(s.drop_last()) == 0);
    } else {
        lemma_numeral(n / 10);
        lemma_digit_char((n % 10) as int);
        let s = numeral(n);
        assert(s.drop_last() =~= numeral(n / 10));
        assert forall|i: int| 0 <= i < s.len() implies is_digit(#[trigger] s[i]) by {
            if i < s.len() - 1 {
                assert(s[i] == numeral(n / 10)[i]);
            }
        }
    }
}

proof fn lemma_padded(n: nat, width: nat)
    ensures
        padded(n, width).len() == width,
        all_digits(padded(n, width)),
        number_of(padded(n, width)) == n % (tens(width) as nat),
    decreases width,
{
    lemma_tens_positive(width);
    if width > 0 {
        lemma_padded(n / 10, (width - 1) as nat);
        lemma_digit_char((n % 10) as int);
        lemma_tens_positive((width - 1) as nat);
        let s = padded(n, width);
        assert(s.drop_last() =~= padded(n / 10, (width - 1) as nat));
        assert forall|i: int| 0 <= i < s.len() implies is_digit(#[trigger] s[i]) by {
            if i < s.len() - 1 {
                assert(s[i] == padded(n / 10, (width - 1) as nat)[i]);
            }
        }
        vstd::arithmetic::div_mod::lemma_mod_breakdown(n as int, 10, tens((width - 1) as nat));
    } else {
        assert(padded(n, width) =~= Seq::<char>::empty());
    }
}

/// The fraction digits in writing stand for the units they were written
/// for.
proof fn lemma_fraction_text(units: nat, width: nat)
    requires
        0 < units < tens(width),
        width <= FRACTION_DIGITS,
    ensures
        1 <= fraction_text(units, width).len() <= width,
        all_digits(fraction_text(units, width)),
        number_of(fraction_text(units, width)) * tens(
            (width - fraction_text(units, width).len()) as nat,
        ) == units,
    decreases width,
{
    if width > 0 && units % 10 == 0 {
        assert(units / 10 < tens((width - 1) as nat) && units / 10 > 0 && (units / 10) * 10 == units);
        lemma_fraction_text(units / 10, (width - 1) as nat);
        let text = fraction_text(units, width);
        let gap = (width - 1 - text.len()) as nat;
        assert(number_of(text) * tens(gap + 1) == units) by (nonlinear_arith)
            requires
                number_of(text) * tens(gap) == units / 10,
                tens(gap + 1) == 10 * tens(gap),
                (units / 10) * 10 == units,
        ;
    } else {
        lemma_padded(units, width);
        vstd::arithmetic::div_mod::lemma_small_mod(units, tens(width) as nat);
        assert(number_of(padded(units, width)) * tens(0) == units) by (nonlinear_arith)
            requires
                number_of(padded(units, width)) == units,
                tens(0) == 1,
        ;
    }
}

proof fn lemma_no_fraction()
    ensures
        fraction_units(Seq::<char>::empty()) == 0,
{
    let none = Seq::<char>::empty();
    assert(none.take(0) =~= none);
    assert(number_of(none) == 0);
    assert(0 * tens(FRACTION_DIGITS as nat) == 0);
}

/// Writing a decimal and reading it back gives the decimal: every decimal
/// has a notation, and the notation denotes it.
pub proof fn lemma_writing_then_reading(v: i64)
    ensures
        decimal_of(decimal_text(v)) == Some(v),
{
    let whole = magnitude_of(v) / (SCALE as nat);
    let units = magnitude_of(v) % (SCALE as nat);
    let digits = numeral(whole);
    let text = decimal_text(v);
    lemma_numeral(whole);
    assert(tens(8) == 100_000_000) by {
        reveal_with_fuel(tens, 9);
    }
    assert(is_digit(digits[0]));
    let body = if v < 0 {
        assert(text[0] == '-');
        assert(text.drop_first() =~= if units == 0 {
            digits
        } else {
            digits + seq!['.'] + fraction_text(units, FRACTION_DIGITS as nat)
        });
        text.drop_first()
    } else {
        assert(text[0] == digits[0]);
        text
    };
    assert(has_sign(text) == (v < 0));
    let point = digits.len() as int;
    assert forall|j: int| 0 <= j < point implies body[j] != '.' by {
        assert(body[j] == digits[j]);
        assert(is_digit(digits[j]));
    }
    if units == 0 {
        assert(body =~= digits);
        lemma_point_index(body, point);
        assert(body.take(point) =~= digits);
        lemma_no_fraction();
    } else {
        let fraction = fraction_text(units, FRACTION_DIGITS as nat);
        lemma_fraction_text(units, FRACTION_DIGITS as nat);
        assert(body =~= digits + seq!['.'] + fraction);
        assert(body[point] == '.');
        lemma_point_index(body, point);
        assert(body.take(point) =~= digits);
        assert(body.skip(point + 1) =~= fraction);
        assert(fraction.take(fraction.len() as int) =~= fraction);
    }
    assert(whole * SCALE + units == magnitude_of(v)) by {
        vstd::arithmetic::div_mod::lemma_fundamental_div_mod(magnitude_of(v) as int, SCALE as int);
        vstd::arithmetic::mul::lemma_mul_is_commutative(whole as int, SCALE as int);
    }
}

} // verus!
