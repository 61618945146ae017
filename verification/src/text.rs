//! Character-level helpers for the parsers and formatters of this library.

use vstd::prelude::*;

verus! {

/// Bytes in a kilobyte of 1024 bytes.
pub const KB: u64 = 1024;

/// Bytes in a megabyte of 1024 kilobytes.
pub const MB: u64 = 1_048_576;

/// Bytes in a gigabyte of 1024 megabytes.
pub const GB: u64 = 1_073_741_824;

/// Bytes in a terabyte of 1024 gigabytes.
pub const TB: u64 = 1_099_511_627_776;

/// Whether `c` is one of the ten ASCII decimal digits.
pub open spec fn is_ascii_digit(c: char) -> bool {
    '0' <= c && c <= '9'
}

/// The number that an ASCII decimal digit stands for.
pub open spec fn digit_value(c: char) -> nat {
    (c as u32 - 48) as nat
}

/// Whether `c` separates fields: the characters with the Unicode
/// `White_Space` property.
pub open spec fn is_whitespace(c: char) -> bool {
    ||| ('\u{9}' <= c && c <= '\u{d}')
    ||| c == ' '
    ||| c == '\u{85}'
    ||| c == '\u{a0}'
    ||| c == '\u{1680}'
    ||| ('\u{2000}' <= c && c <= '\u{200a}')
    ||| c == '\u{2028}'
    ||| c == '\u{2029}'
    ||| c == '\u{202f}'
    ||| c == '\u{205f}'
    ||| c == '\u{3000}'
}

/// Whether `s` begins with `prefix`.
pub open spec fn has_prefix(s: Seq<char>, prefix: Seq<char>) -> bool {
    prefix.len() <= s.len() && s.take(prefix.len() as int) == prefix
}

/// `s` without every leading repetition of `prefix`.
pub open spec fn strip_leading(s: Seq<char>, prefix: Seq<char>) -> Seq<char>
    decreases s.len(),
{
    if prefix.len() > 0 && has_prefix(s, prefix) {
        strip_leading(s.skip(prefix.len() as int), prefix)
    } else {
        s
    }
}

/// `s` without its trailing ASCII digits.
pub open spec fn trim_trailing_digits(s: Seq<char>) -> Seq<char>
    decreases s.len(),
{
    if s.len() > 0 && is_ascii_digit(s.last()) {
        trim_trailing_digits(s.drop_last())
    } else {
        s
    }
}

/// The number written by a sequence of decimal digits, most significant first.
pub open spec fn digits_value(s: Seq<char>) -> nat
    decreases s.len(),
{
    if s.len() == 0 {
        0
    } else {
        digits_value(s.drop_last()) * 10 + digit_value(s.last())
    }
}

/// Whether every character of `s` is an ASCII decimal digit.
pub open spec fn all_digits(s: Seq<char>) -> bool {
    forall|i: int| 0 <= i < s.len() ==> is_ascii_digit(#[trigger] s[i])
}

/// The unsigned 64-bit number that `s` writes in decimal: an optional `+`,
/// then at least one digit and nothing else. `None` where `s` has another
/// form or the number does not fit.
pub open spec fn parse_u64(s: Seq<char>) -> Option<u64> {
    let digits = if s.len() > 0 && s[0] == '+' {
        s.skip(1)
    } else {
        s
    };
    if digits.len() > 0 && all_digits(digits) && digits_value(digits) <= u64::MAX {
        Some(digits_value(digits) as u64)
    } else {
        None
    }
}

/// The character that writes the decimal digit `d`.
pub open spec fn digit_char(d: nat) -> char {
    if d == 0 {
        '0'
    } else if d == 1 {
        '1'
    } else if d == 2 {
        '2'
    } else if d == 3 {
        '3'
    } else if d == 4 {
        '4'
    } else if d == 5 {
        '5'
    } else if d == 6 {
        '6'
    } else if d == 7 {
        '7'
    } else if d == 8 {
        '8'
    } else {
        '9'
    }
}

/// The decimal writing of `n`, without sign or leading zeros.
pub open spec fn decimal(n: nat) -> Seq<char>
    decreases n,
{
    if n < 10 {
        seq![digit_char(n)]
    } else {
        decimal(n / 10).push(digit_char(n % 10))
    }
}

/// `num / den` rounded to the nearest whole number, a tie going to the even
/// neighbour.
pub open spec fn round_half_even(num: nat, den: nat) -> nat {
    let q = num / den;
    let r = num % den;
    if 2 * r > den || (2 * r == den && q % 2 == 1) {
        q + 1
    } else {
        q
    }
}

/// Distance between neighbouring double-precision numbers at `n`: one up
/// to fifty-three bits, and twice as much for each further bit.
pub open spec fn double_spacing(n: nat) -> nat
    decreases n,
{
    if n < 0x20_0000_0000_0000 {
        1
    } else {
        2 * double_spacing(n / 2)
    }
}

/// The double-precision number nearest to `n`, a tie going to the one with
/// the even significand: what a conversion of `n` to floating point gives.
/// Numbers of up to fifty-three bits are their own nearest double.
pub open spec fn nearest_double(n: nat) -> nat {
    round_half_even(n, double_spacing(n)) * double_spacing(n)
}

/// `n / unit` written with one decimal place, rounded to the nearest tenth,
/// a tie going to the even tenth.
pub open spec fn one_decimal(n: nat, unit: nat) -> Seq<char> {
    let tenths = round_half_even(n * 10, unit);
    decimal(tenths / 10) + seq!['.', digit_char(tenths % 10)]
}

/// `n / unit` written without decimal places, rounded to the nearest whole
/// number, a tie going to the even one.
pub open spec fn no_decimal(n: nat, unit: nat) -> Seq<char> {
    decimal(round_half_even(n, unit))
}

/// The characters of `s`.
pub(crate) fn chars_of(s: &str) -> (chars: Vec<char>)
    ensures
        chars@ == s@,
{
    let mut chars: Vec<char> = Vec::new();
    for c in it: s.chars()
        invariant
            chars@ == it.seq().take(it.index()),
            it.seq() == s@,
    {
        chars.push(c);
        assert(chars@ =~= it.seq().take(it.index() + 1));
    }
    assert(chars@ =~= s@);
    chars
}

/// Whether `c` is an ASCII decimal digit.
pub(crate) fn char_is_digit(c: char) -> (b: bool)
    ensures
        b == is_ascii_digit(c),
{
    '0' <= c && c <= '9'
}

/// Whether `c` is white space.
pub(crate) fn char_is_whitespace(c: char) -> (b: bool)
    ensures
        b == is_whitespace(c),
{
    ('\u{9}' <= c && c <= '\u{d}') || c == ' ' || c == '\u{85}' || c == '\u{a0}' || c
        == '\u{1680}' || ('\u{2000}' <= c && c <= '\u{200a}') || c == '\u{2028}' || c
        == '\u{2029}' || c == '\u{202f}' || c == '\u{205f}' || c == '\u{3000}'
}

/// Whether the characters of `chars` from `at` on begin with `prefix`.
pub(crate) fn starts_with_at(chars: &Vec<char>, at: usize, prefix: &Vec<char>) -> (b: bool)
    requires
        at <= chars.len(),
    ensures
        b == has_prefix(chars@.skip(at as int), prefix@),
{
    if prefix.len() > chars.len() - at {
        return false;
    }
    let mut i: usize = 0;
    while i < prefix.len()
        invariant
            at <= chars.len(),
            prefix.len() <= chars.len() - at,
            i <= prefix.len(),
            forall|j: int| 0 <= j < i ==> chars@[at + j] == prefix@[j],
        decreases prefix.len() - i,
    {
        if chars[at + i] != prefix[i] {
            proof {
                let rest = chars@.skip(at as int);
                assert(rest.take(prefix.len() as int)[i as int] == chars@[at + i]);
            }
            return false;
        }
        i += 1;
    }
    assert(chars@.skip(at as int).take(prefix.len() as int) =~= prefix@);
    true
}

/// Value of the decimal number in `chars[from..to]`, as `parse_u64` reads it.
pub(crate) fn parse_u64_range(chars: &Vec<char>, from: usize, to: usize) -> (value: Option<u64>)
    requires
        from <= to <= chars.len(),
    ensures
        value == parse_u64(chars@.subrange(from as int, to as int)),
{
    let ghost s = chars@.subrange(from as int, to as int);
    let start: usize = if from < to && chars[from] == '+' {
        from + 1
    } else {
        from
    };
    let ghost digits = chars@.subrange(start as int, to as int);
    assert(digits =~= if s.len() > 0 && s[0] == '+' {
        s.skip(1)
    } else {
        s
    });
    if start == to {
        return None;
    }
    let mut value: u64 = 0;
    let mut i: usize = start;
    while i < to
        invariant
            start <= i <= to <= chars.len(),
            s == chars@.subrange(from as int, to as int),
            digits == chars@.subrange(start as int, to as int),
            digits == if s.len() > 0 && s[0] == '+' {
                s.skip(1)
            } else {
                s
            },
            digits.len() > 0,
            all_digits(digits.take(i - start)),
            value == digits_value(digits.take(i - start)),
        decreases to - i,
    {
        let c: char = chars[i];
        let ghost before = digits.take(i - start);
        let ghost after = digits.take(i - start + 1);
        assert(after.drop_last() =~= before);
        assert(after.last() == c);
        if !char_is_digit(c) {
            assert(digits[i - start] == c);
            return None;
        }
        let d: u64 = (c as u32 - '0' as u32) as u64;
        if value > (u64::MAX - d) / 10 {
            proof {
                assert(digits_value(after) > u64::MAX);
                lemma_digits_value_grows(digits, i - start + 1);
            }
            return None;
        }
        value = value * 10 + d;
        assert(all_digits(after)) by {
            assert forall|j: int| 0 <= j < after.len() implies is_ascii_digit(
                #[trigger] after[j],
            ) by {
                if j < before.len() {
                    assert(before[j] == after[j]);
                }
            }
        }
        i += 1;
    }
    assert(digits.take(to - start) =~= digits);
    Some(value)
}

/// Rounding gives a nearest whole number: the result is at most half a
/// unit away from the quotient.
pub proof fn lemma_round_half_even_is_nearest(num: nat, den: nat)
    requires
        den > 0,
    ensures
        2 * (round_half_even(num, den) * den - num) <= den,
        2 * (num - round_half_even(num, den) * den) <= den,
{
    let q = (num / den) as int;
    let r = (num % den) as int;
    vstd::arithmetic::div_mod::lemma_fundamental_div_mod(num as int, den as int);
    vstd::arithmetic::div_mod::lemma_mod_bound(num as int, den as int);
    assert((q + 1) * den == q * den + den) by (nonlinear_arith);
    assert(den * q == q * den) by (nonlinear_arith);
}

/// A number of up to fifty-three bits is a double-precision number itself.
pub proof fn lemma_small_numbers_are_doubles(n: nat)
    requires
        n < 0x20_0000_0000_0000,
    ensures
        nearest_double(n) == n,
{
    assert(double_spacing(n) == 1);
    assert(n / 1 == n && n % 1 == 0);
    assert(round_half_even(n, 1) == n);
}

/// The decimal writing of a number consists of digits and writes that number.
pub proof fn lemma_decimal_writes_the_number(n: nat)
    ensures
        decimal(n).len() > 0,
        all_digits(decimal(n)),
        digits_value(decimal(n)) == n,
    decreases n,
{
    let d = digit_char(n % 10);
    assert(is_ascii_digit(d) && digit_value(d) == n % 10);
    if n < 10 {
        assert(decimal(n).drop_last() =~= Seq::<char>::empty());
        assert(digits_value(decimal(n).drop_last()) == 0);
    } else {
        lemma_decimal_writes_the_number(n / 10);
        let shorter = decimal(n / 10);
        assert(decimal(n).drop_last() =~= shorter);
        assert forall|i: int| 0 <= i < decimal(n).len() implies is_ascii_digit(
            #[trigger] decimal(n)[i],
        ) by {
            if i < shorter.len() {
                assert(decimal(n)[i] == shorter[i]);
            }
        }
    }
}

/// A number is at least the number that any beginning of its digits writes.
proof fn lemma_digits_value_grows(s: Seq<char>, n: int)
    requires
        0 <= n <= s.len(),
    ensures
        digits_value(s.take(n)) <= digits_value(s),
    decreases s.len(),
{
    if n == s.len() {
        assert(s.take(n) =~= s);
    } else {
        lemma_digits_value_grows(s.drop_last(), n);
        assert(s.drop_last().take(n) =~= s.take(n));
    }
}

/// The one-character string that writes the decimal digit `d`.
fn digit_str(d: u8) -> (s: &'static str)
    requires
        d < 10,
    ensures
        s@ == seq![digit_char(d as nat)],
{
    proof {
        reveal_strlit("0");
        reveal_strlit("1");
        reveal_strlit("2");
        reveal_strlit("3");
        reveal_strlit("4");
        reveal_strlit("5");
        reveal_strlit("6");
        reveal_strlit("7");
        reveal_strlit("8");
        reveal_strlit("9");
    }
    let s: &'static str = if d == 0 {
        "0"
    } else if d == 1 {
        "1"
    } else if d == 2 {
        "2"
    } else if d == 3 {
        "3"
    } else if d == 4 {
        "4"
    } else if d == 5 {
        "5"
    } else if d == 6 {
        "6"
    } else if d == 7 {
        "7"
    } else if d == 8 {
        "8"
    } else {
        "9"
    };
    assert(s@ =~= seq![digit_char(d as nat)]);
    s
}

/// Appends the decimal writing of `n` to `out`.
pub(crate) fn push_decimal(out: &mut String, n: u128)
    ensures
        final(out)@ == old(out)@ + decimal(n as nat),
    decreases n,
{
    if n >= 10 {
        push_decimal(out, n / 10);
    }
    out.append(digit_str((n % 10) as u8));
    assert(out@ =~= old(out)@ + decimal(n as nat));
}

/// `num / den` rounded to the nearest whole number, ties to even.
pub(crate) fn divide_round_half_even(num: u128, den: u128) -> (q: u128)
    requires
        den > 0,
        den <= u128::MAX / 2,
    ensures
        q == round_half_even(num as nat, den as nat),
{
    let q: u128 = num / den;
    let r: u128 = num % den;
    if 2 * r > den || (2 * r == den && q % 2 == 1) {
        proof {
            vstd::arithmetic::div_mod::lemma_fundamental_div_mod(num as int, den as int);
            assert(q < u128::MAX) by (nonlinear_arith)
                requires
                    num == den * q + r,
                    r > 0,
                    den > 0,
                    q >= 0,
                    num <= u128::MAX,
            ;
        }
        q + 1
    } else {
        q
    }
}

/// Rounding to tenths can be done on the remainder alone: the tenths of
/// `n / unit` are ten for each whole unit and the rounded tenths of what is
/// left over.
pub proof fn lemma_tenths_split(n: nat, unit: nat)
    requires
        unit > 0,
    ensures
        round_half_even(n * 10, unit) == (n / unit) * 10 + round_half_even((n % unit) * 10, unit),
{
    let a = (n / unit) as int;
    let b = (n % unit) as int;
    let u = unit as int;
    let q = (b * 10) / u;
    let r = (b * 10) % u;
    vstd::arithmetic::div_mod::lemma_fundamental_div_mod(n as int, u);
    vstd::arithmetic::div_mod::lemma_fundamental_div_mod(b * 10, u);
    vstd::arithmetic::div_mod::lemma_mod_bound(b * 10, u);
    assert(n * 10 == (a * 10 + q) * u + r) by (nonlinear_arith)
        requires
            n == u * a + b,
            b * 10 == u * q + r,
    ;
    vstd::arithmetic::div_mod::lemma_fundamental_div_mod_converse(
        (n * 10) as int,
        u,
        a * 10 + q,
        r,
    );
    assert((a * 10 + q) % 2 == q % 2) by (nonlinear_arith)
        requires
            a >= 0,
            q >= 0,
    ;
}

/// The spacing of the doubles at a 64-bit number.
fn spacing_of(n: u64) -> (spacing: u64)
    ensures
        spacing == double_spacing(n as nat),
        0 < spacing < 4096,
{
    let mut rest: u64 = n;
    let mut spacing: u64 = 1;
    while rest >= 0x20_0000_0000_0000
        invariant
            double_spacing(n as nat) == spacing * double_spacing(rest as nat),
            0 < spacing < 4096,
            rest * spacing <= n,
            spacing == 1 || rest >= 0x10_0000_0000_0000,
        decreases rest,
    {
        let ghost before = rest;
        rest = rest / 2;
        proof {
            assert(double_spacing(before as nat) == 2 * double_spacing(rest as nat));
            assert(rest * (spacing * 2) <= before * spacing) by (nonlinear_arith)
                requires
                    rest * 2 <= before,
                    spacing > 0,
            ;
            assert(spacing * 2 < 4096) by (nonlinear_arith)
                requires
                    rest * (spacing * 2) <= n,
                    rest >= 0x10_0000_0000_0000,
                    n <= 0xffff_ffff_ffff_ffff,
                    spacing > 0,
            ;
            assert(spacing * (2 * double_spacing(rest as nat)) == (spacing * 2) * double_spacing(
                rest as nat,
            )) by (nonlinear_arith);
        }
        spacing = spacing * 2;
    }
    assert(double_spacing(rest as nat) == 1);
    spacing
}

/// The double-precision number nearest to `n`.
pub(crate) fn to_nearest_double(n: u64) -> (nearest: u128)
    ensures
        nearest == nearest_double(n as nat),
        nearest <= 0x1_0000_0000_0000_0000,
{
    let spacing: u64 = spacing_of(n);
    let steps: u128 = divide_round_half_even(n as u128, spacing as u128);
    proof {
        let q = (n as int) / (spacing as int);
        vstd::arithmetic::div_mod::lemma_fundamental_div_mod(n as int, spacing as int);
        vstd::arithmetic::div_mod::lemma_mod_bound(n as int, spacing as int);
        assert(steps <= q + 1);
        assert((q + 1) * spacing <= 0x1_0000_0000_0000_0000 + 4096) by (nonlinear_arith)
            requires
                n == spacing * q + (n as int) % (spacing as int),
                (n as int) % (spacing as int) >= 0,
                n <= 0xffff_ffff_ffff_ffff,
                0 < spacing < 4096,
        ;
        assert(steps * spacing <= (q + 1) * spacing) by (nonlinear_arith)
            requires
                steps <= q + 1,
                spacing > 0,
        ;
    }
    let nearest: u128 = steps * (spacing as u128);
    proof {
        lemma_nearest_double_bounded(n);
    }
    nearest
}

/// The nearest double of a 64-bit number is at most two to the sixty-fourth.
proof fn lemma_nearest_double_bounded(n: u64)
    ensures
        nearest_double(n as nat) <= 0x1_0000_0000_0000_0000,
{
    lemma_spacing_divides_limit(n as nat);
    let s = double_spacing(n as nat) as int;
    let k = 0x1_0000_0000_0000_0000int / s;
    let q = (n as int) / s;
    vstd::arithmetic::div_mod::lemma_fundamental_div_mod(n as int, s);
    vstd::arithmetic::div_mod::lemma_mod_bound(n as int, s);
    assert(q < k) by (nonlinear_arith)
        requires
            n == s * q + (n as int) % s,
            (n as int) % s >= 0,
            n < 0x1_0000_0000_0000_0000,
            k * s == 0x1_0000_0000_0000_0000,
            s > 0,
    ;
    assert((q + 1) * s <= k * s) by (nonlinear_arith)
        requires
            q + 1 <= k,
            s > 0,
    ;
    assert(q * s <= (q + 1) * s) by (nonlinear_arith)
        requires
            s > 0,
    ;
}

/// The spacing of the doubles at a 64-bit number is a power of two that
/// divides two to the sixty-fourth.
proof fn lemma_spacing_divides_limit(n: nat)
    requires
        n < 0x1_0000_0000_0000_0000,
    ensures
        double_spacing(n) > 0,
        (0x1_0000_0000_0000_0000int / double_spacing(n) as int) * double_spacing(n)
            == 0x1_0000_0000_0000_0000,
{
    reveal_with_fuel(double_spacing, 13);
    let s = double_spacing(n);
    assert(s == 1 || s == 2 || s == 4 || s == 8 || s == 16 || s == 32 || s == 64 || s == 128 || s
        == 256 || s == 512 || s == 1024 || s == 2048);
}

/// Appends `n / unit` with one decimal place to `out`.
pub(crate) fn push_one_decimal(out: &mut String, n: u128, unit: u128)
    requires
        2 <= unit <= 0x100_0000_0000,
    ensures
        final(out)@ == old(out)@ + one_decimal(n as nat, unit as nat),
{
    let whole: u128 = n / unit;
    let tenths: u128 = divide_round_half_even((n % unit) * 10, unit);
    proof {
        lemma_tenths_split(n as nat, unit as nat);
        vstd::arithmetic::div_mod::lemma_fundamental_div_mod(n as int, unit as int);
        assert(whole <= n / 2) by (nonlinear_arith)
            requires
                n == unit * whole + (n as int) % (unit as int),
                (n as int) % (unit as int) >= 0,
                unit >= 2,
                whole >= 0,
        ;
        assert(tenths <= 10) by {
            let b = ((n % unit) * 10) as int;
            vstd::arithmetic::div_mod::lemma_fundamental_div_mod(b, unit as int);
            vstd::arithmetic::div_mod::lemma_mod_bound(b, unit as int);
            assert(b / (unit as int) < 10) by (nonlinear_arith)
                requires
                    b == unit * (b / (unit as int)) + b % (unit as int),
                    b % (unit as int) >= 0,
                    b < unit * 10,
                    unit > 0,
            ;
        }
        let all = round_half_even((n * 10) as nat, unit as nat);
        assert(all == whole * 10 + tenths);
        assert(all / 10 == whole + tenths / 10);
        assert(all % 10 == tenths % 10);
        reveal_strlit(".");
    }
    push_decimal(out, whole + tenths / 10);
    out.append(".");
    push_decimal(out, tenths % 10);
    assert(out@ =~= old(out)@ + one_decimal(n as nat, unit as nat));
}

/// Appends `n / unit`, rounded to a whole number, to `out`.
pub(crate) fn push_no_decimal(out: &mut String, n: u128, unit: u128)
    requires
        0 < unit <= 0x100_0000_0000,
    ensures
        final(out)@ == old(out)@ + no_decimal(n as nat, unit as nat),
{
    push_decimal(out, divide_round_half_even(n, unit));
}

} // verus!
