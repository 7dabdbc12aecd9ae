//! Decimal rendering and parsing of integers, as `to_string` and
//! `FromStr` do it for Rust's integer types.
use vstd::prelude::*;
use crate::text::push_char;

verus! {

/// The character of a decimal digit `d` (`0 <= d < 10`).
pub open spec fn digit_char(d: nat) -> char {
    ((d + 48) as u32) as char
}

/// Whether `c` is an ASCII decimal digit.
pub open spec fn is_digit(c: char) -> bool {
    '0' <= c && c <= '9'
}

/// The value of an ASCII decimal digit.
pub open spec fn digit_value(c: char) -> nat {
    (c as int - 48) as nat
}

/// The decimal representation of `n`, without leading zeros.
pub open spec fn decimal(n: nat) -> Seq<char>
    decreases n,
{
    if n < 10 {
        seq![digit_char(n)]
    } else {
        decimal(n / 10).push(digit_char(n % 10))
    }
}

/// The decimal representation of a signed integer: a minus sign before the
/// digits of its magnitude when it is negative.
pub open spec fn signed_decimal(n: int) -> Seq<char> {
    if n < 0 {
        seq!['-'] + decimal((-n) as nat)
    } else {
        decimal(n as nat)
    }
}

/// Whether every character of `s` is a decimal digit.
pub open spec fn all_digits(s: Seq<char>) -> bool {
    forall|i: int| 0 <= i < s.len() ==> is_digit(#[trigger] s[i])
}

/// The number that the digits `s` spell out.
pub open spec fn digits_value(s: Seq<char>) -> nat
    decreases s.len(),
{
    if s.len() == 0 {
        0
    } else {
        digits_value(s.drop_last()) * 10 + digit_value(s.last())
    }
}

/// What `FromStr` gives for an unsigned integer type whose largest value is
/// `max`: an optional leading `+`, then at least one decimal digit, and a
/// value no larger than `max`; anything else is an error (`None`).
pub open spec fn parse_unsigned(s: Seq<char>, max: nat) -> Option<nat> {
    let digits = if s.len() > 0 && s[0] == '+' { s.drop_first() } else { s };
    if digits.len() == 0 || !all_digits(digits) || digits_value(digits) > max {
        None
    } else {
        Some(digits_value(digits))
    }
}

fn digit_to_char(d: u64) -> (c: char)
    requires
        d < 10,
    ensures
        c == digit_char(d as nat),
{
    let b: u8 = d as u8 + 48;
    b as char
}

/// Appends the decimal representation of `n` to `s`.
pub fn push_decimal(s: &mut String, n: u64)
    ensures
        final(s)@ == old(s)@ + decimal(n as nat),
    decreases n,
{
    if n >= 10 {
        push_decimal(s, n / 10);
    }
    push_char(s, digit_to_char(n % 10));
    proof {
        assert(final(s)@ =~= old(s)@ + decimal(n as nat));
    }
}

/// The decimal representation of `n` (`n.to_string()`).
pub fn u64_to_decimal(n: u64) -> (r: String)
    ensures
        r@ == decimal(n as nat),
{
    let mut s = String::new();
    push_decimal(&mut s, n);
    proof {
        assert(s@ =~= decimal(n as nat));
    }
    s
}


/// The decimal representation of a signed integer (`n.to_string()`).
pub fn i64_to_decimal(n: i64) -> (r: String)
    ensures
        r@ == signed_decimal(n as int),
{
    let mut s = String::new();
    if n < 0 {
        push_char(&mut s, '-');
        let magnitude: u64 = if n == i64::MIN {
            9223372036854775808u64
        } else {
            (-n) as u64
        };
        push_decimal(&mut s, magnitude);
    } else {
        push_decimal(&mut s, n as u64);
    }
    proof {
        assert(s@ =~= signed_decimal(n as int));
    }
    s
}

/// Parses an unsigned decimal no larger than `max`, as `FromStr` does for
/// the unsigned integer type whose largest value is `max`.
pub fn parse_unsigned_max(s: &str, max: u64) -> (r: Option<u64>)
    ensures
        r matches Some(v) ==> parse_unsigned(s@, max as nat) == Some(v as nat),
        r is None <==> parse_unsigned(s@, max as nat) is None,
{
    let cs = crate::text::chars_of(s);
    let n = cs.len();
    let start: usize = if n > 0 && cs[0] == '+' { 1 } else { 0 };
    let ghost digits = if s@.len() > 0 && s@[0] == '+' { s@.drop_first() } else { s@ };
    assert(digits =~= s@.subrange(start as int, n as int));
    if start == n {
        return None;
    }
    let mut acc: u64 = 0;
    let mut i: usize = start;
    while i < n
        invariant
            start <= i <= n,
            n == cs@.len(),
            cs@ == s@,
            digits == s@.subrange(start as int, n as int),
            digits == (if s@.len() > 0 && s@[0] == '+' { s@.drop_first() } else { s@ }),
            all_digits(s@.subrange(start as int, i as int)),
            acc as nat == digits_value(s@.subrange(start as int, i as int)),
            acc <= max,
        decreases n - i,
    {
        let c = cs[i];
        let ghost prefix = s@.subrange(start as int, i as int);
        let ghost next = s@.subrange(start as int, i + 1);
        assert(next.drop_last() =~= prefix);
        if !('0' <= c && c <= '9') {
            assert(digits[i - start] == c);
            assert(!is_digit(digits[i - start]));
            assert(!all_digits(digits));
            return None;
        }
        let d: u64 = (c as u32 - 48) as u64;
        assert(d as nat == digit_value(c));
        if d > max || acc > (max - d) / 10 {
            proof {
                lemma_digits_value_grows(s@.subrange(start as int, n as int), (i + 1 - start) as int);
                assert(s@.subrange(start as int, n as int).subrange(0, (i + 1 - start) as int) =~= next);
                assert(acc * 10 + d > max) by (nonlinear_arith)
                    requires d > max || acc > (max - d) / 10;
                assert(next.last() == c);
                assert(digits_value(next) == acc * 10 + d);
            }
            return None;
        }
        assert(acc * 10 + d <= max) by (nonlinear_arith)
            requires acc <= (max - d) / 10, d <= max;
        acc = acc * 10 + d;
        i = i + 1;
    }
    assert(s@.subrange(start as int, n as int) =~= digits);
    Some(acc)
}

/// Once a prefix of a digit string is too large, the whole string is too:
/// the value of a prefix never exceeds the value of the string.
proof fn lemma_digits_value_grows(s: Seq<char>, k: int)
    requires
        0 <= k <= s.len(),
    ensures
        digits_value(s.subrange(0, k)) <= digits_value(s),
    decreases s.len() - k,
{
    if k < s.len() {
        lemma_digits_value_grows(s, k + 1);
        assert(s.subrange(0, k + 1).drop_last() =~= s.subrange(0, k));
    } else {
        assert(s.subrange(0, k) =~= s);
    }
}


/// The digits of `decimal(n)` are decimal digits and spell out `n`.
proof fn lemma_decimal_digits(n: nat)
    ensures
        decimal(n).len() >= 1,
        all_digits(decimal(n)),
        digits_value(decimal(n)) == n,
    decreases n,
{
    if n < 10 {
        assert(decimal(n).drop_last() =~= Seq::<char>::empty());
        assert(digit_value(digit_char(n)) == n);
        assert(digits_value(Seq::<char>::empty()) == 0);
    } else {
        assert(digit_value(digit_char(n % 10)) == n % 10);
        lemma_decimal_digits(n / 10);
        assert(decimal(n).drop_last() =~= decimal(n / 10));
        assert(decimal(n).last() == digit_char(n % 10));
        assert(digits_value(decimal(n)) == digits_value(decimal(n / 10)) * 10 + n % 10);
        assert((n / 10) * 10 + n % 10 == n);
        assert forall|i: int| 0 <= i < decimal(n).len() implies is_digit(#[trigger] decimal(n)[i]) by {
            if i < decimal(n / 10).len() {
                assert(decimal(n)[i] == decimal(n / 10)[i]);
            }
        }
    }
}

/// Parsing gives back any number that rendering wrote: for every `n` up to
/// `max`, reading `decimal(n)` as an unsigned integer yields `n`.
pub proof fn law_parse_after_render(n: nat, max: nat)
    requires
        n <= max,
    ensures
        parse_unsigned(decimal(n), max) == Some(n),
{
    lemma_decimal_digits(n);
    assert(is_digit(decimal(n)[0]));
}


/// Different numbers have different decimal texts.
pub proof fn lemma_decimal_injective(a: nat, b: nat)
    ensures
        decimal(a) == decimal(b) ==> a == b,
{
    if decimal(a) == decimal(b) {
        let m = if a <= b { b } else { a };
        law_parse_after_render(a, m);
        law_parse_after_render(b, m);
    }
}

/// Different integers have different signed decimal texts.
pub proof fn lemma_signed_decimal_injective(a: int, b: int)
    ensures
        signed_decimal(a) == signed_decimal(b) ==> a == b,
{
    if signed_decimal(a) == signed_decimal(b) {
        if a < 0 {
            lemma_decimal_digits((-a) as nat);
        }
        if b < 0 {
            lemma_decimal_digits((-b) as nat);
        }
        if a >= 0 {
            lemma_decimal_digits(a as nat);
            assert(is_digit(decimal(a as nat)[0]));
        }
        if b >= 0 {
            lemma_decimal_digits(b as nat);
            assert(is_digit(decimal(b as nat)[0]));
        }
        if a < 0 && b < 0 {
            assert(decimal((-a) as nat) =~= signed_decimal(a).drop_first());
            assert(decimal((-b) as nat) =~= signed_decimal(b).drop_first());
            lemma_decimal_injective((-a) as nat, (-b) as nat);
        } else if a >= 0 && b >= 0 {
            lemma_decimal_injective(a as nat, b as nat);
        } else {
            assert(signed_decimal(a)[0] != signed_decimal(b)[0]);
        }
    }
}

/// Two `u32` values share their decimal text only when they are equal.
pub proof fn lemma_u32_text_injective(a: u32, b: u32)
    ensures
        decimal(a as nat) == decimal(b as nat) ==> a == b,
{
    lemma_decimal_injective(a as nat, b as nat);
}

/// Two `i32` values share their decimal text only when they are equal.
pub proof fn lemma_i32_text_injective(a: i32, b: i32)
    ensures
        signed_decimal(a as int) == signed_decimal(b as int) ==> a == b,
        signed_decimal(a as int).len() > 0,
{
    lemma_signed_decimal_injective(a as int, b as int);
    if a < 0 {
        lemma_decimal_digits((-a) as nat);
    } else {
        lemma_decimal_digits(a as nat);
    }
}

/// Two `i64` values share their decimal text only when they are equal.
pub proof fn lemma_i64_text_injective(a: i64, b: i64)
    ensures
        signed_decimal(a as int) == signed_decimal(b as int) ==> a == b,
{
    lemma_signed_decimal_injective(a as int, b as int);
}


/// A decimal text starts with a digit, so it is never a single space.
pub proof fn lemma_decimal_has_digit_first(n: nat)
    ensures
        decimal(n).len() >= 1,
        is_digit(decimal(n)[0]),
        decimal(n) != seq![' '],
{
    lemma_decimal_digits(n);
    assert(is_digit(decimal(n)[0]));
    if decimal(n) == seq![' '] {
        assert(decimal(n)[0] == ' ');
    }
}


/// Parsing accepts only decimal digits, after an optional leading `+`, and
/// at least one of them; the number it reads is never above the limit.
pub proof fn law_parse_reads_only_digits(s: Seq<char>, max: nat)
    ensures
        parse_unsigned(s, max) matches Some(v) ==> {
            &&& v <= max
            &&& s.len() >= 1
            &&& s != seq!['+']
            &&& forall|i: int| 0 <= i < s.len() ==> ('0' <= #[trigger] s[i] <= '9' || (i == 0 && s[i] == '+'))
        },
{
    if parse_unsigned(s, max) is Some {
        let digits = if s.len() > 0 && s[0] == '+' { s.drop_first() } else { s };
        assert forall|i: int| 0 <= i < s.len() implies ('0' <= #[trigger] s[i] <= '9' || (i == 0 && s[i] == '+')) by {
            if s.len() > 0 && s[0] == '+' {
                if i > 0 {
                    assert(s[i] == digits[i - 1]);
                    assert(is_digit(digits[i - 1]));
                }
            } else {
                assert(is_digit(digits[i]));
            }
        }
        if s == seq!['+'] {
            assert(digits.len() == 0);
        }
    }
}


/// The decimal text of `n` is written without leading zeros, only in the
/// digits `0` to `9`, and ends in the digit of `n % 10`; `0` is written `0`.
pub proof fn law_decimal_is_canonical(n: nat)
    ensures
        decimal(n).len() >= 1,
        forall|i: int| 0 <= i < decimal(n).len() ==> '0' <= #[trigger] decimal(n)[i] <= '9',
        decimal(n).len() > 1 ==> decimal(n)[0] != '0',
        decimal(n).last() as int == 48 + n % 10,
        (n == 0) == (decimal(n) == seq!['0']),
    decreases n,
{
    lemma_decimal_digits(n);
    assert forall|i: int| 0 <= i < decimal(n).len() implies '0' <= #[trigger] decimal(n)[i] <= '9' by {
        assert(is_digit(decimal(n)[i]));
    }
    if n >= 10 {
        law_decimal_is_canonical(n / 10);
        assert(decimal(n)[0] == decimal(n / 10)[0]);
        if decimal(n / 10).len() == 1 {
            assert(decimal(n / 10) =~= seq![decimal(n / 10)[0]]);
            assert(n / 10 != 0);
        }
        assert(decimal(n) != seq!['0']);
    } else {
        if n != 0 {
            assert(decimal(n)[0] != '0');
        }
    }
}

} // verus!
