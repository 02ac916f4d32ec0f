//! Digits of a radix: classifying characters, reading digit strings as
//! numbers, and rendering numbers as digit strings.

use vstd::prelude::*;
use crate::text::string_of;

verus! {

/// The numeric value of a digit character (`0-9`, then the letters `A-Z`
/// or `a-z` from ten to thirty-five), or -1.
pub open spec fn digit_value(c: char) -> int {
    if '0' <= c && c <= '9' {
        c as int - '0' as int
    } else if 'A' <= c && c <= 'Z' {
        c as int - 'A' as int + 10
    } else if 'a' <= c && c <= 'z' {
        c as int - 'a' as int + 10
    } else {
        -1
    }
}

/// `c` is a digit of value below `radix`.
pub open spec fn is_radix_digit(c: char, radix: u32) -> bool {
    0 <= digit_value(c) && digit_value(c) < radix
}

/// `c` may stand in a numeral of `radix`: one of its digits, or the
/// underscore used to group digits.
pub open spec fn is_radix_char(c: char, radix: u32) -> bool {
    c == '_' || is_radix_digit(c, radix)
}

/// The number that the digits `s` (most significant first) denote in `radix`.
pub open spec fn value_of(s: Seq<char>, radix: int) -> int
    decreases s.len(),
{
    if s.len() == 0 {
        0
    } else {
        value_of(s.drop_last(), radix) * radix + digit_value(s.last())
    }
}

/// The symbol of digit `d` (below thirty-six): `0-9`, then `A-Z`.
pub open spec fn symbol(d: int) -> char {
    if d < 10 {
        ((48 + d) as u32) as char
    } else {
        ((55 + d) as u32) as char
    }
}

/// The digits of `v` in `radix`, most significant first, without leading
/// zeros; zero is the single digit `0`.
pub open spec fn digits_of(v: nat, radix: nat) -> Seq<char>
    decreases v
    via digits_of_decreases
{
    if radix < 2 || v < radix {
        seq![symbol(v as int)]
    } else {
        digits_of(v / radix, radix).push(symbol((v % radix) as int))
    }
}

#[via_fn]
proof fn digits_of_decreases(v: nat, radix: nat) {
    if !(radix < 2 || v < radix) {
        lemma_div_step(v, radix);
    }
}

/// The radix in which an integer is shown: any radix from 2 to 36 stands;
/// outside that range decimal digits are shown.
pub open spec fn shown_radix(radix: u32) -> nat {
    if 2 <= radix && radix <= 36 {
        radix as nat
    } else {
        10
    }
}

/// A signed integer in `radix` (see `shown_radix`), with a leading `-` when negative.
pub open spec fn signed_digits(v: int, radix: u32) -> Seq<char> {
    if v < 0 {
        seq!['-'] + digits_of((-v) as nat, shown_radix(radix))
    } else {
        digits_of(v as nat, shown_radix(radix))
    }
}

/// Whether `c` may stand in a numeral of `radix` (a digit below `radix`, or `_`).
pub fn is_digit_in_radix(c: char, radix: u32) -> (r: bool)
    ensures
        r == is_radix_char(c, radix),
{
    if '0' <= c && c <= '9' {
        (c as u32 - '0' as u32) < radix
    } else if 'A' <= c && c <= 'Z' {
        10 + (c as u32 - 'A' as u32) < radix
    } else if 'a' <= c && c <= 'z' {
        10 + (c as u32 - 'a' as u32) < radix
    } else {
        c == '_'
    }
}

/// The value of a digit character that `is_radix_digit` accepts.
pub fn digit_of(c: char) -> (r: u32)
    requires
        0 <= digit_value(c),
    ensures
        r == digit_value(c),
        r < 36,
{
    if '0' <= c && c <= '9' {
        c as u32 - '0' as u32
    } else if 'A' <= c && c <= 'Z' {
        c as u32 - 'A' as u32 + 10
    } else {
        c as u32 - 'a' as u32 + 10
    }
}

/// The symbol of digit `d`: `0-9`, then upper-case letters.
pub fn symbol_of(d: u32) -> (r: char)
    requires
        d < 36,
    ensures
        r == symbol(d as int),
{
    if d < 10 {
        ((48 + d) as u8) as char
    } else {
        ((55 + d) as u8) as char
    }
}

proof fn lemma_div_step(v: nat, r: nat)
    requires
        r >= 2,
    ensures
        v >= r ==> v / r < v,
        v == (v / r) * r + v % r,
        v % r < r,
        v < r ==> v % r == v,
{
    assert(v >= r ==> v / r < v) by (nonlinear_arith)
        requires r >= 2;
    assert(v == (v / r) * r + v % r && v % r < r) by (nonlinear_arith)
        requires r >= 2;
    if v < r {
        vstd::arithmetic::div_mod::lemma_small_mod(v, r);
    }
}

proof fn lemma_symbol_value(d: int)
    requires
        0 <= d < 36,
    ensures
        digit_value(symbol(d)) == d,
        ('0' <= symbol(d) && symbol(d) <= '9') || ('A' <= symbol(d) && symbol(d) <= 'Z'),
{
    if d < 10 {
        assert((((48 + d) as u32) as char) as u32 == 48 + d);
    } else {
        assert((((55 + d) as u32) as char) as u32 == 55 + d);
    }
}

/// Reading back the digits of a number gives the number: for every radix
/// from 2 to 36 and every natural `v`, `value_of(digits_of(v, r), r) == v`.
pub proof fn lemma_digits_round_trip(v: nat, radix: nat)
    requires
        2 <= radix <= 36,
    ensures
        value_of(digits_of(v, radix), radix as int) == v,
    decreases v,
{
    lemma_div_step(v, radix);
    if v < radix {
        lemma_symbol_value(v as int);
        let s = digits_of(v, radix);
        assert(s.drop_last() =~= Seq::<char>::empty());
        assert(value_of(s.drop_last(), radix as int) == 0);
        assert(value_of(s, radix as int) == 0 * (radix as int) + digit_value(s.last()));
    } else {
        lemma_digits_round_trip(v / radix, radix);
        lemma_symbol_value((v % radix) as int);
        let s = digits_of(v, radix);
        assert(s.drop_last() =~= digits_of(v / radix, radix));
        assert(value_of(s, radix as int) == value_of(s.drop_last(), radix as int) * radix + digit_value(s.last()));
    }
}

/// Every digit that `digits_of` writes is a digit of the radix.
pub proof fn lemma_digits_in_radix(v: nat, radix: nat)
    requires
        2 <= radix <= 36,
    ensures
        digits_of(v, radix).len() >= 1,
        forall|k: int| 0 <= k < digits_of(v, radix).len() ==> 0 <= #[trigger] digit_value(digits_of(v, radix)[k]) < radix,
        forall|k: int| 0 <= k < digits_of(v, radix).len() ==> ('0' <= #[trigger] digits_of(v, radix)[k] && digits_of(v, radix)[k] <= '9')
            || ('A' <= digits_of(v, radix)[k] && digits_of(v, radix)[k] <= 'Z'),
    decreases v,
{
    lemma_div_step(v, radix);
    if v < radix {
        lemma_symbol_value(v as int);
    } else {
        lemma_digits_in_radix(v / radix, radix);
        lemma_symbol_value((v % radix) as int);
    }
}

fn push_digits(v: u128, radix: u128, out: &mut Vec<char>)
    requires
        2 <= radix <= 36,
    ensures
        final(out)@ == old(out)@ + digits_of(v as nat, radix as nat),
    decreases v,
{
    proof {
        lemma_div_step(v as nat, radix as nat);
    }
    if v >= radix {
        push_digits(v / radix, radix, out);
    }
    let d = (v % radix) as u32;
    out.push(symbol_of(d));
    proof {
        if v >= radix {
            assert(final(out)@ =~= old(out)@ + digits_of(v as nat, radix as nat));
        } else {
            assert(final(out)@ =~= old(out)@ + digits_of(v as nat, radix as nat));
        }
    }
}

/// `v` written in `radix` (2 to 36), most significant digit first, letters
/// upper case.
pub fn format_radix(v: u128, radix: u32) -> (r: String)
    requires
        2 <= radix <= 36,
    ensures
        r@ == digits_of(v as nat, radix as nat),
{
    let mut buf: Vec<char> = Vec::new();
    push_digits(v, radix as u128, &mut buf);
    assert(buf@ =~= digits_of(v as nat, radix as nat));
    string_of(&buf)
}

/// `v` in hexadecimal, digits above nine upper case.
pub fn format_radix_hex(v: u128) -> (r: String)
    ensures
        r@ == digits_of(v as nat, 16),
{
    let mut buf: Vec<char> = Vec::new();
    push_digits(v, 16, &mut buf);
    assert(buf@ =~= digits_of(v as nat, 16));
    string_of(&buf)
}

/// The magnitude of `v`, written in the radix that `shown_radix` picks.
pub fn format_magnitude(u: u128, radix: u32) -> (r: Vec<char>)
    ensures
        r@ == digits_of(u as nat, shown_radix(radix)),
{
    let base: u128 = if 2 <= radix && radix <= 36 {
        radix as u128
    } else {
        10
    };
    let mut buf: Vec<char> = Vec::new();
    push_digits(u, base, &mut buf);
    assert(buf@ =~= digits_of(u as nat, shown_radix(radix)));
    buf
}

/// A signed integer in `radix` (2 to 36; decimal for any other radix), with
/// a leading `-` when negative.
pub fn format_value_in_radix(val: i128, radix: u32) -> (r: String)
    ensures
        r@ == signed_digits(val as int, radix),
{
    if val < 0 {
        let u: u128 = ((-(val + 1)) as u128) + 1;
        let digits = format_magnitude(u, radix);
        let mut buf: Vec<char> = Vec::new();
        buf.push('-');
        let mut k: usize = 0;
        while k < digits.len()
            invariant
                0 <= k <= digits@.len(),
                buf@ =~= seq!['-'] + digits@.subrange(0, k as int),
            decreases digits@.len() - k,
        {
            buf.push(digits[k]);
            k += 1;
        }
        assert(digits@.subrange(0, digits@.len() as int) =~= digits@);
        string_of(&buf)
    } else {
        let digits = format_magnitude(val as u128, radix);
        string_of(&digits)
    }
}

} // verus!
