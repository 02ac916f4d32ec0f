//! Putting a computed value back into the radix it was asked in. The
//! evaluator's value is split into sign, integer part and fraction digits by
//! the caller; this module writes those parts out and trims decimal text.

use vstd::prelude::*;
use crate::expr::{is_number_char, normalize_from, run_end, star, TokenKind};
use crate::radix::{digit_value, digits_of, format_magnitude, lemma_digits_in_radix, lemma_digits_round_trip, shown_radix, signed_digits, symbol, symbol_of, value_of};
use crate::text::{chars_of, push_chars, string_of};
use crate::token::{i128_max, literal_spec, strip_underscores, NormalizeError};

verus! {

/// A value written in `radix`: `-` when negative, the integer part in the
/// radix that `shown_radix` picks, and, when there are fraction digits, a
/// point and their symbols.
pub open spec fn radix_text(negative: bool, int_part: nat, frac: Seq<u32>, radix: u32) -> Seq<char> {
    (if negative { seq!['-'] } else { seq![] }) + digits_of(int_part, shown_radix(radix)) + if frac.len() == 0 {
        seq![]
    } else {
        seq!['.'] + frac.map_values(|d: u32| symbol(d as int))
    }
}

/// Writes a value from its parts: sign, integer part, and the fraction
/// digits (each below thirty-six), most significant first.
pub fn join_radix_parts(negative: bool, int_part: u128, frac: &Vec<u32>, radix: u32) -> (r: String)
    requires
        forall|k: int| 0 <= k < frac@.len() ==> frac@[k] < 36,
    ensures
        r@ == radix_text(negative, int_part as nat, frac@, radix),
{
    let mut out: Vec<char> = Vec::new();
    if negative {
        out.push('-');
    }
    let digits = format_magnitude(int_part, radix);
    push_chars(&mut out, &digits);
    let ghost head = out@;
    if frac.len() > 0 {
        out.push('.');
        let mut k: usize = 0;
        while k < frac.len()
            invariant
                k <= frac@.len(),
                forall|m: int| 0 <= m < frac@.len() ==> frac@[m] < 36,
                out@ == head + seq!['.'] + frac@.subrange(0, k as int).map_values(|d: u32| symbol(d as int)),
            decreases frac@.len() - k,
        {
            out.push(symbol_of(frac[k]));
            k += 1;
            assert(out@ =~= head + seq!['.'] + frac@.subrange(0, k as int).map_values(|d: u32| symbol(d as int)));
        }
        assert(frac@.subrange(0, frac@.len() as int) =~= frac@);
    }
    assert(out@ =~= radix_text(negative, int_part as nat, frac@, radix));
    string_of(&out)
}

/// Decimal text without trailing zeros after its point, and without the
/// point if nothing follows it; text without a point is unchanged.
pub open spec fn trimmed(s: Seq<char>) -> Seq<char>
    decreases s.len(),
{
    if !s.contains('.') {
        s
    } else if s.len() > 0 && s.last() == '0' {
        trimmed(s.drop_last())
    } else if s.len() > 0 && s.last() == '.' {
        s.drop_last()
    } else {
        s
    }
}

/// Drops trailing zeros after the point of decimal text, then a point
/// that ends it.
pub fn trim_float(s: &str) -> (r: String)
    ensures
        r@ == trimmed(s@),
{
    let mut v = chars_of(s);
    let mut has_dot = false;
    let mut k: usize = 0;
    while k < v.len()
        invariant
            k <= v@.len(),
            has_dot == (exists|m: int| 0 <= m < k && v@[m] == '.'),
        decreases v@.len() - k,
    {
        if v[k] == '.' {
            has_dot = true;
        }
        k += 1;
    }
    if !has_dot {
        return string_of(&v);
    }
    while v.len() > 0 && v[v.len() - 1] == '0'
        invariant
            v@.contains('.'),
            trimmed(s@) == trimmed(v@),
        decreases v@.len(),
    {
        let ghost before = v@;
        v.pop();
        proof {
            let m = choose|m: int| 0 <= m < before.len() && before[m] == '.';
            assert(v@[m] == '.');
        }
    }
    if v.len() > 0 && v[v.len() - 1] == '.' {
        v.pop();
    }
    string_of(&v)
}

proof fn lemma_strip_digits(s: Seq<char>, radix: u32)
    requires
        forall|k: int| 0 <= k < s.len() ==> 0 <= #[trigger] digit_value(s[k]),
    ensures
        strip_underscores(s) == s,
    decreases s.len(),
{
    if s.len() > 0 {
        let t = s.drop_last();
        assert forall|k: int| 0 <= k < t.len() implies 0 <= #[trigger] digit_value(t[k]) by {
            assert(t[k] == s[k]);
        }
        lemma_strip_digits(t, radix);
        assert(s.last() == s[s.len() - 1]);
        assert(0 <= digit_value(s[s.len() - 1]));
        assert(t.push(s.last()) =~= s);
    }
}

proof fn lemma_run_covers(s: Seq<char>, radix: u32, i: int)
    requires
        0 <= i <= s.len(),
        forall|k: int| 0 <= k < s.len() ==> is_number_char(#[trigger] s[k], radix),
    ensures
        run_end(s, i, radix) == s.len(),
    decreases s.len() - i,
{
    if i < s.len() {
        lemma_run_covers(s, radix, i + 1);
    }
}

/// Writing a 64-bit natural number in radix 2, 8, 10 or 16 and reading the
/// text back in the same radix gives the number again: its digits denote
/// it, and the expression normaliser turns the text into the decimal
/// numeral of the number.
pub proof fn lemma_format_round_trip(n: u64, radix: u32)
    requires
        radix == 2 || radix == 8 || radix == 10 || radix == 16,
    ensures
        value_of(signed_digits(n as int, radix), radix as int) == n,
        literal_spec(signed_digits(n as int, radix), radix) == Ok::<Seq<char>, NormalizeError>(digits_of(n as nat, 10)),
        normalize_from(signed_digits(n as int, radix), radix, 0, TokenKind::Start, false)
            == Ok::<Seq<char>, NormalizeError>(digits_of(n as nat, 10)),
{
    let s = signed_digits(n as int, radix);
    assert(shown_radix(radix) == radix);
    assert(s == digits_of(n as nat, radix as nat));
    lemma_digits_round_trip(n as nat, radix as nat);
    lemma_digits_in_radix(n as nat, radix as nat);
    lemma_strip_digits(s, radix);
    assert(!s.contains('.')) by {
        if s.contains('.') {
            let m = choose|m: int| 0 <= m < s.len() && s[m] == '.';
            assert(0 <= digit_value(s[m]));
        }
    }
    assert(s[0] != '-') by {
        assert(0 <= digit_value(s[0]));
    }
    assert forall|k: int| 0 <= k < s.len() implies is_number_char(#[trigger] s[k], radix) by {
        assert(0 <= digit_value(s[k]) < radix);
    }
    assert(value_of(s, radix as int) <= i128_max());
    assert(shown_radix(10) == 10);
    lemma_run_covers(s, radix, 1);
    assert(s.subrange(0, s.len() as int) =~= s);
    assert(!crate::text::is_space(s[0])) by {
        assert(0 <= digit_value(s[0]));
    }
    assert(normalize_from(s, radix, s.len() as int, TokenKind::Number, false) == Ok::<Seq<char>, NormalizeError>(seq![]));
    assert(literal_spec(s.subrange(0, s.len() as int), radix) == Ok::<Seq<char>, NormalizeError>(digits_of(n as nat, 10)));
    assert(digits_of(n as nat, 10) + seq![] =~= digits_of(n as nat, 10));
    assert(star(false) + digits_of(n as nat, 10) =~= digits_of(n as nat, 10));
}

} // verus!
