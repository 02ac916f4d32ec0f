//! Checks on raw input: radix digits, ASCII text, float syntax, length and range.

use vstd::prelude::*;
use crate::errors::{bad_digit, bad_digit_error, find_bad_digit, first_bad_digit, ConversionError, ConversionResult};
use crate::radix::format_value_in_radix;
use crate::text::{ascii_lower, chars_of, concat, is_dec_digit, string_of};

verus! {

/// The end of the run of decimal digits of `s` from `i` on.
pub open spec fn digit_run_end(s: Seq<char>, i: int) -> int
    decreases s.len() - i,
{
    if 0 <= i < s.len() && is_dec_digit(s[i]) {
        digit_run_end(s, i + 1)
    } else {
        i
    }
}

/// `s` is a number with digits, an optional point, and an optional
/// exponent: `e` or `E`, an optional sign, and at least one digit.
pub open spec fn is_number_text(s: Seq<char>) -> bool {
    let i1 = digit_run_end(s, 0);
    let has_point = i1 < s.len() && s[i1] == '.';
    let i2 = if has_point { digit_run_end(s, i1 + 1) } else { i1 };
    let mantissa_digits = i1 > 0 || (has_point && i2 > i1 + 1);
    let j = if i2 + 1 < s.len() && (s[i2 + 1] == '+' || s[i2 + 1] == '-') { i2 + 2 } else { i2 + 1 };
    mantissa_digits && (i2 == s.len() || ((s[i2] == 'e' || s[i2] == 'E') && digit_run_end(s, j) > j
        && digit_run_end(s, j) == s.len()))
}

/// `s` is `inf`, `infinity` or `nan`, in any case.
pub open spec fn is_special_float(s: Seq<char>) -> bool {
    let l = s.map_values(|c: char| ascii_lower(c));
    l == "inf"@ || l == "infinity"@ || l == "nan"@
}

/// `s` is the text of a float as `f32::from_str` reads it: an optional
/// sign, then a number or one of the special words.
pub open spec fn is_float_text(s: Seq<char>) -> bool {
    let b = if s.len() > 0 && (s[0] == '+' || s[0] == '-') { s.drop_first() } else { s };
    is_number_text(b) || is_special_float(b)
}

proof fn lemma_digit_run(s: Seq<char>, i: int)
    requires
        0 <= i <= s.len(),
    ensures
        i <= digit_run_end(s, i) <= s.len(),
    decreases s.len() - i,
{
    if i < s.len() && is_dec_digit(s[i]) {
        lemma_digit_run(s, i + 1);
    }
}

fn digit_run(s: &Vec<char>, from: usize) -> (j: usize)
    requires
        from <= s@.len(),
    ensures
        j == digit_run_end(s@, from as int),
        from <= j <= s@.len(),
{
    let mut j = from;
    while j < s.len() && '0' <= s[j] && s[j] <= '9'
        invariant
            from <= j <= s@.len(),
            digit_run_end(s@, from as int) == digit_run_end(s@, j as int),
        decreases s@.len() - j,
    {
        j += 1;
    }
    j
}

fn number_text(s: &Vec<char>) -> (r: bool)
    ensures
        r == is_number_text(s@),
{
    let i1 = digit_run(s, 0);
    let has_point = i1 < s.len() && s[i1] == '.';
    let i2 = if has_point { digit_run(s, i1 + 1) } else { i1 };
    let mantissa_digits = i1 > 0 || (has_point && i2 > i1 + 1);
    if !mantissa_digits {
        return false;
    }
    if i2 == s.len() {
        return true;
    }
    if !(s[i2] == 'e' || s[i2] == 'E') {
        return false;
    }
    let j = if i2 + 1 < s.len() && (s[i2 + 1] == '+' || s[i2 + 1] == '-') { i2 + 2 } else { i2 + 1 };
    if j > s.len() {
        return false;
    }
    let k = digit_run(s, j);
    k > j && k == s.len()
}

fn lower_chars(s: &Vec<char>) -> (r: Vec<char>)
    ensures
        r@ == s@.map_values(|c: char| ascii_lower(c)),
{
    let mut out: Vec<char> = Vec::new();
    let mut k: usize = 0;
    while k < s.len()
        invariant
            k <= s@.len(),
            out@ == s@.subrange(0, k as int).map_values(|c: char| ascii_lower(c)),
        decreases s@.len() - k,
    {
        let c = s[k];
        out.push(if 'A' <= c && c <= 'Z' { ((c as u32) + 32) as u8 as char } else { c });
        k += 1;
        assert(out@ =~= s@.subrange(0, k as int).map_values(|c: char| ascii_lower(c)));
    }
    assert(s@.subrange(0, s@.len() as int) =~= s@);
    out
}

fn is_word(v: &Vec<char>, w: &str) -> (r: bool)
    ensures
        r == (v@ == w@),
{
    let t = chars_of(w);
    crate::expr::same_chars(v, &t)
}

/// Whether `s` is the text of a float as `f32::from_str` reads it.
pub fn float_text(s: &Vec<char>) -> (r: bool)
    ensures
        r == is_float_text(s@),
{
    let start: usize = if s.len() > 0 && (s[0] == '+' || s[0] == '-') { 1 } else { 0 };
    let mut b: Vec<char> = Vec::new();
    let mut k: usize = start;
    while k < s.len()
        invariant
            start <= k <= s@.len(),
            b@ == s@.subrange(start as int, k as int),
        decreases s@.len() - k,
    {
        b.push(s[k]);
        k += 1;
        assert(b@ =~= s@.subrange(start as int, k as int));
    }
    assert(b@ =~= (if s@.len() > 0 && (s@[0] == '+' || s@[0] == '-') { s@.drop_first() } else { s@ }));
    if number_text(&b) {
        return true;
    }
    let l = lower_chars(&b);
    is_word(&l, "inf") || is_word(&l, "infinity") || is_word(&l, "nan")
}

/// The first character of `s` that is not ASCII, if any.
pub open spec fn first_non_ascii(s: Seq<char>) -> int
    decreases s.len(),
{
    if s.len() == 0 {
        0
    } else if (s[0] as u32) >= 128 {
        0
    } else {
        1 + first_non_ascii(s.drop_first())
    }
}

proof fn lemma_first_non_ascii(s: Seq<char>)
    ensures
        0 <= first_non_ascii(s) <= s.len(),
        forall|k: int| 0 <= k < first_non_ascii(s) ==> (#[trigger] s[k] as u32) < 128,
        first_non_ascii(s) < s.len() ==> (s[first_non_ascii(s)] as u32) >= 128,
    decreases s.len(),
{
    if s.len() > 0 && (s[0] as u32) < 128 {
        lemma_first_non_ascii(s.drop_first());
        assert forall|k: int| 0 <= k < first_non_ascii(s) implies (#[trigger] s[k] as u32) < 128 by {
            if k > 0 {
                assert(s[k] == s.drop_first()[k - 1]);
            }
        }
    }
}

/// Checks on raw input.
pub struct Validator;

impl Validator {
    /// Fails on empty input, then on the first character that is no digit
    /// of `radix` (at most 36).
    pub fn is_valid_radix(input: &str, radix: u32) -> (r: ConversionResult<()>)
        requires
            radix <= 36,
        ensures
            input@.len() == 0 ==> r == Err::<(), ConversionError>(ConversionError::EmptyInput),
            input@.len() > 0 ==> (r is Ok <==> first_bad_digit(input@, radix) == input@.len()),
            input@.len() > 0 ==> (r matches Err(e) ==> bad_digit_error(input@[first_bad_digit(input@, radix)], radix, e)),
    {
        if input.is_empty() {
            return Err(ConversionError::EmptyInput);
        }
        proof {
            crate::errors::lemma_first_bad_digit(input@, radix);
        }
        match find_bad_digit(input, radix) {
            Some(c) => Err(bad_digit(c, radix)),
            None => Ok(()),
        }
    }

    /// `is_valid_radix` in radix 16.
    pub fn is_valid_hex(input: &str) -> (r: ConversionResult<()>)
        ensures
            input@.len() == 0 ==> r == Err::<(), ConversionError>(ConversionError::EmptyInput),
            input@.len() > 0 ==> (r is Ok <==> first_bad_digit(input@, 16) == input@.len()),
    {
        Self::is_valid_radix(input, 16)
    }

    /// `is_valid_radix` in radix 2.
    pub fn is_valid_binary(input: &str) -> (r: ConversionResult<()>)
        ensures
            input@.len() == 0 ==> r == Err::<(), ConversionError>(ConversionError::EmptyInput),
            input@.len() > 0 ==> (r is Ok <==> first_bad_digit(input@, 2) == input@.len()),
    {
        Self::is_valid_radix(input, 2)
    }

    /// `is_valid_radix` in radix 10.
    pub fn is_valid_decimal(input: &str) -> (r: ConversionResult<()>)
        ensures
            input@.len() == 0 ==> r == Err::<(), ConversionError>(ConversionError::EmptyInput),
            input@.len() > 0 ==> (r is Ok <==> first_bad_digit(input@, 10) == input@.len()),
    {
        Self::is_valid_radix(input, 10)
    }

    /// Fails on empty input, then on the first character that is not ASCII.
    pub fn is_valid_ascii_text(input: &str) -> (r: ConversionResult<()>)
        ensures
            input@.len() == 0 ==> r == Err::<(), ConversionError>(ConversionError::EmptyInput),
            input@.len() > 0 ==> (r is Ok <==> first_non_ascii(input@) == input@.len()),
            input@.len() > 0 && first_non_ascii(input@) < input@.len() ==> (r matches Err(e) && e matches ConversionError::InvalidFormat { expected, got }
                && expected@ == "ASCII字符"@
                && got@ == "非ASCII字符 '"@ + seq![input@[first_non_ascii(input@)]] + "'"@),
    {
        let s = chars_of(input);
        if s.len() == 0 {
            return Err(ConversionError::EmptyInput);
        }
        proof {
            lemma_first_non_ascii(input@);
        }
        let mut k: usize = 0;
        while k < s.len()
            invariant
                k <= s@.len(),
                s@ == input@,
                0 <= first_non_ascii(input@) <= s@.len(),
                k <= first_non_ascii(input@),
                first_non_ascii(input@) < s@.len() ==> (s@[first_non_ascii(input@)] as u32) >= 128,
                forall|m: int| 0 <= m < first_non_ascii(input@) ==> (#[trigger] s@[m] as u32) < 128,
            decreases s@.len() - k,
        {
            if (s[k] as u32) >= 128 {
                let mut one: Vec<char> = Vec::new();
                one.push(s[k]);
                let a = concat("非ASCII字符 '", string_of(&one).as_str());
                let got = concat(a.as_str(), "'");
                return Err(ConversionError::InvalidFormat { expected: String::from_str("ASCII字符"), got });
            }
            k += 1;
        }
        Ok(())
    }

    /// Fails on empty input, then on text that `f32::from_str` would refuse.
    pub fn is_valid_float(input: &str) -> (r: ConversionResult<()>)
        ensures
            input@.len() == 0 ==> r == Err::<(), ConversionError>(ConversionError::EmptyInput),
            input@.len() > 0 ==> (r is Ok <==> is_float_text(input@)),
            input@.len() > 0 && !is_float_text(input@) ==> (r matches Err(e) && e matches ConversionError::InvalidFormat { expected, got }
                && expected@ == "浮点数"@ && got@ == input@),
    {
        let s = chars_of(input);
        if s.len() == 0 {
            return Err(ConversionError::EmptyInput);
        }
        if float_text(&s) {
            Ok(())
        } else {
            Err(ConversionError::InvalidFormat { expected: String::from_str("浮点数"), got: String::from_str(input) })
        }
    }

    /// Fails when the input's byte length lies outside `min_length` to
    /// `max_length`; the error carries the bound that was crossed.
    pub fn is_valid_length(input: &str, min_length: usize, max_length: usize) -> (r: ConversionResult<()>)
        ensures
            input.len() < min_length ==> r == Err::<(), ConversionError>(ConversionError::InputTooLong { max_length: min_length, actual: input.len() }),
            min_length <= input.len() && input.len() > max_length ==> r == Err::<(), ConversionError>(ConversionError::InputTooLong { max_length, actual: input.len() }),
            min_length <= input.len() <= max_length ==> r is Ok,
    {
        let len = input.len();
        if len < min_length {
            return Err(ConversionError::InputTooLong { max_length: min_length, actual: len });
        }
        if len > max_length {
            return Err(ConversionError::InputTooLong { max_length, actual: len });
        }
        Ok(())
    }

    /// Fails when `value` lies outside `min` to `max`; the error carries the
    /// three numbers in decimal.
    pub fn is_in_range(value: i64, min: i64, max: i64) -> (r: ConversionResult<()>)
        ensures
            r is Ok <==> min <= value <= max,
            r matches Err(e) ==> e matches ConversionError::ValueOutOfRange { min: a, max: b, value: v }
                && a@ == crate::radix::signed_digits(min as int, 10)
                && b@ == crate::radix::signed_digits(max as int, 10)
                && v@ == crate::radix::signed_digits(value as int, 10),
    {
        if value < min || value > max {
            return Err(ConversionError::ValueOutOfRange {
                min: format_value_in_radix(min as i128, 10),
                max: format_value_in_radix(max as i128, 10),
                value: format_value_in_radix(value as i128, 10),
            });
        }
        Ok(())
    }

}

} // verus!
