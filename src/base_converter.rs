//! Conversions of an unsigned 64-bit number between radix 2, 10 and 16.

use vstd::prelude::*;
use crate::conversion_data::{ConversionData, ConversionDataView};
use crate::errors::{all_space, bad_digit_error, first_bad_digit, validate_not_empty, validate_radix_chars, ConversionError, ConversionResult};
use crate::radix::digits_of;
use crate::text::{ascii_lower, ascii_upper, concat, to_upper};
use crate::worker::{int_error_text, int_error_words, parse_u64_radix, parse_u64_spec};

verus! {

/// `s` with its letters in lower case.
pub open spec fn lower_digits(s: Seq<char>) -> Seq<char> {
    s.map_values(|c: char| ascii_lower(c))
}

/// Relies on `num::BigUint::to_str_radix`: the digits of the number in the
/// radix, most significant first, without leading zeros (`0` for zero),
/// letters in lower case.
#[verifier::external_body]
fn big_str_radix(n: u64, radix: u32) -> (r: String)
    requires
        2 <= radix <= 16,
    ensures
        r@ == lower_digits(digits_of(n as nat, radix as nat)),
{
    num::BigUint::from(n).to_str_radix(radix)
}

/// The digits of `n` in `radix`, letters in upper case.
fn upper_digits(n: u64, radix: u32) -> (r: String)
    requires
        2 <= radix <= 16,
    ensures
        r@ == digits_of(n as nat, radix as nat),
{
    let low = big_str_radix(n, radix);
    let r = to_upper(low.as_str());
    proof {
        crate::radix::lemma_digits_in_radix(n as nat, radix as nat);
        let d = digits_of(n as nat, radix as nat);
        assert forall|k: int| 0 <= k < low@.len() implies (#[trigger] low@[k] as u32) < 128 by {
            assert(0 <= crate::radix::digit_value(d[k]) < 16);
        }
        assert forall|k: int| 0 <= k < d.len() implies #[trigger] ascii_upper(ascii_lower(d[k])) == d[k] by {
            assert(0 <= crate::radix::digit_value(d[k]) < 16);
            let c = d[k];
            if 'A' <= c && c <= 'Z' {
                let l = ((c as u32) + 32) as char;
                assert(l as u32 == (c as u32) + 32);
                assert('a' <= l && l <= 'z');
            }
        }
        assert(r@ =~= d);
    }
    r
}

/// The output of a conversion from `radix`: the two other renderings of `n`.
pub open spec fn base_output(radix: u32, n: u64) -> Seq<char> {
    if radix == 2 {
        "16进制: "@ + digits_of(n as nat, 16) + "\n10进制: "@ + digits_of(n as nat, 10)
    } else if radix == 10 {
        "2进制: "@ + digits_of(n as nat, 2) + "\n16进制: "@ + digits_of(n as nat, 16)
    } else {
        "2进制: "@ + digits_of(n as nat, 2) + "\n10进制: "@ + digits_of(n as nat, 10)
    }
}

/// The conversion of field `data` from `radix` with at most `max_len` characters
/// (unbounded when `max_len` is `None`): the checks in order, then the output.
pub open spec fn base_conversion(old: ConversionDataView, new: ConversionDataView, radix: u32, max_len: Option<usize>, r: ConversionResult<()>) -> bool {
    let input = old.cleaned;
    if all_space(input) {
        r == Err::<(), ConversionError>(ConversionError::EmptyInput) && new == old
    } else if max_len matches Some(m) && input.len() > m {
        r == Err::<(), ConversionError>(ConversionError::InputTooLong { max_length: max_len.unwrap(), actual: input.len() as usize }) && new == old
    } else if first_bad_digit(input, radix) < input.len() {
        (r matches Err(e) && bad_digit_error(input[first_bad_digit(input, radix)], radix, e)) && new == old
    } else {
        match parse_u64_spec(input, radix) {
            Ok(n) => r is Ok && new == (ConversionDataView { output: base_output(radix, n), ..old }),
            Err(k) => (r matches Err(ConversionError::ParseError(m)) && m@ == int_error_words(k)) && new == old,
        }
    }
}

fn convert_base(data: &mut ConversionData, radix: u32, max_len: Option<usize>) -> (r: ConversionResult<()>)
    requires
        radix == 2 || radix == 10 || radix == 16,
    ensures
        base_conversion(old(data)@, final(data)@, radix, max_len, r),
{
    let input = data.cleaned_input();
    validate_not_empty(input)?;
    let chars = crate::text::chars_of(input);
    match max_len {
        Some(m) => {
            if chars.len() > m {
                return Err(ConversionError::InputTooLong { max_length: m, actual: chars.len() });
            }
        },
        None => {},
    }
    proof {
        crate::errors::lemma_first_bad_digit(input@, radix);
    }
    validate_radix_chars(input, radix)?;
    let n = match parse_u64_radix(&chars, radix) {
        Ok(n) => n,
        Err(k) => {
            return Err(ConversionError::ParseError(int_error_text(k)));
        },
    };
    let (la, a, lb, b) = if radix == 2 {
        ("16进制: ", upper_digits(n, 16), "\n10进制: ", upper_digits(n, 10))
    } else if radix == 10 {
        ("2进制: ", upper_digits(n, 2), "\n16进制: ", upper_digits(n, 16))
    } else {
        ("2进制: ", upper_digits(n, 2), "\n10进制: ", upper_digits(n, 10))
    };
    let s1 = concat(la, a.as_str());
    let s2 = concat(s1.as_str(), lb);
    let out = concat(s2.as_str(), b.as_str());
    data.set_output(out);
    Ok(())
}

/// Conversions of a field's cleaned input between radix 2, 10 and 16.
pub struct BaseConverter;

impl BaseConverter {
    /// Reads at most 64 binary digits and shows the number in radix 16 and 10.
    pub fn from_binary(data: &mut ConversionData) -> (r: ConversionResult<()>)
        ensures
            base_conversion(old(data)@, final(data)@, 2, Some(64usize), r),
    {
        convert_base(data, 2, Some(64))
    }

    /// Reads a decimal number and shows it in radix 2 and 16.
    pub fn from_decimal(data: &mut ConversionData) -> (r: ConversionResult<()>)
        ensures
            base_conversion(old(data)@, final(data)@, 10, None, r),
    {
        convert_base(data, 10, None)
    }

    /// Reads at most 16 hex digits and shows the number in radix 2 and 10.
    pub fn from_hexadecimal(data: &mut ConversionData) -> (r: ConversionResult<()>)
        ensures
            base_conversion(old(data)@, final(data)@, 16, Some(16usize), r),
    {
        convert_base(data, 16, Some(16))
    }
}

} // verus!
