//! The errors of the plain conversions, and the checks that produce them.

use vstd::prelude::*;
use crate::radix::format_value_in_radix;
use crate::text::{chars_of, concat, is_space, is_space_char, string_of};

verus! {

/// Why an input cannot be converted.
#[derive(Debug, Clone, PartialEq)]
pub enum ConversionError {
    /// The input holds something other than what was expected.
    InvalidFormat { expected: String, got: String },
    /// There is nothing to convert.
    EmptyInput,
    /// The input's length is out of bounds.
    InputTooLong { max_length: usize, actual: usize },
    /// The value lies outside its range.
    ValueOutOfRange { min: String, max: String, value: String },
    /// The input could not be parsed.
    ParseError(String),
}

/// The result of a conversion step.
pub type ConversionResult<T> = Result<T, ConversionError>;

/// The decimal numeral of `n`.
pub fn decimal_text(n: usize) -> (r: String)
    ensures
        r@ == crate::radix::digits_of(n as nat, 10),
{
    format_value_in_radix(n as i128, 10)
}

impl ConversionError {
    /// The message shown for this error.
    pub fn message(&self) -> (r: String)
        ensures
            *self == ConversionError::EmptyInput ==> r@ == "请输入数值"@,
            self matches ConversionError::InvalidFormat { expected, got }
                ==> r@ == "格式错误：期望 "@ + expected@ + "，但得到 "@ + got@,
            self matches ConversionError::ParseError(m) ==> r@ == "解析错误："@ + m@,
            self matches ConversionError::ValueOutOfRange { min, max, value }
                ==> r@ == "数值超出范围："@ + value@ + " 不在 "@ + min@ + " 到 "@ + max@ + " 之间"@,
            self matches ConversionError::InputTooLong { max_length, actual }
                ==> r@ == "输入长度超出限制：最大 "@ + crate::radix::digits_of(max_length as nat, 10) + " 位，实际 "@
                + crate::radix::digits_of(actual as nat, 10) + " 位"@,
    {
        match self {
            ConversionError::InvalidFormat { expected, got } => {
                let a = concat("格式错误：期望 ", expected.as_str());
                let b = concat(a.as_str(), "，但得到 ");
                concat(b.as_str(), got.as_str())
            },
            ConversionError::EmptyInput => String::from_str("请输入数值"),
            ConversionError::InputTooLong { max_length, actual } => {
                let a = concat("输入长度超出限制：最大 ", decimal_text(*max_length).as_str());
                let b = concat(a.as_str(), " 位，实际 ");
                let c = concat(b.as_str(), decimal_text(*actual).as_str());
                concat(c.as_str(), " 位")
            },
            ConversionError::ValueOutOfRange { min, max, value } => {
                let a = concat("数值超出范围：", value.as_str());
                let b = concat(a.as_str(), " 不在 ");
                let c = concat(b.as_str(), min.as_str());
                let d = concat(c.as_str(), " 到 ");
                let e = concat(d.as_str(), max.as_str());
                concat(e.as_str(), " 之间")
            },
            ConversionError::ParseError(msg) => concat("解析错误：", msg.as_str()),
        }
    }
}

/// Every character of `s` is whitespace (so trimming leaves nothing).
pub open spec fn all_space(s: Seq<char>) -> bool {
    forall|k: int| 0 <= k < s.len() ==> is_space(#[trigger] s[k])
}

/// Whether `input` is empty once surrounding whitespace is trimmed.
pub fn is_blank(input: &str) -> (r: bool)
    ensures
        r == all_space(input@),
{
    let s = chars_of(input);
    let mut k: usize = 0;
    while k < s.len()
        invariant
            k <= s@.len(),
            s@ == input@,
            forall|m: int| 0 <= m < k ==> is_space(#[trigger] s@[m]),
        decreases s@.len() - k,
    {
        if !is_space_char(s[k]) {
            return false;
        }
        k += 1;
    }
    true
}

/// Fails with `EmptyInput` when the input is empty or only whitespace.
pub fn validate_not_empty(input: &str) -> (r: ConversionResult<()>)
    ensures
        r is Err <==> all_space(input@),
        r matches Err(e) ==> e == ConversionError::EmptyInput,
{
    if is_blank(input) {
        Err(ConversionError::EmptyInput)
    } else {
        Ok(())
    }
}

/// Fails with `InputTooLong` when the input is longer than `max_length`
/// bytes (its length in UTF-8, as `str::len` counts it).
pub fn validate_length(input: &str, max_length: usize) -> (r: ConversionResult<()>)
    ensures
        r is Err <==> input.len() > max_length,
        r matches Err(e) ==> e == (ConversionError::InputTooLong { max_length, actual: input.len() }),
{
    let n = input.len();
    if n > max_length {
        Err(ConversionError::InputTooLong { max_length, actual: n })
    } else {
        Ok(())
    }
}

/// The value of `c` as a digit of radix up to 36 (letters in either case
/// from ten on), or -1.
pub open spec fn digit36(c: char) -> int {
    if '0' <= c && c <= '9' {
        c as int - '0' as int
    } else if 'a' <= c && c <= 'z' {
        c as int - 'a' as int + 10
    } else if 'A' <= c && c <= 'Z' {
        c as int - 'A' as int + 10
    } else {
        -1
    }
}

/// `c` is a digit of `radix`, as `char::is_digit` decides.
pub open spec fn is_digit_of(c: char, radix: u32) -> bool {
    0 <= digit36(c) < radix
}

/// Whether `c` is a digit of `radix` (at most 36).
pub fn char_is_digit(c: char, radix: u32) -> (r: bool)
    requires
        radix <= 36,
    ensures
        r == is_digit_of(c, radix),
{
    if '0' <= c && c <= '9' {
        (c as u32 - '0' as u32) < radix
    } else if 'a' <= c && c <= 'z' {
        (c as u32 - 'a' as u32) + 10 < radix
    } else if 'A' <= c && c <= 'Z' {
        (c as u32 - 'A' as u32) + 10 < radix
    } else {
        false
    }
}

/// The name of a radix: binary, octal, decimal, hexadecimal, or unknown.
pub open spec fn radix_name_spec(radix: u32) -> Seq<char> {
    if radix == 2 {
        "二进制"@
    } else if radix == 8 {
        "八进制"@
    } else if radix == 10 {
        "十进制"@
    } else if radix == 16 {
        "十六进制"@
    } else {
        "未知进制"@
    }
}

/// The name of a radix.
pub fn radix_name(radix: u32) -> (r: String)
    ensures
        r@ == radix_name_spec(radix),
{
    if radix == 2 {
        String::from_str("二进制")
    } else if radix == 8 {
        String::from_str("八进制")
    } else if radix == 10 {
        String::from_str("十进制")
    } else if radix == 16 {
        String::from_str("十六进制")
    } else {
        String::from_str("未知进制")
    }
}

/// The index of the first character of `s` that is no digit of `radix`, or its length.
pub open spec fn first_bad_digit(s: Seq<char>, radix: u32) -> int
    decreases s.len(),
{
    if s.len() == 0 {
        0
    } else if !is_digit_of(s[0], radix) {
        0
    } else {
        1 + first_bad_digit(s.drop_first(), radix)
    }
}

/// The error for the character `c` that is no digit of `radix`.
pub open spec fn bad_digit_error(c: char, radix: u32, e: ConversionError) -> bool {
    e matches ConversionError::InvalidFormat { expected, got }
        && expected@ == radix_name_spec(radix) + "字符"@
        && got@ == "字符 '"@ + seq![c] + "'"@
}

/// `first_bad_digit` lies within `s`, every character before it is a digit
/// of `radix`, and the character there, if any, is not.
pub proof fn lemma_first_bad_digit(s: Seq<char>, radix: u32)
    ensures
        0 <= first_bad_digit(s, radix) <= s.len(),
        forall|k: int| 0 <= k < first_bad_digit(s, radix) ==> is_digit_of(#[trigger] s[k], radix),
        first_bad_digit(s, radix) < s.len() ==> !is_digit_of(s[first_bad_digit(s, radix)], radix),
    decreases s.len(),
{
    if s.len() > 0 && is_digit_of(s[0], radix) {
        lemma_first_bad_digit(s.drop_first(), radix);
        assert forall|k: int| 0 <= k < first_bad_digit(s, radix) implies is_digit_of(#[trigger] s[k], radix) by {
            if k > 0 {
                assert(s[k] == s.drop_first()[k - 1]);
            }
        }
    }
}

/// Finds the first character of `input` that is no digit of `radix`.
pub fn find_bad_digit(input: &str, radix: u32) -> (r: Option<char>)
    requires
        radix <= 36,
    ensures
        first_bad_digit(input@, radix) < input@.len() ==> r == Some(input@[first_bad_digit(input@, radix)]),
        first_bad_digit(input@, radix) >= input@.len() ==> r.is_none(),
{
    let s = chars_of(input);
    proof {
        lemma_first_bad_digit(input@, radix);
    }
    let mut k: usize = 0;
    while k < s.len()
        invariant
            k <= s@.len(),
            s@ == input@,
            radix <= 36,
            0 <= first_bad_digit(input@, radix) <= s@.len(),
            k <= first_bad_digit(input@, radix),
            first_bad_digit(input@, radix) < s@.len() ==> !is_digit_of(s@[first_bad_digit(input@, radix)], radix),
            forall|m: int| 0 <= m < first_bad_digit(input@, radix) ==> is_digit_of(#[trigger] s@[m], radix),
        decreases s@.len() - k,
    {
        if !char_is_digit(s[k], radix) {
            return Some(s[k]);
        }
        k += 1;
    }
    None
}

/// The error for a character that is no digit of `radix`.
pub fn bad_digit(c: char, radix: u32) -> (e: ConversionError)
    ensures
        bad_digit_error(c, radix, e),
{
    let name = radix_name(radix);
    let expected = concat(name.as_str(), "字符");
    let mut one: Vec<char> = Vec::new();
    one.push(c);
    let a = concat("字符 '", string_of(&one).as_str());
    let got = concat(a.as_str(), "'");
    ConversionError::InvalidFormat { expected, got }
}

/// Fails on the first character that is no digit of `radix` (at most 36).
pub fn validate_radix_chars(input: &str, radix: u32) -> (r: ConversionResult<()>)
    requires
        radix <= 36,
    ensures
        r is Ok <==> first_bad_digit(input@, radix) == input@.len(),
        r matches Err(e) ==> bad_digit_error(input@[first_bad_digit(input@, radix)], radix, e),
{
    proof {
        lemma_first_bad_digit(input@, radix);
    }
    match find_bad_digit(input, radix) {
        Some(c) => Err(bad_digit(c, radix)),
        None => Ok(()),
    }
}

} // verus!
