//! Input validators: each keeps the characters that belong to its format,
//! keeps separators for display, and reports whether anything was dropped.

use vstd::prelude::*;
use crate::errors::{all_space, is_blank, ConversionError};
use crate::text::{ascii_upper, chars_of, is_hex_char, string_of, to_upper_char};

verus! {

/// What a validator made of an input.
#[derive(Debug, Clone)]
pub struct ValidationResult {
    /// The characters that belong to the format.
    pub cleaned_input: String,
    /// The text to show in the field.
    pub display_input: String,
    /// Whether characters were dropped.
    pub has_invalid_chars: bool,
    /// The error that describes what was dropped.
    pub error: Option<ConversionError>,
}

impl ValidationResult {
    /// Nothing was dropped.
    pub fn success(cleaned: String, display: String) -> (r: Self)
        ensures
            r == (ValidationResult { cleaned_input: cleaned, display_input: display, has_invalid_chars: false, error: None }),
    {
        ValidationResult { cleaned_input: cleaned, display_input: display, has_invalid_chars: false, error: None }
    }

    /// Characters were dropped; `error` says which format was expected.
    pub fn warning(cleaned: String, display: String, error: ConversionError) -> (r: Self)
        ensures
            r == (ValidationResult { cleaned_input: cleaned, display_input: display, has_invalid_chars: true, error: Some(error) }),
    {
        ValidationResult { cleaned_input: cleaned, display_input: display, has_invalid_chars: true, error: Some(error) }
    }

    /// Nothing usable was left.
    pub fn failure(error: ConversionError) -> (r: Self)
        ensures
            r.cleaned_input@.len() == 0,
            r.display_input@.len() == 0,
            r.has_invalid_chars,
            r.error == Some(error),
    {
        ValidationResult { cleaned_input: String::new(), display_input: String::new(), has_invalid_chars: true, error: Some(error) }
    }

    /// No error was recorded.
    pub fn is_valid(&self) -> (r: bool)
        ensures
            r == self.error.is_none(),
    {
        self.error.is_none()
    }
}

/// The characters of `s` that satisfy `p`, in order.
pub open spec fn select(s: Seq<char>, p: spec_fn(char) -> bool) -> Seq<char>
    decreases s.len(),
{
    if s.len() == 0 {
        seq![]
    } else if p(s.last()) {
        select(s.drop_last(), p).push(s.last())
    } else {
        select(s.drop_last(), p)
    }
}

/// Every character of `s` satisfies `p`.
pub open spec fn all_of(s: Seq<char>, p: spec_fn(char) -> bool) -> bool {
    forall|k: int| 0 <= k < s.len() ==> p(#[trigger] s[k])
}

/// The separators kept for display.
pub open spec fn is_separator(c: char) -> bool {
    c == ' ' || c == '_' || c == ','
}

/// The digits of a radix-like format, as a predicate.
pub open spec fn binary_digit() -> spec_fn(char) -> bool {
    |c: char| c == '0' || c == '1'
}

/// The decimal digits, as a predicate.
pub open spec fn decimal_digit() -> spec_fn(char) -> bool {
    |c: char| '0' <= c && c <= '9'
}

/// The hex digits, as a predicate.
pub open spec fn hex_digit() -> spec_fn(char) -> bool {
    |c: char| is_hex_char(c)
}

/// `p` or a separator.
pub open spec fn or_separator(p: spec_fn(char) -> bool) -> spec_fn(char) -> bool {
    |c: char| p(c) || is_separator(c)
}

/// `s` with its ASCII letters in upper case.
pub open spec fn upper_seq(s: Seq<char>) -> Seq<char> {
    s.map_values(|c: char| ascii_upper(c))
}

/// What a digit validator gives for `input`: blank input gives empty text;
/// otherwise the digits (upper case) are cleaned input, digits and
/// separators are display text, and anything else is dropped and reported
/// with `expected`.
pub open spec fn digit_validation(input: Seq<char>, p: spec_fn(char) -> bool, expected: Seq<char>, r: ValidationResult) -> bool {
    if all_space(input) {
        r.cleaned_input@.len() == 0 && r.display_input@.len() == 0 && !r.has_invalid_chars && r.error.is_none()
    } else {
        &&& r.cleaned_input@ == upper_seq(select(input, p))
        &&& r.display_input@ == upper_seq(select(input, or_separator(p)))
        &&& r.has_invalid_chars == !all_of(input, or_separator(p))
        &&& if r.has_invalid_chars {
            r.error matches Some(ConversionError::InvalidFormat { expected: e, got: g })
                && e@ == expected && g@ == "包含无效字符，已自动删除"@
        } else {
            r.error.is_none()
        }
    }
}

fn digit_class(c: char, kind: u8) -> (r: bool)
    requires
        kind < 3,
    ensures
        kind == 0 ==> r == binary_digit()(c),
        kind == 1 ==> r == decimal_digit()(c),
        kind == 2 ==> r == hex_digit()(c),
{
    if kind == 0 {
        c == '0' || c == '1'
    } else if kind == 1 {
        '0' <= c && c <= '9'
    } else {
        ('0' <= c && c <= '9') || ('A' <= c && c <= 'F') || ('a' <= c && c <= 'f')
    }
}

/// The predicate of digit class `kind`: binary, decimal or hex.
pub open spec fn class_of(kind: u8) -> spec_fn(char) -> bool {
    if kind == 0 { binary_digit() } else if kind == 1 { decimal_digit() } else { hex_digit() }
}

fn validate_digits(input: &str, kind: u8, expected: &str) -> (r: ValidationResult)
    requires
        kind < 3,
    ensures
        digit_validation(input@, class_of(kind), expected@, r),
{
    if is_blank(input) {
        return ValidationResult::success(String::new(), String::new());
    }
    let ghost p = class_of(kind);
    let s = chars_of(input);
    let mut valid: Vec<char> = Vec::new();
    let mut display: Vec<char> = Vec::new();
    let mut has_invalid = false;
    let mut k: usize = 0;
    while k < s.len()
        invariant
            kind < 3,
            p == class_of(kind),
            k <= s@.len(),
            valid@ == upper_seq(select(s@.subrange(0, k as int), p)),
            display@ == upper_seq(select(s@.subrange(0, k as int), or_separator(p))),
            has_invalid == !all_of(s@.subrange(0, k as int), or_separator(p)),
        decreases s@.len() - k,
    {
        let ghost pre = s@.subrange(0, k as int);
        let ghost next = s@.subrange(0, k + 1);
        assert(next.drop_last() =~= pre);
        let c = s[k];
        if digit_class(c, kind) {
            let u = to_upper_char(c);
            valid.push(u);
            display.push(u);
            assert(valid@ =~= upper_seq(select(next, p)));
            assert(display@ =~= upper_seq(select(next, or_separator(p))));
        } else if c == ' ' || c == '_' || c == ',' {
            display.push(c);
            assert(display@ =~= upper_seq(select(next, or_separator(p))));
        } else {
            has_invalid = true;
            assert(!or_separator(p)(next[k as int]));
        }
        proof {
            if !has_invalid {
                assert forall|m: int| 0 <= m < next.len() implies or_separator(p)(#[trigger] next[m]) by {
                    if m < k {
                        assert(next[m] == pre[m]);
                    }
                }
            } else if all_of(pre, or_separator(p)) {
                assert(!or_separator(p)(next[k as int]));
            } else {
                let m = choose|m: int| 0 <= m < pre.len() && !or_separator(p)(#[trigger] pre[m]);
                assert(next[m] == pre[m]);
            }
        }
        k += 1;
    }
    assert(s@.subrange(0, s@.len() as int) =~= s@);
    let cleaned = string_of(&valid);
    let shown = string_of(&display);
    if has_invalid {
        ValidationResult::warning(cleaned, shown, ConversionError::InvalidFormat {
            expected: String::from_str(expected),
            got: String::from_str("包含无效字符，已自动删除"),
        })
    } else {
        ValidationResult::success(cleaned, shown)
    }
}

/// Validates binary input.
pub struct BinaryValidator;

impl BinaryValidator {
    /// Keeps `0` and `1`; spaces, `_` and `,` are shown but not kept; any
    /// other character is dropped and reported.
    pub fn validate(input: &str) -> (r: ValidationResult)
        ensures
            digit_validation(input@, binary_digit(), "二进制字符(0,1)"@, r),
    {
        validate_digits(input, 0, "二进制字符(0,1)")
    }
}

/// Validates decimal input.
pub struct DecimalValidator;

impl DecimalValidator {
    /// Keeps `0` to `9`; spaces, `_` and `,` are shown but not kept; any
    /// other character is dropped and reported.
    pub fn validate(input: &str) -> (r: ValidationResult)
        ensures
            digit_validation(input@, decimal_digit(), "十进制字符(0-9)"@, r),
    {
        validate_digits(input, 1, "十进制字符(0-9)")
    }
}

/// Validates hexadecimal input.
pub struct HexValidator;

impl HexValidator {
    /// Keeps hex digits in upper case; spaces, `_` and `,` are shown but not
    /// kept; any other character is dropped and reported.
    pub fn validate(input: &str) -> (r: ValidationResult)
        ensures
            digit_validation(input@, hex_digit(), "十六进制字符(0-9,A-F)"@, r),
    {
        validate_digits(input, 2, "十六进制字符(0-9,A-F)")
    }
}

/// The float validator's scan of `s`: the kept characters, the shown
/// characters, whether something was dropped, and whether a point was kept.
/// Digits are kept; the first point is kept; a minus sign is kept only as
/// the first character; separators are shown only; anything else is dropped.
pub open spec fn float_scan(s: Seq<char>) -> (Seq<char>, Seq<char>, bool, bool)
    decreases s.len(),
{
    if s.len() == 0 {
        (seq![], seq![], false, false)
    } else {
        let (v, d, bad, dot) = float_scan(s.drop_last());
        let c = s.last();
        if '0' <= c && c <= '9' {
            (v.push(c), d.push(c), bad, dot)
        } else if c == '.' && !dot {
            (v.push(c), d.push(c), bad, true)
        } else if c == '-' && s.len() == 1 {
            (v.push(c), d.push(c), bad, dot)
        } else if is_separator(c) {
            (v, d.push(c), bad, dot)
        } else {
            (v, d, true, dot)
        }
    }
}

/// Validates float input.
pub struct FloatValidator;

impl FloatValidator {
    /// Keeps digits, the first point and a leading minus sign; spaces, `_`
    /// and `,` are shown but not kept; anything else is dropped and reported.
    pub fn validate(input: &str) -> (r: ValidationResult)
        ensures
            all_space(input@) ==> r.cleaned_input@.len() == 0 && r.display_input@.len() == 0 && !r.has_invalid_chars && r.error.is_none(),
            !all_space(input@) ==> {
                let (v, d, bad, dot) = float_scan(input@);
                &&& r.cleaned_input@ == v
                &&& r.display_input@ == d
                &&& r.has_invalid_chars == bad
                &&& if bad {
                    r.error matches Some(ConversionError::InvalidFormat { expected: e, got: g })
                        && e@ == "浮点数字符(数字,小数点,负号)"@ && g@ == "包含无效字符，已自动删除"@
                } else {
                    r.error.is_none()
                }
            },
    {
        if is_blank(input) {
            return ValidationResult::success(String::new(), String::new());
        }
        let s = chars_of(input);
        let mut valid: Vec<char> = Vec::new();
        let mut display: Vec<char> = Vec::new();
        let mut has_invalid = false;
        let mut has_dot = false;
        let mut k: usize = 0;
        while k < s.len()
            invariant
                k <= s@.len(),
                float_scan(s@.subrange(0, k as int)) == (valid@, display@, has_invalid, has_dot),
            decreases s@.len() - k,
        {
            let ghost next = s@.subrange(0, k + 1);
            assert(next.drop_last() =~= s@.subrange(0, k as int));
            let c = s[k];
            if '0' <= c && c <= '9' {
                valid.push(c);
                display.push(c);
            } else if c == '.' && !has_dot {
                has_dot = true;
                valid.push(c);
                display.push(c);
            } else if c == '-' && k == 0 {
                valid.push(c);
                display.push(c);
            } else if c == ' ' || c == '_' || c == ',' {
                display.push(c);
            } else {
                has_invalid = true;
            }
            k += 1;
        }
        assert(s@.subrange(0, s@.len() as int) =~= s@);
        let cleaned = string_of(&valid);
        let shown = string_of(&display);
        if has_invalid {
            ValidationResult::warning(cleaned, shown, ConversionError::InvalidFormat {
                expected: String::from_str("浮点数字符(数字,小数点,负号)"),
                got: String::from_str("包含无效字符，已自动删除"),
            })
        } else {
            ValidationResult::success(cleaned, shown)
        }
    }
}

/// The hex text validator's kept characters of `s`: hex digits in upper
/// case and spaces; `_` and `,` are dropped silently.
pub open spec fn hex_text_kept(s: Seq<char>) -> Seq<char> {
    upper_seq(select(s, |c: char| is_hex_char(c) || c == ' '))
}

/// `s` split at its spaces into words, joined with single spaces (no
/// leading or trailing space).
pub open spec fn squeezed(s: Seq<char>) -> Seq<char>
    decreases s.len(),
{
    if s.len() == 0 {
        seq![]
    } else if s.last() == ' ' {
        squeezed(s.drop_last())
    } else if squeezed(s.drop_last()).len() > 0 && s.drop_last().last() == ' ' {
        squeezed(s.drop_last()) + seq![' ', s.last()]
    } else {
        squeezed(s.drop_last()).push(s.last())
    }
}

fn squeeze_spaces(s: &Vec<char>) -> (r: Vec<char>)
    ensures
        r@ == squeezed(s@),
{
    let mut out: Vec<char> = Vec::new();
    let mut k: usize = 0;
    while k < s.len()
        invariant
            k <= s@.len(),
            out@ == squeezed(s@.subrange(0, k as int)),
        decreases s@.len() - k,
    {
        let ghost pre = s@.subrange(0, k as int);
        let ghost next = s@.subrange(0, k + 1);
        assert(next.drop_last() =~= pre);
        let c = s[k];
        if c != ' ' {
            if out.len() > 0 && s[k - 1] == ' ' {
                out.push(' ');
            }
            out.push(c);
            assert(out@ =~= squeezed(next));
        }
        k += 1;
    }
    assert(s@.subrange(0, s@.len() as int) =~= s@);
    out
}

/// Validates hex text: pairs of hex digits separated by spaces.
pub struct HexTextValidator;

impl HexTextValidator {
    /// Keeps hex digits in upper case and spaces, drops `_` and `,`
    /// silently and reports anything else; spaces are then squeezed to
    /// single ones between words.
    pub fn validate(input: &str) -> (r: ValidationResult)
        ensures
            all_space(input@) ==> r.cleaned_input@.len() == 0 && r.display_input@.len() == 0 && !r.has_invalid_chars && r.error.is_none(),
            !all_space(input@) ==> {
                &&& r.cleaned_input@ == squeezed(hex_text_kept(input@))
                &&& r.display_input@ == r.cleaned_input@
                &&& r.has_invalid_chars == !all_of(input@, |c: char| is_hex_char(c) || c == ' ' || c == '_' || c == ',')
                &&& if r.has_invalid_chars {
                    r.error matches Some(ConversionError::InvalidFormat { expected: e, got: g })
                        && e@ == "十六进制字符和空格"@ && g@ == "包含无效字符，已自动删除"@
                } else {
                    r.error.is_none()
                }
            },
    {
        if is_blank(input) {
            return ValidationResult::success(String::new(), String::new());
        }
        let ghost keep = |c: char| is_hex_char(c) || c == ' ';
        let ghost allowed = |c: char| is_hex_char(c) || c == ' ' || c == '_' || c == ',';
        let s = chars_of(input);
        let mut valid: Vec<char> = Vec::new();
        let mut has_invalid = false;
        let mut k: usize = 0;
        while k < s.len()
            invariant
                k <= s@.len(),
                keep == (|c: char| is_hex_char(c) || c == ' '),
                allowed == (|c: char| is_hex_char(c) || c == ' ' || c == '_' || c == ','),
                valid@ == upper_seq(select(s@.subrange(0, k as int), keep)),
                has_invalid == !all_of(s@.subrange(0, k as int), allowed),
            decreases s@.len() - k,
        {
            let ghost pre = s@.subrange(0, k as int);
            let ghost next = s@.subrange(0, k + 1);
            assert(next.drop_last() =~= pre);
            let c = s[k];
            if ('0' <= c && c <= '9') || ('A' <= c && c <= 'F') || ('a' <= c && c <= 'f') {
                valid.push(to_upper_char(c));
                assert(valid@ =~= upper_seq(select(next, keep)));
            } else if c == ' ' {
                valid.push(' ');
                assert(valid@ =~= upper_seq(select(next, keep)));
            } else if c == '_' || c == ',' {
            } else {
                has_invalid = true;
            }
            proof {
                if !has_invalid {
                    assert forall|m: int| 0 <= m < next.len() implies allowed(#[trigger] next[m]) by {
                        if m < k {
                            assert(next[m] == pre[m]);
                        }
                    }
                } else if all_of(pre, allowed) {
                    assert(!allowed(next[k as int]));
                } else {
                    let m = choose|m: int| 0 <= m < pre.len() && !allowed(#[trigger] pre[m]);
                    assert(next[m] == pre[m]);
                }
            }
            k += 1;
        }
        assert(s@.subrange(0, s@.len() as int) =~= s@);
        let display = squeeze_spaces(&valid);
        let cleaned = string_of(&display);
        let shown = string_of(&display);
        if has_invalid {
            ValidationResult::warning(cleaned, shown, ConversionError::InvalidFormat {
                expected: String::from_str("十六进制字符和空格"),
                got: String::from_str("包含无效字符，已自动删除"),
            })
        } else {
            ValidationResult::success(cleaned, shown)
        }
    }

    /// The words of `input` (split at spaces) joined with single spaces.
    pub fn normalize_spaces(input: &str) -> (r: String)
        ensures
            r@ == squeezed(input@),
    {
        let s = chars_of(input);
        string_of(&squeeze_spaces(&s))
    }
}

/// Validates ASCII text.
pub struct AsciiValidator;

impl AsciiValidator {
    /// Keeps the ASCII characters; any other is dropped and reported.
    pub fn validate(input: &str) -> (r: ValidationResult)
        ensures
            input@.len() == 0 ==> r.cleaned_input@.len() == 0 && r.display_input@.len() == 0 && !r.has_invalid_chars && r.error.is_none(),
            input@.len() > 0 ==> {
                &&& r.cleaned_input@ == select(input@, |c: char| (c as u32) < 128)
                &&& r.display_input@ == r.cleaned_input@
                &&& r.has_invalid_chars == !all_of(input@, |c: char| (c as u32) < 128)
                &&& if r.has_invalid_chars {
                    r.error matches Some(ConversionError::InvalidFormat { expected: e, got: g })
                        && e@ == "ASCII字符"@ && g@ == "包含非ASCII字符，已自动删除"@
                } else {
                    r.error.is_none()
                }
            },
    {
        let s = chars_of(input);
        if s.len() == 0 {
            return ValidationResult::success(String::new(), String::new());
        }
        let ghost ascii = |c: char| (c as u32) < 128;
        let mut valid: Vec<char> = Vec::new();
        let mut has_invalid = false;
        let mut k: usize = 0;
        while k < s.len()
            invariant
                k <= s@.len(),
                ascii == (|c: char| (c as u32) < 128),
                valid@ == select(s@.subrange(0, k as int), ascii),
                has_invalid == !all_of(s@.subrange(0, k as int), ascii),
            decreases s@.len() - k,
        {
            let ghost pre = s@.subrange(0, k as int);
            let ghost next = s@.subrange(0, k + 1);
            assert(next.drop_last() =~= pre);
            let c = s[k];
            if (c as u32) < 128 {
                valid.push(c);
            } else {
                has_invalid = true;
            }
            proof {
                if !has_invalid {
                    assert forall|m: int| 0 <= m < next.len() implies ascii(#[trigger] next[m]) by {
                        if m < k {
                            assert(next[m] == pre[m]);
                        }
                    }
                } else if all_of(pre, ascii) {
                    assert(!ascii(next[k as int]));
                } else {
                    let m = choose|m: int| 0 <= m < pre.len() && !ascii(#[trigger] pre[m]);
                    assert(next[m] == pre[m]);
                }
            }
            k += 1;
        }
        assert(s@.subrange(0, s@.len() as int) =~= s@);
        let cleaned = string_of(&valid);
        let shown = string_of(&valid);
        if has_invalid {
            ValidationResult::warning(cleaned, shown, ConversionError::InvalidFormat {
                expected: String::from_str("ASCII字符"),
                got: String::from_str("包含非ASCII字符，已自动删除"),
            })
        } else {
            ValidationResult::success(cleaned, shown)
        }
    }
}

} // verus!
