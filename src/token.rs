//! Numeric literals of an expression: a run of radix digits, underscores, a
//! leading minus sign and, in radix 10, a decimal point, rewritten as a
//! decimal numeral.

use vstd::prelude::*;
use crate::radix::{digit_of, digit_value, format_value_in_radix, is_digit_in_radix, is_radix_char, signed_digits, value_of};
use crate::text::{chars_of, is_dec_digit, string_of};

verus! {

/// Why an expression could not be rewritten in decimal notation.
#[derive(Debug, Clone, Copy, PartialEq, Eq, Structural)]
pub enum NormalizeError {
    /// A character that no token may start with.
    UnsupportedCharacter { c: char },
    /// A literal holds a digit that its radix does not have.
    DigitOutOfRadix { radix: u32 },
    /// A decimal literal with more than one point.
    MultipleDecimalPoints,
    /// A decimal literal that starts or ends with its point.
    MalformedDecimal,
    /// A unary minus that no digit follows.
    UnaryMinusMissingDigits,
    /// A literal without digits, or with a character that is no digit.
    InvalidNumber,
    /// An integer literal too large for a signed 128-bit value.
    ParseFailed,
}

impl NormalizeError {
    /// The message shown for this error.
    pub fn message(&self) -> (r: String)
        ensures
            *self == NormalizeError::MultipleDecimalPoints ==> r@ == "无效数字：多个小数点"@,
            *self == NormalizeError::MalformedDecimal ==> r@ == "无效数字：小数点位置错误"@,
            *self == NormalizeError::UnaryMinusMissingDigits ==> r@ == "一元负号后缺少数字"@,
            *self == NormalizeError::InvalidNumber ==> r@ == "无效数字"@,
            *self == NormalizeError::ParseFailed ==> r@ == "数字解析失败"@,
            *self matches NormalizeError::UnsupportedCharacter { c } ==> r@ == "不支持的字符: "@ + seq![c],
            *self matches NormalizeError::DigitOutOfRadix { radix } ==> r@ == "包含超出基数 "@ + crate::radix::digits_of(radix as nat, 10) + " 的数字"@,
    {
        match self {
            NormalizeError::UnsupportedCharacter { c } => {
                let mut one: Vec<char> = Vec::new();
                one.push(*c);
                crate::text::concat("不支持的字符: ", string_of(&one).as_str())
            },
            NormalizeError::DigitOutOfRadix { radix } => {
                let n = format_value_in_radix(*radix as i128, 10);
                let a = crate::text::concat("包含超出基数 ", n.as_str());
                crate::text::concat(a.as_str(), " 的数字")
            },
            NormalizeError::MultipleDecimalPoints => String::from_str("无效数字：多个小数点"),
            NormalizeError::MalformedDecimal => String::from_str("无效数字：小数点位置错误"),
            NormalizeError::UnaryMinusMissingDigits => String::from_str("一元负号后缺少数字"),
            NormalizeError::InvalidNumber => String::from_str("无效数字"),
            NormalizeError::ParseFailed => String::from_str("数字解析失败"),
        }
    }
}

/// How many times `c` occurs in `s`.
pub open spec fn count_of(s: Seq<char>, c: char) -> nat
    decreases s.len(),
{
    if s.len() == 0 {
        0
    } else {
        count_of(s.drop_last(), c) + if s.last() == c { 1nat } else { 0nat }
    }
}

/// `s` without its underscores.
pub open spec fn strip_underscores(s: Seq<char>) -> Seq<char>
    decreases s.len(),
{
    if s.len() == 0 {
        s
    } else if s.last() == '_' {
        strip_underscores(s.drop_last())
    } else {
        strip_underscores(s.drop_last()).push(s.last())
    }
}

/// The largest value of `i128`.
pub open spec fn i128_max() -> int {
    0x7fff_ffff_ffff_ffff_ffff_ffff_ffff_ffff
}

/// The decimal form of a literal in radix 10 that holds a point.
pub open spec fn decimal_literal(tok: Seq<char>) -> Result<Seq<char>, NormalizeError> {
    let s = strip_underscores(tok);
    if count_of(tok, '.') > 1 {
        Err(NormalizeError::MultipleDecimalPoints)
    } else if s.len() == 0 || s[0] == '.' || s.last() == '.' {
        Err(NormalizeError::MalformedDecimal)
    } else if !(forall|k: int| 0 <= k < s.len() ==> is_dec_digit(#[trigger] s[k]) || s[k] == '.') {
        Err(NormalizeError::InvalidNumber)
    } else {
        Ok(s)
    }
}

/// Every character of `s` may stand in a numeral of `radix`.
pub open spec fn all_radix_chars(s: Seq<char>, radix: u32) -> bool {
    forall|k: int| 0 <= k < s.len() ==> is_radix_char(#[trigger] s[k], radix)
}

/// The literal without underscores starts with a minus sign.
pub open spec fn literal_negative(tok: Seq<char>) -> bool {
    strip_underscores(tok).len() > 0 && strip_underscores(tok)[0] == '-'
}

/// The digits of the literal: without underscores and without its sign.
pub open spec fn literal_body(tok: Seq<char>) -> Seq<char> {
    if literal_negative(tok) {
        strip_underscores(tok).drop_first()
    } else {
        strip_underscores(tok)
    }
}

/// The decimal form of an integer literal in `radix`, with an optional leading `-`.
pub open spec fn integer_literal(tok: Seq<char>, radix: u32) -> Result<Seq<char>, NormalizeError> {
    let body = literal_body(tok);
    if body.len() == 0 {
        Err(NormalizeError::InvalidNumber)
    } else if !all_radix_chars(body, radix) {
        Err(NormalizeError::DigitOutOfRadix { radix })
    } else if value_of(body, radix as int) > i128_max() {
        Err(NormalizeError::ParseFailed)
    } else if literal_negative(tok) {
        Ok(signed_digits(-value_of(body, radix as int), 10))
    } else {
        Ok(signed_digits(value_of(body, radix as int), 10))
    }
}

/// The decimal form of the literal `tok` read in `radix`.
pub open spec fn literal_spec(tok: Seq<char>, radix: u32) -> Result<Seq<char>, NormalizeError> {
    if radix == 10 && tok.contains('.') {
        decimal_literal(tok)
    } else {
        integer_literal(tok, radix)
    }
}

proof fn lemma_strip_no_underscore(s: Seq<char>)
    ensures
        forall|k: int| 0 <= k < strip_underscores(s).len() ==> #[trigger] strip_underscores(s)[k] != '_',
    decreases s.len(),
{
    if s.len() > 0 {
        lemma_strip_no_underscore(s.drop_last());
        let t = strip_underscores(s.drop_last());
        if s.last() != '_' {
            assert forall|k: int| 0 <= k < t.push(s.last()).len() implies #[trigger] t.push(s.last())[k] != '_' by {
                if k < t.len() {
                    assert(t.push(s.last())[k] == t[k]);
                }
            }
        }
    }
}

proof fn lemma_value_grows(s: Seq<char>, radix: int, k: int)
    requires
        2 <= radix,
        0 <= k <= s.len(),
        forall|m: int| 0 <= m < s.len() ==> 0 <= #[trigger] digit_value(s[m]),
    ensures
        0 <= value_of(s.subrange(0, k), radix) <= value_of(s, radix),
    decreases s.len() - k,
{
    if k < s.len() {
        lemma_value_grows(s, radix, k + 1);
        let t = s.subrange(0, k + 1);
        assert(t.drop_last() =~= s.subrange(0, k));
        lemma_value_nonneg(s.subrange(0, k), radix);
        let a = value_of(s.subrange(0, k), radix);
        assert(a <= a * radix) by (nonlinear_arith)
            requires a >= 0, radix >= 2;
    } else {
        assert(s.subrange(0, k) =~= s);
        lemma_value_nonneg(s, radix);
    }
}

proof fn lemma_value_nonneg(s: Seq<char>, radix: int)
    requires
        2 <= radix,
        forall|m: int| 0 <= m < s.len() ==> 0 <= #[trigger] digit_value(s[m]),
    ensures
        0 <= value_of(s, radix),
    decreases s.len(),
{
    if s.len() > 0 {
        let t = s.drop_last();
        assert forall|m: int| 0 <= m < t.len() implies 0 <= #[trigger] digit_value(t[m]) by {
            assert(t[m] == s[m]);
        }
        lemma_value_nonneg(t, radix);
        let a = value_of(t, radix);
        assert(a * radix >= 0) by (nonlinear_arith)
            requires a >= 0, radix >= 2;
    }
}

fn strip_underscores_exec(tok: &Vec<char>) -> (r: Vec<char>)
    ensures
        r@ == strip_underscores(tok@),
{
    let mut out: Vec<char> = Vec::new();
    let mut k: usize = 0;
    while k < tok.len()
        invariant
            k <= tok@.len(),
            out@ == strip_underscores(tok@.subrange(0, k as int)),
        decreases tok@.len() - k,
    {
        proof {
            assert(tok@.subrange(0, k + 1).drop_last() =~= tok@.subrange(0, k as int));
        }
        if tok[k] != '_' {
            out.push(tok[k]);
        }
        k += 1;
    }
    assert(tok@.subrange(0, tok@.len() as int) =~= tok@);
    out
}

fn count_char(s: &Vec<char>, c: char) -> (r: usize)
    ensures
        r == count_of(s@, c),
{
    let mut n: usize = 0;
    let mut k: usize = 0;
    while k < s.len()
        invariant
            k <= s@.len(),
            n == count_of(s@.subrange(0, k as int), c),
            n <= k,
        decreases s@.len() - k,
    {
        proof {
            assert(s@.subrange(0, k + 1).drop_last() =~= s@.subrange(0, k as int));
        }
        if s[k] == c {
            n += 1;
        }
        k += 1;
    }
    assert(s@.subrange(0, s@.len() as int) =~= s@);
    n
}

fn decimal_literal_exec(tok: &Vec<char>) -> (r: Result<Vec<char>, NormalizeError>)
    ensures
        match r {
            Ok(v) => decimal_literal(tok@) == Ok::<Seq<char>, NormalizeError>(v@),
            Err(e) => decimal_literal(tok@) == Err::<Seq<char>, NormalizeError>(e),
        },
{
    if count_char(tok, '.') > 1 {
        return Err(NormalizeError::MultipleDecimalPoints);
    }
    let s = strip_underscores_exec(tok);
    if s.len() == 0 || s[0] == '.' || s[s.len() - 1] == '.' {
        return Err(NormalizeError::MalformedDecimal);
    }
    let mut k: usize = 0;
    while k < s.len()
        invariant
            k <= s@.len(),
            s@ == strip_underscores(tok@),
            count_of(tok@, '.') <= 1,
            !(s@.len() == 0 || s@[0] == '.' || s@.last() == '.'),
            forall|m: int| 0 <= m < k ==> is_dec_digit(#[trigger] s@[m]) || s@[m] == '.',
        decreases s@.len() - k,
    {
        if !(('0' <= s[k] && s[k] <= '9') || s[k] == '.') {
            assert(!(is_dec_digit(s@[k as int]) || s@[k as int] == '.'));
            return Err(NormalizeError::InvalidNumber);
        }
        k += 1;
    }
    Ok(s)
}

fn integer_literal_exec(tok: &Vec<char>, radix: u32) -> (r: Result<Vec<char>, NormalizeError>)
    requires
        2 <= radix <= 36,
    ensures
        match r {
            Ok(v) => integer_literal(tok@, radix) == Ok::<Seq<char>, NormalizeError>(v@),
            Err(e) => integer_literal(tok@, radix) == Err::<Seq<char>, NormalizeError>(e),
        },
{
    let s = strip_underscores_exec(tok);
    proof {
        lemma_strip_no_underscore(tok@);
    }
    let neg = s.len() > 0 && s[0] == '-';
    let start: usize = if neg { 1 } else { 0 };
    let ghost body = literal_body(tok@);
    assert(body =~= s@.subrange(start as int, s@.len() as int));
    if s.len() == start {
        return Err(NormalizeError::InvalidNumber);
    }
    let mut k: usize = start;
    while k < s.len()
        invariant
            start <= k <= s@.len(),
            s@ == strip_underscores(tok@),
            neg == (s@.len() > 0 && s@[0] == '-'),
            start == (if neg { 1usize } else { 0usize }),
            body == literal_body(tok@),
            body.len() > 0,
            body == s@.subrange(start as int, s@.len() as int),
            forall|m: int| start <= m < k ==> is_radix_char(#[trigger] s@[m], radix),
        decreases s@.len() - k,
    {
        if !is_digit_in_radix(s[k], radix) {
            assert(body[k - start] == s@[k as int]);
            assert(!is_radix_char(body[k - start], radix));
            assert(!all_radix_chars(body, radix));
            return Err(NormalizeError::DigitOutOfRadix { radix });
        }
        k += 1;
    }
    assert forall|m: int| 0 <= m < body.len() implies is_radix_char(#[trigger] body[m], radix) by {
        assert(body[m] == s@[m + start]);
    }
    assert forall|m: int| 0 <= m < body.len() implies 0 <= #[trigger] digit_value(body[m]) by {
        assert(body[m] == s@[m + start]);
        assert(s@[m + start] != '_');
    }
    let mut acc: i128 = 0;
    let mut k: usize = start;
    let r128 = radix as i128;
    while k < s.len()
        invariant
            start <= k <= s@.len(),
            s@ == strip_underscores(tok@),
            neg == (s@.len() > 0 && s@[0] == '-'),
            start == (if neg { 1usize } else { 0usize }),
            body == literal_body(tok@),
            body.len() > 0,
            forall|m: int| 0 <= m < body.len() ==> is_radix_char(#[trigger] body[m], radix),
            body == s@.subrange(start as int, s@.len() as int),
            2 <= r128 <= 36,
            r128 == radix,
            forall|m: int| 0 <= m < body.len() ==> 0 <= #[trigger] digit_value(body[m]) < radix,
            acc == value_of(body.subrange(0, k - start), radix as int),
            0 <= acc <= i128_max(),
        decreases s@.len() - k,
    {
        let ghost pre = body.subrange(0, k - start);
        let ghost next = body.subrange(0, k - start + 1);
        assert(next.drop_last() =~= pre);
        assert(next.last() == s@[k as int]);
        let d = digit_of(s[k]);
        assert(value_of(next, radix as int) == acc * radix + d);
        let v = match acc.checked_mul(r128) {
            Some(m) => match m.checked_add(d as i128) {
                Some(v) => v,
                None => {
                    proof {
                        lemma_value_grows(body, radix as int, k - start + 1);
                    }
                    return Err(NormalizeError::ParseFailed);
                },
            },
            None => {
                proof {
                    assert(acc * r128 >= 0) by (nonlinear_arith)
                        requires acc >= 0, r128 >= 2;
                    lemma_value_grows(body, radix as int, k - start + 1);
                }
                return Err(NormalizeError::ParseFailed);
            },
        };
        acc = v;
        k += 1;
    }
    assert(body.subrange(0, body.len() as int) =~= body);
    let val = acc as i128;
    let signed: i128 = if neg { -val } else { val };
    let text = format_value_in_radix(signed, 10);
    Ok(chars_of(text.as_str()))
}

/// The decimal form of the literal `tok` read in `radix` (2 to 36): a decimal
/// literal with a point keeps its digits; an integer is parsed and written in
/// decimal, its sign kept. Underscores are dropped.
pub fn literal_chars(tok: &Vec<char>, radix: u32) -> (r: Result<Vec<char>, NormalizeError>)
    requires
        2 <= radix <= 36,
    ensures
        match r {
            Ok(v) => literal_spec(tok@, radix) == Ok::<Seq<char>, NormalizeError>(v@),
            Err(e) => literal_spec(tok@, radix) == Err::<Seq<char>, NormalizeError>(e),
        },
{
    let mut has_dot = false;
    let mut k: usize = 0;
    while k < tok.len()
        invariant
            k <= tok@.len(),
            has_dot == (exists|m: int| 0 <= m < k && tok@[m] == '.'),
        decreases tok@.len() - k,
    {
        if tok[k] == '.' {
            has_dot = true;
        }
        k += 1;
    }
    assert(has_dot == tok@.contains('.'));
    if radix == 10 && has_dot {
        decimal_literal_exec(tok)
    } else {
        integer_literal_exec(tok, radix)
    }
}

/// The decimal form of the numeric literal `tok` read in `radix` (2 to 36).
pub fn convert_number_token(tok: &str, radix: u32) -> (r: Result<String, NormalizeError>)
    requires
        2 <= radix <= 36,
    ensures
        match r {
            Ok(v) => literal_spec(tok@, radix) == Ok::<Seq<char>, NormalizeError>(v@),
            Err(e) => literal_spec(tok@, radix) == Err::<Seq<char>, NormalizeError>(e),
        },
{
    let chars = chars_of(tok);
    match literal_chars(&chars, radix) {
        Ok(v) => Ok(string_of(&v)),
        Err(e) => Err(e),
    }
}

} // verus!
