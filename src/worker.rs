//! The compute worker's decisions: what each request turns into, and the
//! conversions that need nothing from outside. Evaluating an expression and
//! decoding floats are done by the caller, which hands the outcome back.

use vstd::prelude::*;
use vstd::utf8::encode_utf8;
use crate::frontend::{bit_window, bits_value, text_or_empty, take_text};
use crate::messages::{
    BackendRequest, BackendResponse, BitViewerOperation, BitViewerRequest, BitViewerResponse,
    CalculatorRequest, CalculatorResponse, FloatConversionRequest, NumberConversionRequest,
    NumberConversionResponse, NumberConversionType, TextConversionRequest, TextConversionResponse,
    TextConversionType,
};
use crate::radix::{digit_of, digit_value, digits_of, format_radix, format_radix_hex, symbol, symbol_of, value_of};
use crate::text::{ascii_upper, chars_of, concat, is_hex_char, remove_chars, remove_chars_of, string_of, to_upper, to_upper_char, upper_of};

verus! {

/// What the caller learnt from the evaluator. `V` is its numeric value.
pub enum EvalOutcome<V> {
    /// A finite value, with its rendering in the request's radix.
    Value { value: V, output: String },
    /// The value was NaN or infinite.
    NonFinite,
    /// The evaluator's own error message.
    Failed(String),
}

/// What the worker does with one request.
pub enum WorkerStep<V> {
    /// Send this response.
    Respond(BackendResponse<V>),
    /// Evaluate the expression and hand the outcome to `handle_calculator`.
    Evaluate(CalculatorRequest),
    /// Convert the float and send the response.
    ConvertFloat(FloatConversionRequest),
    /// Leave the loop.
    Stop,
}

/// Why a digit string did not give an unsigned 64-bit integer.
#[derive(Debug, Clone, Copy, PartialEq, Eq, Structural)]
pub enum IntErrorKind {
    Empty,
    InvalidDigit,
    PosOverflow,
}

/// The largest value of `u64`.
pub open spec fn u64_max() -> int {
    0xffff_ffff_ffff_ffff
}

/// The index of the first character of `s` from `i` on that is no digit of `radix`.
pub open spec fn first_non_digit(s: Seq<char>, radix: u32, i: int) -> int
    decreases s.len() - i,
{
    if 0 <= i < s.len() && 0 <= digit_value(s[i]) < radix {
        first_non_digit(s, radix, i + 1)
    } else {
        i
    }
}

/// An unsigned 64-bit integer read from `s` in `radix`: an optional `+`,
/// then digits. Reading stops at the first error: a value that no longer
/// fits, or a character that is no digit.
pub open spec fn parse_u64_spec(s: Seq<char>, radix: u32) -> Result<u64, IntErrorKind> {
    if s.len() == 0 {
        Err(IntErrorKind::Empty)
    } else {
        let body = if s[0] == '+' { s.drop_first() } else { s };
        let m = first_non_digit(body, radix, 0);
        if body.len() == 0 {
            Err(IntErrorKind::InvalidDigit)
        } else if value_of(body.subrange(0, m), radix as int) > u64_max() {
            Err(IntErrorKind::PosOverflow)
        } else if m < body.len() {
            Err(IntErrorKind::InvalidDigit)
        } else {
            Ok(value_of(body, radix as int) as u64)
        }
    }
}

proof fn lemma_first_non_digit(s: Seq<char>, radix: u32, i: int)
    requires
        0 <= i <= s.len(),
    ensures
        i <= first_non_digit(s, radix, i) <= s.len(),
        forall|k: int| i <= k < first_non_digit(s, radix, i) ==> 0 <= #[trigger] digit_value(s[k]) < radix,
        first_non_digit(s, radix, i) < s.len() ==> !(0 <= digit_value(s[first_non_digit(s, radix, i)]) < radix),
    decreases s.len() - i,
{
    if i < s.len() && 0 <= digit_value(s[i]) < radix {
        lemma_first_non_digit(s, radix, i + 1);
    }
}

proof fn lemma_prefix_value_grows(s: Seq<char>, radix: int, k: int, m: int)
    requires
        2 <= radix,
        0 <= k <= m <= s.len(),
        forall|j: int| 0 <= j < m ==> 0 <= #[trigger] digit_value(s[j]),
    ensures
        value_of(s.subrange(0, k), radix) <= value_of(s.subrange(0, m), radix),
    decreases m - k,
{
    if k < m {
        lemma_prefix_value_grows(s, radix, k + 1, m);
        let t = s.subrange(0, k + 1);
        assert(t.drop_last() =~= s.subrange(0, k));
        lemma_prefix_nonneg(s, radix, k);
        let a = value_of(s.subrange(0, k), radix);
        assert(a <= a * radix) by (nonlinear_arith)
            requires a >= 0, radix >= 2;
    }
}

proof fn lemma_prefix_nonneg(s: Seq<char>, radix: int, k: int)
    requires
        2 <= radix,
        0 <= k <= s.len(),
        forall|j: int| 0 <= j < k ==> 0 <= #[trigger] digit_value(s[j]),
    ensures
        value_of(s.subrange(0, k), radix) >= 0,
    decreases k,
{
    if k > 0 {
        lemma_prefix_nonneg(s, radix, k - 1);
        assert(s.subrange(0, k).drop_last() =~= s.subrange(0, k - 1));
        let a = value_of(s.subrange(0, k - 1), radix);
        assert(a * radix >= 0) by (nonlinear_arith)
            requires a >= 0, radix >= 2;
    }
}

/// Reads an unsigned 64-bit integer from `s` in `radix` (2 to 16).
pub fn parse_u64_radix(s: &Vec<char>, radix: u32) -> (r: Result<u64, IntErrorKind>)
    requires
        2 <= radix <= 16,
    ensures
        r == parse_u64_spec(s@, radix),
{
    if s.len() == 0 {
        return Err(IntErrorKind::Empty);
    }
    let start: usize = if s[0] == '+' { 1 } else { 0 };
    let ghost body = if s@[0] == '+' { s@.drop_first() } else { s@ };
    assert(body =~= s@.subrange(start as int, s@.len() as int));
    if start == s.len() {
        return Err(IntErrorKind::InvalidDigit);
    }
    proof {
        lemma_first_non_digit(body, radix, 0);
    }
    let ghost m = first_non_digit(body, radix, 0);
    let mut acc: u64 = 0;
    let mut k: usize = start;
    while k < s.len()
        invariant
            start <= k <= s@.len(),
            2 <= radix <= 16,
            s@.len() > 0,
            body == (if s@[0] == '+' { s@.drop_first() } else { s@ }),
            start == (if s@[0] == '+' { 1usize } else { 0usize }),
            body == s@.subrange(start as int, s@.len() as int),
            body.len() > 0,
            m == first_non_digit(body, radix, 0),
            0 <= m <= body.len(),
            forall|j: int| 0 <= j < m ==> 0 <= #[trigger] digit_value(body[j]) < radix,
            m < body.len() ==> !(0 <= digit_value(body[m]) < radix),
            k - start <= m,
            acc == value_of(body.subrange(0, k - start), radix as int),
        decreases s@.len() - k,
    {
        let c = s[k];
        assert(body[k - start] == c);
        let ok = if '0' <= c && c <= '9' {
            (c as u32 - '0' as u32) < radix
        } else if 'A' <= c && c <= 'F' {
            (c as u32 - 'A' as u32) + 10 < radix
        } else if 'a' <= c && c <= 'f' {
            (c as u32 - 'a' as u32) + 10 < radix
        } else {
            false
        };
        assert(ok == (0 <= digit_value(c) < radix));
        if !ok {
            assert(k - start == m);
            return Err(IntErrorKind::InvalidDigit);
        }
        assert(k - start < m) by {
            if k - start >= m {
                assert(k - start == m);
            }
        }
        let d = digit_of(c);
        let ghost next = body.subrange(0, k - start + 1);
        assert(next.drop_last() =~= body.subrange(0, k - start));
        let v = match acc.checked_mul(radix as u64) {
            Some(p) => p.checked_add(d as u64),
            None => None,
        };
        match v {
            Some(v) => {
                acc = v;
            },
            None => {
                proof {
                    assert(acc as int * radix >= 0) by (nonlinear_arith)
                        requires acc >= 0, radix >= 2;
                    lemma_prefix_value_grows(body, radix as int, k - start + 1, m);
                }
                return Err(IntErrorKind::PosOverflow);
            },
        }
        k += 1;
    }
    assert(body.subrange(0, body.len() as int) =~= body);
    Ok(acc)
}

/// The message of a parse error, as the standard library words it.
pub fn int_error_text(e: IntErrorKind) -> (r: String)
    ensures
        e == IntErrorKind::Empty ==> r@ == "cannot parse integer from empty string"@,
        e == IntErrorKind::InvalidDigit ==> r@ == "invalid digit found in string"@,
        e == IntErrorKind::PosOverflow ==> r@ == "number too large to fit in target type"@,
{
    match e {
        IntErrorKind::Empty => String::from_str("cannot parse integer from empty string"),
        IntErrorKind::InvalidDigit => String::from_str("invalid digit found in string"),
        IntErrorKind::PosOverflow => String::from_str("number too large to fit in target type"),
    }
}

/// The message of each parse error, as the standard library words it.
pub open spec fn int_error_words(e: IntErrorKind) -> Seq<char> {
    match e {
        IntErrorKind::Empty => "cannot parse integer from empty string"@,
        IntErrorKind::InvalidDigit => "invalid digit found in string"@,
        IntErrorKind::PosOverflow => "number too large to fit in target type"@,
    }
}

/// The radix that a number field is read in.
pub open spec fn radix_of(t: NumberConversionType) -> u32 {
    match t {
        NumberConversionType::Binary => 2,
        NumberConversionType::Decimal => 10,
        NumberConversionType::Hexadecimal => 16,
    }
}

/// What a failed reading of a number field is reported as, before the reason.
pub open spec fn parse_failure_prefix(t: NumberConversionType) -> Seq<char> {
    match t {
        NumberConversionType::Binary => "二进制解析失败: "@,
        NumberConversionType::Decimal => "十进制解析失败: "@,
        NumberConversionType::Hexadecimal => "十六进制解析失败: "@,
    }
}

/// `r` answers the number request `id` of kind `t` whose cleaned, upper-case
/// input is `input`: empty input is an error; otherwise the input is read in
/// the field's radix and shown in radix 2, 10 and 16, or the reading's
/// error is reported.
pub open spec fn number_response_ok(id: u64, t: NumberConversionType, input: Seq<char>, r: NumberConversionResponse) -> bool {
    &&& r.id == id
    &&& if input.len() == 0 {
        &&& r.binary.is_none() && r.decimal.is_none() && r.hexadecimal.is_none()
        &&& r.error matches Some(e) && e@ == "输入为空"@
    } else {
        match parse_u64_spec(input, radix_of(t)) {
            Ok(n) => {
                &&& r.error.is_none()
                &&& r.binary matches Some(b) && b@ == digits_of(n as nat, 2)
                &&& r.decimal matches Some(d) && d@ == digits_of(n as nat, 10)
                &&& r.hexadecimal matches Some(h) && h@ == digits_of(n as nat, 16)
            },
            Err(k) => {
                &&& r.binary.is_none() && r.decimal.is_none() && r.hexadecimal.is_none()
                &&& r.error matches Some(e) && e@ == parse_failure_prefix(t) + int_error_words(k)
            },
        }
    }
}

/// Answers a number request whose input has already been cleaned and put in
/// upper case.
pub fn number_response(id: u64, t: NumberConversionType, input: &str) -> (r: NumberConversionResponse)
    ensures
        number_response_ok(id, t, input@, r),
{
    let chars = chars_of(input);
    if chars.len() == 0 {
        return NumberConversionResponse {
            id,
            binary: None,
            decimal: None,
            hexadecimal: None,
            error: Some(String::from_str("输入为空")),
        };
    }
    let radix: u32 = match t {
        NumberConversionType::Binary => 2,
        NumberConversionType::Decimal => 10,
        NumberConversionType::Hexadecimal => 16,
    };
    match parse_u64_radix(&chars, radix) {
        Ok(n) => NumberConversionResponse {
            id,
            binary: Some(format_radix(n as u128, 2)),
            decimal: Some(format_radix(n as u128, 10)),
            hexadecimal: Some(format_radix_hex(n as u128)),
            error: None,
        },
        Err(k) => {
            let prefix = match t {
                NumberConversionType::Binary => String::from_str("二进制解析失败: "),
                NumberConversionType::Decimal => String::from_str("十进制解析失败: "),
                NumberConversionType::Hexadecimal => String::from_str("十六进制解析失败: "),
            };
            let words = int_error_text(k);
            let msg = concat(prefix.as_str(), words.as_str());
            NumberConversionResponse { id, binary: None, decimal: None, hexadecimal: None, error: Some(msg) }
        },
    }
}


/// The low byte of a character's code, as `char as u8` takes it.
pub open spec fn low_byte(c: char) -> int {
    (c as u32) as int % 256
}

/// Two upper-case hex digits of the byte `b`.
pub open spec fn hex2(b: int) -> Seq<char> {
    seq![symbol(b / 16), symbol(b % 16)]
}

/// Each character's low byte as two hex digits, separated by single spaces.
pub open spec fn ascii_hex_text(s: Seq<char>) -> Seq<char>
    decreases s.len(),
{
    if s.len() == 0 {
        seq![]
    } else if s.len() == 1 {
        hex2(low_byte(s[0]))
    } else {
        ascii_hex_text(s.drop_last()) + seq![' '] + hex2(low_byte(s.last()))
    }
}

fn push_hex2(out: &mut Vec<char>, b: u32)
    requires
        b < 256,
    ensures
        final(out)@ == old(out)@ + hex2(b as int),
{
    out.push(symbol_of(b / 16));
    out.push(symbol_of(b % 16));
    assert(final(out)@ =~= old(out)@ + hex2(b as int));
}

/// Each character of `input`, by the low byte of its code, as two upper-case
/// hex digits; the pairs are separated by single spaces.
pub fn ascii_hex_of(input: &str) -> (r: String)
    ensures
        r@ == ascii_hex_text(input@),
{
    let s = chars_of(input);
    let mut out: Vec<char> = Vec::new();
    let mut k: usize = 0;
    while k < s.len()
        invariant
            k <= s@.len(),
            out@ == ascii_hex_text(s@.subrange(0, k as int)),
        decreases s@.len() - k,
    {
        let ghost prev = s@.subrange(0, k as int);
        let ghost next = s@.subrange(0, k + 1);
        assert(next.drop_last() =~= prev);
        if k > 0 {
            out.push(' ');
        }
        let b = (s[k] as u32) % 256;
        push_hex2(&mut out, b);
        proof {
            if k == 0 {
                assert(out@ =~= ascii_hex_text(next));
            } else {
                assert(out@ =~= ascii_hex_text(next));
            }
        }
        k += 1;
    }
    assert(s@.subrange(0, s@.len() as int) =~= s@);
    string_of(&out)
}

/// The value of an ASCII hex digit byte, or -1.
pub open spec fn hex_byte_value(b: u8) -> int {
    if 48 <= b <= 57 {
        b - 48
    } else if 65 <= b <= 70 {
        b - 55
    } else if 97 <= b <= 102 {
        b - 87
    } else {
        -1
    }
}

/// The byte that two text bytes give when read as a hex number (an
/// optional `+` before a single digit included), or none.
pub open spec fn pair_value(a: u8, b: u8) -> Option<int> {
    if a == 43 && hex_byte_value(b) >= 0 {
        Some(hex_byte_value(b))
    } else if hex_byte_value(a) >= 0 && hex_byte_value(b) >= 0 {
        Some(hex_byte_value(a) * 16 + hex_byte_value(b))
    } else {
        None
    }
}

/// How one decoded byte is shown: printable ASCII as itself, any other as `[0xHH]`.
pub open spec fn shown_byte(v: int) -> Seq<char> {
    if 32 <= v <= 126 {
        seq![v as char]
    } else {
        seq!['[', '0', 'x'] + hex2(v) + seq![']']
    }
}

/// The text that the byte pairs of `b` decode to; pairs that are not a hex
/// number are skipped.
pub open spec fn decoded_pairs(b: Seq<u8>) -> Seq<char>
    decreases b.len(),
{
    if b.len() < 2 {
        seq![]
    } else {
        let rest = decoded_pairs(b.subrange(2, b.len() as int));
        match pair_value(b[0], b[1]) {
            Some(v) => shown_byte(v) + rest,
            None => rest,
        }
    }
}

/// `r` answers the hex-to-text request `id` whose cleaned, upper-case input
/// has the bytes `b`.
pub open spec fn hex_text_response_ok(id: u64, b: Seq<u8>, r: TextConversionResponse) -> bool {
    &&& r.id == id
    &&& if b.len() == 0 {
        r.output@.len() == 0 && (r.error matches Some(e) && e@ == "输入为空"@)
    } else if b.len() % 2 != 0 {
        r.output@.len() == 0 && (r.error matches Some(e) && e@ == "十六进制长度必须为偶数"@)
    } else {
        r.error.is_none() && r.output@ == decoded_pairs(b)
    }
}

fn hex_byte_value_exec(b: u8) -> (r: i32)
    ensures
        r == hex_byte_value(b),
{
    if 48 <= b && b <= 57 {
        (b - 48) as i32
    } else if 65 <= b && b <= 70 {
        (b - 55) as i32
    } else if 97 <= b && b <= 102 {
        (b - 87) as i32
    } else {
        -1
    }
}

/// Decodes byte pairs as hex numbers into text.
pub fn hex_text_response(id: u64, b: &[u8]) -> (r: TextConversionResponse)
    ensures
        hex_text_response_ok(id, b@, r),
{
    if b.len() == 0 {
        return TextConversionResponse { id, output: String::new(), error: Some(String::from_str("输入为空")) };
    }
    if b.len() % 2 != 0 {
        return TextConversionResponse { id, output: String::new(), error: Some(String::from_str("十六进制长度必须为偶数")) };
    }
    let mut out: Vec<char> = Vec::new();
    let mut k: usize = 0;
    assert(b@.subrange(0, b@.len() as int) =~= b@);
    assert(out@ + decoded_pairs(b@) =~= decoded_pairs(b@));
    while k < b.len()
        invariant
            k <= b@.len(),
            k % 2 == 0,
            b@.len() % 2 == 0,
            decoded_pairs(b@) == out@ + decoded_pairs(b@.subrange(k as int, b@.len() as int)),
        decreases b@.len() - k,
    {
        let ghost rest = b@.subrange(k as int, b@.len() as int);
        assert(rest.subrange(2, rest.len() as int) =~= b@.subrange(k + 2, b@.len() as int));
        let x = hex_byte_value_exec(b[k]);
        let y = hex_byte_value_exec(b[k + 1]);
        let ghost before = out@;
        let v: i32 = if b[k] == 43 && y >= 0 {
            y
        } else if x >= 0 && y >= 0 {
            x * 16 + y
        } else {
            -1
        };
        if v >= 0 {
            if 32 <= v && v <= 126 {
                out.push((v as u8) as char);
                assert(out@ =~= before + shown_byte(v as int));
            } else {
                out.push('[');
                out.push('0');
                out.push('x');
                push_hex2(&mut out, v as u32);
                out.push(']');
                assert(out@ =~= before + shown_byte(v as int));
            }
        }
        k += 2;
        assert(before + (shown_byte(v as int) + decoded_pairs(b@.subrange(k as int, b@.len() as int))) =~= (before + shown_byte(v as int)) + decoded_pairs(b@.subrange(k as int, b@.len() as int)));
    }
    assert(out@ + seq![] =~= out@);
    TextConversionResponse { id, output: string_of(&out), error: None }
}


/// The hex text of `bits`: each group of four, most significant first, is
/// one digit; a last group of fewer bits is filled with clear bits on the right.
pub open spec fn bits_hex(bits: Seq<bool>) -> Seq<char> {
    Seq::new(((bits.len() + 3) / 4) as nat, |k: int| symbol(bits_value(bit_window(bits, 4 * k, 4)) as int))
}

proof fn lemma_nibble(bits: Seq<bool>, start: int)
    ensures
        bits_value(bit_window(bits, start, 4)) == (if start < bits.len() && bits[start] { 8int } else { 0 }) + (if start
            + 1 < bits.len() && bits[start + 1] { 4int } else { 0 }) + (if start + 2 < bits.len() && bits[start + 2] {
            2int
        } else {
            0
        }) + (if start + 3 < bits.len() && bits[start + 3] { 1int } else { 0 }),
{
    let w = bit_window(bits, start, 4);
    assert(w.drop_last().drop_last().drop_last().drop_last() =~= Seq::<bool>::empty());
    assert(w.drop_last().drop_last().drop_last() =~= seq![w[0]]);
    assert(w.drop_last().drop_last() =~= seq![w[0], w[1]]);
    assert(w.drop_last() =~= seq![w[0], w[1], w[2]]);
    reveal_with_fuel(bits_value, 5);
}

fn bit_at(bits: &Vec<bool>, k: usize) -> (r: bool)
    ensures
        r == (k < bits@.len() && bits@[k as int]),
{
    k < bits.len() && bits[k]
}


/// The four bits of a hex digit's value, most significant first.
pub open spec fn nibble_bits(d: int) -> Seq<bool> {
    seq![d / 8 % 2 == 1, d / 4 % 2 == 1, d / 2 % 2 == 1, d % 2 == 1]
}

/// The bits of the hex digits `h`, four to a digit, most significant first.
pub open spec fn hex_bits(h: Seq<char>) -> Seq<bool>
    decreases h.len(),
{
    if h.len() == 0 {
        seq![]
    } else {
        hex_bits(h.drop_last()) + nibble_bits(digit_value(h.last()))
    }
}

/// The hex digits of `s`, the others dropped, in upper case.
pub open spec fn hex_digits_upper(s: Seq<char>) -> Seq<char>
    decreases s.len(),
{
    if s.len() == 0 {
        seq![]
    } else if is_hex_char(s.last()) {
        hex_digits_upper(s.drop_last()).push(ascii_upper(s.last()))
    } else {
        hex_digits_upper(s.drop_last())
    }
}

/// The bits with bit `index` flipped, if there is one.
pub open spec fn toggled(bits: Seq<bool>, index: int) -> Seq<bool> {
    if 0 <= index < bits.len() { bits.update(index, !bits[index]) } else { bits }
}

/// Every bit flipped.
pub open spec fn inverted(bits: Seq<bool>) -> Seq<bool> {
    Seq::new(bits.len(), |k: int| !bits[k])
}

/// `r` answers the bit viewer request `req`.
pub open spec fn bit_viewer_response_ok(req: BitViewerRequest, r: BitViewerResponse) -> bool {
    let current = match req.current_bits {
        Some(b) => b@,
        None => Seq::<bool>::empty(),
    };
    &&& r.id == req.id
    &&& match req.operation {
        BitViewerOperation::ParseHex => {
            let h = hex_digits_upper(text_or_empty(req.hex_input));
            if h.len() == 0 {
                r.hex_input@.len() == 0 && r.binary_bits@.len() == 0 && (r.error matches Some(e) && e@ == "输入为空"@)
            } else {
                r.hex_input@ == h && r.binary_bits@ == hex_bits(h) && r.error.is_none()
            }
        },
        BitViewerOperation::ToggleBit(index) => {
            &&& r.binary_bits@ == toggled(current, index as int)
            &&& r.hex_input@ == bits_hex(r.binary_bits@)
            &&& r.error.is_none()
        },
        BitViewerOperation::InvertAll => {
            &&& r.binary_bits@ == inverted(current)
            &&& r.hex_input@ == bits_hex(r.binary_bits@)
            &&& r.error.is_none()
        },
    }
}

fn parse_hex_bits(input: &str) -> (r: (Vec<char>, Vec<bool>))
    ensures
        r.0@ == hex_digits_upper(input@),
        r.1@ == hex_bits(hex_digits_upper(input@)),
{
    let s = chars_of(input);
    let mut digits: Vec<char> = Vec::new();
    let mut bits: Vec<bool> = Vec::new();
    let mut k: usize = 0;
    while k < s.len()
        invariant
            k <= s@.len(),
            digits@ == hex_digits_upper(s@.subrange(0, k as int)),
            bits@ == hex_bits(digits@),
        decreases s@.len() - k,
    {
        proof {
            assert(s@.subrange(0, k + 1).drop_last() =~= s@.subrange(0, k as int));
        }
        let c = s[k];
        if ('0' <= c && c <= '9') || ('A' <= c && c <= 'F') || ('a' <= c && c <= 'f') {
            let u = to_upper_char(c);
            let ghost before = digits@;
            digits.push(u);
            let d = digit_of(u);
            bits.push(d / 8 % 2 == 1);
            bits.push(d / 4 % 2 == 1);
            bits.push(d / 2 % 2 == 1);
            bits.push(d % 2 == 1);
            assert(digits@.drop_last() =~= before);
            assert(bits@ =~= hex_bits(before) + nibble_bits(digit_value(u)));
        }
        k += 1;
    }
    assert(s@.subrange(0, s@.len() as int) =~= s@);
    (digits, bits)
}




/// `r` answers the text request `req`: text becomes the hex of its
/// characters' low bytes; hex text loses its spaces and underscores, is put
/// in upper case, and its UTF-8 bytes are decoded in pairs.
pub open spec fn text_response_ok(req: TextConversionRequest, r: TextConversionResponse) -> bool {
    match req.conversion_type {
        TextConversionType::AsciiToHex => r.id == req.id && r.error.is_none() && r.output@ == ascii_hex_text(req.input@),
        TextConversionType::HexToAscii => hex_text_response_ok(
            req.id,
            encode_utf8(upper_of(remove_chars(req.input@, seq![' ', '_']))),
            r,
        ),
    }
}

/// The compute worker's handlers.
pub struct BackendWorker;

impl BackendWorker {
    /// Converts a number field: spaces and underscores are dropped, the rest is
    /// put in upper case and read in the field's radix.
    pub fn handle_number_conversion(req: NumberConversionRequest) -> (r: NumberConversionResponse)
        ensures
            number_response_ok(req.id, req.conversion_type, upper_of(remove_chars(req.input@, seq!['_', ' '])), r),
    {
        let chars = chars_of(req.input.as_str());
        let seps: [char; 2] = ['_', ' '];
        assert(seps@ =~= seq!['_', ' ']);
        let cleaned = remove_chars_of(&chars, &seps);
        let text = string_of(&cleaned);
        let upper = to_upper(text.as_str());
        number_response(req.id, req.conversion_type, upper.as_str())
    }

    /// Converts text to hex, or hex back to text. Hex input loses its spaces and
    /// underscores and is put in upper case before its byte pairs are decoded.
    pub fn handle_text_conversion(req: TextConversionRequest) -> (r: TextConversionResponse)
        ensures
            text_response_ok(req, r),
    {
        match req.conversion_type {
            TextConversionType::AsciiToHex => {
                TextConversionResponse { id: req.id, output: ascii_hex_of(req.input.as_str()), error: None }
            },
            TextConversionType::HexToAscii => {
                let chars = chars_of(req.input.as_str());
                let seps: [char; 2] = [' ', '_'];
                assert(seps@ =~= seq![' ', '_']);
                let cleaned = remove_chars_of(&chars, &seps);
                let text = string_of(&cleaned);
                let upper = to_upper(text.as_str());
                let bytes = upper.as_str().as_bytes();
                hex_text_response(req.id, bytes)
            },
        }
    }

    /// The hex text of the bits: four bits to a digit, most significant first;
    /// a last group of fewer bits is filled with clear bits on the right.
    pub fn bits_to_hex(bits: &Vec<bool>) -> (r: String)
        requires
            bits@.len() + 3 <= usize::MAX,
        ensures
            r@ == bits_hex(bits@),
    {
        let n = (bits.len() + 3) / 4;
        let mut out: Vec<char> = Vec::new();
        let mut k: usize = 0;
        while k < n
            invariant
                n == (bits@.len() + 3) / 4,
                k <= n,
                4 * n <= bits@.len() + 3,
                bits@.len() + 3 <= usize::MAX,
                out@ == bits_hex(bits@).subrange(0, k as int),
            decreases n - k,
        {
            assert(4 * k + 4 <= 4 * n) by (nonlinear_arith)
                requires k < n;
            let s = 4 * k;
            let v: u32 = (if bit_at(bits, s) { 8u32 } else { 0 }) + (if bit_at(bits, s + 1) { 4u32 } else { 0 })
                + (if bit_at(bits, s + 2) { 2u32 } else { 0 }) + (if bit_at(bits, s + 3) { 1u32 } else { 0 });
            proof {
                lemma_nibble(bits@, s as int);
            }
            out.push(symbol_of(v));
            k += 1;
            assert(out@ =~= bits_hex(bits@).subrange(0, k as int));
        }
        assert(bits_hex(bits@).subrange(0, n as int) =~= bits_hex(bits@));
        string_of(&out)
    }

    /// Carries out a bit viewer operation.
    pub fn handle_bit_viewer(req: BitViewerRequest) -> (r: BitViewerResponse)
        requires
            match req.current_bits {
                Some(b) => b@.len() + 3 <= usize::MAX,
                None => true,
            },
        ensures
            bit_viewer_response_ok(req, r),
    {
        let ghost req0 = req;
        let id = req.id;
        match req.operation {
            BitViewerOperation::ParseHex => {
                let text = take_text(req.hex_input);
                let (digits, bits) = parse_hex_bits(text.as_str());
                if digits.len() == 0 {
                    return BitViewerResponse { id, hex_input: String::new(), binary_bits: Vec::new(), error: Some(String::from_str("输入为空")) };
                }
                BitViewerResponse { id, hex_input: string_of(&digits), binary_bits: bits, error: None }
            },
            BitViewerOperation::ToggleBit(index) => {
                let mut bits = match req.current_bits {
                    Some(b) => b,
                    None => Vec::new(),
                };
                if index < bits.len() {
                    let flipped = !bits[index];
                    bits.set(index, flipped);
                }
                let hex_input = Self::bits_to_hex(&bits);
                BitViewerResponse { id, hex_input, binary_bits: bits, error: None }
            },
            BitViewerOperation::InvertAll => {
                let mut bits = match req.current_bits {
                    Some(b) => b,
                    None => Vec::new(),
                };
                let ghost orig = bits@;
                let mut k: usize = 0;
                while k < bits.len()
                    invariant
                        k <= bits@.len(),
                        bits@.len() == orig.len(),
                        orig.len() + 3 <= usize::MAX,
                        forall|m: int| 0 <= m < k ==> bits@[m] == !orig[m],
                        forall|m: int| k <= m < bits@.len() ==> bits@[m] == orig[m],
                    decreases bits@.len() - k,
                {
                    let flipped = !bits[k];
                    bits.set(k, flipped);
                    k += 1;
                }
                assert(bits@ =~= inverted(orig));
                let hex_input = Self::bits_to_hex(&bits);
                BitViewerResponse { id, hex_input, binary_bits: bits, error: None }
            },
        }
    }

    /// The response to an evaluation: a finite value is passed on with its
    /// rendering; a value that is not finite, or an evaluator error, becomes
    /// the response's error. The request's fields are carried over.
    pub fn handle_calculator<V>(req: CalculatorRequest, outcome: EvalOutcome<V>) -> (r: CalculatorResponse<V>)
        ensures
            r.id == req.id,
            r.radix == req.radix,
            r.original_input == req.original_input,
            r.decimal_expr == req.decimal_expr,
            match outcome {
                EvalOutcome::Value { value, output } => r.value == Some(value) && r.output == output && r.error.is_none(),
                EvalOutcome::NonFinite => r.value.is_none() && r.output@.len() == 0
                    && (r.error matches Some(e) && e@ == "计算结果非有限数"@),
                EvalOutcome::Failed(msg) => r.value.is_none() && r.output@.len() == 0 && r.error == Some(msg),
            },
    {
        let (value, output, error) = match outcome {
            EvalOutcome::Value { value, output } => (Some(value), output, None),
            EvalOutcome::NonFinite => (None, String::new(), Some(String::from_str("计算结果非有限数"))),
            EvalOutcome::Failed(msg) => (None, String::new(), Some(msg)),
        };
        CalculatorResponse {
            id: req.id,
            value,
            output,
            error,
            radix: req.radix,
            original_input: req.original_input,
            decimal_expr: req.decimal_expr,
        }
    }

    /// What the worker does with `request`: conversions it can answer are
    /// answered; an evaluation or a float conversion is handed to the caller;
    /// the shutdown message ends the loop.
    pub fn process_request<V>(request: BackendRequest) -> (r: WorkerStep<V>)
        requires
            request matches BackendRequest::BitViewer(q) ==> match q.current_bits {
                Some(b) => b@.len() + 3 <= usize::MAX,
                None => true,
            },
        ensures
            match request {
                BackendRequest::NumberConversion(q) => r matches WorkerStep::Respond(BackendResponse::NumberConversion(p))
                    && number_response_ok(q.id, q.conversion_type, upper_of(remove_chars(q.input@, seq!['_', ' '])), p),
                BackendRequest::TextConversion(q) => r matches WorkerStep::Respond(BackendResponse::TextConversion(p))
                && text_response_ok(q, p),
                BackendRequest::FloatConversion(q) => r == WorkerStep::<V>::ConvertFloat(q),
                BackendRequest::BitViewer(q) => r matches WorkerStep::Respond(BackendResponse::BitViewer(p))
                    && bit_viewer_response_ok(q, p),
                BackendRequest::Calculator(q) => r == WorkerStep::<V>::Evaluate(q),
                BackendRequest::Shutdown => r == WorkerStep::<V>::Stop,
            },
    {
        match request {
            BackendRequest::NumberConversion(q) => WorkerStep::Respond(BackendResponse::NumberConversion(Self::handle_number_conversion(q))),
            BackendRequest::TextConversion(q) => WorkerStep::Respond(BackendResponse::TextConversion(Self::handle_text_conversion(q))),
            BackendRequest::FloatConversion(q) => WorkerStep::ConvertFloat(q),
            BackendRequest::BitViewer(q) => WorkerStep::Respond(BackendResponse::BitViewer(Self::handle_bit_viewer(q))),
            BackendRequest::Calculator(q) => WorkerStep::Evaluate(q),
            BackendRequest::Shutdown => WorkerStep::Stop,
        }
    }
}

} // verus!
