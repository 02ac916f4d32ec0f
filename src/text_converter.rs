//! Text to hex bytes and back, on a conversion field.

use vstd::prelude::*;
use crate::conversion_data::{ConversionData, ConversionDataView};
use crate::errors::{all_space, bad_digit_error, decimal_text, first_bad_digit, is_blank, validate_radix_chars, ConversionError, ConversionResult};
use crate::radix::{digit_of, digit_value, digits_of};
use crate::text::{chars_of, concat, is_space, is_space_char, remove_chars, remove_chars_of, string_of, to_upper, upper_of};
use crate::worker::{ascii_hex_of, ascii_hex_text, shown_byte};

verus! {

/// `s` without leading and trailing whitespace.
pub open spec fn trimmed_ws(s: Seq<char>) -> Seq<char>
    decreases s.len(),
{
    if s.len() > 0 && is_space(s[0]) {
        trimmed_ws(s.drop_first())
    } else if s.len() > 0 && is_space(s.last()) {
        trimmed_ws(s.drop_last())
    } else {
        s
    }
}

/// The text that the hex digit pairs of `h` decode to.
pub open spec fn hex_pairs_text(h: Seq<char>) -> Seq<char>
    decreases h.len(),
{
    if h.len() < 2 {
        seq![]
    } else {
        shown_byte(digit_value(h[0]) * 16 + digit_value(h[1])) + hex_pairs_text(h.subrange(2, h.len() as int))
    }
}

/// The hex digits that `hex_to_ascii` decodes from typed text.
pub open spec fn hex_source(raw: Seq<char>) -> Seq<char> {
    upper_of(remove_chars(trimmed_ws(raw), seq![' ', '_']))
}

fn trim_ws(s: &Vec<char>) -> (r: Vec<char>)
    ensures
        r@ == trimmed_ws(s@),
{
    let mut a: usize = 0;
    let mut b: usize = s.len();
    assert(s@.subrange(0, s@.len() as int) =~= s@);
    while a < b && is_space_char(s[a])
        invariant
            a <= b <= s@.len(),
            b == s@.len(),
            trimmed_ws(s@) == trimmed_ws(s@.subrange(a as int, b as int)),
        decreases b - a,
    {
        assert(s@.subrange(a as int, b as int).drop_first() =~= s@.subrange(a + 1, b as int));
        a += 1;
    }
    while a < b && is_space_char(s[b - 1])
        invariant
            a <= b <= s@.len(),
            a == b || !is_space(s@[a as int]),
            trimmed_ws(s@) == trimmed_ws(s@.subrange(a as int, b as int)),
        decreases b - a,
    {
        let ghost t = s@.subrange(a as int, b as int);
        assert(t.drop_last() =~= s@.subrange(a as int, b - 1));
        assert(t[0] == s@[a as int]);
        b -= 1;
    }
    let mut out: Vec<char> = Vec::new();
    let mut k: usize = a;
    while k < b
        invariant
            a <= k <= b <= s@.len(),
            out@ == s@.subrange(a as int, k as int),
        decreases b - k,
    {
        out.push(s[k]);
        k += 1;
        assert(out@ =~= s@.subrange(a as int, k as int));
    }
    proof {
        let t = s@.subrange(a as int, b as int);
        if t.len() > 0 {
            assert(t[0] == s@[a as int]);
            assert(t.last() == s@[b - 1]);
        }
    }
    out
}

/// Conversions between text and hex bytes.
pub struct TextConverter;

impl TextConverter {
    /// Writes each character of the typed input, by the low byte of its
    /// code, as two hex digits separated by spaces; blank input is an error.
    pub fn ascii_to_hex(data: &mut ConversionData) -> (r: ConversionResult<()>)
        ensures
            all_space(old(data)@.raw) ==> r == Err::<(), ConversionError>(ConversionError::EmptyInput) && final(data)@ == old(data)@,
            !all_space(old(data)@.raw) ==> r is Ok && final(data)@ == (ConversionDataView { output: ascii_hex_text(old(data)@.raw), ..old(data)@ }),
    {
        if is_blank(data.raw_input()) {
            return Err(ConversionError::EmptyInput);
        }
        let out = ascii_hex_of(data.raw_input());
        data.set_output(out);
        Ok(())
    }

    /// Decodes the typed hex digits (spaces and `_` ignored, letters in
    /// either case) two at a time: printable ASCII bytes as themselves, the
    /// others as `[0xHH]`. Blank input, a character that is no hex digit, or
    /// an odd number of digits is an error.
    pub fn hex_to_ascii(data: &mut ConversionData) -> (r: ConversionResult<()>)
        ensures
            final(data)@ == (ConversionDataView { output: final(data)@.output, ..old(data)@ }),
            all_space(old(data)@.raw) ==> r == Err::<(), ConversionError>(ConversionError::EmptyInput) && final(data)@ == old(data)@,
            !all_space(old(data)@.raw) && first_bad_digit(hex_source(old(data)@.raw), 16) < hex_source(old(data)@.raw).len()
                ==> (r matches Err(e) && bad_digit_error(hex_source(old(data)@.raw)[first_bad_digit(hex_source(old(data)@.raw), 16)], 16, e))
                && final(data)@ == old(data)@,
            !all_space(old(data)@.raw) && first_bad_digit(hex_source(old(data)@.raw), 16) == hex_source(old(data)@.raw).len()
                && hex_source(old(data)@.raw).len() % 2 != 0 ==> (r matches Err(e) && e matches ConversionError::InvalidFormat { expected, got }
                && expected@ == "偶数长度的十六进制字符串"@
                && got@ == "长度为 "@ + digits_of(hex_source(old(data)@.raw).len(), 10) + " 的字符串"@) && final(data)@ == old(data)@,
            !all_space(old(data)@.raw) && first_bad_digit(hex_source(old(data)@.raw), 16) == hex_source(old(data)@.raw).len()
                && hex_source(old(data)@.raw).len() % 2 == 0 ==> r is Ok
                && final(data)@ == (ConversionDataView { output: hex_pairs_text(hex_source(old(data)@.raw)), ..old(data)@ }),
    {
        let raw = chars_of(data.raw_input());
        let t = trim_ws(&raw);
        if t.len() == 0 || is_blank(data.raw_input()) {
            proof {
                if t@.len() == 0 {
                    lemma_trim_empty(raw@);
                }
            }
            return Err(ConversionError::EmptyInput);
        }
        let seps: [char; 2] = [' ', '_'];
        assert(seps@ =~= seq![' ', '_']);
        let compact = remove_chars_of(&t, &seps);
        let upper = to_upper(string_of(&compact).as_str());
        proof {
            crate::errors::lemma_first_bad_digit(upper@, 16);
        }
        match validate_radix_chars(upper.as_str(), 16) {
            Err(e) => {
                return Err(e);
            },
            Ok(()) => {},
        }
        let h = chars_of(upper.as_str());
        if h.len() % 2 != 0 {
            let a = concat("长度为 ", decimal_text(h.len()).as_str());
            let got = concat(a.as_str(), " 的字符串");
            return Err(ConversionError::InvalidFormat { expected: String::from_str("偶数长度的十六进制字符串"), got });
        }
        let mut out: Vec<char> = Vec::new();
        let mut k: usize = 0;
        assert(h@.subrange(0, h@.len() as int) =~= h@);
        assert(out@ + hex_pairs_text(h@) =~= hex_pairs_text(h@));
        while k < h.len()
            invariant
                k <= h@.len(),
                k % 2 == 0,
                h@.len() % 2 == 0,
                forall|m: int| 0 <= m < h@.len() ==> crate::errors::is_digit_of(#[trigger] h@[m], 16),
                hex_pairs_text(h@) == out@ + hex_pairs_text(h@.subrange(k as int, h@.len() as int)),
            decreases h@.len() - k,
        {
            let ghost rest = h@.subrange(k as int, h@.len() as int);
            assert(rest.subrange(2, rest.len() as int) =~= h@.subrange(k + 2, h@.len() as int));
            assert(crate::errors::is_digit_of(h@[k as int], 16));
            assert(crate::errors::is_digit_of(h@[k + 1], 16));
            let x = digit_of(h[k]);
            let y = digit_of(h[k + 1]);
            let v = x * 16 + y;
            let ghost before = out@;
            if 32 <= v && v <= 126 {
                out.push((v as u8) as char);
            } else {
                out.push('[');
                out.push('0');
                out.push('x');
                out.push(crate::radix::symbol_of(v / 16));
                out.push(crate::radix::symbol_of(v % 16));
                out.push(']');
            }
            assert(out@ =~= before + shown_byte(v as int));
            k += 2;
            assert(before + (shown_byte(v as int) + hex_pairs_text(h@.subrange(k as int, h@.len() as int))) =~= out@ + hex_pairs_text(h@.subrange(k as int, h@.len() as int)));
        }
        assert(out@ + seq![] =~= out@);
        data.set_output(string_of(&out));
        Ok(())
    }
}

proof fn lemma_trim_empty(s: Seq<char>)
    requires
        trimmed_ws(s).len() == 0,
    ensures
        all_space(s),
    decreases s.len(),
{
    if s.len() > 0 && is_space(s[0]) {
        lemma_trim_empty(s.drop_first());
        assert forall|k: int| 0 <= k < s.len() implies is_space(#[trigger] s[k]) by {
            if k > 0 {
                assert(s[k] == s.drop_first()[k - 1]);
            }
        }
    } else if s.len() > 0 && is_space(s.last()) {
        lemma_trim_empty(s.drop_last());
        assert forall|k: int| 0 <= k < s.len() implies is_space(#[trigger] s[k]) by {
            if k < s.len() - 1 {
                assert(s[k] == s.drop_last()[k]);
            }
        }
    }
}

} // verus!
