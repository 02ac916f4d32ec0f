//! The data of one conversion field: what was typed, the cleaned input the
//! converters read, the output, an optional analysis, and the last error.

use vstd::prelude::*;
use crate::errors::{is_digit_of, char_is_digit, radix_name, radix_name_spec, ConversionError};
use crate::formatting::{group_chars, group_number, grouped, grouped_number};
use crate::text::{chars_of, concat, is_dec_digit, is_hex_char, remove_chars, remove_chars_of, string_of, to_upper, to_upper_char, upper_of};
use crate::token::count_of;
use crate::validators::{select, upper_seq, ValidationResult};

verus! {

/// What a `ConversionData` holds, as values.
pub struct ConversionDataView {
    pub raw: Seq<char>,
    pub cleaned: Seq<char>,
    pub output: Seq<char>,
    pub analysis: Option<Seq<char>>,
    pub error: Option<ConversionError>,
}

/// One conversion field.
#[derive(Debug, Clone)]
pub struct ConversionData {
    raw_input: String,
    cleaned_input: String,
    output: String,
    analysis: Option<String>,
    last_error: Option<ConversionError>,
}

/// The characters of an optional string.
pub open spec fn opt_view(o: Option<String>) -> Option<Seq<char>> {
    match o {
        Some(s) => Some(s@),
        None => None,
    }
}

impl View for ConversionData {
    type V = ConversionDataView;

    closed spec fn view(&self) -> ConversionDataView {
        ConversionDataView {
            raw: self.raw_input@,
            cleaned: self.cleaned_input@,
            output: self.output@,
            analysis: opt_view(self.analysis),
            error: self.last_error,
        }
    }
}

/// Typed input made ready for conversion: without `_` and spaces, in upper case.
pub open spec fn cleaned(s: Seq<char>) -> Seq<char> {
    upper_of(remove_chars(s, seq!['_', ' ']))
}

/// `data` grouped by fours with `_` from the right, before a single point;
/// text with more than one point is unchanged.
pub open spec fn with_separator(data: Seq<char>) -> Seq<char> {
    if count_of(data, '.') <= 1 { grouped_number(data, '_', 4) } else { data }
}

/// Text shown for a cleaned input: grouped when longer than four characters.
pub open spec fn for_display(data: Seq<char>) -> Seq<char> {
    if data.len() > 4 { with_separator(data) } else { data }
}

/// The float field's scan of `s`: the kept characters and whether something
/// was dropped. Digits, the first point and a leading minus sign are kept;
/// spaces and `_` are skipped; anything else is dropped.
pub open spec fn float_input_scan(s: Seq<char>) -> (Seq<char>, bool, bool)
    decreases s.len(),
{
    if s.len() == 0 {
        (seq![], false, false)
    } else {
        let (v, bad, dot) = float_input_scan(s.drop_last());
        let c = s.last();
        if is_dec_digit(c) {
            (v.push(c), bad, dot)
        } else if c == '.' && !dot {
            (v.push(c), bad, true)
        } else if c == '-' && s.len() == 1 {
            (v.push(c), bad, dot)
        } else if c == ' ' || c == '_' {
            (v, bad, dot)
        } else {
            (v, true, dot)
        }
    }
}

/// Every character of `s` is a hex digit, a space or `_`.
pub open spec fn all_hex_text(s: Seq<char>) -> bool {
    forall|k: int| 0 <= k < s.len() ==> is_hex_char(#[trigger] s[k]) || s[k] == ' ' || s[k] == '_'
}

fn clean_input(input: &str) -> (r: String)
    ensures
        r@ == cleaned(input@),
{
    let s = chars_of(input);
    let seps: [char; 2] = ['_', ' '];
    assert(seps@ =~= seq!['_', ' ']);
    let t = remove_chars_of(&s, &seps);
    to_upper(string_of(&t).as_str())
}

fn with_separator_chars(data: &Vec<char>) -> (r: Vec<char>)
    ensures
        r@ == with_separator(data@),
{
    let mut dots: usize = 0;
    let mut k: usize = 0;
    while k < data.len()
        invariant
            k <= data@.len(),
            dots == count_of(data@.subrange(0, k as int), '.'),
            dots <= k,
        decreases data@.len() - k,
    {
        proof {
            assert(data@.subrange(0, k + 1).drop_last() =~= data@.subrange(0, k as int));
        }
        if data[k] == '.' {
            dots += 1;
        }
        k += 1;
    }
    assert(data@.subrange(0, data@.len() as int) =~= data@);
    if dots <= 1 {
        group_number(data, '_', 4)
    } else {
        data.clone()
    }
}

impl ConversionData {
    /// An empty field.
    pub fn new() -> (r: Self)
        ensures
            r@.raw.len() == 0,
            r@.cleaned.len() == 0,
            r@.output.len() == 0,
            r@.analysis.is_none(),
            r@.error.is_none(),
    {
        ConversionData { raw_input: String::new(), cleaned_input: String::new(), output: String::new(), analysis: None, last_error: None }
    }

    /// Takes `input` as typed; the cleaned input drops `_` and spaces and is
    /// put in upper case; error and analysis are cleared.
    pub fn set_input(&mut self, input: String)
        ensures
            final(self)@ == (ConversionDataView { raw: input@, cleaned: cleaned(input@), analysis: None, error: None, ..old(self)@ }),
    {
        self.cleaned_input = clean_input(input.as_str());
        self.raw_input = input;
        self.last_error = None;
        self.analysis = None;
    }

    /// Takes a validator's result: its display text as typed input, its
    /// cleaned input, and its error.
    pub fn set_input_with_validation_result(&mut self, validation_result: ValidationResult)
        ensures
            final(self)@ == (ConversionDataView {
                raw: validation_result.display_input@,
                cleaned: validation_result.cleaned_input@,
                analysis: None,
                error: validation_result.error,
                ..old(self)@
            }),
    {
        self.raw_input = validation_result.display_input;
        self.cleaned_input = validation_result.cleaned_input;
        self.analysis = None;
        self.last_error = validation_result.error;
    }

    /// Keeps the digits of `radix` (at most 36) of the cleaned input, shows
    /// them grouped, and records an error if anything else was there.
    /// Returns whether nothing was dropped.
    pub fn set_input_with_validation(&mut self, input: String, radix: u32) -> (ok: bool)
        requires
            radix <= 36,
        ensures
            ok == (forall|k: int| 0 <= k < cleaned(input@).len() ==> is_digit_of(#[trigger] cleaned(input@)[k], radix)),
            final(self)@.cleaned == select(cleaned(input@), |c: char| is_digit_of(c, radix)),
            final(self)@.raw == for_display(final(self)@.cleaned),
            final(self)@.output == old(self)@.output,
            final(self)@.analysis.is_none(),
            ok ==> final(self)@.error.is_none(),
            !ok ==> (final(self)@.error matches Some(ConversionError::InvalidFormat { expected: e, got: g })
                && e@ == radix_name_spec(radix) + "字符"@ && g@ == "包含无效字符，已自动删除"@),
    {
        let text = clean_input(input.as_str());
        let s = chars_of(text.as_str());
        let ghost p = |c: char| is_digit_of(c, radix);
        let mut valid: Vec<char> = Vec::new();
        let mut has_invalid = false;
        let mut k: usize = 0;
        while k < s.len()
            invariant
                k <= s@.len(),
                radix <= 36,
                p == (|c: char| is_digit_of(c, radix)),
                valid@ == select(s@.subrange(0, k as int), p),
                has_invalid == !(forall|m: int| 0 <= m < k ==> is_digit_of(#[trigger] s@[m], radix)),
            decreases s@.len() - k,
        {
            let ghost next = s@.subrange(0, k + 1);
            assert(next.drop_last() =~= s@.subrange(0, k as int));
            if char_is_digit(s[k], radix) {
                valid.push(s[k]);
            } else {
                has_invalid = true;
            }
            k += 1;
        }
        assert(s@.subrange(0, s@.len() as int) =~= s@);
        let shown = if valid.len() > 4 { with_separator_chars(&valid) } else { valid.clone() };
        self.raw_input = string_of(&shown);
        self.cleaned_input = string_of(&valid);
        self.analysis = None;
        if has_invalid {
            let name = radix_name(radix);
            self.last_error = Some(ConversionError::InvalidFormat {
                expected: concat(name.as_str(), "字符"),
                got: String::from_str("包含无效字符，已自动删除"),
            });
            false
        } else {
            self.last_error = None;
            true
        }
    }

    /// Keeps digits, the first point and a leading minus sign; skips spaces
    /// and `_`; records an error if anything else was there. Returns whether
    /// nothing was dropped.
    pub fn set_input_with_float_validation(&mut self, input: String) -> (ok: bool)
        ensures
            ok == !float_input_scan(input@).1,
            final(self)@.raw == float_input_scan(input@).0,
            final(self)@.cleaned == float_input_scan(input@).0,
            final(self)@.output == old(self)@.output,
            final(self)@.analysis.is_none(),
            ok ==> final(self)@.error.is_none(),
            !ok ==> (final(self)@.error matches Some(ConversionError::InvalidFormat { expected: e, got: g })
                && e@ == "浮点数字符"@ && g@ == "包含无效字符，已自动删除"@),
    {
        let s = chars_of(input.as_str());
        let mut valid: Vec<char> = Vec::new();
        let mut has_invalid = false;
        let mut has_dot = false;
        let mut k: usize = 0;
        while k < s.len()
            invariant
                k <= s@.len(),
                float_input_scan(s@.subrange(0, k as int)) == (valid@, has_invalid, has_dot),
            decreases s@.len() - k,
        {
            let ghost next = s@.subrange(0, k + 1);
            assert(next.drop_last() =~= s@.subrange(0, k as int));
            let c = s[k];
            if '0' <= c && c <= '9' {
                valid.push(c);
            } else if c == '.' && !has_dot {
                has_dot = true;
                valid.push(c);
            } else if c == '-' && k == 0 {
                valid.push(c);
            } else if c == ' ' || c == '_' {
            } else {
                has_invalid = true;
            }
            k += 1;
        }
        assert(s@.subrange(0, s@.len() as int) =~= s@);
        self.raw_input = string_of(&valid);
        self.cleaned_input = string_of(&valid);
        self.analysis = None;
        if has_invalid {
            self.last_error = Some(ConversionError::InvalidFormat {
                expected: String::from_str("浮点数字符"),
                got: String::from_str("包含无效字符，已自动删除"),
            });
            false
        } else {
            self.last_error = None;
            true
        }
    }

    /// Keeps hex digits in upper case and spaces, skips `_`, records an
    /// error for anything else; the cleaned input drops the spaces. Returns
    /// whether nothing was dropped.
    pub fn set_input_with_hex_text_validation(&mut self, input: String) -> (ok: bool)
        ensures
            ok == all_hex_text(input@),
            final(self)@.raw == upper_seq(select(input@, |c: char| is_hex_char(c) || c == ' ')),
            final(self)@.cleaned == remove_chars(final(self)@.raw, seq![' ', '_']),
            final(self)@.output == old(self)@.output,
            final(self)@.analysis.is_none(),
            ok ==> final(self)@.error.is_none(),
            !ok ==> (final(self)@.error matches Some(ConversionError::InvalidFormat { expected: e, got: g })
                && e@ == "十六进制字符和空格"@ && g@ == "包含无效字符，已自动删除"@),
    {
        let s = chars_of(input.as_str());
        let ghost keep = |c: char| is_hex_char(c) || c == ' ';
        let mut valid: Vec<char> = Vec::new();
        let mut has_invalid = false;
        let mut k: usize = 0;
        while k < s.len()
            invariant
                k <= s@.len(),
                keep == (|c: char| is_hex_char(c) || c == ' '),
                valid@ == upper_seq(select(s@.subrange(0, k as int), keep)),
                has_invalid == !(forall|m: int| 0 <= m < k ==> is_hex_char(#[trigger] s@[m]) || s@[m] == ' ' || s@[m] == '_'),
            decreases s@.len() - k,
        {
            let ghost next = s@.subrange(0, k + 1);
            assert(next.drop_last() =~= s@.subrange(0, k as int));
            let c = s[k];
            if ('0' <= c && c <= '9') || ('A' <= c && c <= 'F') || ('a' <= c && c <= 'f') {
                valid.push(to_upper_char(c));
                assert(valid@ =~= upper_seq(select(next, keep)));
            } else if c == ' ' {
                valid.push(' ');
                assert(valid@ =~= upper_seq(select(next, keep)));
            } else if c == '_' {
            } else {
                has_invalid = true;
            }
            k += 1;
        }
        assert(s@.subrange(0, s@.len() as int) =~= s@);
        let seps: [char; 2] = [' ', '_'];
        assert(seps@ =~= seq![' ', '_']);
        let compact = remove_chars_of(&valid, &seps);
        self.raw_input = string_of(&valid);
        self.cleaned_input = string_of(&compact);
        self.analysis = None;
        if has_invalid {
            self.last_error = Some(ConversionError::InvalidFormat {
                expected: String::from_str("十六进制字符和空格"),
                got: String::from_str("包含无效字符，已自动删除"),
            });
            false
        } else {
            self.last_error = None;
            true
        }
    }

    /// The input as typed.
    pub fn raw_input(&self) -> (r: &str)
        ensures
            r@ == self@.raw,
    {
        self.raw_input.as_str()
    }

    /// The typed input, for editing in place; nothing else changes with it.
    pub fn raw_input_mut(&mut self) -> (r: &mut String)
        ensures
            r@ == old(self)@.raw,
            final(self)@ == (ConversionDataView { raw: final(r)@, ..old(self)@ }),
    {
        &mut self.raw_input
    }

    /// The cleaned input.
    pub fn cleaned_input(&self) -> (r: &str)
        ensures
            r@ == self@.cleaned,
    {
        self.cleaned_input.as_str()
    }

    /// Replaces the output.
    pub fn set_output(&mut self, output: String)
        ensures
            final(self)@ == (ConversionDataView { output: output@, ..old(self)@ }),
    {
        self.output = output;
    }

    /// The output.
    pub fn output(&self) -> (r: &str)
        ensures
            r@ == self@.output,
    {
        self.output.as_str()
    }

    /// Records an analysis.
    pub fn set_analysis(&mut self, analysis: String)
        ensures
            final(self)@ == (ConversionDataView { analysis: Some(analysis@), ..old(self)@ }),
    {
        self.analysis = Some(analysis);
    }

    /// The analysis, if any.
    pub fn analysis(&self) -> (r: Option<&str>)
        ensures
            match r {
                Some(a) => self@.analysis == Some(a@),
                None => self@.analysis.is_none(),
            },
    {
        match &self.analysis {
            Some(a) => Some(a.as_str()),
            None => None,
        }
    }

    /// Drops the analysis.
    pub fn clear_analysis(&mut self)
        ensures
            final(self)@ == (ConversionDataView { analysis: None, ..old(self)@ }),
    {
        self.analysis = None;
    }

    /// Records an error.
    pub fn set_error(&mut self, error: ConversionError)
        ensures
            final(self)@ == (ConversionDataView { error: Some(error), ..old(self)@ }),
    {
        self.last_error = Some(error);
    }

    /// Drops the error.
    pub fn clear_error(&mut self)
        ensures
            final(self)@ == (ConversionDataView { error: None, ..old(self)@ }),
    {
        self.last_error = None;
    }

    /// The last error, if any.
    pub fn last_error(&self) -> (r: Option<&ConversionError>)
        ensures
            match r {
                Some(e) => self@.error == Some(*e),
                None => self@.error.is_none(),
            },
    {
        match &self.last_error {
            Some(e) => Some(e),
            None => None,
        }
    }

    /// Whether an error is recorded.
    pub fn has_error(&self) -> (r: bool)
        ensures
            r == self@.error.is_some(),
    {
        self.last_error.is_some()
    }

    /// Cleans the typed input again and drops the analysis.
    pub fn update_cleaned_input(&mut self)
        ensures
            final(self)@ == (ConversionDataView { cleaned: cleaned(old(self)@.raw), analysis: None, ..old(self)@ }),
    {
        self.cleaned_input = clean_input(self.raw_input.as_str());
        self.analysis = None;
    }

    /// The output grouped by fours with `_`.
    pub fn format_output_with_separator(&self) -> (r: String)
        ensures
            r@ == with_separator(self@.output),
    {
        self.format_with_separator(self.output.as_str())
    }

    /// `data` grouped by fours with `_` from the right, before a single
    /// point; text with several points is unchanged.
    pub fn format_with_separator(&self, data: &str) -> (r: String)
        ensures
            r@ == with_separator(data@),
    {
        let s = chars_of(data);
        string_of(&with_separator_chars(&s))
    }

    /// `data` grouped by fours with `_` from the right.
    pub fn add_underscores_reverse(&self, data: &str) -> (r: String)
        ensures
            r@ == grouped(data@, '_', 4),
    {
        let s = chars_of(data);
        string_of(&group_chars(&s, '_', 4))
    }
}

impl Default for ConversionData {
    fn default() -> (r: Self)
        ensures
            r@.raw.len() == 0,
            r@.output.len() == 0,
            r@.error.is_none(),
    {
        Self::new()
    }
}

} // verus!
