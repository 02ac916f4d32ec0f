//! The interface's state: one entry per input field, each with the identifier
//! of its outstanding request. Requests take fresh identifiers; a response is
//! applied only to the field whose outstanding identifier it carries, so a
//! response to a superseded request changes nothing.

use vstd::prelude::*;
use crate::radix::value_of;
use crate::text::{is_dec_digit, is_space};
use crate::history::{latest, push_history, CalculatorHistoryEntry, MAX_HISTORY};
use crate::messages::{
    BackendRequest, BackendResponse, BitViewerOperation, BitViewerRequest, BitViewerResponse,
    CalculatorRequest, CalculatorResponse, FloatConversionRequest, FloatConversionResponse,
    FloatConversionType, NumberConversionRequest, NumberConversionResponse, NumberConversionType,
    TextConversionRequest, TextConversionResponse, TextConversionType,
};

verus! {

/// The identifier that follows `n`, wrapping to zero after the largest.
pub open spec fn next_id_after(n: u64) -> u64 {
    if n == u64::MAX { 0 } else { (n + 1) as u64 }
}

/// A response with identifier `id` is applied to a field whose outstanding
/// identifier is `pending`.
pub open spec fn response_applies(pending: Option<u64>, id: u64) -> bool {
    pending == Some(id)
}

/// The characters of `o`, or none.
pub open spec fn text_or_empty(o: Option<String>) -> Seq<char> {
    match o {
        Some(s) => s@,
        None => Seq::<char>::empty(),
    }
}

pub fn take_text(o: Option<String>) -> (r: String)
    ensures
        r@ == text_or_empty(o),
{
    match o {
        Some(s) => s,
        None => String::new(),
    }
}

/// One field of the number conversion page.
#[derive(Debug, Clone)]
pub struct NumberConversionField {
    pub input: String,
    pub binary: String,
    pub decimal: String,
    pub hexadecimal: String,
    pub error: Option<String>,
    pub pending_id: Option<u64>,
}

impl NumberConversionField {
    /// An empty field with nothing outstanding.
    pub fn new() -> (r: Self)
        ensures
            r.input@.len() == 0,
            r.binary@.len() == 0,
            r.decimal@.len() == 0,
            r.hexadecimal@.len() == 0,
            r.error.is_none(),
            r.pending_id.is_none(),
    {
        NumberConversionField {
            input: String::new(),
            binary: String::new(),
            decimal: String::new(),
            hexadecimal: String::new(),
            error: None,
            pending_id: None,
        }
    }
}

impl Default for NumberConversionField {
    fn default() -> (r: Self)
        ensures
            r.input@.len() == 0,
            r.error.is_none(),
            r.pending_id.is_none(),
    {
        Self::new()
    }
}

/// `new` is `old` after the response `r` was applied to it.
pub open spec fn number_field_applied(old: NumberConversionField, new: NumberConversionField, r: NumberConversionResponse) -> bool {
    &&& new.input == old.input
    &&& new.pending_id.is_none()
    &&& new.error == r.error
    &&& new.binary@ == text_or_empty(r.binary)
    &&& new.decimal@ == text_or_empty(r.decimal)
    &&& new.hexadecimal@ == text_or_empty(r.hexadecimal)
}

fn apply_number(field: &mut NumberConversionField, r: NumberConversionResponse)
    ensures
        number_field_applied(*old(field), *final(field), r),
{
    field.pending_id = None;
    field.error = r.error;
    field.binary = take_text(r.binary);
    field.decimal = take_text(r.decimal);
    field.hexadecimal = take_text(r.hexadecimal);
}

/// The number conversion page: one field per radix.
#[derive(Debug, Clone)]
pub struct NumberConversionState {
    pub binary_field: NumberConversionField,
    pub decimal_field: NumberConversionField,
    pub hex_field: NumberConversionField,
}

impl Default for NumberConversionState {
    fn default() -> (r: Self)
        ensures
            r.binary_field.pending_id.is_none(),
            r.decimal_field.pending_id.is_none(),
            r.hex_field.pending_id.is_none(),
    {
        NumberConversionState {
            binary_field: NumberConversionField::new(),
            decimal_field: NumberConversionField::new(),
            hex_field: NumberConversionField::new(),
        }
    }
}

/// One field of the float conversion page.
#[derive(Debug, Clone)]
pub struct FloatConversionField {
    pub input: String,
    pub output: String,
    pub analysis: Option<String>,
    pub error: Option<String>,
    pub pending_id: Option<u64>,
}

impl FloatConversionField {
    /// An empty field with nothing outstanding.
    pub fn new() -> (r: Self)
        ensures
            r.input@.len() == 0,
            r.output@.len() == 0,
            r.analysis.is_none(),
            r.error.is_none(),
            r.pending_id.is_none(),
    {
        FloatConversionField { input: String::new(), output: String::new(), analysis: None, error: None, pending_id: None }
    }
}

impl Default for FloatConversionField {
    fn default() -> (r: Self)
        ensures
            r.input@.len() == 0,
            r.error.is_none(),
            r.pending_id.is_none(),
    {
        Self::new()
    }
}

/// The float conversion page.
#[derive(Debug, Clone)]
pub struct FloatConversionState {
    pub f32_to_hex: FloatConversionField,
    pub hex_to_f32: FloatConversionField,
}

impl Default for FloatConversionState {
    fn default() -> (r: Self)
        ensures
            r.f32_to_hex.pending_id.is_none(),
            r.hex_to_f32.pending_id.is_none(),
    {
        FloatConversionState { f32_to_hex: FloatConversionField::new(), hex_to_f32: FloatConversionField::new() }
    }
}

/// One field of the text conversion page.
#[derive(Debug, Clone)]
pub struct TextConversionField {
    pub input: String,
    pub output: String,
    pub error: Option<String>,
    pub pending_id: Option<u64>,
}

impl TextConversionField {
    /// An empty field with nothing outstanding.
    pub fn new() -> (r: Self)
        ensures
            r.input@.len() == 0,
            r.output@.len() == 0,
            r.error.is_none(),
            r.pending_id.is_none(),
    {
        TextConversionField { input: String::new(), output: String::new(), error: None, pending_id: None }
    }
}

impl Default for TextConversionField {
    fn default() -> (r: Self)
        ensures
            r.input@.len() == 0,
            r.error.is_none(),
            r.pending_id.is_none(),
    {
        Self::new()
    }
}

/// The text conversion page.
#[derive(Debug, Clone)]
pub struct TextConversionState {
    pub ascii_to_hex: TextConversionField,
    pub hex_to_ascii: TextConversionField,
}

impl Default for TextConversionState {
    fn default() -> (r: Self)
        ensures
            r.ascii_to_hex.pending_id.is_none(),
            r.hex_to_ascii.pending_id.is_none(),
    {
        TextConversionState { ascii_to_hex: TextConversionField::new(), hex_to_ascii: TextConversionField::new() }
    }
}

/// The calculator page. `V` is the evaluator's numeric value.
#[derive(Debug, Clone)]
pub struct CalculatorState<V> {
    /// Radix the expression is typed in.
    pub radix: u32,
    pub input: String,
    /// The last result, rendered in the radix of its request.
    pub output: String,
    pub last_error: Option<String>,
    pub last_value: Option<V>,
    /// Successful calculations, oldest first.
    pub history: std::collections::VecDeque<CalculatorHistoryEntry>,
    pub pending_id: Option<u64>,
}

impl<V> CalculatorState<V> {
    /// The history never holds more than `MAX_HISTORY` entries.
    pub open spec fn wf(&self) -> bool {
        self.history@.len() <= MAX_HISTORY
    }

    /// Radix 10, empty input, no result, empty history.
    pub fn new() -> (r: Self)
        ensures
            r.wf(),
            r.radix == 10,
            r.input@.len() == 0,
            r.output@.len() == 0,
            r.last_error.is_none(),
            r.last_value.is_none(),
            r.history@.len() == 0,
            r.pending_id.is_none(),
    {
        CalculatorState {
            radix: 10,
            input: String::new(),
            output: String::new(),
            last_error: None,
            last_value: None,
            history: std::collections::VecDeque::new(),
            pending_id: None,
        }
    }
}

impl<V> Default for CalculatorState<V> {
    fn default() -> (r: Self)
        ensures
            r.wf(),
            r.radix == 10,
            r.history@.len() == 0,
            r.pending_id.is_none(),
    {
        Self::new()
    }
}

/// The history entry that a successful response adds.
pub open spec fn entry_of<V>(r: CalculatorResponse<V>) -> CalculatorHistoryEntry {
    CalculatorHistoryEntry {
        radix: r.radix,
        input: r.original_input,
        decimal_expr: r.decimal_expr,
        output: r.output,
        error: None,
    }
}

/// `new` is the calculator `old` after the response `r` was applied to it:
/// an error is shown and the previous value and history stay; a value is
/// shown with its rendering and recorded in the history.
pub open spec fn calculator_applied<V>(old: CalculatorState<V>, new: CalculatorState<V>, r: CalculatorResponse<V>) -> bool {
    &&& new.pending_id.is_none()
    &&& new.radix == old.radix
    &&& new.input == old.input
    &&& match r.error {
        Some(e) => {
            &&& new.last_error == Some(e)
            &&& new.last_value == old.last_value
            &&& new.output == old.output
            &&& new.history == old.history
        },
        None => match r.value {
            Some(v) => {
                &&& new.last_value == Some(v)
                &&& new.last_error.is_none()
                &&& new.output@ == r.output@
                &&& new.history@ == latest(old.history@.push(entry_of(r)))
            },
            None => {
                &&& new.last_value == old.last_value
                &&& new.last_error == old.last_error
                &&& new.output == old.output
                &&& new.history == old.history
            },
        },
    }
}

/// The bit viewer page.
#[derive(Debug, Clone)]
pub struct BitViewerState {
    pub hex_input: String,
    /// Field widths as typed, separated by whitespace.
    pub field_widths_input: String,
    pub field_widths: Vec<usize>,
    /// The bits, most significant first.
    pub binary_bits: Vec<bool>,
    pub error: Option<String>,
    pub pending_id: Option<u64>,
}

/// The widths used when none of the typed ones is usable: eight fields of four bits.
pub open spec fn default_widths() -> Seq<usize> {
    seq![4usize, 4, 4, 4, 4, 4, 4, 4]
}

/// `c` may stand in a whitespace-separated word.
pub open spec fn is_word_char(c: char) -> bool {
    !is_space(c)
}

/// The end of the word that starts at `i`.
pub open spec fn word_end(s: Seq<char>, i: int) -> int
    decreases s.len() - i,
{
    if 0 <= i < s.len() && !is_space(s[i]) {
        word_end(s, i + 1)
    } else {
        i
    }
}

/// Every character of `s` is a decimal digit.
pub open spec fn all_dec_digits(s: Seq<char>) -> bool {
    forall|k: int| 0 <= k < s.len() ==> is_dec_digit(#[trigger] s[k])
}

/// The width that the word `w` gives: an unsigned decimal numeral, an
/// optional `+` before it, whose value lies in 1 to 64.
pub open spec fn width_of(w: Seq<char>) -> Option<usize> {
    let body = if w.len() > 0 && w[0] == '+' { w.drop_first() } else { w };
    if body.len() > 0 && all_dec_digits(body) && 1 <= value_of(body, 10) <= 64 {
        Some(value_of(body, 10) as usize)
    } else {
        None
    }
}

/// The usable widths among the whitespace-separated words of `s` from `i` on.
pub open spec fn widths_from(s: Seq<char>, i: int) -> Seq<usize>
    decreases s.len() - i
    via widths_from_decreases
{
    if i < 0 || i >= s.len() {
        seq![]
    } else if is_space(s[i]) {
        widths_from(s, i + 1)
    } else {
        let j = word_end(s, i);
        match width_of(s.subrange(i, j)) {
            Some(v) => seq![v] + widths_from(s, j),
            None => widths_from(s, j),
        }
    }
}

proof fn lemma_word_end(s: Seq<char>, i: int)
    requires
        0 <= i <= s.len(),
    ensures
        i <= word_end(s, i) <= s.len(),
    decreases s.len() - i,
{
    if i < s.len() && !is_space(s[i]) {
        lemma_word_end(s, i + 1);
    }
}

#[via_fn]
proof fn widths_from_decreases(s: Seq<char>, i: int) {
    if 0 <= i < s.len() && !is_space(s[i]) {
        lemma_word_end(s, i + 1);
    }
}

/// The field widths that `input` gives, or `default_widths` if none.
pub open spec fn parsed_widths(input: Seq<char>) -> Seq<usize> {
    if widths_from(input, 0).len() == 0 { default_widths() } else { widths_from(input, 0) }
}

/// How `total` bits split into fields of `widths`: each field takes its
/// width or what is left, and bits beyond all the fields form one more field.
pub open spec fn field_groups(widths: Seq<usize>, remaining: nat) -> Seq<usize>
    decreases widths.len(),
{
    if remaining == 0 {
        seq![]
    } else if widths.len() == 0 {
        seq![remaining as usize]
    } else {
        let g = if widths[0] < remaining { widths[0] as nat } else { remaining };
        seq![g as usize] + field_groups(widths.drop_first(), (remaining - g) as nat)
    }
}

/// The bits of `bits` from `start` on, `count` of them; positions past the
/// end read as clear.
pub open spec fn bit_window(bits: Seq<bool>, start: int, count: int) -> Seq<bool> {
    Seq::new(count as nat, |i: int| if start + i < bits.len() { bits[start + i] } else { false })
}

/// The number that `bits` denote, most significant first.
pub open spec fn bits_value(bits: Seq<bool>) -> nat
    decreases bits.len(),
{
    if bits.len() == 0 {
        0
    } else {
        bits_value(bits.drop_last()) * 2 + if bits.last() { 1nat } else { 0nat }
    }
}

impl Default for BitViewerState {
    fn default() -> (r: Self)
        ensures
            r.hex_input@.len() == 0,
            r.field_widths_input@ == "4 4 4 4 4 4 4 4"@,
            r.field_widths@ == default_widths(),
            r.binary_bits@.len() == 0,
            r.error.is_none(),
            r.pending_id.is_none(),
    {
        BitViewerState {
            hex_input: String::new(),
            field_widths_input: String::from_str("4 4 4 4 4 4 4 4"),
            field_widths: vec![4, 4, 4, 4, 4, 4, 4, 4],
            binary_bits: Vec::new(),
            error: None,
            pending_id: None,
        }
    }
}

fn width_value(s: &Vec<char>, from: usize, to: usize) -> (r: Option<usize>)
    requires
        from <= to <= s@.len(),
    ensures
        r == width_of(s@.subrange(from as int, to as int)),
{
    let ghost w = s@.subrange(from as int, to as int);
    let start = if from < to && s[from] == '+' { from + 1 } else { from };
    let ghost body = if w.len() > 0 && w[0] == '+' { w.drop_first() } else { w };
    assert(w.len() > 0 ==> w[0] == s@[from as int]);
    assert(body =~= s@.subrange(start as int, to as int));
    if start == to {
        return None;
    }
    let mut acc: usize = 0;
    let mut k: usize = start;
    while k < to
        invariant
            start <= k <= to,
            to <= s@.len(),
            body == s@.subrange(start as int, to as int),
            w == s@.subrange(from as int, to as int),
            body == (if w.len() > 0 && w[0] == '+' { w.drop_first() } else { w }),
            forall|m: int| start <= m < k ==> is_dec_digit(#[trigger] s@[m]),
            acc == if value_of(s@.subrange(start as int, k as int), 10) > 65 { 65 } else { value_of(s@.subrange(start as int, k as int), 10) },
            value_of(s@.subrange(start as int, k as int), 10) >= 0,
        decreases to - k,
    {
        let c = s[k];
        if !('0' <= c && c <= '9') {
            assert(body[k - start] == c);
            assert(!all_dec_digits(body));
            return None;
        }
        let ghost pre = s@.subrange(start as int, k as int);
        let ghost next = s@.subrange(start as int, k + 1);
        assert(next.drop_last() =~= pre);
        let d = (c as u32 - '0' as u32) as usize;
        assert(value_of(next, 10) == value_of(pre, 10) * 10 + d);
        if acc >= 65 {
            acc = 65;
        } else {
            let v = acc * 10 + d;
            acc = if v > 65 { 65 } else { v };
        }
        k += 1;
    }
    assert(all_dec_digits(body));
    if 1 <= acc && acc <= 64 {
        Some(acc)
    } else {
        None
    }
}

fn push_all_usize(out: &mut Vec<usize>, t: &Vec<usize>)
    ensures
        final(out)@ == old(out)@ + t@,
{
    let mut k: usize = 0;
    while k < t.len()
        invariant
            k <= t@.len(),
            out@ == old(out)@ + t@.subrange(0, k as int),
        decreases t@.len() - k,
    {
        out.push(t[k]);
        k += 1;
        assert(out@ =~= old(out)@ + t@.subrange(0, k as int));
    }
    assert(t@.subrange(0, t@.len() as int) =~= t@);
}

/// The field widths that `input` gives: each
/// whitespace-separated unsigned numeral from 1 to 64 is one width, the
/// other words are skipped; eight fields of four bits if none is usable.
pub fn parse_widths(input: &str) -> (r: Vec<usize>)
    ensures
        r@ == parsed_widths(input@),
{
    let s = crate::text::chars_of(input);
    let mut widths: Vec<usize> = Vec::new();
    let mut i: usize = 0;
    while i < s.len()
        invariant
            i <= s@.len(),
            widths_from(s@, 0) == widths@ + widths_from(s@, i as int),
        decreases s@.len() - i,
    {
        if crate::text::is_space_char(s[i]) {
            i += 1;
        } else {
            let mut j = i;
            while j < s.len() && !crate::text::is_space_char(s[j])
                invariant
                    i <= j <= s@.len(),
                    word_end(s@, i as int) == word_end(s@, j as int),
                decreases s@.len() - j,
            {
                j += 1;
            }
            let ghost before = widths@;
            match width_value(&s, i, j) {
                Some(v) => {
                    widths.push(v);
                    assert(before + (seq![v] + widths_from(s@, j as int)) =~= widths@ + widths_from(s@, j as int));
                },
                None => {},
            }
            i = j;
        }
    }
    assert(widths@ + seq![] =~= widths@);
    if widths.len() == 0 {
        widths = vec![4, 4, 4, 4, 4, 4, 4, 4];
    }
    widths
}

/// How the bits split into fields: each width in turn takes its bits or
/// what is left, and any bits beyond all the widths form one more field.
pub fn groups_of(widths: &Vec<usize>, total: usize) -> (r: Vec<usize>)
    ensures
        r@ == field_groups(widths@, total as nat),
{
    let mut groups: Vec<usize> = Vec::new();
    let mut remaining: usize = total;
    let mut k: usize = 0;
    assert(widths@.subrange(0, widths@.len() as int) =~= widths@);
    assert(groups@ =~= Seq::<usize>::empty());
    while k < widths.len() && remaining > 0
        invariant
            k <= widths@.len(),
            field_groups(widths@, total as nat) == groups@ + field_groups(widths@.subrange(k as int, widths@.len() as int), remaining as nat),
        decreases widths@.len() - k,
    {
        let ghost rest = widths@.subrange(k as int, widths@.len() as int);
        let width = widths[k];
        let group_size = if width < remaining { width } else { remaining };
        let ghost before = groups@;
        groups.push(group_size);
        remaining -= group_size;
        k += 1;
        assert(rest.drop_first() =~= widths@.subrange(k as int, widths@.len() as int));
        assert(before + (seq![group_size] + field_groups(rest.drop_first(), remaining as nat)) =~= groups@ + field_groups(rest.drop_first(), remaining as nat));
    }
    let ghost rest = widths@.subrange(k as int, widths@.len() as int);
    if remaining > 0 {
        assert(rest.len() == 0);
        groups.push(remaining);
        assert(groups@ =~= groups@.drop_last() + field_groups(rest, remaining as nat));
    } else {
        assert(groups@ + field_groups(rest, remaining as nat) =~= groups@);
    }
    groups
}

impl BitViewerState {
    /// Reads the field widths from `field_widths_input`: each
    /// whitespace-separated unsigned numeral from 1 to 64 is one width, the
    /// other words are skipped; eight fields of four bits if none is usable.
    pub fn parse_field_widths(&mut self)
        ensures
            final(self).field_widths@ == parsed_widths(old(self).field_widths_input@),
            final(self).field_widths_input == old(self).field_widths_input,
            final(self).hex_input == old(self).hex_input,
            final(self).binary_bits == old(self).binary_bits,
            final(self).error == old(self).error,
            final(self).pending_id == old(self).pending_id,
    {
        self.field_widths = parse_widths(self.field_widths_input.as_str());
    }

    /// How the bits split into fields: each width in turn takes its bits or
    /// what is left, and any bits beyond all the widths form one more field.
    pub fn calculate_field_groups(&self) -> (r: Vec<usize>)
        ensures
            r@ == field_groups(self.field_widths@, self.binary_bits@.len()),
    {
        groups_of(&self.field_widths, self.binary_bits.len())
    }

    /// The number that `bit_count` bits from `start_bit` on denote, most
    /// significant first; bits past the end count as clear.
    pub fn calculate_field_value(&self, start_bit: usize, bit_count: usize) -> (r: u64)
        requires
            bit_count <= 64,
            start_bit + bit_count <= usize::MAX,
        ensures
            r == bits_value(bit_window(self.binary_bits@, start_bit as int, bit_count as int)),
    {
        let ghost window = bit_window(self.binary_bits@, start_bit as int, bit_count as int);
        let mut value: u64 = 0;
        let mut i: usize = 0;
        proof {
            vstd::arithmetic::power2::lemma2_to64();
        }
        while i < bit_count
            invariant
                i <= bit_count <= 64,
                start_bit + bit_count <= usize::MAX,
                window == bit_window(self.binary_bits@, start_bit as int, bit_count as int),
                value == bits_value(window.subrange(0, i as int)),
                value < vstd::arithmetic::power2::pow2(i as nat),
            decreases bit_count - i,
        {
            let ghost next = window.subrange(0, i + 1);
            assert(next.drop_last() =~= window.subrange(0, i as int));
            let bit = start_bit + i < self.binary_bits.len() && self.binary_bits[start_bit + i];
            assert(next.last() == bit);
            proof {
                vstd::arithmetic::power2::lemma_pow2_adds(i as nat, 1);
                vstd::arithmetic::power2::lemma2_to64();
                vstd::arithmetic::power2::lemma_pow2_pos(i as nat);
                if i + 1 < 64 {
                    vstd::arithmetic::power2::lemma_pow2_strictly_increases((i + 1) as nat, 64);
                }
            }
            value = value * 2 + if bit { 1 } else { 0 };
            i += 1;
        }
        assert(window.subrange(0, bit_count as int) =~= window);
        value
    }
}

/// The state of every page, and the identifier the next request takes.
pub struct FrontendState<V> {
    pub number_conversion: NumberConversionState,
    pub float_conversion: FloatConversionState,
    pub text_conversion: TextConversionState,
    pub bit_viewer: BitViewerState,
    pub calculator: CalculatorState<V>,
    /// The identifier of the next request.
    pub id_counter: u64,
}

impl<V> FrontendState<V> {
    /// The calculator history is within its bound.
    pub open spec fn wf(&self) -> bool {
        self.calculator.wf()
    }

    /// A fresh identifier: the counter's value, which then moves on by one
    /// (wrapping).
    pub fn next_id(&mut self) -> (r: u64)
        ensures
            r == old(self).id_counter,
            final(self).id_counter == next_id_after(old(self).id_counter),
            final(self).number_conversion == old(self).number_conversion,
            final(self).float_conversion == old(self).float_conversion,
            final(self).text_conversion == old(self).text_conversion,
            final(self).bit_viewer == old(self).bit_viewer,
            final(self).calculator == old(self).calculator,
    {
        let id = self.id_counter;
        self.id_counter = self.id_counter.wrapping_add(1);
        id
    }
}

impl<V> FrontendState<V> {
    /// Every page empty, nothing outstanding, identifiers from zero.
    pub fn new() -> (r: Self)
        ensures
            r.wf(),
            r.id_counter == 0,
            r.calculator.history@.len() == 0,
            r.calculator.pending_id.is_none(),
            r.bit_viewer.pending_id.is_none(),
    {
        FrontendState {
            number_conversion: NumberConversionState::default(),
            float_conversion: FloatConversionState::default(),
            text_conversion: TextConversionState::default(),
            bit_viewer: BitViewerState::default(),
            calculator: CalculatorState::new(),
            id_counter: 0,
        }
    }

    /// Marks the binary field as waiting for a fresh request and returns
    /// that request.
    pub fn request_binary_conversion(&mut self) -> (r: BackendRequest)
        ensures
            final(self).id_counter == next_id_after(old(self).id_counter),
            final(self).number_conversion.binary_field == (NumberConversionField {
                pending_id: Some(old(self).id_counter),
                error: None,
                ..old(self).number_conversion.binary_field
            }),
            final(self).number_conversion.decimal_field == old(self).number_conversion.decimal_field,
            final(self).number_conversion.hex_field == old(self).number_conversion.hex_field,
            final(self).float_conversion == old(self).float_conversion,
            final(self).text_conversion == old(self).text_conversion,
            final(self).bit_viewer == old(self).bit_viewer,
            final(self).calculator == old(self).calculator,
            r matches BackendRequest::NumberConversion(q) && q.id == old(self).id_counter
                && q.conversion_type == NumberConversionType::Binary
                && q.input@ == old(self).number_conversion.binary_field.input@,
    {
        let id = self.next_id();
        self.number_conversion.binary_field.pending_id = Some(id);
        self.number_conversion.binary_field.error = None;
        BackendRequest::NumberConversion(NumberConversionRequest {
            id,
            conversion_type: NumberConversionType::Binary,
            input: self.number_conversion.binary_field.input.clone(),
        })
    }

    /// Marks the decimal field as waiting for a fresh request and returns
    /// that request.
    pub fn request_decimal_conversion(&mut self) -> (r: BackendRequest)
        ensures
            final(self).id_counter == next_id_after(old(self).id_counter),
            final(self).number_conversion.decimal_field == (NumberConversionField {
                pending_id: Some(old(self).id_counter),
                error: None,
                ..old(self).number_conversion.decimal_field
            }),
            final(self).number_conversion.binary_field == old(self).number_conversion.binary_field,
            final(self).number_conversion.hex_field == old(self).number_conversion.hex_field,
            final(self).float_conversion == old(self).float_conversion,
            final(self).text_conversion == old(self).text_conversion,
            final(self).bit_viewer == old(self).bit_viewer,
            final(self).calculator == old(self).calculator,
            r matches BackendRequest::NumberConversion(q) && q.id == old(self).id_counter
                && q.conversion_type == NumberConversionType::Decimal
                && q.input@ == old(self).number_conversion.decimal_field.input@,
    {
        let id = self.next_id();
        self.number_conversion.decimal_field.pending_id = Some(id);
        self.number_conversion.decimal_field.error = None;
        BackendRequest::NumberConversion(NumberConversionRequest {
            id,
            conversion_type: NumberConversionType::Decimal,
            input: self.number_conversion.decimal_field.input.clone(),
        })
    }

    /// Marks the hexadecimal field as waiting for a fresh request and
    /// returns that request.
    pub fn request_hex_conversion(&mut self) -> (r: BackendRequest)
        ensures
            final(self).id_counter == next_id_after(old(self).id_counter),
            final(self).number_conversion.hex_field == (NumberConversionField {
                pending_id: Some(old(self).id_counter),
                error: None,
                ..old(self).number_conversion.hex_field
            }),
            final(self).number_conversion.binary_field == old(self).number_conversion.binary_field,
            final(self).number_conversion.decimal_field == old(self).number_conversion.decimal_field,
            final(self).float_conversion == old(self).float_conversion,
            final(self).text_conversion == old(self).text_conversion,
            final(self).bit_viewer == old(self).bit_viewer,
            final(self).calculator == old(self).calculator,
            r matches BackendRequest::NumberConversion(q) && q.id == old(self).id_counter
                && q.conversion_type == NumberConversionType::Hexadecimal
                && q.input@ == old(self).number_conversion.hex_field.input@,
    {
        let id = self.next_id();
        self.number_conversion.hex_field.pending_id = Some(id);
        self.number_conversion.hex_field.error = None;
        BackendRequest::NumberConversion(NumberConversionRequest {
            id,
            conversion_type: NumberConversionType::Hexadecimal,
            input: self.number_conversion.hex_field.input.clone(),
        })
    }

    /// Marks one text field (text to hex when `ascii_to_hex`, else hex to
    /// text) as waiting for a fresh request and returns that request.
    pub fn request_text_conversion(&mut self, ascii_to_hex: bool) -> (r: BackendRequest)
        ensures
            final(self).id_counter == next_id_after(old(self).id_counter),
            ascii_to_hex ==> final(self).text_conversion.ascii_to_hex == (TextConversionField {
                pending_id: Some(old(self).id_counter),
                error: None,
                ..old(self).text_conversion.ascii_to_hex
            }) && final(self).text_conversion.hex_to_ascii == old(self).text_conversion.hex_to_ascii,
            !ascii_to_hex ==> final(self).text_conversion.hex_to_ascii == (TextConversionField {
                pending_id: Some(old(self).id_counter),
                error: None,
                ..old(self).text_conversion.hex_to_ascii
            }) && final(self).text_conversion.ascii_to_hex == old(self).text_conversion.ascii_to_hex,
            final(self).number_conversion == old(self).number_conversion,
            final(self).float_conversion == old(self).float_conversion,
            final(self).bit_viewer == old(self).bit_viewer,
            final(self).calculator == old(self).calculator,
            r matches BackendRequest::TextConversion(q) && q.id == old(self).id_counter
                && q.conversion_type == (if ascii_to_hex { TextConversionType::AsciiToHex } else { TextConversionType::HexToAscii })
                && q.input@ == (if ascii_to_hex { old(self).text_conversion.ascii_to_hex.input@ } else { old(self).text_conversion.hex_to_ascii.input@ }),
    {
        let id = self.next_id();
        let field = if ascii_to_hex { &mut self.text_conversion.ascii_to_hex } else { &mut self.text_conversion.hex_to_ascii };
        field.pending_id = Some(id);
        field.error = None;
        let input = field.input.clone();
        BackendRequest::TextConversion(TextConversionRequest {
            id,
            conversion_type: if ascii_to_hex { TextConversionType::AsciiToHex } else { TextConversionType::HexToAscii },
            input,
        })
    }

    /// Marks one float field (float to hex when `f32_to_hex`, else hex to
    /// float) as waiting for a fresh request and returns that request.
    pub fn request_float_conversion(&mut self, f32_to_hex: bool) -> (r: BackendRequest)
        ensures
            final(self).id_counter == next_id_after(old(self).id_counter),
            f32_to_hex ==> final(self).float_conversion.f32_to_hex == (FloatConversionField {
                pending_id: Some(old(self).id_counter),
                error: None,
                ..old(self).float_conversion.f32_to_hex
            }) && final(self).float_conversion.hex_to_f32 == old(self).float_conversion.hex_to_f32,
            !f32_to_hex ==> final(self).float_conversion.hex_to_f32 == (FloatConversionField {
                pending_id: Some(old(self).id_counter),
                error: None,
                ..old(self).float_conversion.hex_to_f32
            }) && final(self).float_conversion.f32_to_hex == old(self).float_conversion.f32_to_hex,
            final(self).number_conversion == old(self).number_conversion,
            final(self).text_conversion == old(self).text_conversion,
            final(self).bit_viewer == old(self).bit_viewer,
            final(self).calculator == old(self).calculator,
            r matches BackendRequest::FloatConversion(q) && q.id == old(self).id_counter
                && q.conversion_type == (if f32_to_hex { FloatConversionType::F32ToHex } else { FloatConversionType::HexToF32 })
                && q.input@ == (if f32_to_hex { old(self).float_conversion.f32_to_hex.input@ } else { old(self).float_conversion.hex_to_f32.input@ }),
    {
        let id = self.next_id();
        let field = if f32_to_hex { &mut self.float_conversion.f32_to_hex } else { &mut self.float_conversion.hex_to_f32 };
        field.pending_id = Some(id);
        field.error = None;
        let input = field.input.clone();
        BackendRequest::FloatConversion(FloatConversionRequest {
            id,
            conversion_type: if f32_to_hex { FloatConversionType::F32ToHex } else { FloatConversionType::HexToF32 },
            input,
        })
    }

    /// Asks for the bits of the hex input.
    pub fn request_bit_viewer_parse(&mut self) -> (r: BackendRequest)
        ensures
            final(self).id_counter == next_id_after(old(self).id_counter),
            final(self).bit_viewer == (BitViewerState {
                pending_id: Some(old(self).id_counter),
                error: None,
                ..old(self).bit_viewer
            }),
            final(self).number_conversion == old(self).number_conversion,
            final(self).float_conversion == old(self).float_conversion,
            final(self).text_conversion == old(self).text_conversion,
            final(self).calculator == old(self).calculator,
            r matches BackendRequest::BitViewer(q) && q.id == old(self).id_counter
                && q.operation == BitViewerOperation::ParseHex
                && q.current_bits.is_none()
                && (q.hex_input matches Some(h) && h@ == old(self).bit_viewer.hex_input@),
    {
        let id = self.next_id();
        self.bit_viewer.pending_id = Some(id);
        self.bit_viewer.error = None;
        BackendRequest::BitViewer(BitViewerRequest {
            id,
            operation: BitViewerOperation::ParseHex,
            hex_input: Some(self.bit_viewer.hex_input.clone()),
            current_bits: None,
        })
    }

    /// Asks for the current bits with bit `index` flipped.
    pub fn request_bit_toggle(&mut self, index: usize) -> (r: BackendRequest)
        ensures
            final(self).id_counter == next_id_after(old(self).id_counter),
            final(self).bit_viewer == (BitViewerState { pending_id: Some(old(self).id_counter), ..old(self).bit_viewer }),
            final(self).number_conversion == old(self).number_conversion,
            final(self).float_conversion == old(self).float_conversion,
            final(self).text_conversion == old(self).text_conversion,
            final(self).calculator == old(self).calculator,
            r matches BackendRequest::BitViewer(q) && q.id == old(self).id_counter
                && q.operation == BitViewerOperation::ToggleBit(index)
                && q.hex_input.is_none()
                && (q.current_bits matches Some(b) && b@ == old(self).bit_viewer.binary_bits@),
    {
        let id = self.next_id();
        self.bit_viewer.pending_id = Some(id);
        BackendRequest::BitViewer(BitViewerRequest {
            id,
            operation: BitViewerOperation::ToggleBit(index),
            hex_input: None,
            current_bits: Some(self.bit_viewer.binary_bits.clone()),
        })
    }

    /// Asks for the current bits, all flipped.
    pub fn request_bit_invert_all(&mut self) -> (r: BackendRequest)
        ensures
            final(self).id_counter == next_id_after(old(self).id_counter),
            final(self).bit_viewer == (BitViewerState { pending_id: Some(old(self).id_counter), ..old(self).bit_viewer }),
            final(self).number_conversion == old(self).number_conversion,
            final(self).float_conversion == old(self).float_conversion,
            final(self).text_conversion == old(self).text_conversion,
            final(self).calculator == old(self).calculator,
            r matches BackendRequest::BitViewer(q) && q.id == old(self).id_counter
                && q.operation == BitViewerOperation::InvertAll
                && q.hex_input.is_none()
                && (q.current_bits matches Some(b) && b@ == old(self).bit_viewer.binary_bits@),
    {
        let id = self.next_id();
        self.bit_viewer.pending_id = Some(id);
        BackendRequest::BitViewer(BitViewerRequest {
            id,
            operation: BitViewerOperation::InvertAll,
            hex_input: None,
            current_bits: Some(self.bit_viewer.binary_bits.clone()),
        })
    }

    /// Marks the calculator as waiting for a fresh evaluation of
    /// `decimal_expr` and returns that request.
    pub fn request_calculator_eval(&mut self, decimal_expr: String, radix: u32, original_input: String) -> (r: BackendRequest)
        ensures
            final(self).id_counter == next_id_after(old(self).id_counter),
            final(self).calculator == (CalculatorState {
                pending_id: Some(old(self).id_counter),
                last_error: None,
                ..old(self).calculator
            }),
            final(self).number_conversion == old(self).number_conversion,
            final(self).float_conversion == old(self).float_conversion,
            final(self).text_conversion == old(self).text_conversion,
            final(self).bit_viewer == old(self).bit_viewer,
            r == BackendRequest::Calculator(CalculatorRequest { id: old(self).id_counter, decimal_expr, radix, original_input }),
    {
        let id = self.next_id();
        self.calculator.pending_id = Some(id);
        self.calculator.last_error = None;
        BackendRequest::Calculator(CalculatorRequest { id, decimal_expr, radix, original_input })
    }
}

/// `new` is the number page `old` after the response `r`: it goes to the
/// first field that waits for its identifier, if any.
pub open spec fn number_state_after(old: NumberConversionState, new: NumberConversionState, r: NumberConversionResponse) -> bool {
    if response_applies(old.binary_field.pending_id, r.id) {
        number_field_applied(old.binary_field, new.binary_field, r) && new.decimal_field == old.decimal_field && new.hex_field == old.hex_field
    } else if response_applies(old.decimal_field.pending_id, r.id) {
        number_field_applied(old.decimal_field, new.decimal_field, r) && new.binary_field == old.binary_field && new.hex_field == old.hex_field
    } else if response_applies(old.hex_field.pending_id, r.id) {
        number_field_applied(old.hex_field, new.hex_field, r) && new.binary_field == old.binary_field && new.decimal_field == old.decimal_field
    } else {
        new == old
    }
}

/// `new` is the text page `old` after the response `r`.
pub open spec fn text_state_after(old: TextConversionState, new: TextConversionState, r: TextConversionResponse) -> bool {
    if response_applies(old.ascii_to_hex.pending_id, r.id) {
        new.ascii_to_hex == (TextConversionField { pending_id: None, output: r.output, error: r.error, ..old.ascii_to_hex })
            && new.hex_to_ascii == old.hex_to_ascii
    } else if response_applies(old.hex_to_ascii.pending_id, r.id) {
        new.hex_to_ascii == (TextConversionField { pending_id: None, output: r.output, error: r.error, ..old.hex_to_ascii })
            && new.ascii_to_hex == old.ascii_to_hex
    } else {
        new == old
    }
}

/// `new` is the float page `old` after the response `r`; only the decoding
/// field shows an analysis.
pub open spec fn float_state_after(old: FloatConversionState, new: FloatConversionState, r: FloatConversionResponse) -> bool {
    if response_applies(old.f32_to_hex.pending_id, r.id) {
        new.f32_to_hex == (FloatConversionField { pending_id: None, output: r.output, error: r.error, ..old.f32_to_hex })
            && new.hex_to_f32 == old.hex_to_f32
    } else if response_applies(old.hex_to_f32.pending_id, r.id) {
        new.hex_to_f32 == (FloatConversionField { pending_id: None, output: r.output, analysis: r.analysis, error: r.error, ..old.hex_to_f32 })
            && new.f32_to_hex == old.f32_to_hex
    } else {
        new == old
    }
}

/// `new` is the bit viewer `old` after the response `r`.
pub open spec fn bit_viewer_after(old: BitViewerState, new: BitViewerState, r: BitViewerResponse) -> bool {
    if response_applies(old.pending_id, r.id) {
        new == (BitViewerState { pending_id: None, hex_input: r.hex_input, binary_bits: r.binary_bits, error: r.error, ..old })
    } else {
        new == old
    }
}

/// `new` is the calculator `old` after the response `r`.
pub open spec fn calculator_after<V>(old: CalculatorState<V>, new: CalculatorState<V>, r: CalculatorResponse<V>) -> bool {
    if response_applies(old.pending_id, r.id) {
        calculator_applied(old, new, r)
    } else {
        new == old
    }
}

/// `new` is `old` after the response `resp`: the page it belongs to changes
/// as above, every other page stays as it was.
pub open spec fn response_handled<V>(old: FrontendState<V>, new: FrontendState<V>, resp: BackendResponse<V>) -> bool {
    &&& new.id_counter == old.id_counter
    &&& match resp {
        BackendResponse::NumberConversion(r) => number_state_after(old.number_conversion, new.number_conversion, r)
            && new.float_conversion == old.float_conversion && new.text_conversion == old.text_conversion
            && new.bit_viewer == old.bit_viewer && new.calculator == old.calculator,
        BackendResponse::TextConversion(r) => text_state_after(old.text_conversion, new.text_conversion, r)
            && new.number_conversion == old.number_conversion && new.float_conversion == old.float_conversion
            && new.bit_viewer == old.bit_viewer && new.calculator == old.calculator,
        BackendResponse::FloatConversion(r) => float_state_after(old.float_conversion, new.float_conversion, r)
            && new.number_conversion == old.number_conversion && new.text_conversion == old.text_conversion
            && new.bit_viewer == old.bit_viewer && new.calculator == old.calculator,
        BackendResponse::BitViewer(r) => bit_viewer_after(old.bit_viewer, new.bit_viewer, r)
            && new.number_conversion == old.number_conversion && new.float_conversion == old.float_conversion
            && new.text_conversion == old.text_conversion && new.calculator == old.calculator,
        BackendResponse::Calculator(r) => calculator_after(old.calculator, new.calculator, r)
            && new.number_conversion == old.number_conversion && new.float_conversion == old.float_conversion
            && new.text_conversion == old.text_conversion && new.bit_viewer == old.bit_viewer,
    }
}

impl<V> CalculatorState<V> {
    /// Applies an evaluation outcome whose identifier this calculator waits
    /// for; any other outcome changes nothing.
    pub fn apply_response(&mut self, r: CalculatorResponse<V>)
        requires
            old(self).wf(),
        ensures
            final(self).wf(),
            calculator_after(*old(self), *final(self), r),
    {
        if self.pending_id != Some(r.id) {
            return;
        }
        self.pending_id = None;
        match r.error {
            Some(e) => {
                self.last_error = Some(e);
            },
            None => match r.value {
                Some(v) => {
                    self.last_value = Some(v);
                    self.last_error = None;
                    self.output = r.output.clone();
                    let entry = CalculatorHistoryEntry {
                        radix: r.radix,
                        input: r.original_input,
                        decimal_expr: r.decimal_expr,
                        output: r.output,
                        error: None,
                    };
                    push_history(&mut self.history, entry);
                },
                None => {},
            },
        }
    }
}

impl<V> FrontendState<V> {
    /// Applies a response from the worker to the field that waits for its
    /// identifier; a response that no field waits for changes nothing.
    pub fn handle_response(&mut self, resp: BackendResponse<V>)
        requires
            old(self).wf(),
        ensures
            final(self).wf(),
            response_handled(*old(self), *final(self), resp),
    {
        match resp {
            BackendResponse::NumberConversion(r) => {
                if self.number_conversion.binary_field.pending_id == Some(r.id) {
                    apply_number(&mut self.number_conversion.binary_field, r);
                } else if self.number_conversion.decimal_field.pending_id == Some(r.id) {
                    apply_number(&mut self.number_conversion.decimal_field, r);
                } else if self.number_conversion.hex_field.pending_id == Some(r.id) {
                    apply_number(&mut self.number_conversion.hex_field, r);
                }
            },
            BackendResponse::TextConversion(r) => {
                if self.text_conversion.ascii_to_hex.pending_id == Some(r.id) {
                    self.text_conversion.ascii_to_hex.pending_id = None;
                    self.text_conversion.ascii_to_hex.output = r.output;
                    self.text_conversion.ascii_to_hex.error = r.error;
                } else if self.text_conversion.hex_to_ascii.pending_id == Some(r.id) {
                    self.text_conversion.hex_to_ascii.pending_id = None;
                    self.text_conversion.hex_to_ascii.output = r.output;
                    self.text_conversion.hex_to_ascii.error = r.error;
                }
            },
            BackendResponse::FloatConversion(r) => {
                if self.float_conversion.f32_to_hex.pending_id == Some(r.id) {
                    self.float_conversion.f32_to_hex.pending_id = None;
                    self.float_conversion.f32_to_hex.output = r.output;
                    self.float_conversion.f32_to_hex.error = r.error;
                } else if self.float_conversion.hex_to_f32.pending_id == Some(r.id) {
                    self.float_conversion.hex_to_f32.pending_id = None;
                    self.float_conversion.hex_to_f32.output = r.output;
                    self.float_conversion.hex_to_f32.analysis = r.analysis;
                    self.float_conversion.hex_to_f32.error = r.error;
                }
            },
            BackendResponse::BitViewer(r) => {
                if self.bit_viewer.pending_id == Some(r.id) {
                    self.bit_viewer.pending_id = None;
                    self.bit_viewer.hex_input = r.hex_input;
                    self.bit_viewer.binary_bits = r.binary_bits;
                    self.bit_viewer.error = r.error;
                }
            },
            BackendResponse::Calculator(r) => {
                self.calculator.apply_response(r);
            },
        }
    }
}

/// A response to a superseded calculator request changes nothing: after
/// request A and then request B, with no response in between, the response
/// to A is dropped whatever it holds, and the response to B is applied.
pub proof fn lemma_latest_request_wins<V>(
    s0: FrontendState<V>,
    s1: FrontendState<V>,
    s2: FrontendState<V>,
    s3: FrontendState<V>,
    stale: CalculatorResponse<V>,
)
    requires
        s1.calculator.pending_id == Some(s0.id_counter),
        s1.id_counter == next_id_after(s0.id_counter),
        s2.calculator.pending_id == Some(s1.id_counter),
        s2.id_counter == next_id_after(s1.id_counter),
        stale.id == s0.id_counter,
        response_handled(s2, s3, BackendResponse::Calculator(stale)),
    ensures
        s3.calculator == s2.calculator,
        s3.number_conversion == s2.number_conversion,
        s3.float_conversion == s2.float_conversion,
        s3.text_conversion == s2.text_conversion,
        s3.bit_viewer == s2.bit_viewer,
        s3.id_counter == s2.id_counter,
        response_applies(s2.calculator.pending_id, s1.id_counter),
{
}

} // verus!
