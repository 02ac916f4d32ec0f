//! The bit viewer's model: hex text, the bits it encodes, and the field
//! widths the bits are grouped by.

use vstd::prelude::*;
use crate::errors::{all_space, bad_digit_error, first_bad_digit, is_blank, is_digit_of, lemma_first_bad_digit, validate_radix_chars, ConversionError};
use crate::frontend::{default_widths, field_groups, groups_of, parse_widths, parsed_widths};
use crate::radix::{digit_of, digit_value};
use crate::text::{chars_of, remove_chars, remove_chars_of, string_of, to_upper, upper_of};
use crate::worker::{bits_hex, hex_bits, nibble_bits, BackendWorker};

verus! {

/// What a `BitViewerData` holds, as values.
pub struct BitViewerDataView {
    pub hex_input: Seq<char>,
    pub widths_input: Seq<char>,
    pub widths: Seq<usize>,
    pub bits: Seq<bool>,
    pub error: Option<ConversionError>,
}

/// The bit viewer's model.
#[derive(Debug, Clone)]
pub struct BitViewerData {
    hex_input: String,
    field_widths_input: String,
    field_widths: Vec<usize>,
    binary_bits: Vec<bool>,
    last_error: Option<ConversionError>,
}

impl View for BitViewerData {
    type V = BitViewerDataView;

    closed spec fn view(&self) -> BitViewerDataView {
        BitViewerDataView {
            hex_input: self.hex_input@,
            widths_input: self.field_widths_input@,
            widths: self.field_widths@,
            bits: self.binary_bits@,
            error: self.last_error,
        }
    }
}

/// The hex digits that typed hex text gives: without spaces and `_`, in upper case.
pub open spec fn hex_digits_of(input: Seq<char>) -> Seq<char> {
    upper_of(remove_chars(input, seq![' ', '_']))
}

/// `new` is `old` after its bits were read again from the hex text `input`:
/// blank text or a character that is no hex digit clears the bits and
/// records the error.
pub open spec fn bits_read(old: BitViewerDataView, new: BitViewerDataView, input: Seq<char>) -> bool {
    let h = hex_digits_of(input);
    &&& new.hex_input == input
    &&& new.widths_input == old.widths_input
    &&& new.widths == old.widths
    &&& if all_space(h) {
        new.bits.len() == 0 && new.error == Some(ConversionError::EmptyInput)
    } else if first_bad_digit(h, 16) < h.len() {
        new.bits.len() == 0 && (new.error matches Some(e) && bad_digit_error(h[first_bad_digit(h, 16)], 16, e))
    } else {
        new.bits == hex_bits(h) && new.error.is_none()
    }
}

fn bits_of_hex(h: &Vec<char>) -> (r: Vec<bool>)
    requires
        forall|k: int| 0 <= k < h@.len() ==> is_digit_of(#[trigger] h@[k], 16),
    ensures
        r@ == hex_bits(h@),
{
    let mut bits: Vec<bool> = Vec::new();
    let mut k: usize = 0;
    while k < h.len()
        invariant
            k <= h@.len(),
            forall|m: int| 0 <= m < h@.len() ==> is_digit_of(#[trigger] h@[m], 16),
            bits@ == hex_bits(h@.subrange(0, k as int)),
        decreases h@.len() - k,
    {
        let ghost pre = h@.subrange(0, k as int);
        let ghost next = h@.subrange(0, k + 1);
        assert(next.drop_last() =~= pre);
        assert(is_digit_of(h@[k as int], 16));
        let d = digit_of(h[k]);
        let ghost before = bits@;
        bits.push(d / 8 % 2 == 1);
        bits.push(d / 4 % 2 == 1);
        bits.push(d / 2 % 2 == 1);
        bits.push(d % 2 == 1);
        assert(bits@ =~= before + nibble_bits(digit_value(h@[k as int])));
        k += 1;
    }
    assert(h@.subrange(0, h@.len() as int) =~= h@);
    bits
}

impl BitViewerData {
    /// No hex text, no bits, eight fields of four bits.
    pub fn new() -> (r: Self)
        ensures
            r@.hex_input.len() == 0,
            r@.widths_input == "4 4 4 4 4 4 4 4"@,
            r@.widths == default_widths(),
            r@.bits.len() == 0,
            r@.error.is_none(),
    {
        BitViewerData {
            hex_input: String::new(),
            field_widths_input: String::from_str("4 4 4 4 4 4 4 4"),
            field_widths: vec![4, 4, 4, 4, 4, 4, 4, 4],
            binary_bits: Vec::new(),
            last_error: None,
        }
    }

    fn update_binary_bits(&mut self)
        ensures
            bits_read(old(self)@, final(self)@, old(self)@.hex_input),
    {
        self.last_error = None;
        let s = chars_of(self.hex_input.as_str());
        let seps: [char; 2] = [' ', '_'];
        assert(seps@ =~= seq![' ', '_']);
        let compact = remove_chars_of(&s, &seps);
        let upper = to_upper(string_of(&compact).as_str());
        proof {
            lemma_first_bad_digit(upper@, 16);
        }
        if is_blank(upper.as_str()) {
            self.last_error = Some(ConversionError::EmptyInput);
            self.binary_bits = Vec::new();
            return;
        }
        match validate_radix_chars(upper.as_str(), 16) {
            Err(e) => {
                self.last_error = Some(e);
                self.binary_bits = Vec::new();
                return;
            },
            Ok(()) => {},
        }
        let h = chars_of(upper.as_str());
        self.binary_bits = bits_of_hex(&h);
    }

    fn update_hex_from_bits(&mut self)
        requires
            old(self)@.bits.len() + 3 <= usize::MAX,
        ensures
            final(self)@ == (BitViewerDataView {
                hex_input: if old(self)@.bits.len() == 0 { old(self)@.hex_input } else { bits_hex(old(self)@.bits) },
                ..old(self)@
            }),
    {
        if self.binary_bits.len() == 0 {
            return;
        }
        self.hex_input = BackendWorker::bits_to_hex(&self.binary_bits);
    }

    /// Takes new hex text and reads the bits from it.
    pub fn set_hex_input(&mut self, input: String)
        ensures
            bits_read(old(self)@, final(self)@, input@),
    {
        self.hex_input = input;
        self.update_binary_bits();
    }

    /// The hex text.
    pub fn hex_input(&self) -> (r: &str)
        ensures
            r@ == self@.hex_input,
    {
        self.hex_input.as_str()
    }

    /// The hex text, for editing in place; the bits are not read again.
    pub fn hex_input_mut(&mut self) -> (r: &mut String)
        ensures
            r@ == old(self)@.hex_input,
            final(self)@ == (BitViewerDataView { hex_input: final(r)@, ..old(self)@ }),
    {
        &mut self.hex_input
    }

    /// The field widths as typed, for editing in place; the widths are not
    /// read again.
    pub fn field_widths_input_mut(&mut self) -> (r: &mut String)
        ensures
            r@ == old(self)@.widths_input,
            final(self)@ == (BitViewerDataView { widths_input: final(r)@, ..old(self)@ }),
    {
        &mut self.field_widths_input
    }

    /// Takes new field widths as text and reads them.
    pub fn set_field_widths_input(&mut self, input: String)
        ensures
            final(self)@ == (BitViewerDataView { widths_input: input@, widths: parsed_widths(input@), ..old(self)@ }),
    {
        self.field_widths = parse_widths(input.as_str());
        self.field_widths_input = input;
    }

    /// The field widths as typed.
    pub fn field_widths_input(&self) -> (r: &str)
        ensures
            r@ == self@.widths_input,
    {
        self.field_widths_input.as_str()
    }

    /// The field widths.
    pub fn field_widths(&self) -> (r: &[usize])
        ensures
            r@ == self@.widths,
    {
        self.field_widths.as_slice()
    }

    /// The bits, most significant first.
    pub fn binary_bits(&self) -> (r: &[bool])
        ensures
            r@ == self@.bits,
    {
        self.binary_bits.as_slice()
    }

    /// Flips bit `index`, if there is one, and writes the hex text again.
    pub fn toggle_bit(&mut self, index: usize)
        requires
            old(self)@.bits.len() + 3 <= usize::MAX,
        ensures
            index < old(self)@.bits.len() ==> final(self)@ == (BitViewerDataView {
                bits: old(self)@.bits.update(index as int, !old(self)@.bits[index as int]),
                hex_input: bits_hex(old(self)@.bits.update(index as int, !old(self)@.bits[index as int])),
                ..old(self)@
            }),
            index >= old(self)@.bits.len() ==> final(self)@ == old(self)@,
    {
        if index < self.binary_bits.len() {
            let flipped = !self.binary_bits[index];
            self.binary_bits.set(index, flipped);
            self.update_hex_from_bits();
        }
    }

    /// The last error, if any.
    pub fn last_error(&self) -> (r: Option<&ConversionError>)
        ensures
            match r {
                Some(e) => self@.error == Some(*e),
                None => self@.error.is_none(),
            },
    {
        match &self.last_error {
            Some(e) => Some(e),
            None => None,
        }
    }

    /// Whether an error is recorded.
    pub fn has_error(&self) -> (r: bool)
        ensures
            r == self@.error.is_some(),
    {
        self.last_error.is_some()
    }

    /// Drops the hex text, the bits and the error; the widths stay.
    pub fn clear(&mut self)
        ensures
            final(self)@ == (BitViewerDataView { hex_input: Seq::<char>::empty(), bits: Seq::<bool>::empty(), error: None, ..old(self)@ }),
    {
        self.hex_input = String::new();
        self.binary_bits = Vec::new();
        self.last_error = None;
        assert(self@.hex_input =~= Seq::<char>::empty());
        assert(self@.bits =~= Seq::<bool>::empty());
    }

    /// Loads the example `A1B2C3D4`.
    pub fn set_example(&mut self)
        ensures
            bits_read(old(self)@, final(self)@, "A1B2C3D4"@),
    {
        self.set_hex_input(String::from_str("A1B2C3D4"));
    }

    /// How the bits split into fields: each width in turn takes its bits or
    /// what is left, and any bits beyond all the widths form one more field.
    pub fn calculate_field_groups(&self) -> (r: Vec<usize>)
        ensures
            r@ == field_groups(self@.widths, self@.bits.len()),
    {
        groups_of(&self.field_widths, self.binary_bits.len())
    }
}

impl Default for BitViewerData {
    fn default() -> (r: Self)
        ensures
            r@.bits.len() == 0,
            r@.widths == default_widths(),
    {
        Self::new()
    }
}

} // verus!
