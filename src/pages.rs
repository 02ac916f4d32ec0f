//! Page-level state that needs no drawing: which page is shown, the fields
//! of the conversion pages, the font settings, and a plain output holder.

use vstd::prelude::*;
use crate::base_converter::BaseConverter;
use crate::conversion_data::ConversionData;
use crate::formatting::{group_number, grouped_number};
use crate::text::{chars_of, string_of};
use crate::text_converter::TextConverter;

verus! {

/// The pages of the application.
#[derive(Debug, Clone, Copy, PartialEq, Eq, Structural)]
pub enum AppPage {
    NumberConversion,
    TextConversion,
    BitViewer,
}

impl AppPage {
    /// The page's title.
    pub fn display_name(&self) -> (r: &'static str)
        ensures
            *self == AppPage::NumberConversion ==> r@ == "进制转换"@,
            *self == AppPage::TextConversion ==> r@ == "字符转换"@,
            *self == AppPage::BitViewer ==> r@ == "bit查看"@,
    {
        match self {
            AppPage::NumberConversion => "进制转换",
            AppPage::TextConversion => "字符转换",
            AppPage::BitViewer => "bit查看",
        }
    }

    /// Every page, in navigation order.
    pub fn all() -> (r: Vec<AppPage>)
        ensures
            r@ == seq![AppPage::NumberConversion, AppPage::TextConversion, AppPage::BitViewer],
    {
        vec![AppPage::NumberConversion, AppPage::TextConversion, AppPage::BitViewer]
    }
}

impl Default for AppPage {
    fn default() -> (r: Self)
        ensures
            r == AppPage::NumberConversion,
    {
        AppPage::NumberConversion
    }
}

/// Which page is shown.
pub struct NavigationComponent {
    current_page: AppPage,
}

impl NavigationComponent {
    /// The page shown.
    pub closed spec fn page(&self) -> AppPage {
        self.current_page
    }

    /// Starts on the number conversion page.
    pub fn new() -> (r: Self)
        ensures
            r.page() == AppPage::NumberConversion,
    {
        NavigationComponent { current_page: AppPage::NumberConversion }
    }

    /// The page shown.
    pub fn current_page(&self) -> (r: AppPage)
        ensures
            r == self.page(),
    {
        self.current_page
    }

    /// Shows `page`.
    pub fn set_current_page(&mut self, page: AppPage)
        ensures
            final(self).page() == page,
    {
        self.current_page = page;
    }
}

/// Where the interface font comes from.
#[derive(Debug, Clone)]
pub struct FontConfig {
    pub font_path: String,
    pub font_name: String,
}

impl Default for FontConfig {
    fn default() -> (r: Self)
        ensures
            r.font_path@ == "assets/fonts/STSong.ttf"@,
            r.font_name@ == "Song"@,
    {
        FontConfig { font_path: String::from_str("assets/fonts/STSong.ttf"), font_name: String::from_str("Song") }
    }
}

/// The number conversion page: three integer fields and two float fields.
pub struct NumberConversionPage {
    pub binary_data: ConversionData,
    pub decimal_data: ConversionData,
    pub hex_data: ConversionData,
    pub f32_to_hex_data: ConversionData,
    pub hex_to_f32_data: ConversionData,
}

impl NumberConversionPage {
    /// Every field empty.
    pub fn new() -> (r: Self)
        ensures
            r.binary_data@.raw.len() == 0,
            r.decimal_data@.raw.len() == 0,
            r.hex_data@.raw.len() == 0,
            r.f32_to_hex_data@.raw.len() == 0,
            r.hex_to_f32_data@.raw.len() == 0,
    {
        NumberConversionPage {
            binary_data: ConversionData::new(),
            decimal_data: ConversionData::new(),
            hex_data: ConversionData::new(),
            f32_to_hex_data: ConversionData::new(),
            hex_to_f32_data: ConversionData::new(),
        }
    }

    /// Empties every field.
    pub fn clear_all(&mut self)
        ensures
            final(self).binary_data@.raw.len() == 0,
            final(self).decimal_data@.raw.len() == 0,
            final(self).hex_data@.raw.len() == 0,
            final(self).f32_to_hex_data@.raw.len() == 0,
            final(self).hex_to_f32_data@.raw.len() == 0,
    {
        self.binary_data = ConversionData::new();
        self.decimal_data = ConversionData::new();
        self.hex_data = ConversionData::new();
        self.f32_to_hex_data = ConversionData::new();
        self.hex_to_f32_data = ConversionData::new();
    }

    /// Fills every field with an example and converts the integer ones; the
    /// float fields are converted by whoever can compute with floats.
    pub fn load_examples(&mut self)
        ensures
            final(self).binary_data@.raw == "11111111"@,
            final(self).decimal_data@.raw == "255"@,
            final(self).hex_data@.raw == "FF"@,
            final(self).f32_to_hex_data@.raw == "3.14159"@,
            final(self).hex_to_f32_data@.raw == "40490FDB"@,
    {
        self.binary_data.set_input(String::from_str("11111111"));
        let _ = BaseConverter::from_binary(&mut self.binary_data);
        self.decimal_data.set_input(String::from_str("255"));
        let _ = BaseConverter::from_decimal(&mut self.decimal_data);
        self.hex_data.set_input(String::from_str("FF"));
        let _ = BaseConverter::from_hexadecimal(&mut self.hex_data);
        self.f32_to_hex_data.set_input(String::from_str("3.14159"));
        self.hex_to_f32_data.set_input(String::from_str("40490FDB"));
    }
}

/// The text conversion page.
pub struct TextConversionPage {
    pub ascii_to_hex_data: ConversionData,
    pub hex_to_ascii_data: ConversionData,
}

impl TextConversionPage {
    /// Both fields empty.
    pub fn new() -> (r: Self)
        ensures
            r.ascii_to_hex_data@.raw.len() == 0,
            r.hex_to_ascii_data@.raw.len() == 0,
    {
        TextConversionPage { ascii_to_hex_data: ConversionData::new(), hex_to_ascii_data: ConversionData::new() }
    }

    /// Empties both fields.
    pub fn clear_all(&mut self)
        ensures
            final(self).ascii_to_hex_data@.raw.len() == 0,
            final(self).hex_to_ascii_data@.raw.len() == 0,
    {
        self.ascii_to_hex_data = ConversionData::new();
        self.hex_to_ascii_data = ConversionData::new();
    }

    /// Fills both fields with an example and converts them.
    pub fn load_examples(&mut self)
        ensures
            final(self).ascii_to_hex_data@.raw == "Hello World!"@,
            final(self).hex_to_ascii_data@.raw == "48 65 6C 6C 6F 20 57 6F 72 6C 64 21"@,
    {
        self.ascii_to_hex_data.set_input(String::from_str("Hello World!"));
        let _ = TextConverter::ascii_to_hex(&mut self.ascii_to_hex_data);
        self.hex_to_ascii_data.set_input(String::from_str("48 65 6C 6C 6F 20 57 6F 72 6C 64 21"));
        let _ = TextConverter::hex_to_ascii(&mut self.hex_to_ascii_data);
    }
}

/// The state of a plain conversion.
#[derive(Debug, Clone, Copy, PartialEq, Eq, Structural)]
pub enum DataError {
    FormatError,
    LenNull,
    LenOver,
    Nice,
}

/// A plain input and output pair with a state.
pub struct Data {
    pub input_data: String,
    pub output_data: String,
    pub data_error: DataError,
}

impl Data {
    /// Empty input and output, no error.
    pub fn new() -> (r: Data)
        ensures
            r.input_data@.len() == 0,
            r.output_data@.len() == 0,
            r.data_error == DataError::Nice,
    {
        Data { input_data: String::new(), output_data: String::new(), data_error: DataError::Nice }
    }

    /// The input, for editing in place.
    pub fn ref_input_data(&mut self) -> (r: &mut String)
        ensures
            *r == old(self).input_data,
            final(self).input_data == *final(r),
            final(self).output_data == old(self).output_data,
            final(self).data_error == old(self).data_error,
    {
        &mut self.input_data
    }

    /// Replaces the output.
    pub fn set_output_data(&mut self, output_data: String)
        ensures
            final(self).output_data == output_data,
            final(self).input_data == old(self).input_data,
            final(self).data_error == old(self).data_error,
    {
        self.output_data = output_data;
    }

    /// The output grouped by fours with `_` from the right, before its
    /// first point.
    pub fn get_output_data(&self) -> (r: String)
        ensures
            r@ == grouped_number(self.output_data@, '_', 4),
    {
        let s = chars_of(self.output_data.as_str());
        string_of(&group_number(&s, '_', 4))
    }

    /// The state.
    pub fn get_data_error(&self) -> (r: &DataError)
        ensures
            *r == self.data_error,
    {
        &self.data_error
    }

    /// Replaces the state.
    pub fn set_data_error(&mut self, data_error: DataError)
        ensures
            final(self).data_error == data_error,
            final(self).input_data == old(self).input_data,
            final(self).output_data == old(self).output_data,
    {
        self.data_error = data_error;
    }
}

} // verus!
