//! Number conversion toolkit: radix-aware expression normalisation, radix
//! formatting of computed values, request correlation with a bounded
//! calculation history, and the plain conversions behind each input field.

pub mod text;
pub mod radix;
pub mod token;
pub mod expr;
pub mod messages;
pub mod history;
pub mod frontend;
pub mod worker;
pub mod format;
pub mod errors;
pub mod validation;
pub mod formatting;
pub mod validators;
pub mod conversion_data;
pub mod text_converter;
pub mod base_converter;
pub mod pages;
pub mod bit_data;
