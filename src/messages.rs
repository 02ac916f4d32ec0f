//! Requests that the interface sends to the compute worker, and the responses
//! that come back. Each carries the identifier of its request.

use vstd::prelude::*;

verus! {

/// Which field a number conversion reads.
#[derive(Debug, Clone, Copy, PartialEq, Eq, Structural)]
pub enum NumberConversionType {
    Binary,
    Decimal,
    Hexadecimal,
}

/// Convert one number field into all three radixes.
#[derive(Debug, Clone)]
pub struct NumberConversionRequest {
    pub id: u64,
    pub conversion_type: NumberConversionType,
    pub input: String,
}

/// The three renderings of a number, or why there are none.
#[derive(Debug, Clone)]
pub struct NumberConversionResponse {
    pub id: u64,
    pub binary: Option<String>,
    pub decimal: Option<String>,
    pub hexadecimal: Option<String>,
    pub error: Option<String>,
}

/// The direction of a text conversion.
#[derive(Debug, Clone, Copy, PartialEq, Eq, Structural)]
pub enum TextConversionType {
    AsciiToHex,
    HexToAscii,
}

/// Convert text to hex bytes or back.
#[derive(Debug, Clone)]
pub struct TextConversionRequest {
    pub id: u64,
    pub conversion_type: TextConversionType,
    pub input: String,
}

/// The converted text.
#[derive(Debug, Clone)]
pub struct TextConversionResponse {
    pub id: u64,
    pub output: String,
    pub error: Option<String>,
}

/// The direction of a single-precision float conversion.
#[derive(Debug, Clone, Copy, PartialEq, Eq, Structural)]
pub enum FloatConversionType {
    F32ToHex,
    HexToF32,
}

/// Convert a float to its bit pattern or back.
#[derive(Debug, Clone)]
pub struct FloatConversionRequest {
    pub id: u64,
    pub conversion_type: FloatConversionType,
    pub input: String,
}

/// The converted float, with a field-by-field analysis when decoding.
#[derive(Debug, Clone)]
pub struct FloatConversionResponse {
    pub id: u64,
    pub output: String,
    pub analysis: Option<String>,
    pub error: Option<String>,
}

/// What the bit viewer is asked to do.
#[derive(Debug, Clone, Copy, PartialEq, Eq, Structural)]
pub enum BitViewerOperation {
    ParseHex,
    ToggleBit(usize),
    InvertAll,
}

/// A bit viewer operation on hex text or on the current bits.
#[derive(Debug, Clone)]
pub struct BitViewerRequest {
    pub id: u64,
    pub operation: BitViewerOperation,
    pub hex_input: Option<String>,
    pub current_bits: Option<Vec<bool>>,
}

/// The bits after the operation, and their hex text.
#[derive(Debug, Clone)]
pub struct BitViewerResponse {
    pub id: u64,
    pub hex_input: String,
    pub binary_bits: Vec<bool>,
    pub error: Option<String>,
}

/// Evaluate an expression already rewritten in decimal notation.
#[derive(Debug, Clone)]
pub struct CalculatorRequest {
    pub id: u64,
    pub decimal_expr: String,
    pub radix: u32,
    pub original_input: String,
}

/// The outcome of an evaluation. `V` is the evaluator's numeric value; a
/// value comes with `output`, its rendering in `radix`. Exactly one of
/// `value` and `error` is present.
#[derive(Debug, Clone)]
pub struct CalculatorResponse<V> {
    pub id: u64,
    pub value: Option<V>,
    pub output: String,
    pub error: Option<String>,
    pub radix: u32,
    pub original_input: String,
    pub decimal_expr: String,
}

/// A request to the worker.
#[derive(Debug, Clone)]
pub enum BackendRequest {
    NumberConversion(NumberConversionRequest),
    TextConversion(TextConversionRequest),
    FloatConversion(FloatConversionRequest),
    BitViewer(BitViewerRequest),
    Calculator(CalculatorRequest),
    Shutdown,
}

/// A response from the worker.
#[derive(Debug, Clone)]
pub enum BackendResponse<V> {
    NumberConversion(NumberConversionResponse),
    TextConversion(TextConversionResponse),
    FloatConversion(FloatConversionResponse),
    BitViewer(BitViewerResponse),
    Calculator(CalculatorResponse<V>),
}

} // verus!
