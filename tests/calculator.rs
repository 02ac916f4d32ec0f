use number_conversion::expr::{convert_expr_from_base, is_valid_input_char};
use number_conversion::format::{join_radix_parts, trim_float};
use number_conversion::frontend::FrontendState;
use number_conversion::messages::{
    BackendRequest, BackendResponse, BitViewerOperation, BitViewerRequest, CalculatorRequest, CalculatorResponse,
    NumberConversionRequest, NumberConversionType, TextConversionRequest, TextConversionType,
};
use number_conversion::radix::{format_radix, format_radix_hex, format_value_in_radix, is_digit_in_radix};
use number_conversion::token::{convert_number_token, NormalizeError};
use number_conversion::worker::{BackendWorker, EvalOutcome, WorkerStep};

fn norm(expr: &str, radix: u32) -> Result<String, NormalizeError> {
    convert_expr_from_base(expr, radix)
}

#[test]
fn implicit_multiplication() {
    assert_eq!(norm("2(3+1)", 10).unwrap(), "2*(3+1)");
    assert_eq!(norm("2pi", 10).unwrap(), "2*pi");
    assert_eq!(norm("sin(0)", 10).unwrap(), "sin(0)");
    assert_eq!(norm("(1+2)(3+4)", 10).unwrap(), "(1+2)*(3+4)");
    assert_eq!(norm("x(1+y)", 10).unwrap(), "x*(1+y)");
    assert_eq!(norm("SQRT(4)", 10).unwrap(), "SQRT(4)");
}

#[test]
fn literals_in_other_radixes() {
    assert_eq!(norm("A+B", 16).unwrap(), "10+11");
    assert_eq!(norm("FF", 16).unwrap(), "255");
    assert_eq!(norm("1010+1111", 2).unwrap(), "10+15");
    assert_eq!(norm("17 * 2", 8).unwrap(), "15*2");
    assert_eq!(norm("1_000", 10).unwrap(), "1000");
}

#[test]
fn unary_and_binary_minus() {
    assert_eq!(norm("-5+3", 10).unwrap(), "-5+3");
    assert_eq!(norm("3-5", 10).unwrap(), "3-5");
    assert_eq!(norm("2*(-F)", 16).unwrap(), "2*(-15)");
    assert_eq!(norm("max(1,-1)", 10).unwrap(), "max(1,-1)");
}

#[test]
fn normalizer_errors() {
    assert_eq!(norm("1.2.3", 10), Err(NormalizeError::MultipleDecimalPoints));
    assert_eq!(convert_number_token("G", 16), Err(NormalizeError::DigitOutOfRadix { radix: 16 }));
    assert_eq!(norm("-", 10), Err(NormalizeError::UnaryMinusMissingDigits));
    assert_eq!(norm("1.", 10), Err(NormalizeError::MalformedDecimal));
    assert_eq!(norm("3 # 4", 10), Err(NormalizeError::UnsupportedCharacter { c: '#' }));
    assert_eq!(norm("1.5", 2), Err(NormalizeError::UnsupportedCharacter { c: '.' }));
    assert_eq!(convert_number_token("-", 10), Err(NormalizeError::InvalidNumber));
    assert_eq!(
        norm("FFFFFFFFFFFFFFFFFFFFFFFFFFFFFFFFF", 16),
        Err(NormalizeError::ParseFailed)
    );
}

#[test]
fn letters_above_radix_ten() {
    assert_eq!(norm("G", 16), Err(NormalizeError::DigitOutOfRadix { radix: 16 }));
    assert_eq!(norm("A+x", 16), Err(NormalizeError::DigitOutOfRadix { radix: 16 }));
    assert_eq!(norm("2pi", 16).unwrap(), "2*pi");
    assert_eq!(norm("sin(A)", 16).unwrap(), "sin(10)");
    assert_eq!(norm("zz", 36).unwrap(), "1295");
    assert_eq!(norm("G", 17).unwrap(), "16");
    assert_eq!(norm("x", 10).unwrap(), "x");
}

#[test]
fn decimal_literals_keep_their_digits() {
    assert_eq!(norm("3.25*2", 10).unwrap(), "3.25*2");
    assert_eq!(convert_number_token("1_0.5", 10).unwrap(), "10.5");
}

#[test]
fn digit_classifier() {
    assert!(is_digit_in_radix('7', 8));
    assert!(!is_digit_in_radix('8', 8));
    assert!(is_digit_in_radix('f', 16));
    assert!(!is_digit_in_radix('F', 15));
    assert!(is_digit_in_radix('_', 2));
    assert!(is_digit_in_radix('g', 36));
    assert!(is_digit_in_radix('Z', 36));
    assert!(!is_digit_in_radix('G', 16));
    assert!(is_digit_in_radix('G', 17));
}

#[test]
fn integer_rendering() {
    assert_eq!(format_radix(10, 2), "1010");
    assert_eq!(format_radix(0, 8), "0");
    assert_eq!(format_radix_hex(255), "FF");
    assert_eq!(format_value_in_radix(-255, 16), "-FF");
    assert_eq!(format_value_in_radix(42, 7), "60");
    assert_eq!(format_value_in_radix(42, 40), "42");
    assert_eq!(format_radix(35, 36), "Z");
    assert_eq!(format_value_in_radix(i128::MIN, 10), "-170141183460469231731687303715884105728");
}

#[test]
fn format_then_read_back() {
    for &n in &[0u64, 1, 7, 255, 1 << 40, u64::MAX] {
        for &r in &[2u32, 8, 10, 16] {
            let text = format_value_in_radix(n as i128, r);
            assert_eq!(u64::from_str_radix(&text, r).unwrap(), n);
            assert_eq!(norm(&text, r).unwrap(), n.to_string());
        }
    }
}

#[test]
fn fraction_rendering() {
    assert_eq!(join_radix_parts(false, 0, &vec![5, 5, 5, 5], 16), "0.5555");
    assert_eq!(join_radix_parts(true, 2, &vec![1], 2), "-10.1");
    assert_eq!(join_radix_parts(false, 10, &vec![], 16), "A");
    assert_eq!(trim_float("1.500000000000"), "1.5");
    assert_eq!(trim_float("2.000000000000"), "2");
    assert_eq!(trim_float("100"), "100");
}

fn calc_request(state: &mut FrontendState<f64>, input: &str) -> CalculatorRequest {
    match state.request_calculator_eval(input.to_string(), 10, input.to_string()) {
        BackendRequest::Calculator(req) => req,
        _ => panic!("expected a calculator request"),
    }
}

fn answer(req: CalculatorRequest, value: f64) -> BackendResponse<f64> {
    let output = format!("{}", value);
    BackendResponse::Calculator(BackendWorker::handle_calculator(req, EvalOutcome::Value { value, output }))
}

#[test]
fn history_keeps_the_newest_two_hundred() {
    let mut state: FrontendState<f64> = FrontendState::new();
    for k in 0..250 {
        let req = calc_request(&mut state, &format!("{}", k));
        state.handle_response(answer(req, k as f64));
    }
    assert_eq!(state.calculator.history.len(), 200);
    assert_eq!(state.calculator.history[0].input, "50");
    assert_eq!(state.calculator.history[199].input, "249");
}

#[test]
fn stale_response_is_dropped() {
    let mut state: FrontendState<f64> = FrontendState::new();
    let a = calc_request(&mut state, "1+1");
    let b = calc_request(&mut state, "2+2");
    state.handle_response(answer(a, 2.0));
    assert_eq!(state.calculator.last_value, None);
    assert_eq!(state.calculator.history.len(), 0);
    assert!(state.calculator.pending_id.is_some());
    state.handle_response(answer(b, 4.0));
    assert_eq!(state.calculator.last_value, Some(4.0));
    assert_eq!(state.calculator.output, "4");
    assert_eq!(state.calculator.history.len(), 1);
    assert!(state.calculator.pending_id.is_none());
}

#[test]
fn non_finite_result_is_an_error() {
    let req = CalculatorRequest { id: 3, decimal_expr: "1/0".to_string(), radix: 10, original_input: "1/0".to_string() };
    let resp: CalculatorResponse<f64> = BackendWorker::handle_calculator(req, EvalOutcome::NonFinite);
    assert_eq!(resp.id, 3);
    assert_eq!(resp.value, None);
    assert_eq!(resp.error.as_deref(), Some("计算结果非有限数"));
}

#[test]
fn error_response_keeps_history() {
    let mut state: FrontendState<f64> = FrontendState::new();
    let first = calc_request(&mut state, "1+2");
    state.handle_response(answer(first, 3.0));
    let req = calc_request(&mut state, "asin(2)");
    let resp = BackendWorker::handle_calculator(req, EvalOutcome::Failed("domain error".to_string()));
    state.handle_response(BackendResponse::Calculator(resp));
    assert_eq!(state.calculator.last_error.as_deref(), Some("domain error"));
    assert_eq!(state.calculator.last_value, Some(3.0));
    assert_eq!(state.calculator.output, "3");
    assert_eq!(state.calculator.history.len(), 1);
}

#[test]
fn request_ids_increase() {
    let mut state: FrontendState<f64> = FrontendState::new();
    assert_eq!(state.next_id(), 0);
    assert_eq!(state.next_id(), 1);
    state.id_counter = u64::MAX;
    assert_eq!(state.next_id(), u64::MAX);
    assert_eq!(state.next_id(), 0);
}

#[test]
fn worker_number_conversion() {
    let req = NumberConversionRequest { id: 9, conversion_type: NumberConversionType::Hexadecimal, input: "f f".to_string() };
    let resp = BackendWorker::handle_number_conversion(req);
    assert_eq!(resp.binary.as_deref(), Some("11111111"));
    assert_eq!(resp.decimal.as_deref(), Some("255"));
    assert_eq!(resp.hexadecimal.as_deref(), Some("FF"));
    let bad = NumberConversionRequest { id: 1, conversion_type: NumberConversionType::Binary, input: "12".to_string() };
    let resp = BackendWorker::handle_number_conversion(bad);
    assert_eq!(resp.error.as_deref(), Some("二进制解析失败: invalid digit found in string"));
    let empty = NumberConversionRequest { id: 1, conversion_type: NumberConversionType::Decimal, input: " _ ".to_string() };
    assert_eq!(BackendWorker::handle_number_conversion(empty).error.as_deref(), Some("输入为空"));
    let big = NumberConversionRequest { id: 1, conversion_type: NumberConversionType::Decimal, input: "18446744073709551616".to_string() };
    assert_eq!(
        BackendWorker::handle_number_conversion(big).error.as_deref(),
        Some("十进制解析失败: number too large to fit in target type")
    );
}

#[test]
fn worker_text_conversion() {
    let req = TextConversionRequest { id: 2, conversion_type: TextConversionType::AsciiToHex, input: "Hi!".to_string() };
    assert_eq!(BackendWorker::handle_text_conversion(req).output, "48 69 21");
    let req = TextConversionRequest { id: 2, conversion_type: TextConversionType::HexToAscii, input: "48_69 0a".to_string() };
    assert_eq!(BackendWorker::handle_text_conversion(req).output, "Hi[0x0A]");
    let req = TextConversionRequest { id: 2, conversion_type: TextConversionType::HexToAscii, input: "486".to_string() };
    assert_eq!(BackendWorker::handle_text_conversion(req).error.as_deref(), Some("十六进制长度必须为偶数"));
}

#[test]
fn worker_bit_viewer() {
    let req = BitViewerRequest { id: 4, operation: BitViewerOperation::ParseHex, hex_input: Some("a-5".to_string()), current_bits: None };
    let resp = BackendWorker::handle_bit_viewer(req);
    assert_eq!(resp.hex_input, "A5");
    assert_eq!(resp.binary_bits, vec![true, false, true, false, false, true, false, true]);
    let req = BitViewerRequest { id: 5, operation: BitViewerOperation::ToggleBit(0), hex_input: None, current_bits: Some(resp.binary_bits.clone()) };
    assert_eq!(BackendWorker::handle_bit_viewer(req).hex_input, "25");
    let req = BitViewerRequest { id: 6, operation: BitViewerOperation::InvertAll, hex_input: None, current_bits: Some(vec![true, false, true, true, false, true]) };
    let resp = BackendWorker::handle_bit_viewer(req);
    assert_eq!(resp.hex_input, "48");
    assert_eq!(BackendWorker::bits_to_hex(&vec![true, true, true]), "E");
}

#[test]
fn worker_dispatch() {
    assert!(matches!(BackendWorker::process_request::<f64>(BackendRequest::Shutdown), WorkerStep::Stop));
    let req = CalculatorRequest { id: 1, decimal_expr: "1".to_string(), radix: 10, original_input: "1".to_string() };
    assert!(matches!(BackendWorker::process_request::<f64>(BackendRequest::Calculator(req)), WorkerStep::Evaluate(_)));
}

#[test]
fn bit_viewer_fields() {
    let mut state: FrontendState<f64> = FrontendState::new();
    state.bit_viewer.field_widths_input = "4 8 x 0 65 +4".to_string();
    state.bit_viewer.parse_field_widths();
    assert_eq!(state.bit_viewer.field_widths, vec![4, 8, 4]);
    state.bit_viewer.binary_bits = vec![true; 20];
    assert_eq!(state.bit_viewer.calculate_field_groups(), vec![4, 8, 4, 4]);
    state.bit_viewer.binary_bits = vec![true, false, true, true];
    assert_eq!(state.bit_viewer.calculate_field_value(0, 4), 11);
    assert_eq!(state.bit_viewer.calculate_field_value(2, 4), 12);
    state.bit_viewer.field_widths_input = "abc".to_string();
    state.bit_viewer.parse_field_widths();
    assert_eq!(state.bit_viewer.field_widths, vec![4; 8]);
}

#[test]
fn normalizer_messages() {
    assert_eq!(NormalizeError::DigitOutOfRadix { radix: 16 }.message(), "包含超出基数 16 的数字");
    assert_eq!(NormalizeError::UnsupportedCharacter { c: '#' }.message(), "不支持的字符: #");
    assert_eq!(NormalizeError::MultipleDecimalPoints.message(), "无效数字：多个小数点");
}

#[test]
fn input_highlighting() {
    assert!(is_valid_input_char('F', 16));
    assert!(is_valid_input_char('x', 2));
    assert!(is_valid_input_char(' ', 2));
    assert!(!is_valid_input_char('#', 10));
}
