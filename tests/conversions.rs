use number_conversion::bit_data::BitViewerData;
use number_conversion::base_converter::BaseConverter;
use number_conversion::conversion_data::ConversionData;
use number_conversion::formatting::Formatter;
use number_conversion::pages::{AppPage, FontConfig, NavigationComponent, NumberConversionPage, TextConversionPage};
use number_conversion::text_converter::TextConverter;
use number_conversion::validation::Validator;
use number_conversion::validators::{BinaryValidator, HexTextValidator, HexValidator};

#[test]
fn test_font_config_default() {
    let font_config = FontConfig::default();
    assert_eq!(font_config.font_path, "assets/fonts/STSong.ttf");
    assert_eq!(font_config.font_name, "Song");
}

#[test]
fn test_binary_conversion() {
    let mut data = ConversionData::new();
    data.set_input("1010".to_string());
    BaseConverter::from_binary(&mut data).unwrap();
    assert!(data.output().contains("16进制: A"));
    assert!(data.output().contains("10进制: 10"));
}

#[test]
fn test_decimal_conversion() {
    let mut data = ConversionData::new();
    data.set_input("10".to_string());
    BaseConverter::from_decimal(&mut data).unwrap();
    assert!(data.output().contains("2进制: 1010"));
    assert!(data.output().contains("16进制: A"));
}

#[test]
fn test_hex_conversion() {
    let mut data = ConversionData::new();
    data.set_input("A".to_string());
    BaseConverter::from_hexadecimal(&mut data).unwrap();
    assert!(data.output().contains("2进制: 1010"));
    assert!(data.output().contains("10进制: 10"));
}

#[test]
fn test_ascii_to_hex() {
    let mut data = ConversionData::new();
    data.set_input("Hello".to_string());
    TextConverter::ascii_to_hex(&mut data).unwrap();
    assert_eq!(data.output(), "48 65 6C 6C 6F");
}

#[test]
fn test_hex_to_ascii() {
    let mut data = ConversionData::new();
    data.set_input("48 65 6C 6C 6F".to_string());
    TextConverter::hex_to_ascii(&mut data).unwrap();
    assert_eq!(data.output(), "Hello");
}

#[test]
fn test_hex_to_ascii_non_printable() {
    let mut data = ConversionData::new();
    data.set_input("00 48 65 6C 6C 6F 00".to_string());
    TextConverter::hex_to_ascii(&mut data).unwrap();
    assert_eq!(data.output(), "[0x00]Hello[0x00]");
}

#[test]
fn test_clean_input() {
    let mut data = ConversionData::new();
    data.set_input("A1_B2 C3".to_string());
    assert_eq!(data.cleaned_input(), "A1B2C3");
}

#[test]
fn test_format_with_separator() {
    let data = ConversionData::new();
    assert_eq!(data.format_with_separator("12345678"), "1234_5678");
    assert_eq!(data.format_with_separator("123.456"), "123.456");
}

#[test]
fn test_binary_validator() {
    let result = BinaryValidator::validate("1012");
    assert!(result.has_invalid_chars);
    assert_eq!(result.cleaned_input, "101");
}

#[test]
fn test_hex_validator() {
    let result = HexValidator::validate("A1G2");
    assert!(result.has_invalid_chars);
    assert_eq!(result.cleaned_input, "A12");
}

#[test]
fn test_hex_text_validator() {
    let result = HexTextValidator::validate("48 65 6C 6C 6F");
    assert!(!result.has_invalid_chars);
    assert_eq!(result.cleaned_input, "48 65 6C 6C 6F");
}

#[test]
fn test_app_page_display_names() {
    assert_eq!(AppPage::NumberConversion.display_name(), "进制转换");
    assert_eq!(AppPage::TextConversion.display_name(), "字符转换");
    assert_eq!(AppPage::BitViewer.display_name(), "bit查看");
}

#[test]
fn test_navigation_component() {
    let mut nav = NavigationComponent::new();
    assert_eq!(nav.current_page(), AppPage::NumberConversion);

    nav.set_current_page(AppPage::BitViewer);
    assert_eq!(nav.current_page(), AppPage::BitViewer);
}

#[test]
fn test_number_conversion_page_creation() {
    let page = NumberConversionPage::new();
    assert_eq!(page.binary_data.raw_input(), "");
    assert_eq!(page.decimal_data.raw_input(), "");
}

#[test]
fn number_conversion_test_clear_all() {
    let mut page = NumberConversionPage::new();
    page.binary_data.set_input("test".to_string());

    page.clear_all();
    assert_eq!(page.binary_data.raw_input(), "");
}

#[test]
fn number_conversion_test_load_examples() {
    let mut page = NumberConversionPage::new();
    page.load_examples();

    assert!(!page.binary_data.raw_input().is_empty());
    assert!(!page.decimal_data.raw_input().is_empty());
}

#[test]
fn test_text_conversion_page_creation() {
    let page = TextConversionPage::new();
    assert_eq!(page.ascii_to_hex_data.raw_input(), "");
    assert_eq!(page.hex_to_ascii_data.raw_input(), "");
}

#[test]
fn text_conversion_test_clear_all() {
    let mut page = TextConversionPage::new();
    page.ascii_to_hex_data.set_input("test".to_string());

    page.clear_all();
    assert_eq!(page.ascii_to_hex_data.raw_input(), "");
}

#[test]
fn text_conversion_test_load_examples() {
    let mut page = TextConversionPage::new();
    page.load_examples();

    assert!(!page.ascii_to_hex_data.raw_input().is_empty());
    assert!(!page.hex_to_ascii_data.raw_input().is_empty());
}

#[test]
fn test_add_separator() {
    assert_eq!(Formatter::add_separator("12345678", '_', 4), "1234_5678");
    assert_eq!(Formatter::add_separator("123", '_', 4), "123");
    assert_eq!(Formatter::add_separator("", '_', 4), "");
}

#[test]
fn test_add_separator_with_decimal() {
    assert_eq!(Formatter::add_separator("12345.67", '_', 4), "1_2345.67");
}

#[test]
fn test_remove_separators() {
    assert_eq!(
        Formatter::remove_separators("1234_5678 90AB", &['_', ' ']),
        "1234567890AB"
    );
}

#[test]
fn test_format_hex() {
    assert_eq!(Formatter::format_hex("abcd1234"), "ABCD1234");
    assert_eq!(Formatter::format_hex("ab_cd 12_34"), "ABCD1234");
}

#[test]
fn test_format_binary() {
    assert_eq!(Formatter::format_binary("10101010"), "10101010");
}

#[test]
fn test_format_decimal() {
    assert_eq!(Formatter::format_decimal("1234567"), "1234567");
}

#[test]
fn test_truncate() {
    assert_eq!(Formatter::truncate("Hello World", 8), "Hello...");
    assert_eq!(Formatter::truncate("Hi", 8), "Hi");
    assert_eq!(Formatter::truncate("Hello", 3), "...");
}

#[test]
fn test_is_valid_hex() {
    assert!(Validator::is_valid_hex("ABCD1234").is_ok());
    assert!(Validator::is_valid_hex("abcd1234").is_ok());
    assert!(Validator::is_valid_hex("GHIJ").is_err());
    assert!(Validator::is_valid_hex("").is_err());
}

#[test]
fn test_is_valid_binary() {
    assert!(Validator::is_valid_binary("101010").is_ok());
    assert!(Validator::is_valid_binary("102").is_err());
    assert!(Validator::is_valid_binary("").is_err());
}

#[test]
fn test_is_valid_decimal() {
    assert!(Validator::is_valid_decimal("12345").is_ok());
    assert!(Validator::is_valid_decimal("123A5").is_err());
    assert!(Validator::is_valid_decimal("").is_err());
}

#[test]
fn test_is_valid_ascii_text() {
    assert!(Validator::is_valid_ascii_text("Hello World").is_ok());
    assert!(Validator::is_valid_ascii_text("").is_err());
}

#[test]
fn test_is_valid_float() {
    assert!(Validator::is_valid_float("3.14159").is_ok());
    assert!(Validator::is_valid_float("123").is_ok());
    assert!(Validator::is_valid_float("abc").is_err());
    assert!(Validator::is_valid_float("").is_err());
}

#[test]
fn test_is_valid_length() {
    assert!(Validator::is_valid_length("Hello", 1, 10).is_ok());
    assert!(Validator::is_valid_length("", 1, 10).is_err());
    assert!(Validator::is_valid_length("Very long string", 1, 10).is_err());
}

#[test]
fn test_is_in_range() {
    assert!(Validator::is_in_range(50, 0, 100).is_ok());
    assert!(Validator::is_in_range(150, 0, 100).is_err());
    assert!(Validator::is_in_range(-10, 0, 100).is_err());
}


#[test]
fn bit_data_test_hex_to_binary() {
    let mut data = BitViewerData::new();
    data.set_hex_input("A1".to_string());

    let expected_bits = vec![true, false, true, false, false, false, false, true];
    assert_eq!(data.binary_bits(), expected_bits);
}

#[test]
fn bit_data_test_toggle_bit() {
    let mut data = BitViewerData::new();
    data.set_hex_input("A0".to_string());

    data.toggle_bit(7);
    assert_eq!(data.hex_input(), "A1");
}

#[test]
fn test_field_widths_parsing() {
    let mut data = BitViewerData::new();
    data.set_field_widths_input("8 4 4".to_string());

    assert_eq!(data.field_widths(), &[8, 4, 4]);
}

#[test]
fn test_calculate_field_groups_with_remaining_bits() {
    let mut data = BitViewerData::new();
    data.set_hex_input("ABC".to_string());
    data.set_field_widths_input("1".to_string());

    let groups = data.calculate_field_groups();
    assert_eq!(groups, vec![1, 11]);
}

#[test]
fn test_calculate_field_groups_exact_match() {
    let mut data = BitViewerData::new();
    data.set_hex_input("AB".to_string());
    data.set_field_widths_input("4 4".to_string());

    let groups = data.calculate_field_groups();
    assert_eq!(groups, vec![4, 4]);
}

#[test]
fn test_calculate_field_groups_insufficient_bits() {
    let mut data = BitViewerData::new();
    data.set_hex_input("A".to_string());
    data.set_field_widths_input("8 4".to_string());

    let groups = data.calculate_field_groups();
    assert_eq!(groups, vec![4]);
}

#[test]
fn bit_data_rejects_bad_hex() {
    let mut data = BitViewerData::new();
    data.set_hex_input("AZ".to_string());
    assert!(data.has_error());
    assert!(data.binary_bits().is_empty());
    data.set_hex_input(" _ ".to_string());
    assert_eq!(data.last_error(), Some(&number_conversion::errors::ConversionError::EmptyInput));
}

#[test]
fn decimal_overflow_is_a_parse_error() {
    let mut data = ConversionData::new();
    data.set_input("99999999999999999999".to_string());
    let err = BaseConverter::from_decimal(&mut data).unwrap_err();
    assert_eq!(
        err,
        number_conversion::errors::ConversionError::ParseError("number too large to fit in target type".to_string())
    );
    assert_eq!(err.message(), "解析错误：number too large to fit in target type");
}

#[test]
fn binary_input_too_long() {
    let mut data = ConversionData::new();
    data.set_input("1".repeat(65));
    let err = BaseConverter::from_binary(&mut data).unwrap_err();
    assert_eq!(err, number_conversion::errors::ConversionError::InputTooLong { max_length: 64, actual: 65 });
    assert_eq!(err.message(), "输入长度超出限制：最大 64 位，实际 65 位");
}

#[test]
fn range_error_message() {
    let err = Validator::is_in_range(-10, 0, 100).unwrap_err();
    assert_eq!(err.message(), "数值超出范围：-10 不在 0 到 100 之间");
}

#[test]
fn hex_to_ascii_errors() {
    let mut data = ConversionData::new();
    data.set_input("4G".to_string());
    let err = TextConverter::hex_to_ascii(&mut data).unwrap_err();
    assert_eq!(err.message(), "格式错误：期望 十六进制字符，但得到 字符 'G'");
    data.set_input("486".to_string());
    let err = TextConverter::hex_to_ascii(&mut data).unwrap_err();
    assert_eq!(err.message(), "格式错误：期望 偶数长度的十六进制字符串，但得到 长度为 3 的字符串");
    data.set_input("   ".to_string());
    assert_eq!(TextConverter::hex_to_ascii(&mut data).unwrap_err().message(), "请输入数值");
}

#[test]
fn validation_with_radix() {
    let mut data = ConversionData::new();
    assert!(!data.set_input_with_validation("12_3456 789".to_string(), 8));
    assert_eq!(data.cleaned_input(), "1234567");
    assert_eq!(data.raw_input(), "123_4567");
    assert!(data.has_error());
    assert!(data.set_input_with_float_validation("-1.5".to_string()));
    assert_eq!(data.cleaned_input(), "-1.5");
    assert!(!data.set_input_with_float_validation("1.2.3".to_string()));
    assert_eq!(data.cleaned_input(), "1.23");
    assert!(data.set_input_with_hex_text_validation("4a 6b".to_string()));
    assert_eq!(data.raw_input(), "4A 6B");
    assert_eq!(data.cleaned_input(), "4A6B");
}

#[test]
fn float_and_ascii_validators() {
    use_validators();
}

fn use_validators() {
    let r = number_conversion::validators::FloatValidator::validate("-1,5.2.x");
    assert!(r.has_invalid_chars);
    assert_eq!(r.cleaned_input, "-15.2");
    assert_eq!(r.display_input, "-1,5.2");
    let r = number_conversion::validators::AsciiValidator::validate("héllo");
    assert_eq!(r.cleaned_input, "hllo");
    assert!(!r.is_valid());
    assert_eq!(HexTextValidator::normalize_spaces("  48   65 "), "48 65");
}

#[test]
fn float_syntax() {
    assert!(Validator::is_valid_float("-1e5").is_ok());
    assert!(Validator::is_valid_float("+.5").is_ok());
    assert!(Validator::is_valid_float("inf").is_ok());
    assert!(Validator::is_valid_float("NaN").is_ok());
    assert!(Validator::is_valid_float("1e").is_err());
    assert!(Validator::is_valid_float(".").is_err());
}

#[test]
fn truncate_counts_bytes() {
    assert_eq!(Formatter::truncate("\u{e9}\u{e9}", 3), "...");
    assert_eq!(Formatter::truncate("a\u{e9}", 4), "a\u{e9}");
    assert_eq!(Formatter::truncate("\u{e9}\u{e9}\u{e9}", 5), "\u{e9}...");
}
