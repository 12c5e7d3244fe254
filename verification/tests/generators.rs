//! Tests of the linear symbology encoders.

use quickcodes::{
    calculate_check_digit, calculate_ean13_check_digit, calculate_upc_a_check_digit,
    generate_codabar, generate_code128, generate_code39, generate_ean13, generate_itf14,
    generate_upc_a, BarcodeModules, BarcodeType,
};

#[test]
fn test_ean13_check_digit_calculation() {
    let digits = [1, 2, 3, 4, 5, 6, 7, 8, 9, 0, 1, 2];
    let check_digit = calculate_ean13_check_digit(&digits);
    assert_eq!(check_digit, 8);
}

#[test]
fn test_ean13_generation_with_12_digits() {
    let result = generate_ean13("123456789012");
    assert!(result.is_ok());

    let barcode = result.unwrap();
    assert_eq!(barcode.barcode_type, BarcodeType::EAN13);
    assert_eq!(barcode.data, "1234567890128");

    match barcode.modules {
        BarcodeModules::Linear(pattern) => {
            assert_eq!(pattern.len(), 95);
        }
        _ => panic!("EAN-13 should generate a linear pattern"),
    }
}

#[test]
fn test_ean13_generation_with_13_digits() {
    let result = generate_ean13("1234567890128");
    assert!(result.is_ok());

    let barcode = result.unwrap();
    assert_eq!(barcode.data, "1234567890128");
}

#[test]
fn test_ean13_invalid_check_digit() {
    let result = generate_ean13("1234567890127");
    assert!(result.is_err());
}

#[test]
fn test_ean13_invalid_length() {
    let result = generate_ean13("12345");
    assert!(result.is_err());
}

#[test]
fn test_ean13_non_numeric() {
    let result = generate_ean13("12345678901A");
    assert!(result.is_err());
}

#[test]
fn test_ean13_with_spaces_and_hyphens() {
    let result = generate_ean13("123 456 789-012");
    assert!(result.is_ok());

    let barcode = result.unwrap();
    assert_eq!(barcode.data, "1234567890128");
}

#[test]
fn test_upc_a_check_digit_calculation() {
    let digits = [0, 3, 6, 0, 0, 0, 2, 9, 1, 4, 5];
    let check_digit = calculate_upc_a_check_digit(&digits);
    assert_eq!(check_digit, 2);
}

#[test]
fn test_upc_a_generation_with_11_digits() {
    let result = generate_upc_a("03600029145");
    assert!(result.is_ok());

    let barcode = result.unwrap();
    assert_eq!(barcode.barcode_type, BarcodeType::UPCA);
    assert_eq!(barcode.data, "036000291452");

    match barcode.modules {
        BarcodeModules::Linear(pattern) => {
            assert_eq!(pattern.len(), 95);
        }
        _ => panic!("UPC-A should generate a linear pattern"),
    }
}

#[test]
fn test_upc_a_generation_with_12_digits() {
    let result = generate_upc_a("036000291452");
    assert!(result.is_ok());

    let barcode = result.unwrap();
    assert_eq!(barcode.data, "036000291452");
}

#[test]
fn test_upc_a_invalid_check_digit() {
    let result = generate_upc_a("036000291451");
    assert!(result.is_err());
}

#[test]
fn test_upc_a_invalid_length() {
    let result = generate_upc_a("12345");
    assert!(result.is_err());
}

#[test]
fn test_upc_a_non_numeric() {
    let result = generate_upc_a("03600029145A");
    assert!(result.is_err());
}

#[test]
fn test_itf14_check_digit() {
    assert_eq!(calculate_check_digit("0123456789012"), 8);
    assert_eq!(calculate_check_digit("1234567890123"), 1);
}

#[test]
fn test_itf14_invalid_length() {
    let result = generate_itf14("12345");
    assert!(result.is_err());
    assert!(result.unwrap_err().message().contains("13 digits"));
}

#[test]
fn test_itf14_non_numeric() {
    let result = generate_itf14("12345678901AB");
    assert!(result.is_err());
    assert!(result.unwrap_err().message().contains("only digits"));
}

#[test]
fn test_itf14_valid_data() {
    let result = generate_itf14("0123456789012");
    assert!(result.is_ok());
    let barcode = result.unwrap();
    assert!(!barcode.modules.as_linear().unwrap().is_empty());
    assert_eq!(barcode.data.len(), 14);
}

#[test]
fn test_itf14_check_digit_validation() {
    let result = generate_itf14("0123456789012");
    assert!(result.is_ok());
    let barcode = result.unwrap();
    assert_eq!(barcode.data, "01234567890128");
}

#[test]
fn test_code39_empty_data() {
    let result = generate_code39("");
    assert!(result.is_err());
    assert!(result.unwrap_err().message().contains("empty"));
}

#[test]
fn test_code39_invalid_chars() {
    let result = generate_code39("ABC123!");
    assert!(result.is_err());
    assert!(result.unwrap_err().message().contains("Invalid character"));
}

#[test]
fn test_code39_valid_numeric() {
    let result = generate_code39("1234567890");
    assert!(result.is_ok());
    let barcode = result.unwrap();
    assert!(!barcode.modules.as_linear().unwrap().is_empty());
}

#[test]
fn test_code39_valid_alpha() {
    let result = generate_code39("ABCDEFGHIJ");
    assert!(result.is_ok());
    let barcode = result.unwrap();
    assert!(!barcode.modules.as_linear().unwrap().is_empty());
}

#[test]
fn test_code39_valid_special_chars() {
    let result = generate_code39("-. $/+%");
    assert!(result.is_ok());
    let barcode = result.unwrap();
    assert!(!barcode.modules.as_linear().unwrap().is_empty());
}

#[test]
fn test_code39_case_insensitive() {
    let result = generate_code39("abc");
    assert!(result.is_ok());
    let barcode = result.unwrap();
    assert!(!barcode.modules.as_linear().unwrap().is_empty());
}

#[test]
fn test_codabar_empty_data() {
    let result = generate_codabar("");
    assert!(result.is_err());
    assert!(result.unwrap_err().message().contains("empty"));
}

#[test]
fn test_codabar_invalid_chars() {
    let result = generate_codabar("A123X456B");
    assert!(result.is_err());
    assert!(result.unwrap_err().message().contains("Invalid character"));
}

#[test]
fn test_codabar_missing_start_stop() {
    let result = generate_codabar("12345");
    assert!(result.is_err());
    assert!(result.unwrap_err().message().contains("start and end"));
}

#[test]
fn test_codabar_valid_numeric() {
    let result = generate_codabar("A1234567890B");
    assert!(result.is_ok());
    let barcode = result.unwrap();
    assert!(!barcode.modules.as_linear().unwrap().is_empty());
}

#[test]
fn test_codabar_valid_special_chars() {
    let result = generate_codabar("A-$:/.+B");
    assert!(result.is_ok());
    let barcode = result.unwrap();
    assert!(!barcode.modules.as_linear().unwrap().is_empty());
}

#[test]
fn test_codabar_case_insensitive() {
    let result = generate_codabar("a123b");
    assert!(result.is_ok());
    let barcode = result.unwrap();
    assert!(!barcode.modules.as_linear().unwrap().is_empty());
}

#[test]
fn test_codabar_different_start_stop() {
    let result = generate_codabar("A1234C");
    assert!(result.is_ok());
    let barcode = result.unwrap();
    assert!(!barcode.modules.as_linear().unwrap().is_empty());
}

#[test]
fn test_code128_generation() {
    let result = generate_code128("Hello123");
    assert!(result.is_ok());

    let barcode = result.unwrap();
    assert_eq!(barcode.barcode_type, BarcodeType::Code128);
    assert_eq!(barcode.data, "Hello123");

    match barcode.modules {
        BarcodeModules::Linear(pattern) => {
            assert!(!pattern.is_empty());
        }
        _ => panic!("Code128 should generate a linear pattern"),
    }
}

#[test]
fn test_code128_empty_data() {
    let result = generate_code128("");
    assert!(result.is_err());
}
