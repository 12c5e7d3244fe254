//! Tests of the matrix symbology encoders.

use quickcodes::{
    calculate_layers, calculate_rows, generate_aztec, generate_datamatrix, generate_finder_pattern,
    generate_pdf417, generate_qr, generate_qr_with_config, BarcodeConfig, BarcodeModules,
    BarcodeType, QRErrorCorrection, QuickCodesError,
};

#[test]
fn aztec_test_aztec_generation() {
    let result = generate_aztec("Hello Aztec");
    assert!(result.is_ok());

    let barcode = result.unwrap();
    assert_eq!(barcode.barcode_type, BarcodeType::Aztec);
    assert_eq!(barcode.data, "Hello Aztec");

    match barcode.modules {
        BarcodeModules::Matrix(matrix) => {
            assert!(!matrix.is_empty());
            assert!(!matrix[0].is_empty());
            assert_eq!(matrix.len(), matrix[0].len());
            assert!(matrix.len() >= 15);
        }
        _ => panic!("Aztec should generate a matrix pattern"),
    }
}

#[test]
fn test_aztec_empty_data() {
    let result = generate_aztec("");
    assert!(result.is_err());
}

#[test]
fn test_aztec_transport_ticket() {
    let ticket_data = "TKT:12345|FROM:NYC|TO:BOS|DATE:2024-01-15|SEAT:12A";
    let result = generate_aztec(ticket_data);
    assert!(result.is_ok());

    let barcode = result.unwrap();
    assert_eq!(barcode.data, ticket_data);
}

#[test]
fn test_calculate_layers() {
    let result1 = calculate_layers(10, true);
    let result2 = calculate_layers(100, true);
    let result3 = calculate_layers(10, false);
    let result4 = calculate_layers(1000, false);

    assert!(
        result1 >= 1 && result1 <= 4,
        "Compact layers should be 1-4, got {}",
        result1
    );
    assert!(
        result2 >= 1 && result2 <= 4,
        "Compact layers should be 1-4, got {}",
        result2
    );
    assert!(
        result3 >= 1 && result3 <= 32,
        "Full layers should be 1-32, got {}",
        result3
    );
    assert!(
        result4 >= 1 && result4 <= 32,
        "Full layers should be 1-32, got {}",
        result4
    );
}

#[test]
fn test_finder_pattern() {
    let mut matrix = vec![vec![false; 21]; 21];
    generate_finder_pattern(&mut matrix, 21);

    let center = 10;
    let mut has_pattern = false;
    for y in (center - 5)..=(center + 5) {
        for x in (center - 5)..=(center + 5) {
            if matrix[y][x] {
                has_pattern = true;
                break;
            }
        }
    }
    assert!(
        has_pattern,
        "Finder pattern should have some filled modules"
    );
}

#[test]
fn datamatrix_test_datamatrix_generation() {
    let result = generate_datamatrix("Hello DataMatrix");
    assert!(result.is_ok());

    let barcode = result.unwrap();
    assert_eq!(barcode.barcode_type, BarcodeType::DataMatrix);
    assert_eq!(barcode.data, "Hello DataMatrix");

    match barcode.modules {
        BarcodeModules::Matrix(matrix) => {
            assert!(!matrix.is_empty());
            assert!(!matrix[0].is_empty());
            assert_eq!(matrix.len(), matrix[0].len());
        }
        _ => panic!("DataMatrix should generate a matrix pattern"),
    }
}

#[test]
fn test_datamatrix_empty_data() {
    let result = generate_datamatrix("");
    assert!(result.is_err());
}

#[test]
fn test_datamatrix_pharmaceutical_data() {
    let gs1_data = "010123456789012815240101";
    let result = generate_datamatrix(gs1_data);
    assert!(result.is_ok());

    let barcode = result.unwrap();
    assert_eq!(barcode.data, gs1_data);
}

#[test]
fn test_datamatrix_unicode_data() {
    let result = generate_datamatrix("OlÃ¡ DataMatrix! ðŸ‡§ðŸ‡·");
    assert!(result.is_ok());
}

#[test]
fn pdf417_test_pdf417_generation() {
    let result = generate_pdf417("Hello PDF417");
    assert!(result.is_ok());

    let barcode = result.unwrap();
    assert_eq!(barcode.barcode_type, BarcodeType::PDF417);
    assert_eq!(barcode.data, "Hello PDF417");

    match barcode.modules {
        BarcodeModules::Matrix(matrix) => {
            assert!(!matrix.is_empty());
            assert!(!matrix[0].is_empty());
            assert!(matrix.len() >= 3);
        }
        _ => panic!("PDF417 should generate a matrix pattern"),
    }
}

#[test]
fn test_pdf417_empty_data() {
    let result = generate_pdf417("");
    assert!(result.is_err());
}

#[test]
fn test_pdf417_document_data() {
    let doc_data = "DRIVER LICENSE|DOE,JOHN|123456789|2025-12-31";
    let result = generate_pdf417(doc_data);
    assert!(result.is_ok());

    let barcode = result.unwrap();
    assert_eq!(barcode.data, doc_data);
}

#[test]
fn test_calculate_rows() {
    let result1 = calculate_rows(10, 6, 2);
    let result2 = calculate_rows(100, 6, 2);
    let result3 = calculate_rows(1000, 6, 2);

    assert!(result1 >= 3 && result1 <= 90, "Rows should be 3-90, got {}", result1);
    assert!(result2 >= 3 && result2 <= 90, "Rows should be 3-90, got {}", result2);
    assert!(result3 >= 3 && result3 <= 90, "Rows should be 3-90, got {}", result3);

    assert!(result2 > result1, "More data should need more rows");
    assert!(result3 >= result2, "Much more data should need at least as many rows");
}

#[test]
fn qr_test_qr_generation() {
    let result = generate_qr("Hello, World!");
    assert!(result.is_ok());

    let barcode = result.unwrap();
    assert_eq!(barcode.barcode_type, BarcodeType::QRCode);
    assert_eq!(barcode.data, "Hello, World!");

    match barcode.modules {
        BarcodeModules::Matrix(matrix) => {
            assert!(!matrix.is_empty());
            assert!(!matrix[0].is_empty());
            assert_eq!(matrix.len(), matrix[0].len());
        }
        _ => panic!("QR code should generate a matrix"),
    }
}

#[test]
fn test_qr_empty_data() {
    let result = generate_qr("");
    assert!(result.is_ok());
}

#[test]
fn test_qr_different_error_corrections() {
    let mut config = BarcodeConfig::default();

    for ec_level in [
        QRErrorCorrection::Low,
        QRErrorCorrection::Medium,
        QRErrorCorrection::Quartile,
        QRErrorCorrection::High,
    ] {
        config.qr_config.error_correction = ec_level;
        let result = generate_qr_with_config("Test data", &config);
        assert!(result.is_ok(), "Failed with error correction: {:?}", ec_level);
    }
}

#[test]
fn test_qr_large_data() {
    let large_data = "A".repeat(1000);
    let result = generate_qr(&large_data);
    match result {
        Ok(_) => (),
        Err(QuickCodesError::GenerationError(_)) => (),
        Err(e) => panic!("Unexpected error type: {:?}", e),
    }
}
