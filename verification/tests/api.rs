//! Tests of the unified generation entry point and the reader helpers.

use quickcodes::{detect_bars, generate, BarcodeRegion, BarcodeType, ExportFormat};
use std::time::Instant;

#[test]
fn lib_test_qr_generation() {
    let result = generate(BarcodeType::QRCode, "test", ExportFormat::SVG);
    assert!(result.is_ok());
}

#[test]
fn lib_test_datamatrix_generation() {
    let result = generate(BarcodeType::DataMatrix, "test", ExportFormat::SVG);
    assert!(result.is_ok());
}

#[test]
fn lib_test_pdf417_generation() {
    let result = generate(BarcodeType::PDF417, "test", ExportFormat::SVG);
    assert!(result.is_ok());
}

#[test]
fn lib_test_aztec_generation() {
    let result = generate(BarcodeType::Aztec, "test", ExportFormat::SVG);
    assert!(result.is_ok());
}

#[test]
fn test_all_barcode_types() {
    let test_cases = vec![
        (BarcodeType::QRCode, "Hello, QuickCodes!"),
        (BarcodeType::EAN13, "123456789012"),
        (BarcodeType::UPCA, "03600029145"),
        (BarcodeType::Code128, "HELLO123"),
        (BarcodeType::Code39, "SERIAL123ABC"),
        (BarcodeType::ITF14, "1234567890123"),
        (BarcodeType::Codabar, "A1234567890B"),
        (BarcodeType::DataMatrix, "DataMatrix Test"),
        (BarcodeType::PDF417, "PDF417 Test"),
        (BarcodeType::Aztec, "Aztec Test"),
    ];

    for (barcode_type, data) in test_cases {
        let result = generate(barcode_type, data, ExportFormat::SVG);
        assert!(result.is_ok(), "Failed to generate {:?}", barcode_type);
    }
}

#[test]
fn test_pdf_export() {
    let result = generate(BarcodeType::QRCode, "test", ExportFormat::PDF);
    assert!(result.is_ok());

    let pdf_data = result.unwrap();
    assert!(!pdf_data.is_empty());
    assert!(pdf_data.starts_with(b"%PDF"));
}

#[test]
fn test_all_barcode_types_svg() {
    let test_cases = vec![
        (BarcodeType::QRCode, "Hello, QuickCodes!"),
        (BarcodeType::EAN13, "123456789012"),
        (BarcodeType::UPCA, "03600029145"),
        (BarcodeType::Code128, "HELLO123"),
    ];

    for (barcode_type, data) in test_cases {
        let result = generate(barcode_type, data, ExportFormat::SVG);
        assert!(result.is_ok(), "Failed to generate {:?} as SVG", barcode_type);

        let svg_data = result.unwrap();
        assert!(!svg_data.is_empty());

        let svg_string = String::from_utf8(svg_data).unwrap();
        assert!(svg_string.contains("<svg"));
        assert!(svg_string.contains("</svg>"));
    }
}

#[test]
fn test_all_barcode_types_png() {
    let test_cases = vec![
        (BarcodeType::QRCode, "PNG Test"),
        (BarcodeType::EAN13, "123456789012"),
        (BarcodeType::UPCA, "03600029145"),
        (BarcodeType::Code128, "PNG123"),
    ];

    for (barcode_type, data) in test_cases {
        let result = generate(barcode_type, data, ExportFormat::PNG);
        assert!(result.is_ok(), "Failed to generate {:?} as PNG", barcode_type);

        let png_data = result.unwrap();
        assert!(!png_data.is_empty());

        assert_eq!(&png_data[0..8], &[137, 80, 78, 71, 13, 10, 26, 10]);
    }
}

#[test]
fn test_ean13_checksum_validation() {
    let result = generate(BarcodeType::EAN13, "123456789012", ExportFormat::SVG);
    assert!(result.is_ok());

    let result = generate(BarcodeType::EAN13, "1234567890128", ExportFormat::SVG);
    assert!(result.is_ok());

    let result = generate(BarcodeType::EAN13, "1234567890127", ExportFormat::SVG);
    assert!(result.is_err());
}

#[test]
fn test_upca_checksum_validation() {
    let result = generate(BarcodeType::UPCA, "03600029145", ExportFormat::SVG);
    assert!(result.is_ok());

    let result = generate(BarcodeType::UPCA, "036000291452", ExportFormat::SVG);
    assert!(result.is_ok());

    let result = generate(BarcodeType::UPCA, "036000291451", ExportFormat::SVG);
    assert!(result.is_err());
}

#[test]
fn test_qr_code_data_types() {
    let test_cases = vec![
        "Simple text",
        "https://github.com/quickcodes/quickcodes",
        "mailto:test@example.com",
        "tel:+5511999999999",
        "WIFI:T:WPA;S:NetworkName;P:password123;;",
        "00020126580014BR.GOV.BCB.PIX0114+5551999999995204000053039865402BR5909Test User6009SAO PAULO62070503***6304ABCD",
        "",
    ];

    for data in test_cases {
        let result = generate(BarcodeType::QRCode, data, ExportFormat::SVG);
        assert!(result.is_ok(), "Failed to generate QR code for data: '{}'", data);
    }
}

#[test]
fn test_invalid_inputs() {
    assert!(generate(BarcodeType::EAN13, "12345", ExportFormat::SVG).is_err());
    assert!(generate(BarcodeType::EAN13, "12345678901234", ExportFormat::SVG).is_err());

    assert!(generate(BarcodeType::UPCA, "12345", ExportFormat::SVG).is_err());
    assert!(generate(BarcodeType::UPCA, "1234567890123", ExportFormat::SVG).is_err());

    assert!(generate(BarcodeType::EAN13, "12345678901A", ExportFormat::SVG).is_err());
    assert!(generate(BarcodeType::UPCA, "12345678901A", ExportFormat::SVG).is_err());

    assert!(generate(BarcodeType::Code128, "", ExportFormat::SVG).is_err());
}

#[test]
fn test_large_data_handling() {
    let large_data = "A".repeat(500);
    let _result = generate(BarcodeType::QRCode, &large_data, ExportFormat::SVG);

    let very_large_data = "A".repeat(5000);
    let _result = generate(BarcodeType::QRCode, &very_large_data, ExportFormat::SVG);
}

#[test]
fn test_performance_reasonable_times() {
    let test_cases = vec![
        (BarcodeType::QRCode, "Performance test"),
        (BarcodeType::EAN13, "123456789012"),
        (BarcodeType::UPCA, "03600029145"),
        (BarcodeType::Code128, "PERF123"),
    ];

    for (barcode_type, data) in test_cases {
        let start = Instant::now();
        let result = generate(barcode_type, data, ExportFormat::SVG);
        let duration = start.elapsed();

        assert!(result.is_ok(), "Performance test failed for {:?}", barcode_type);
        assert!(
            duration.as_millis() < 1000,
            "Generation took too long for {:?}: {}ms",
            barcode_type,
            duration.as_millis()
        );
    }
}

#[test]
fn test_detect_bars() {
    let line = vec![0, 0, 255, 255, 0, 0, 255];
    let bars = detect_bars(&line).unwrap();
    assert_eq!(bars.len(), 4);
    assert_eq!(bars[0], (true, 2));
    assert_eq!(bars[1], (false, 2));
    assert_eq!(bars[2], (true, 2));
    assert_eq!(bars[3], (false, 1));
}

#[test]
fn test_barcode_region() {
    let region = BarcodeRegion {
        x: 10,
        y: 20,
        width: 100,
        height: 30,
    };

    assert_eq!(region.x, 10);
    assert_eq!(region.y, 20);
    assert_eq!(region.width, 100);
    assert_eq!(region.height, 30);
}

#[test]
fn test_memory_usage() {
    for i in 0..100 {
        let data = format!("Memory test {}", i);
        let result = generate(BarcodeType::QRCode, &data, ExportFormat::SVG);
        assert!(result.is_ok());

        drop(result);
    }
}
