//! Tests of the SVG, PNG and PDF exporters.

use quickcodes::{
    export_pdf, export_png, export_svg, generate_ean13, generate_qr, Barcode, BarcodeConfig,
    BarcodeModules, BarcodeType,
};

#[test]
fn test_pdf_export_linear() {
    let barcode = Barcode {
        barcode_type: BarcodeType::Code128,
        data: "TEST123".to_string(),
        modules: BarcodeModules::Linear(vec![
            true, false, true, true, false, true, false, false,
        ]),
        config: BarcodeConfig::default(),
    };

    let result = export_pdf(&barcode);
    assert!(result.is_ok());

    let pdf_data = result.unwrap();
    assert!(!pdf_data.is_empty());

    assert!(pdf_data.starts_with(b"%PDF"));
}

#[test]
fn test_pdf_export_matrix() {
    let matrix = vec![
        vec![true, false, true],
        vec![false, true, false],
        vec![true, false, true],
    ];

    let barcode = Barcode {
        barcode_type: BarcodeType::QRCode,
        data: "TEST".to_string(),
        modules: BarcodeModules::Matrix(matrix),
        config: BarcodeConfig::default(),
    };

    let result = export_pdf(&barcode);
    assert!(result.is_ok());

    let pdf_data = result.unwrap();
    assert!(!pdf_data.is_empty());

    assert!(pdf_data.starts_with(b"%PDF"));
}

#[test]
fn test_pdf_export_empty_matrix() {
    let barcode = Barcode {
        barcode_type: BarcodeType::QRCode,
        data: "TEST".to_string(),
        modules: BarcodeModules::Matrix(vec![]),
        config: BarcodeConfig::default(),
    };

    let result = export_pdf(&barcode);
    assert!(result.is_ok());
}

#[test]
fn test_png_export_qr() {
    let barcode = generate_qr("Test").unwrap();
    let png_data = export_png(&barcode);
    assert!(png_data.is_ok());

    let data = png_data.unwrap();
    assert!(!data.is_empty());
    assert_eq!(&data[0..8], &[137, 80, 78, 71, 13, 10, 26, 10]);
}

#[test]
fn test_png_export_ean13() {
    let barcode = generate_ean13("123456789012").unwrap();
    let png_data = export_png(&barcode);
    assert!(png_data.is_ok());

    let data = png_data.unwrap();
    assert!(!data.is_empty());
    assert_eq!(&data[0..8], &[137, 80, 78, 71, 13, 10, 26, 10]);
}

#[test]
fn test_svg_export_qr() {
    let barcode = generate_qr("Test").unwrap();
    let svg_data = export_svg(&barcode);
    assert!(svg_data.is_ok());

    let svg_string = String::from_utf8(svg_data.unwrap()).unwrap();
    assert!(svg_string.contains("<svg"));
    assert!(svg_string.contains("</svg>"));
    assert!(svg_string.contains("rect"));
}

#[test]
fn test_svg_export_ean13() {
    let barcode = generate_ean13("123456789012").unwrap();
    let svg_data = export_svg(&barcode);
    assert!(svg_data.is_ok());

    let svg_string = String::from_utf8(svg_data.unwrap()).unwrap();
    assert!(svg_string.contains("<svg"));
    assert!(svg_string.contains("</svg>"));
    assert!(svg_string.contains("rect"));
    assert!(svg_string.contains("1234567890128"));
}
