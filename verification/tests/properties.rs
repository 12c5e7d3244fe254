//! Tests of the library's stated properties: check-digit round trips, case
//! folding, determinism, capacity boundaries, and the error taxonomy.

use quickcodes::{
    generate_aztec, generate_codabar, generate_code39, generate_datamatrix, generate_ean13,
    generate_pdf417, generate_qr, generate_upc_a, simulate_code128_decode, simulate_ean13_decode,
    simulate_upc_a_decode, BarcodeModules, BarcodeType, ExportFormat, QuickCodesError,
};

#[test]
fn test_ean13_round_trip_same_grid() {
    let short = generate_ean13("123456789012").unwrap();
    let full = generate_ean13("1234567890128").unwrap();
    assert_eq!(short.data, full.data);
    assert_eq!(
        short.modules.as_linear().unwrap(),
        full.modules.as_linear().unwrap()
    );
}

#[test]
fn test_upc_a_round_trip_same_grid() {
    let short = generate_upc_a("03600029145").unwrap();
    let full = generate_upc_a("036000291452").unwrap();
    assert_eq!(short.data, "036000291452");
    assert_eq!(
        short.modules.as_linear().unwrap(),
        full.modules.as_linear().unwrap()
    );
}

#[test]
fn test_code39_case_fold_same_grid() {
    let lower = generate_code39("abc").unwrap();
    let upper = generate_code39("ABC").unwrap();
    assert_eq!(lower.data, "ABC");
    assert_eq!(
        lower.modules.as_linear().unwrap(),
        upper.modules.as_linear().unwrap()
    );
}

#[test]
fn test_codabar_case_fold_same_grid() {
    let lower = generate_codabar("a123b").unwrap();
    let upper = generate_codabar("A123B").unwrap();
    assert_eq!(lower.data, "A123B");
    assert_eq!(
        lower.modules.as_linear().unwrap(),
        upper.modules.as_linear().unwrap()
    );
}

#[test]
fn test_code39_error_names_character() {
    let err = generate_code39("ABC123!").unwrap_err();
    assert!(err.message().contains("'!'"));
}

#[test]
fn test_codabar_error_names_character() {
    let err = generate_codabar("A123X456B").unwrap_err();
    assert!(err.message().contains("'X'"));
}

#[test]
fn test_matrix_encoders_deterministic() {
    let a1 = generate_aztec("determinism check").unwrap();
    let a2 = generate_aztec("determinism check").unwrap();
    assert_eq!(a1.modules.as_matrix().unwrap(), a2.modules.as_matrix().unwrap());

    let d1 = generate_datamatrix("determinism check").unwrap();
    let d2 = generate_datamatrix("determinism check").unwrap();
    assert_eq!(d1.modules.as_matrix().unwrap(), d2.modules.as_matrix().unwrap());

    let p1 = generate_pdf417("determinism check").unwrap();
    let p2 = generate_pdf417("determinism check").unwrap();
    assert_eq!(p1.modules.as_matrix().unwrap(), p2.modules.as_matrix().unwrap());

    let q1 = generate_qr("determinism check").unwrap();
    let q2 = generate_qr("determinism check").unwrap();
    assert_eq!(q1.modules.as_matrix().unwrap(), q2.modules.as_matrix().unwrap());
}

#[test]
fn test_matrix_encoders_square_rows() {
    for data in ["x", "a longer payload for the matrix encoders 123456"] {
        for b in [
            generate_aztec(data).unwrap(),
            generate_datamatrix(data).unwrap(),
            generate_qr(data).unwrap(),
        ] {
            let m = b.modules.as_matrix().unwrap();
            for row in m {
                assert_eq!(row.len(), m.len());
            }
        }
        let p = generate_pdf417(data).unwrap();
        let m = p.modules.as_matrix().unwrap();
        let cols = m[0].len();
        for row in m {
            assert_eq!(row.len(), cols);
        }
    }
}

#[test]
fn test_datamatrix_smallest_class_boundary() {
    let smallest = generate_datamatrix("abc").unwrap();
    assert_eq!(smallest.modules.as_matrix().unwrap().len(), 10);

    let next = generate_datamatrix("abcd").unwrap();
    assert_eq!(next.modules.as_matrix().unwrap().len(), 12);
}

#[test]
fn test_datamatrix_capacity_boundary() {
    let at_capacity = "A".repeat(1558);
    let result = generate_datamatrix(&at_capacity);
    assert!(result.is_ok());
    assert_eq!(result.unwrap().modules.as_matrix().unwrap().len(), 144);

    let over_capacity = "A".repeat(1559);
    let err = generate_datamatrix(&over_capacity).unwrap_err();
    assert!(matches!(err, QuickCodesError::GenerationError(_)));
}

#[test]
fn test_aztec_capacity_boundary() {
    let at_capacity = "A".repeat(1024);
    assert!(generate_aztec(&at_capacity).is_ok());

    let over_capacity = "A".repeat(1025);
    let err = generate_aztec(&over_capacity).unwrap_err();
    assert!(matches!(err, QuickCodesError::GenerationError(_)));
}

#[test]
fn test_pdf417_capacity_boundary() {
    let at_capacity = "A".repeat(531);
    let result = generate_pdf417(&at_capacity);
    assert!(result.is_ok());
    assert_eq!(result.unwrap().modules.as_matrix().unwrap().len(), 90);

    let over_capacity = "A".repeat(532);
    let err = generate_pdf417(&over_capacity).unwrap_err();
    assert!(matches!(err, QuickCodesError::GenerationError(_)));
}

#[test]
fn test_qr_over_capacity_fails_gracefully() {
    let huge = "A".repeat(5000);
    let err = generate_qr(&huge).unwrap_err();
    assert!(matches!(err, QuickCodesError::GenerationError(_)));
}

#[test]
fn test_qr_known_version_size() {
    // Four bytes at medium error correction fit version 1: 21 by 21 modules.
    let b = generate_qr("test").unwrap();
    assert_eq!(b.modules.as_matrix().unwrap().len(), 21);
}

#[test]
fn test_empty_input_errors_are_invalid_data() {
    for err in [
        generate_ean13("").unwrap_err(),
        generate_upc_a("").unwrap_err(),
        generate_code39("").unwrap_err(),
        generate_codabar("").unwrap_err(),
        generate_itf14_empty_err(),
        generate_datamatrix("").unwrap_err(),
        generate_pdf417("").unwrap_err(),
        generate_aztec("").unwrap_err(),
    ] {
        assert!(matches!(err, QuickCodesError::InvalidData(_)));
    }
}

fn generate_itf14_empty_err() -> QuickCodesError {
    quickcodes::generate_itf14("").unwrap_err()
}

#[test]
fn test_ean13_error_reports_expected_and_got() {
    let err = generate_ean13("1234567890127").unwrap_err();
    let msg = err.message();
    assert!(msg.contains("Expected 8"));
    assert!(msg.contains("got 7"));
}

#[test]
fn test_from_extension() {
    assert_eq!(
        ExportFormat::from_extension("out/barcode.png").unwrap(),
        ExportFormat::PNG
    );
    assert_eq!(
        ExportFormat::from_extension("barcode.SVG").unwrap(),
        ExportFormat::SVG
    );
    assert_eq!(
        ExportFormat::from_extension("/tmp/x.pdf").unwrap(),
        ExportFormat::PDF
    );
    let err = ExportFormat::from_extension("barcode.txt").unwrap_err();
    assert!(err.message().contains("Unsupported file format: txt"));
    let err = ExportFormat::from_extension("noextension").unwrap_err();
    assert!(err.message().contains("File has no extension"));
}

#[test]
fn test_parse_barcode_type_names() {
    assert_eq!(BarcodeType::parse_name("QRCode").unwrap(), BarcodeType::QRCode);
    assert_eq!(BarcodeType::parse_name("EAN13").unwrap(), BarcodeType::EAN13);
    assert_eq!(BarcodeType::parse_name("Codabar").unwrap(), BarcodeType::Codabar);
    let err = BarcodeType::parse_name("Nonsense").unwrap_err();
    assert!(err.message().contains("Nonsense"));
    let parsed: BarcodeType = "Aztec".parse().unwrap();
    assert_eq!(parsed, BarcodeType::Aztec);
}

#[test]
fn test_ean13_known_guard_modules() {
    // The 95-module grid opens and closes with the 101 guard and carries the
    // 01010 center guard at modules 45 to 49.
    let b = generate_ean13("123456789012").unwrap();
    let p = b.modules.as_linear().unwrap();
    assert_eq!(&p[0..3], &[true, false, true]);
    assert_eq!(&p[92..95], &[true, false, true]);
    assert_eq!(&p[45..50], &[false, true, false, true, false]);
}

#[test]
fn test_itf14_start_stop_modules() {
    let b = quickcodes::generate_itf14("0123456789012").unwrap();
    let p = b.modules.as_linear().unwrap();
    assert_eq!(&p[0..4], &[true, false, true, false]);
    let n = p.len();
    assert_eq!(&p[n - 5..n], &[true, true, true, false, true]);
}

#[test]
fn test_modules_get_and_set() {
    let mut grid = BarcodeModules::new_matrix(4, 3);
    assert!(!grid.get(2, 1));
    grid.set(2, 1, true);
    assert!(grid.get(2, 1));
    assert!(!grid.get(9, 9));

    let mut line = BarcodeModules::new_linear(5);
    line.set(3, 0, true);
    assert!(line.get(3, 0));
    assert!(!line.get(3, 1));
}

#[test]
fn test_simulate_decoders() {
    let long = vec![true; 95];
    assert_eq!(simulate_ean13_decode(&long).unwrap(), "1234567890128");
    assert_eq!(simulate_upc_a_decode(&long).unwrap(), "036000291452");
    assert_eq!(simulate_code128_decode(&long).unwrap(), "HELLO123");
    let short = vec![true; 10];
    assert!(simulate_ean13_decode(&short).is_none());
    assert!(simulate_upc_a_decode(&short).is_none());
    assert!(simulate_code128_decode(&short).is_none());
}

#[test]
fn test_code128_all_digit_even_uses_code_c() {
    // An even run of digits packs two digits per symbol: start, three data
    // symbols, the check symbol (11 modules each) and the 13-module stop.
    let b = quickcodes::generate_code128("123456").unwrap();
    assert_eq!(b.modules.as_linear().unwrap().len(), 11 * 5 + 13);
    // Mixed data uses one symbol per character.
    let b2 = quickcodes::generate_code128("A1").unwrap();
    assert_eq!(b2.modules.as_linear().unwrap().len(), 11 * 4 + 13);
}

#[test]
fn test_code39_rejects_asterisk_payload() {
    // The asterisk is the start/stop marker, not data.
    let err = generate_code39("*").unwrap_err();
    assert!(err.message().contains("'*'"));
    assert!(generate_code39("AB*CD").is_err());
}

#[test]
fn test_code128_control_characters_use_code_set_a() {
    // A lone tab starts in code set A: start, one symbol, check, stop.
    let b = quickcodes::generate_code128("\t").unwrap();
    assert_eq!(b.data, "\t");
    assert_eq!(b.modules.as_linear().unwrap().len(), 11 * 3 + 13);

    // Mixed data starts in B and switches to A for the tab; 'B' is covered
    // by set A, so no switch back: start, 'A', CODE A, tab, 'B', check.
    let mixed = quickcodes::generate_code128("A\tB").unwrap();
    assert_eq!(mixed.modules.as_linear().unwrap().len(), 11 * 6 + 13);

    // Lowercase after a control character does force the switch back to B.
    let back = quickcodes::generate_code128("\ta").unwrap();
    // start A + tab + (CODE B, 'a') + check = 5 symbols.
    assert_eq!(back.modules.as_linear().unwrap().len(), 11 * 5 + 13);

    let err = quickcodes::generate_code128("caf\u{e9}").unwrap_err();
    assert!(matches!(err, QuickCodesError::InvalidData(_)));
}

#[test]
fn test_aztec_bullseye_intact() {
    // A 40-byte payload selects two layers: a 23-module full-format symbol
    // whose center column band is crossed by a multiple of sixteen. The
    // bullseye must still show its alternating rings, the reference grid
    // notwithstanding.
    let b = generate_aztec(&"B".repeat(40)).unwrap();
    let m = b.modules.as_matrix().unwrap();
    assert_eq!(m.len(), 23);
    let c: i64 = 11;
    for y in 0..m.len() {
        for x in 0..m.len() {
            let d = (x as i64 - c).abs().max((y as i64 - c).abs());
            if d <= 5 {
                assert_eq!(m[y][x], d % 2 == 1, "bullseye broken at ({}, {})", x, y);
            }
        }
    }
}

#[test]
fn test_code128_digit_runs_use_code_set_c() {
    // A run of six digits switches into code set C mid-stream: start B,
    // 'A', 'B', CODE C, three digit pairs, CODE B, 'C', 'D', check.
    let b = quickcodes::generate_code128("AB123456CD").unwrap();
    assert_eq!(b.modules.as_linear().unwrap().len(), 11 * 11 + 13);

    // A trailing run of four digits also switches: start B, 'A', 'B',
    // CODE C, two pairs, check.
    let tail = quickcodes::generate_code128("AB1234").unwrap();
    assert_eq!(tail.modules.as_linear().unwrap().len(), 11 * 7 + 13);

    // An odd leading run starts in C and leaves the last digit to set B:
    // start C, two pairs, CODE B, '5', check.
    let odd = quickcodes::generate_code128("12345").unwrap();
    assert_eq!(odd.modules.as_linear().unwrap().len(), 11 * 6 + 13);
}
