//! Generation of 1D and 2D barcode symbologies as boolean module grids,
//! with SVG, PNG and PDF rendering of the result.

use vstd::prelude::*;
use vstd::string::StringSliceAdditionalSpecFns;

pub mod types;
pub mod util;
pub mod checksum;
pub mod ean13;
pub mod upc;
pub mod itf14;
pub mod code39;
pub mod codabar;
pub mod code128;
pub mod qr;
pub mod grid;
pub mod pdf417;
pub mod datamatrix;
pub mod aztec;
pub mod svg;
pub mod png;
pub mod pdf;
pub mod reader;

pub use types::BarcodeType;
pub use types::BarcodeTypeParseError;
pub use types::ExportFormat;
pub use types::QRErrorCorrection;
pub use types::QRConfig;
pub use types::BarcodeConfig;
pub use types::BarcodeModules;
pub use types::Barcode;
pub use types::QuickCodesError;

pub use aztec::AztecConfig;
pub use aztec::generate_finder_pattern;
pub use aztec::calculate_layers;
pub use aztec::generate_aztec;
pub use aztec::generate_aztec_with_config;
pub use codabar::generate_codabar;
pub use code128::generate_code128;
pub use code128::generate_code128_with_config;
pub use code39::generate_code39;
pub use datamatrix::calculate_datamatrix_size;
pub use datamatrix::generate_datamatrix;
pub use datamatrix::generate_datamatrix_with_config;
pub use ean13::calculate_ean13_check_digit;
pub use ean13::generate_ean13;
pub use ean13::generate_ean13_with_config;
pub use ean13::process_ean13_data;
pub use ean13::format_ean13_data;
pub use ean13::generate_ean13_pattern;
pub use itf14::calculate_check_digit;
pub use itf14::generate_itf14;
pub use pdf::export_pdf;
pub use pdf417::PDF417Config;
pub use pdf417::calculate_rows;
pub use pdf417::generate_pdf417;
pub use pdf417::generate_pdf417_with_config;
pub use png::export_png;
pub use qr::generate_qr;
pub use qr::generate_qr_with_config;
pub use reader::BarcodeRegion;
pub use reader::detect_bars;
pub use reader::simulate_code128_decode;
pub use reader::simulate_ean13_decode;
pub use reader::simulate_upc_a_decode;
pub use svg::export_svg;
pub use svg::export_linear_svg;
pub use svg::export_matrix_svg;
pub use upc::calculate_upc_a_check_digit;
pub use upc::generate_upc_a;
pub use upc::generate_upc_a_with_config;
pub use upc::process_upc_a_data;
pub use upc::format_upc_a_data;
pub use upc::generate_upc_a_pattern;

verus! {

/// Whether `data` is accepted by the encoder of a symbology (for QR codes:
/// whether the data fits some version at medium error correction).
pub open spec fn generate_accepts(t: BarcodeType, s: Seq<char>) -> bool {
    match t {
        BarcodeType::EAN13 => ean13::ean13_accepts(s),
        BarcodeType::UPCA => upc::upc_a_accepts(s),
        BarcodeType::Code128 => code128::code128_accepts(s),
        BarcodeType::Code39 => code39::code39_accepts(s),
        BarcodeType::ITF14 => itf14::itf14_accepts(s),
        BarcodeType::Codabar => codabar::codabar_accepts(s),
        BarcodeType::QRCode => qr::qr_encoding(s, 1) is Some,
        BarcodeType::DataMatrix => datamatrix::dm_accepts(vstd::utf8::encode_utf8(s)),
        BarcodeType::PDF417 => pdf417::pdf417_accepts(vstd::utf8::encode_utf8(s)),
        BarcodeType::Aztec => aztec::aztec_accepts(vstd::utf8::encode_utf8(s)),
    }
}

/// The reason a symbology's encoder reports for rejected data (QR failures
/// are reported by the outside encoder and not modelled here).
pub open spec fn generate_error(t: BarcodeType, s: Seq<char>) -> Seq<char> {
    match t {
        BarcodeType::EAN13 => ean13::ean13_error(s),
        BarcodeType::UPCA => upc::upc_a_error(s),
        BarcodeType::Code128 => code128::code128_error(s),
        BarcodeType::Code39 => code39::code39_error(s),
        BarcodeType::ITF14 => itf14::itf14_error(s),
        BarcodeType::Codabar => codabar::codabar_error(s),
        BarcodeType::QRCode => Seq::empty(),
        BarcodeType::DataMatrix => datamatrix::dm_error(vstd::utf8::encode_utf8(s)),
        BarcodeType::PDF417 => pdf417::pdf417_error(vstd::utf8::encode_utf8(s)),
        BarcodeType::Aztec => aztec::aztec_error(vstd::utf8::encode_utf8(s)),
    }
}


/// Whether a symbology produces a one-dimensional grid.
pub open spec fn generate_is_linear(t: BarcodeType) -> bool {
    match t {
        BarcodeType::EAN13 => true,
        BarcodeType::UPCA => true,
        BarcodeType::Code128 => true,
        BarcodeType::Code39 => true,
        BarcodeType::ITF14 => true,
        BarcodeType::Codabar => true,
        BarcodeType::QRCode => false,
        BarcodeType::DataMatrix => false,
        BarcodeType::PDF417 => false,
        BarcodeType::Aztec => false,
    }
}

/// The canonical data carried by an accepted barcode.
pub open spec fn generate_data(t: BarcodeType, s: Seq<char>) -> Seq<char> {
    match t {
        BarcodeType::EAN13 => util::digit_chars(ean13::ean13_canonical(s)),
        BarcodeType::UPCA => util::digit_chars(upc::upc_a_canonical(s)),
        BarcodeType::Code39 => code39::code39_canonical(s),
        BarcodeType::ITF14 => util::digit_chars(itf14::itf14_canonical(s)),
        BarcodeType::Codabar => codabar::codabar_canonical(s),
        _ => s,
    }
}

/// The linear module sequence of an accepted linear barcode.
pub open spec fn generate_linear(t: BarcodeType, s: Seq<char>) -> Seq<bool> {
    match t {
        BarcodeType::EAN13 => ean13::ean13_modules(ean13::ean13_canonical(s)),
        BarcodeType::UPCA => upc::upc_a_modules(upc::upc_a_canonical(s)),
        BarcodeType::Code128 => code128::code128_modules(s),
        BarcodeType::Code39 => code39::code39_modules(s),
        BarcodeType::ITF14 => itf14::itf14_modules(itf14::itf14_canonical(s)),
        BarcodeType::Codabar => codabar::codabar_modules(s),
        _ => Seq::empty(),
    }
}

/// The matrix module grid of an accepted matrix barcode.
pub open spec fn generate_matrix(t: BarcodeType, s: Seq<char>) -> Seq<Seq<bool>> {
    let bytes = vstd::utf8::encode_utf8(s);
    match t {
        BarcodeType::QRCode => qr::qr_encoding(s, 1).unwrap(),
        BarcodeType::DataMatrix => datamatrix::dm_grid(bytes),
        BarcodeType::PDF417 => pdf417::pdf417_grid(
            bytes,
            pdf417::pdf417_rows(bytes.len() as int, 6, 2),
            pdf417::pdf417_cols(6),
        ),
        BarcodeType::Aztec => aztec::aztec_grid(
            bytes,
            aztec::aztec_layers(bytes.len() as int, false),
            false,
        ),
        _ => Seq::empty(),
    }
}

/// Empty input is rejected by every symbology whose encoder this library
/// holds; only QR codes, whose standard allows an empty payload, are decided
/// by the delegated encoder instead.
pub proof fn lemma_empty_input_rejected()
    ensures
        forall|t: BarcodeType|
            t != BarcodeType::QRCode ==> !#[trigger] generate_accepts(t, Seq::<char>::empty()),
{
    assert forall|t: BarcodeType|
        t != BarcodeType::QRCode implies !#[trigger] generate_accepts(
        t,
        Seq::<char>::empty(),
    ) by {
        assert(vstd::utf8::encode_utf8(Seq::<char>::empty()) =~= Seq::<u8>::empty());
    }
}

/// Encodes `data` in the chosen symbology and renders it in the chosen
/// format. Encoding failures carry the encoder's exact reason; rendering
/// failures after a successful encode are export errors.
pub fn generate(barcode_type: BarcodeType, data: &str, format: ExportFormat) -> (r: Result<
    Vec<u8>,
    QuickCodesError,
>)
    ensures
        r is Ok ==> generate_accepts(barcode_type, data@),
        !generate_accepts(barcode_type, data@) ==> r is Err && (barcode_type != BarcodeType::QRCode
            ==> types::spec_error_message(&r->Err_0) == generate_error(barcode_type, data@)),
        !generate_accepts(barcode_type, data@) ==> (match barcode_type {
            BarcodeType::QRCode => r->Err_0 is GenerationError,
            BarcodeType::DataMatrix => if data.spec_bytes().len() == 0 {
                r->Err_0 is InvalidData
            } else {
                r->Err_0 is GenerationError
            },
            BarcodeType::PDF417 => if data.spec_bytes().len() == 0 {
                r->Err_0 is InvalidData
            } else {
                r->Err_0 is GenerationError
            },
            BarcodeType::Aztec => if data.spec_bytes().len() == 0 {
                r->Err_0 is InvalidData
            } else {
                r->Err_0 is GenerationError
            },
            _ => r->Err_0 is InvalidData,
        }),
        (generate_accepts(barcode_type, data@) && r is Err) ==> r->Err_0 is ExportError,
        (generate_accepts(barcode_type, data@) && format == ExportFormat::SVG && barcode_type
            != BarcodeType::Code128 && barcode_type != BarcodeType::Code39 && barcode_type
            != BarcodeType::ITF14 && barcode_type != BarcodeType::Codabar) ==> r is Ok,
        (r is Ok && format == ExportFormat::PNG) ==> {
            let out = r->Ok_0@;
            out.len() >= 8 && out[0] == 137u8 && out[1] == 80u8 && out[2] == 78u8 && out[3]
                == 71u8 && out[4] == 13u8 && out[5] == 10u8 && out[6] == 26u8 && out[7] == 10u8
        },
        (r is Ok && format == ExportFormat::PDF) ==> {
            let out = r->Ok_0@;
            out.len() >= 4 && out[0] == 37u8 && out[1] == 80u8 && out[2] == 68u8 && out[3] == 70u8
        },
        (generate_accepts(barcode_type, data@) && format == ExportFormat::PNG && (barcode_type
            == BarcodeType::EAN13 || barcode_type == BarcodeType::UPCA)) ==> {
            let p = generate_linear(barcode_type, data@);
            let w = 2 * p.len() + 20;
            let h = 80int;
            (r is Ok) == (png::png_encoding(
                png::rgb_buf(png::linear_black_seq(p, 10, w as int, h), (w * h) as int),
                w as int,
                h,
            ) is Some)
        },
        (generate_accepts(barcode_type, data@) && format == ExportFormat::PNG
            && !generate_is_linear(barcode_type)) ==> {
            let mm = generate_matrix(barcode_type, data@);
            let w = 4 * mm[0].len() + 20;
            let h = 4 * mm.len() + 20;
            (r is Ok) == (png::png_encoding(
                png::rgb_buf(png::matrix_black_seq(mm, 10, w as int, h as int), (w * h) as int),
                w as int,
                h as int,
            ) is Some)
        },
        (r is Ok && format == ExportFormat::PNG && generate_is_linear(barcode_type)) ==> {
            let p = generate_linear(barcode_type, data@);
            let w = 2 * p.len() + 20;
            let h = 80int;
            r->Ok_0@ == png::png_encoding(
                png::rgb_buf(png::linear_black_seq(p, 10, w as int, h), (w * h) as int),
                w as int,
                h,
            ).unwrap()
        },
        (r is Ok && format == ExportFormat::PNG && !generate_is_linear(barcode_type)) ==> {
            let mm = generate_matrix(barcode_type, data@);
            let w = 4 * mm[0].len() + 20;
            let h = 4 * mm.len() + 20;
            r->Ok_0@ == png::png_encoding(
                png::rgb_buf(png::matrix_black_seq(mm, 10, w as int, h as int), (w * h) as int),
                w as int,
                h as int,
            ).unwrap()
        },
        (r is Ok && format == ExportFormat::SVG && generate_is_linear(barcode_type))
            ==> r->Ok_0@ == vstd::utf8::encode_utf8(
            svg::svg_linear_spec(
                generate_data(barcode_type, data@),
                generate_linear(barcode_type, data@),
                10,
                true,
            ),
        ),
        (r is Ok && format == ExportFormat::SVG && !generate_is_linear(barcode_type))
            ==> r->Ok_0@ == vstd::utf8::encode_utf8(
            svg::svg_matrix_spec(
                barcode_type,
                generate_data(barcode_type, data@),
                generate_matrix(barcode_type, data@),
                10,
                true,
            ),
        ),
{
    let encoded: Result<Barcode, QuickCodesError> = match barcode_type {
        BarcodeType::QRCode => qr::generate_qr(data),
        BarcodeType::EAN13 => ean13::generate_ean13(data),
        BarcodeType::UPCA => upc::generate_upc_a(data),
        BarcodeType::Code128 => code128::generate_code128(data),
        BarcodeType::DataMatrix => datamatrix::generate_datamatrix(data),
        BarcodeType::PDF417 => pdf417::generate_pdf417(data),
        BarcodeType::Aztec => aztec::generate_aztec(data),
        BarcodeType::Code39 => code39::generate_code39(data),
        BarcodeType::ITF14 => itf14::generate_itf14(data),
        BarcodeType::Codabar => codabar::generate_codabar(data),
    };
    let barcode = match encoded {
        Ok(b) => b,
        Err(e) => {
            return Err(e);
        },
    };
    match format {
        ExportFormat::SVG => {
            match &barcode.modules {
                BarcodeModules::Linear(p) => {
                    if p.len() > 0x1000_0000 {
                        return Err(
                            QuickCodesError::ExportError(
                                String::from_str("SVG export failed: unsupported dimensions"),
                            ),
                        );
                    }
                },
                BarcodeModules::Matrix(m) => {
                    proof {
                        if barcode_type == BarcodeType::QRCode {
                            let g = qr::qr_encoding(data@, 1).unwrap();
                            assert forall|y: int| 0 <= y < m@.len() implies (#[trigger] m@[y])@
                                == g[y] && m@[y]@.len() == g.len() by {
                                assert(barcode.modules->Matrix_0.deep_view()[y] =~= m@[y]@);
                                assert(g[y].len() == g.len());
                            }
                            assert(Seq::new(m@.len(), |y: int| m@[y]@) =~~= g);
                        }
                    }
                    if m.len() > 0x10_0000 {
                        return Err(
                            QuickCodesError::ExportError(
                                String::from_str("SVG export failed: unsupported dimensions"),
                            ),
                        );
                    }
                    if m.len() > 0 {
                        if m[0].len() > 0x10_0000 {
                            return Err(
                                QuickCodesError::ExportError(
                                    String::from_str("SVG export failed: unsupported dimensions"),
                                ),
                            );
                        }
                        let cols: usize = m[0].len();
                        let mut i: usize = 1;
                        let mut uniform: bool = true;
                        while i < m.len()
                            invariant
                                1 <= i <= m@.len(),
                                cols == m@[0]@.len(),
                                uniform == (forall|y: int|
                                    0 <= y < i as int ==> (#[trigger] m@[y])@.len()
                                        == m@[0]@.len()),
                            decreases m@.len() - i,
                        {
                            if m[i].len() != cols {
                                uniform = false;
                            }
                            i = i + 1;
                        }
                        if !uniform {
                            return Err(
                                QuickCodesError::ExportError(
                                    String::from_str("SVG export failed: ragged matrix"),
                                ),
                            );
                        }
                    }
                },
            }
            svg::export_svg(&barcode)
        },
        ExportFormat::PNG => {
            proof {
                if barcode_type == BarcodeType::QRCode {
                    let g = qr::qr_encoding(data@, 1).unwrap();
                    let mv = barcode.modules->Matrix_0;
                    assert forall|y: int| 0 <= y < mv@.len() implies (#[trigger] mv@[y])@ == g[y]
                        && mv@[y]@.len() == g.len() by {
                        assert(mv.deep_view()[y] =~= mv@[y]@);
                        assert(g[y].len() == g.len());
                    }
                    assert(Seq::new(mv@.len(), |y: int| mv@[y]@) =~~= g);
                }
            }
            png::export_png(&barcode)
        },
        ExportFormat::PDF => pdf::export_pdf(&barcode),
    }
}

} // verus!
