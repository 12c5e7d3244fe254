//! QR codes, delegated to a standards-conformant encoder. The grid returned
//! by the outside encoder is a deterministic function of the data and the
//! error correction level, named here and pinned square.

use vstd::prelude::*;
use crate::types::Barcode;
use crate::types::BarcodeConfig;
use crate::types::BarcodeModules;
use crate::types::BarcodeType;
use crate::types::QRErrorCorrection;
use crate::types::QuickCodesError;
use crate::types::default_config;

verus! {

/// The module grid that a conformant QR encoder produces for `s` at error
/// correction level `level` (0 low, 1 medium, 2 quartile, 3 high), or nothing
/// when the data exceeds the capacity of every version.
pub uninterp spec fn qr_encoding(s: Seq<char>, level: int) -> Option<Seq<Seq<bool>>>;

/// Relies on `qrcode::QrCode::with_error_correction_level`: version
/// auto-selection, mode selection and Reed-Solomon coding per the QR standard;
/// it errs exactly when the data is too long for every version, and its grid
/// is `width x width` (`QrCode::width`), read here cell by cell. Automatic
/// encoding picks a normal version 1 to 40, whose width is four times the
/// version plus seventeen.
#[verifier::external_body]
fn qr_encode_grid(data: &str, level: u8) -> (r: Option<Vec<Vec<bool>>>)
    requires
        level < 4,
    ensures
        r is Some <==> qr_encoding(data@, level as int) is Some,
        r is Some ==> {
            let g = qr_encoding(data@, level as int).unwrap();
            &&& r.unwrap().deep_view() == g
            &&& g.len() == r.unwrap()@.len()
            &&& forall|i: int| 0 <= i < g.len() ==> (#[trigger] g[i]).len() == g.len()
            &&& 21 <= g.len() <= 177
            &&& g.len() % 4 == 1
        },
{
    let ec = [qrcode::EcLevel::L, qrcode::EcLevel::M, qrcode::EcLevel::Q, qrcode::EcLevel::H][level as usize];
    let code = match qrcode::QrCode::with_error_correction_level(data, ec) { Ok(c) => c, Err(_) => return None };
    let w = code.width();
    let mut grid = Vec::with_capacity(w);
    for y in 0..w {
        let mut row = Vec::with_capacity(w);
        for x in 0..w {
            row.push(code[(x, y)] == qrcode::Color::Dark);
        }
        grid.push(row);
    }
    Some(grid)
}

/// The numeric level of an error correction setting.
pub open spec fn ec_level_num(ec: QRErrorCorrection) -> int {
    match ec {
        QRErrorCorrection::Low => 0,
        QRErrorCorrection::Medium => 1,
        QRErrorCorrection::Quartile => 2,
        QRErrorCorrection::High => 3,
    }
}

/// Encodes `data` as a QR code with the given render configuration, whose
/// QR settings choose the error correction level.
pub fn generate_qr_with_config(data: &str, config: &BarcodeConfig) -> (r: Result<
    Barcode,
    QuickCodesError,
>)
    ensures
        r is Ok <==> qr_encoding(data@, ec_level_num(config.qr_config.error_correction)) is Some,
        r is Ok ==> {
            let b = r->Ok_0;
            let g = qr_encoding(data@, ec_level_num(config.qr_config.error_correction)).unwrap();
            &&& b.barcode_type == BarcodeType::QRCode
            &&& b.data@ == data@
            &&& b.modules is Matrix
            &&& b.modules->Matrix_0.deep_view() == g
            &&& b.modules->Matrix_0@.len() == g.len()
            &&& forall|i: int| 0 <= i < g.len() ==> (#[trigger] g[i]).len() == g.len()
            &&& 21 <= g.len() <= 177
            &&& g.len() % 4 == 1
            &&& b.config == *config
        },
        r is Err ==> r->Err_0 is GenerationError,
{
    let level: u8 = match config.qr_config.error_correction {
        QRErrorCorrection::Low => 0,
        QRErrorCorrection::Medium => 1,
        QRErrorCorrection::Quartile => 2,
        QRErrorCorrection::High => 3,
    };
    match qr_encode_grid(data, level) {
        Some(grid) => Ok(
            Barcode {
                barcode_type: BarcodeType::QRCode,
                data: String::from_str(data),
                modules: BarcodeModules::Matrix(grid),
                config: config.clone(),
            },
        ),
        None => Err(
            QuickCodesError::GenerationError(
                String::from_str("QR generation failed: data too long"),
            ),
        ),
    }
}

/// Encodes `data` as a QR code with the default configuration (medium error
/// correction).
pub fn generate_qr(data: &str) -> (r: Result<Barcode, QuickCodesError>)
    ensures
        r is Ok <==> qr_encoding(data@, 1) is Some,
        r is Ok ==> {
            let b = r->Ok_0;
            let g = qr_encoding(data@, 1).unwrap();
            &&& b.barcode_type == BarcodeType::QRCode
            &&& b.data@ == data@
            &&& b.modules is Matrix
            &&& b.modules->Matrix_0.deep_view() == g
            &&& b.modules->Matrix_0@.len() == g.len()
            &&& forall|i: int| 0 <= i < g.len() ==> (#[trigger] g[i]).len() == g.len()
            &&& 21 <= g.len() <= 177
            &&& g.len() % 4 == 1
            &&& b.config == default_config()
        },
        r is Err ==> r->Err_0 is GenerationError,
{
    generate_qr_with_config(data, &BarcodeConfig::default())
}

} // verus!
