//! PDF rendering: a one-page summary of the barcode, written by an outside
//! PDF library from three verified text lines.

use vstd::prelude::*;
use crate::types::Barcode;
use crate::types::BarcodeModules;
use crate::types::BarcodeType;
use crate::types::QuickCodesError;
use crate::util::append_u64;
use crate::util::dec_str;
use vstd::string::StringExecFns;

verus! {

/// The name of a symbology, as written in the PDF summary.
pub open spec fn symbology_name(t: BarcodeType) -> Seq<char> {
    match t {
        BarcodeType::EAN13 => "EAN13"@,
        BarcodeType::UPCA => "UPCA"@,
        BarcodeType::Code128 => "Code128"@,
        BarcodeType::Code39 => "Code39"@,
        BarcodeType::ITF14 => "ITF14"@,
        BarcodeType::Codabar => "Codabar"@,
        BarcodeType::QRCode => "QRCode"@,
        BarcodeType::DataMatrix => "DataMatrix"@,
        BarcodeType::PDF417 => "PDF417"@,
        BarcodeType::Aztec => "Aztec"@,
    }
}

/// Appends the symbology name.
fn append_symbology_name(s: &mut String, t: BarcodeType)
    ensures
        final(s)@ == old(s)@ + symbology_name(t),
{
    match t {
        BarcodeType::EAN13 => s.append("EAN13"),
        BarcodeType::UPCA => s.append("UPCA"),
        BarcodeType::Code128 => s.append("Code128"),
        BarcodeType::Code39 => s.append("Code39"),
        BarcodeType::ITF14 => s.append("ITF14"),
        BarcodeType::Codabar => s.append("Codabar"),
        BarcodeType::QRCode => s.append("QRCode"),
        BarcodeType::DataMatrix => s.append("DataMatrix"),
        BarcodeType::PDF417 => s.append("PDF417"),
        BarcodeType::Aztec => s.append("Aztec"),
    }
}

/// The grid summary line: the pattern length of a linear grid, the
/// dimensions of a matrix grid.
pub open spec fn dimensions_line(modules: &BarcodeModules) -> Seq<char> {
    match modules {
        BarcodeModules::Linear(p) => "Pattern Length: "@ + dec_str(p@.len()),
        BarcodeModules::Matrix(m) => "Matrix Size: "@ + dec_str(m@.len()) + "x"@ + dec_str(
            if m@.len() > 0 {
                m@[0]@.len()
            } else {
                0
            },
        ),
    }
}

/// Relies on `printpdf::PdfDocument` (an A4 page, the built-in Helvetica
/// font, three lines of text, `save` into a buffer): a saved PDF document
/// begins with the `%PDF` header.
#[verifier::external_body]
fn pdf_render(l1: &str, l2: &str, l3: &str) -> (r: Option<Vec<u8>>)
    ensures
        r is Some ==> {
            let out = r.unwrap()@;
            &&& out.len() >= 4
            &&& out[0] == 37u8 && out[1] == 80u8 && out[2] == 68u8 && out[3] == 70u8
        },
{
    let mm = |v: u16| printpdf::Mm(v.into());
    let (doc, page, layer) = printpdf::PdfDocument::new("QuickCodes Barcode", mm(210), mm(297), "Layer 1");
    let cl = doc.get_page(page).get_layer(layer);
    let font = doc.add_builtin_font(printpdf::BuiltinFont::Helvetica).ok()?;
    for (i, t) in [l1, l2, l3].iter().enumerate() {
        cl.set_text_cursor(mm(20), mm(250 - 20 * i as u16));
        cl.write_text(*t, &font);
    }
    let mut buf: Vec<u8> = Vec::new();
    doc.save(&mut std::io::BufWriter::new(&mut buf)).ok()?;
    Some(buf)
}

/// Renders a one-page PDF summary of a barcode: its symbology, its data, and
/// its grid dimensions. A produced document always opens with `%PDF`.
pub fn export_pdf(barcode: &Barcode) -> (r: Result<Vec<u8>, QuickCodesError>)
    ensures
        r is Ok ==> {
            let out = r->Ok_0@;
            &&& out.len() >= 4
            &&& out[0] == 37u8 && out[1] == 80u8 && out[2] == 68u8 && out[3] == 70u8
        },
        r is Err ==> r->Err_0 is ExportError,
{
    let mut l1 = String::from_str("Barcode Type: ");
    append_symbology_name(&mut l1, barcode.barcode_type);
    let mut l2 = String::from_str("Data: ");
    l2.append(barcode.data.as_str());
    let mut l3 = String::new();
    match &barcode.modules {
        BarcodeModules::Linear(p) => {
            l3.append("Pattern Length: ");
            let n: usize = p.len();
            append_u64(&mut l3, n as u64);
        },
        BarcodeModules::Matrix(m) => {
            l3.append("Matrix Size: ");
            let rows: usize = m.len();
            append_u64(&mut l3, rows as u64);
            l3.append("x");
            let cols: usize = if rows > 0 {
                m[0].len()
            } else {
                0
            };
            append_u64(&mut l3, cols as u64);
        },
    }
    proof {
        assert(l1@ =~= "Barcode Type: "@ + symbology_name(barcode.barcode_type));
        assert(l2@ =~= "Data: "@ + barcode.data@);
        assert(l3@ =~= dimensions_line(&barcode.modules));
    }
    match pdf_render(l1.as_str(), l2.as_str(), l3.as_str()) {
        Some(out) => Ok(out),
        None => Err(QuickCodesError::ExportError(String::from_str("PDF save failed"))),
    }
}

} // verus!
