//! SVG rendering: one unit-width rectangle per black module, an optional
//! human-readable caption, all coordinates integral.

use vstd::prelude::*;
use crate::types::Barcode;
use crate::types::BarcodeModules;
use crate::types::BarcodeType;
use crate::types::QuickCodesError;
use crate::util::dec_str;
use crate::util::append_u64;
use vstd::string::StringSliceAdditionalSpecFns;
use vstd::string::StrSliceExecFns;
use vstd::string::StringExecFns;

verus! {

/// The opening of a document of the given pixel dimensions, with its white
/// background rectangle.
pub open spec fn svg_header(w: nat, h: nat) -> Seq<char> {
    "<svg xmlns=\"http://www.w3.org/2000/svg\" width=\""@ + dec_str(w) + "\" height=\""@ + dec_str(
        h,
    ) + "\" viewBox=\"0 0 "@ + dec_str(w) + " "@ + dec_str(h) + "\">"@
        + "<rect width=\"100%\" height=\"100%\" fill=\"white\"/>"@
}

/// One black rectangle.
pub open spec fn svg_rect(x: nat, y: nat, w: nat, h: nat) -> Seq<char> {
    "<rect x=\""@ + dec_str(x) + "\" y=\""@ + dec_str(y) + "\" width=\""@ + dec_str(w)
        + "\" height=\""@ + dec_str(h) + "\" fill=\"black\"/>"@
}

/// The caption element.
pub open spec fn svg_text(data: Seq<char>, x: nat, y: nat, size: nat) -> Seq<char> {
    "<text x=\""@ + dec_str(x) + "\" y=\""@ + dec_str(y)
        + "\" text-anchor=\"middle\" font-family=\"monospace\" font-size=\""@ + dec_str(size)
        + "\" fill=\"black\">"@ + data + "</text>"@
}

/// The bars of the first `n` modules of a linear pattern: a two-unit-wide
/// rectangle for each black module.
pub open spec fn svg_bar_rects(pattern: Seq<bool>, n: int, margin: nat) -> Seq<char>
    decreases n,
{
    if n <= 0 {
        Seq::empty()
    } else {
        svg_bar_rects(pattern, n - 1, margin) + (if pattern[n - 1] {
            svg_rect((margin + 2 * (n - 1)) as nat, margin, 2, 60)
        } else {
            Seq::empty()
        })
    }
}

/// The squares of the first `n` cells of one matrix row.
pub open spec fn svg_row_rects(row: Seq<bool>, n: int, y: int, margin: nat) -> Seq<char>
    decreases n,
{
    if n <= 0 {
        Seq::empty()
    } else {
        svg_row_rects(row, n - 1, y, margin) + (if row[n - 1] {
            svg_rect((margin + 4 * (n - 1)) as nat, (margin + 4 * y) as nat, 4, 4)
        } else {
            Seq::empty()
        })
    }
}

/// The squares of the first `r` rows of a matrix.
pub open spec fn svg_cell_rects(m: Seq<Seq<bool>>, r: int, margin: nat) -> Seq<char>
    decreases r,
{
    if r <= 0 {
        Seq::empty()
    } else {
        svg_cell_rects(m, r - 1, margin) + svg_row_rects(m[r - 1], m[r - 1].len() as int, r - 1, margin)
    }
}

/// The caption shown under a matrix symbol: QR payloads over thirty
/// characters are shortened to their first twenty-seven and an ellipsis.
pub open spec fn svg_display_data(t: BarcodeType, data: Seq<char>) -> Seq<char> {
    if t == BarcodeType::QRCode && data.len() > 30 {
        data.take(27) + "..."@
    } else {
        data
    }
}

/// The complete document for a linear pattern.
pub open spec fn svg_linear_spec(
    data: Seq<char>,
    pattern: Seq<bool>,
    margin: nat,
    include_text: bool,
) -> Seq<char> {
    let w = (2 * pattern.len() + 2 * margin) as nat;
    let h = (60 + (if include_text { 20nat } else { 0nat }) + 2 * margin) as nat;
    svg_header(w, h) + svg_bar_rects(pattern, pattern.len() as int, margin) + (if include_text {
        svg_text(data, w / 2, (margin + 75) as nat, 12)
    } else {
        Seq::empty()
    }) + "</svg>"@
}

/// The complete document for a matrix pattern.
pub open spec fn svg_matrix_spec(
    t: BarcodeType,
    data: Seq<char>,
    m: Seq<Seq<bool>>,
    margin: nat,
    include_text: bool,
) -> Seq<char> {
    let w = (4 * m[0].len() + 2 * margin) as nat;
    let h = (4 * m.len() + (if include_text { 20nat } else { 0nat }) + 2 * margin) as nat;
    svg_header(w, h) + svg_cell_rects(m, m.len() as int, margin) + (if include_text {
        svg_text(svg_display_data(t, data), w / 2, (margin + 4 * m.len() + 15) as nat, 10)
    } else {
        Seq::empty()
    }) + "</svg>"@
}

/// Appends the document opening.
#[verifier::loop_isolation(false)]
fn append_header(s: &mut String, w: u64, h: u64)
    ensures
        final(s)@ == old(s)@ + svg_header(w as nat, h as nat),
{
    s.append("<svg xmlns=\"http://www.w3.org/2000/svg\" width=\"");
    append_u64(s, w);
    s.append("\" height=\"");
    append_u64(s, h);
    s.append("\" viewBox=\"0 0 ");
    append_u64(s, w);
    s.append(" ");
    append_u64(s, h);
    s.append("\">");
    s.append("<rect width=\"100%\" height=\"100%\" fill=\"white\"/>");
    proof {
        assert(s@ =~= old(s)@ + svg_header(w as nat, h as nat));
    }
}

/// Appends one black rectangle.
fn append_rect(s: &mut String, x: u64, y: u64, w: u64, h: u64)
    ensures
        final(s)@ == old(s)@ + svg_rect(x as nat, y as nat, w as nat, h as nat),
{
    s.append("<rect x=\"");
    append_u64(s, x);
    s.append("\" y=\"");
    append_u64(s, y);
    s.append("\" width=\"");
    append_u64(s, w);
    s.append("\" height=\"");
    append_u64(s, h);
    s.append("\" fill=\"black\"/>");
    proof {
        assert(s@ =~= old(s)@ + svg_rect(x as nat, y as nat, w as nat, h as nat));
    }
}

/// Appends the caption element around `data`.
fn append_text(s: &mut String, data: &str, x: u64, y: u64, size: u64)
    ensures
        final(s)@ == old(s)@ + svg_text(data@, x as nat, y as nat, size as nat),
{
    s.append("<text x=\"");
    append_u64(s, x);
    s.append("\" y=\"");
    append_u64(s, y);
    s.append("\" text-anchor=\"middle\" font-family=\"monospace\" font-size=\"");
    append_u64(s, size);
    s.append("\" fill=\"black\">");
    s.append(data);
    s.append("</text>");
    proof {
        assert(s@ =~= old(s)@ + svg_text(data@, x as nat, y as nat, size as nat));
    }
}

/// Renders a linear pattern.
#[verifier::loop_isolation(false)]
pub fn export_linear_svg(barcode: &Barcode, pattern: &Vec<bool>) -> (r: Result<
    Vec<u8>,
    QuickCodesError,
>)
    requires
        pattern@.len() <= 0x1000_0000,
    ensures
        r is Ok,
        r->Ok_0@ == vstd::utf8::encode_utf8(
            svg_linear_spec(
                barcode.data@,
                pattern@,
                barcode.config.margin as nat,
                barcode.config.include_text,
            ),
        ),
{
    let margin: u64 = barcode.config.margin as u64;
    let n: usize = pattern.len();
    let w: u64 = 2 * (n as u64) + 2 * margin;
    let text_h: u64 = if barcode.config.include_text {
        20
    } else {
        0
    };
    let h: u64 = 60 + text_h + 2 * margin;
    let mut s = String::new();
    append_header(&mut s, w, h);
    let ghost head = svg_header(w as nat, h as nat);
    proof {
        assert(s@ =~= head + svg_bar_rects(pattern@, 0, margin as nat));
    }
    let mut i: usize = 0;
    while i < n
        invariant
            i <= n,
            s@ == head + svg_bar_rects(pattern@, i as int, margin as nat),
        decreases n - i,
    {
        if pattern[i] {
            append_rect(&mut s, margin + 2 * (i as u64), margin, 2, 60);
        }
        i = i + 1;
        proof {
            assert(s@ =~= head + svg_bar_rects(pattern@, i as int, margin as nat));
        }
    }
    if barcode.config.include_text {
        append_text(&mut s, barcode.data.as_str(), w / 2, margin + 75, 12);
    }
    s.append("</svg>");
    proof {
        assert(s@ =~= svg_linear_spec(
            barcode.data@,
            pattern@,
            barcode.config.margin as nat,
            barcode.config.include_text,
        ));
    }
    Ok(s.as_str().as_bytes_vec())
}

/// Renders a matrix pattern; an empty matrix is rejected.
#[verifier::loop_isolation(false)]
pub fn export_matrix_svg(barcode: &Barcode, m: &Vec<Vec<bool>>) -> (r: Result<
    Vec<u8>,
    QuickCodesError,
>)
    requires
        m@.len() <= 0x10_0000,
        forall|y: int| 0 <= y < m@.len() ==> (#[trigger] m@[y])@.len() == m@[0]@.len(),
        m@.len() > 0 ==> m@[0]@.len() <= 0x10_0000,
    ensures
        (r is Ok) == (m@.len() > 0 && m@[0]@.len() > 0),
        r is Ok ==> r->Ok_0@ == vstd::utf8::encode_utf8(
            svg_matrix_spec(
                barcode.barcode_type,
                barcode.data@,
                Seq::new(m@.len(), |y: int| m@[y]@),
                barcode.config.margin as nat,
                barcode.config.include_text,
            ),
        ),
        r is Err ==> r->Err_0 is ExportError && r->Err_0->ExportError_0@ == "Matrix is empty"@,
{
    if m.len() == 0 || m[0].len() == 0 {
        return Err(QuickCodesError::ExportError(String::from_str("Matrix is empty")));
    }
    let ghost mm = Seq::new(m@.len(), |y: int| m@[y]@);
    let margin: u64 = barcode.config.margin as u64;
    let rows: usize = m.len();
    let cols: usize = m[0].len();
    let w: u64 = 4 * (cols as u64) + 2 * margin;
    let text_h: u64 = if barcode.config.include_text {
        20
    } else {
        0
    };
    let h: u64 = 4 * (rows as u64) + text_h + 2 * margin;
    let mut s = String::new();
    append_header(&mut s, w, h);
    let ghost head = svg_header(w as nat, h as nat);
    proof {
        assert(s@ =~= head + svg_cell_rects(mm, 0, margin as nat));
    }
    let mut y: usize = 0;
    while y < rows
        invariant
            y <= rows,
            s@ == head + svg_cell_rects(mm, y as int, margin as nat),
        decreases rows - y,
    {
        let mut x: usize = 0;
        while x < cols
            invariant
                x <= cols,
                y < rows,
                s@ == head + svg_cell_rects(mm, y as int, margin as nat) + svg_row_rects(
                    mm[y as int],
                    x as int,
                    y as int,
                    margin as nat,
                ),
            decreases cols - x,
        {
            if m[y][x] {
                append_rect(&mut s, margin + 4 * (x as u64), margin + 4 * (y as u64), 4, 4);
            }
            x = x + 1;
            proof {
                assert(s@ =~= head + svg_cell_rects(mm, y as int, margin as nat) + svg_row_rects(
                    mm[y as int],
                    x as int,
                    y as int,
                    margin as nat,
                ));
            }
        }
        y = y + 1;
        proof {
            assert(s@ =~= head + svg_cell_rects(mm, y as int, margin as nat));
        }
    }
    if barcode.config.include_text {
        let dlen: usize = barcode.data.as_str().unicode_len();
        let is_qr: bool = match barcode.barcode_type {
            BarcodeType::QRCode => true,
            _ => false,
        };
        if is_qr && dlen > 30 {
            let prefix: &str = barcode.data.as_str().substring_char(0, 27);
            let mut disp = String::from_str(prefix);
            disp.append("...");
            proof {
                assert(disp@ =~= svg_display_data(barcode.barcode_type, barcode.data@));
            }
            append_text(&mut s, disp.as_str(), w / 2, margin + 4 * (rows as u64) + 15, 10);
        } else {
            append_text(&mut s, barcode.data.as_str(), w / 2, margin + 4 * (rows as u64) + 15, 10);
        }
    }
    s.append("</svg>");
    proof {
        assert(s@ =~= svg_matrix_spec(
            barcode.barcode_type,
            barcode.data@,
            mm,
            barcode.config.margin as nat,
            barcode.config.include_text,
        ));
    }
    Ok(s.as_str().as_bytes_vec())
}

/// Renders a barcode as an SVG document.
pub fn export_svg(barcode: &Barcode) -> (r: Result<Vec<u8>, QuickCodesError>)
    requires
        (match barcode.modules {
            BarcodeModules::Linear(p) => p@.len() <= 0x1000_0000,
            BarcodeModules::Matrix(m) => m@.len() <= 0x10_0000 && (forall|y: int|
                0 <= y < m@.len() ==> (#[trigger] m@[y])@.len() == m@[0]@.len()) && (m@.len() > 0
                ==> m@[0]@.len() <= 0x10_0000),
        }),
    ensures
        (match barcode.modules {
            BarcodeModules::Linear(p) => r is Ok && r->Ok_0@ == vstd::utf8::encode_utf8(
                svg_linear_spec(
                    barcode.data@,
                    p@,
                    barcode.config.margin as nat,
                    barcode.config.include_text,
                ),
            ),
            BarcodeModules::Matrix(m) => {
                &&& (r is Ok) == (m@.len() > 0 && m@[0]@.len() > 0)
                &&& r is Ok ==> r->Ok_0@ == vstd::utf8::encode_utf8(
                    svg_matrix_spec(
                        barcode.barcode_type,
                        barcode.data@,
                        Seq::new(m@.len(), |y: int| m@[y]@),
                        barcode.config.margin as nat,
                        barcode.config.include_text,
                    ),
                )
                &&& r is Err ==> r->Err_0 is ExportError
            },
        }),
{
    match &barcode.modules {
        BarcodeModules::Linear(pattern) => export_linear_svg(barcode, pattern),
        BarcodeModules::Matrix(m) => export_matrix_svg(barcode, m),
    }
}

} // verus!
