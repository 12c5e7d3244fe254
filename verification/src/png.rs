//! PNG rendering: a verified RGB pixel buffer, encoded to PNG bytes by an
//! outside image encoder.

use vstd::prelude::*;
use crate::types::Barcode;
use crate::types::BarcodeModules;
use crate::types::QuickCodesError;

verus! {

/// Whether pixel `(x, y)` of a linear rendering is black: inside the bar
/// band vertically, and over a black module two pixels wide.
pub open spec fn linear_pixel(pattern: Seq<bool>, margin: int, x: int, y: int) -> bool {
    &&& margin <= y < margin + 60
    &&& margin <= x < margin + 2 * pattern.len()
    &&& pattern[(x - margin) / 2]
}

/// Whether pixel `(x, y)` of a matrix rendering is black: over a black
/// module four pixels square.
pub open spec fn matrix_pixel(m: Seq<Seq<bool>>, margin: int, x: int, y: int) -> bool {
    &&& margin <= y < margin + 4 * m.len()
    &&& margin <= x < margin + 4 * m[0].len()
    &&& m[(y - margin) / 4][(x - margin) / 4]
}

/// The first `n` pixels of `black` as RGB bytes: black pixels are zero,
/// white pixels 255, three bytes each.
pub open spec fn rgb_buf(black: Seq<bool>, n: int) -> Seq<u8>
    decreases n,
{
    if n <= 0 {
        Seq::empty()
    } else {
        rgb_buf(black, n - 1) + (if black[n - 1] {
            seq![0u8, 0u8, 0u8]
        } else {
            seq![255u8, 255u8, 255u8]
        })
    }
}

/// The pixels of a linear rendering in row-major order.
pub open spec fn linear_black_seq(pattern: Seq<bool>, margin: int, w: int, h: int) -> Seq<bool> {
    Seq::new((w * h) as nat, |p: int| linear_pixel(pattern, margin, p % w, p / w))
}

/// The pixels of a matrix rendering in row-major order.
pub open spec fn matrix_black_seq(m: Seq<Seq<bool>>, margin: int, w: int, h: int) -> Seq<bool> {
    Seq::new((w * h) as nat, |p: int| matrix_pixel(m, margin, p % w, p / w))
}

/// The RGB buffer has three bytes per pixel.
pub proof fn lemma_rgb_buf_len(black: Seq<bool>, n: int)
    requires
        0 <= n,
    ensures
        rgb_buf(black, n).len() == 3 * n,
    decreases n,
{
    if n > 0 {
        lemma_rgb_buf_len(black, n - 1);
    }
}

/// The PNG encoding of an RGB buffer of the given dimensions, or nothing when
/// the encoder rejects it.
pub uninterp spec fn png_encoding(pixels: Seq<u8>, w: int, h: int) -> Option<Seq<u8>>;

/// Relies on `image::codecs::png::PngEncoder::write_image`: deterministic
/// PNG encoding of an RGB8 buffer whose length matches the dimensions; a PNG
/// stream always opens with the eight-byte PNG signature.
#[verifier::external_body]
fn png_encode_rgb(buf: &Vec<u8>, w: u32, h: u32) -> (r: Option<Vec<u8>>)
    requires
        buf@.len() == 3 * (w as int) * (h as int),
        w >= 1,
        h >= 1,
    ensures
        (r is Some) == (png_encoding(buf@, w as int, h as int) is Some),
        r is Some ==> {
            let out = png_encoding(buf@, w as int, h as int).unwrap();
            &&& r.unwrap()@ == out
            &&& out.len() >= 8
            &&& out[0] == 137u8 && out[1] == 80u8 && out[2] == 78u8 && out[3] == 71u8
            &&& out[4] == 13u8 && out[5] == 10u8 && out[6] == 26u8 && out[7] == 10u8
        },
{
    let mut out: Vec<u8> = Vec::new();
    let enc = image::codecs::png::PngEncoder::new(&mut out);
    match image::ImageEncoder::write_image(enc, buf, w, h, image::ExtendedColorType::Rgb8) {
        Ok(()) => Some(out),
        Err(_) => None,
    }
}

/// Builds the row-major RGB buffer of a pixel predicate given as a boolean
/// sequence.
#[verifier::loop_isolation(false)]
fn build_rgb(black: Ghost<Seq<bool>>, w: usize, h: usize, pattern: &Vec<bool>, m: &Vec<Vec<bool>>, margin: usize, is_linear: bool) -> (buf: Vec<u8>)
    requires
        w * h <= 0x1000_0000,
        is_linear ==> black@ == linear_black_seq(pattern@, margin as int, w as int, h as int),
        !is_linear ==> black@ == matrix_black_seq(
            Seq::new(m@.len(), |y: int| m@[y]@),
            margin as int,
            w as int,
            h as int,
        ),
        is_linear ==> w == 2 * pattern@.len() + 2 * margin,
        !is_linear ==> m@.len() > 0 && w == 4 * m@[0]@.len() + 2 * margin,
        !is_linear ==> forall|y: int| 0 <= y < m@.len() ==> (#[trigger] m@[y])@.len()
            == m@[0]@.len(),
        !is_linear ==> h == 4 * m@.len() + 2 * margin,
    ensures
        buf@ == rgb_buf(black@, (w * h) as int),
{
    let total: usize = w * h;
    let mut buf: Vec<u8> = Vec::new();
    let mut p: usize = 0;
    while p < total
        invariant
            p <= total,
            buf@ == rgb_buf(black@, p as int),
        decreases total - p,
    {
        let x: usize = p % w;
        let y: usize = p / w;
        proof {
            vstd::arithmetic::div_mod::lemma_fundamental_div_mod(p as int, w as int);
            vstd::arithmetic::div_mod::lemma_mod_bound(p as int, w as int);
            vstd::arithmetic::div_mod::lemma_div_pos_is_pos(p as int, w as int);
        }
        let is_black: bool;
        if is_linear {
            if y >= margin && y < margin + 60 && x >= margin && x < margin + 2 * pattern.len() {
                is_black = pattern[(x - margin) / 2];
            } else {
                is_black = false;
            }
        } else {
            if y >= margin && y < margin + 4 * m.len() && x >= margin && x < margin + 4 * m[0].len()
             {
                is_black = m[(y - margin) / 4][(x - margin) / 4];
            } else {
                is_black = false;
            }
        }
        proof {
            assert(black@[p as int] == is_black);
        }
        if is_black {
            buf.push(0);
            buf.push(0);
            buf.push(0);
        } else {
            buf.push(255);
            buf.push(255);
            buf.push(255);
        }
        p = p + 1;
        proof {
            assert(buf@ =~= rgb_buf(black@, p as int));
        }
    }
    buf
}

/// Renders a barcode as a PNG image. Dimensions beyond the supported bounds
/// and empty matrices are reported as export failures.
pub fn export_png(barcode: &Barcode) -> (r: Result<Vec<u8>, QuickCodesError>)
    ensures
        r is Ok ==> {
            let out = r->Ok_0@;
            &&& out.len() >= 8
            &&& out[0] == 137u8 && out[1] == 80u8 && out[2] == 78u8 && out[3] == 71u8
            &&& out[4] == 13u8 && out[5] == 10u8 && out[6] == 26u8 && out[7] == 10u8
        },
        (match barcode.modules {
            BarcodeModules::Linear(p) => {
                let fits = 0 < p@.len() <= 50000 && barcode.config.margin <= 1000;
                let w = 2 * p@.len() + 2 * barcode.config.margin;
                let h = 60 + 2 * barcode.config.margin;
                &&& !fits ==> r is Err
                &&& fits ==> (r is Ok) == (png_encoding(
                    rgb_buf(
                        linear_black_seq(p@, barcode.config.margin as int, w as int, h as int),
                        (w * h) as int,
                    ),
                    w as int,
                    h as int,
                ) is Some)
                &&& (fits && r is Ok) ==> r->Ok_0@ == png_encoding(
                    rgb_buf(
                        linear_black_seq(p@, barcode.config.margin as int, w as int, h as int),
                        (w * h) as int,
                    ),
                    w as int,
                    h as int,
                ).unwrap()
                &&& r is Err ==> r->Err_0 is ExportError
            },
            BarcodeModules::Matrix(m) => {
                let rows = m@.len();
                let fits = 0 < rows <= 1000 && m@[0]@.len() > 0 && m@[0]@.len() <= 1000
                    && barcode.config.margin <= 1000 && (forall|y: int|
                    0 <= y < m@.len() ==> (#[trigger] m@[y])@.len() == m@[0]@.len());
                let w = 4 * m@[0]@.len() + 2 * barcode.config.margin;
                let h = 4 * rows + 2 * barcode.config.margin;
                &&& !fits ==> r is Err
                &&& fits ==> (r is Ok) == (png_encoding(
                    rgb_buf(
                        matrix_black_seq(
                            Seq::new(m@.len(), |y: int| m@[y]@),
                            barcode.config.margin as int,
                            w as int,
                            h as int,
                        ),
                        (w * h) as int,
                    ),
                    w as int,
                    h as int,
                ) is Some)
                &&& (fits && r is Ok) ==> r->Ok_0@ == png_encoding(
                    rgb_buf(
                        matrix_black_seq(
                            Seq::new(m@.len(), |y: int| m@[y]@),
                            barcode.config.margin as int,
                            w as int,
                            h as int,
                        ),
                        (w * h) as int,
                    ),
                    w as int,
                    h as int,
                ).unwrap()
                &&& r is Err ==> r->Err_0 is ExportError
            },
        }),
{
    let margin: usize = barcode.config.margin as usize;
    match &barcode.modules {
        BarcodeModules::Linear(pattern) => {
            if pattern.len() == 0 || pattern.len() > 50000 || barcode.config.margin > 1000 {
                return Err(
                    QuickCodesError::ExportError(
                        String::from_str("PNG export failed: unsupported dimensions"),
                    ),
                );
            }
            let w: usize = 2 * pattern.len() + 2 * margin;
            let h: usize = 60 + 2 * margin;
            let empty_m: Vec<Vec<bool>> = Vec::new();
            let ghost black = linear_black_seq(pattern@, margin as int, w as int, h as int);
            proof {
                assert(0 <= (w as int) * (h as int) <= 0x1000_0000) by (nonlinear_arith)
                    requires
                        0 <= (w as int) <= 102000,
                        0 <= (h as int) <= 2060,
                ;
            }
            let buf = build_rgb(Ghost(black), w, h, pattern, &empty_m, margin, true);
            proof {
                lemma_rgb_buf_len(black, (w * h) as int);
                assert(3 * ((w * h) as int) == 3 * (w as int) * (h as int)) by (nonlinear_arith)
                    requires
                        (w * h) as int == (w as int) * (h as int),
                ;
            }
            match png_encode_rgb(&buf, w as u32, h as u32) {
                Some(out) => Ok(out),
                None => Err(
                    QuickCodesError::ExportError(String::from_str("PNG export failed")),
                ),
            }
        },
        BarcodeModules::Matrix(m) => {
            if m.len() == 0 || m[0].len() == 0 {
                return Err(QuickCodesError::ExportError(String::from_str("Matrix is empty")));
            }
            if m.len() > 1000 || m[0].len() > 1000 || barcode.config.margin > 1000 {
                return Err(
                    QuickCodesError::ExportError(
                        String::from_str("PNG export failed: unsupported dimensions"),
                    ),
                );
            }
            let mut uniform: bool = true;
            let mut i: usize = 1;
            let cols: usize = m[0].len();
            while i < m.len()
                invariant
                    1 <= i <= m@.len(),
                    cols == m@[0]@.len(),
                    uniform == (forall|y: int|
                        0 <= y < i as int ==> (#[trigger] m@[y])@.len() == m@[0]@.len()),
                decreases m@.len() - i,
            {
                if m[i].len() != cols {
                    uniform = false;
                }
                i = i + 1;
            }
            if !uniform {
                return Err(
                    QuickCodesError::ExportError(
                        String::from_str("PNG export failed: ragged matrix"),
                    ),
                );
            }
            let w: usize = 4 * cols + 2 * margin;
            let h: usize = 4 * m.len() + 2 * margin;
            let empty_p: Vec<bool> = Vec::new();
            let ghost mm = Seq::new(m@.len(), |y: int| m@[y]@);
            let ghost black = matrix_black_seq(mm, margin as int, w as int, h as int);
            proof {
                assert(0 <= (w as int) * (h as int) <= 0x1000_0000) by (nonlinear_arith)
                    requires
                        0 <= (w as int) <= 6000,
                        0 <= (h as int) <= 6000,
                ;
            }
            let buf = build_rgb(Ghost(black), w, h, &empty_p, m, margin, false);
            proof {
                lemma_rgb_buf_len(black, (w * h) as int);
                assert(3 * ((w * h) as int) == 3 * (w as int) * (h as int)) by (nonlinear_arith)
                    requires
                        (w * h) as int == (w as int) * (h as int),
                ;
            }
            match png_encode_rgb(&buf, w as u32, h as u32) {
                Some(out) => Ok(out),
                None => Err(
                    QuickCodesError::ExportError(String::from_str("PNG export failed")),
                ),
            }
        },
    }
}

} // verus!
