//! PDF417: a stacked symbology of 17-module columns between start and stop
//! columns, rows bounded to the standard's 3 to 90.

use vstd::prelude::*;
use crate::types::Barcode;
use crate::types::BarcodeConfig;
use crate::types::BarcodeModules;
use crate::types::BarcodeType;
use crate::types::QuickCodesError;
use crate::grid::data_bit;
use crate::grid::data_bit_at;
use vstd::string::StringSliceAdditionalSpecFns;

verus! {

/// PDF417-specific configuration.
#[derive(Debug, Clone, Copy)]
pub struct PDF417Config {
    /// Number of data columns (1-30).
    pub columns: u8,
    /// Error correction level (0-8).
    pub error_correction: u8,
    /// Compact format.
    pub compact: bool,
}

/// The default PDF417 configuration.
pub open spec fn default_pdf417_config() -> PDF417Config {
    PDF417Config { columns: 6, error_correction: 2, compact: false }
}

impl Default for PDF417Config {
    fn default() -> (r: Self)
        ensures
            r == default_pdf417_config(),
    {
        PDF417Config { columns: 6, error_correction: 2, compact: false }
    }
}

/// The number of error correction codewords reserved at a level: it doubles
/// with each level from two at level zero.
pub open spec fn pdf417_ec_words(level: u8) -> int {
    if level == 0 {
        2
    } else if level == 1 {
        4
    } else if level == 2 {
        8
    } else if level == 3 {
        16
    } else if level == 4 {
        32
    } else if level == 5 {
        64
    } else if level == 6 {
        128
    } else if level == 7 {
        256
    } else if level == 8 {
        512
    } else {
        8
    }
}

/// The number of codewords a payload of `data_len` bytes occupies: the data,
/// the error correction words, and one length indicator.
pub open spec fn pdf417_total_words(data_len: int, level: u8) -> int {
    data_len + pdf417_ec_words(level) + 1
}

/// The row count before clamping: the codewords divided over the columns,
/// rounded up.
pub open spec fn pdf417_rows_needed(data_len: int, columns: int, level: u8) -> int {
    (pdf417_total_words(data_len, level) + columns - 1) / columns
}

/// The row count, clamped to the standard's range of 3 to 90.
pub open spec fn pdf417_rows(data_len: int, columns: int, level: u8) -> int {
    let r = pdf417_rows_needed(data_len, columns, level);
    if r < 3 {
        3
    } else if r > 90 {
        90
    } else {
        r
    }
}

/// Computes the clamped row count.
pub fn calculate_rows(data_len: usize, columns: usize, error_level: u8) -> (r: usize)
    requires
        0 < columns <= 30,
        data_len <= 0x1000_0000,
    ensures
        r as int == pdf417_rows(data_len as int, columns as int, error_level),
        3 <= r <= 90,
{
    let error_codewords: usize = match error_level {
        0 => 2,
        1 => 4,
        2 => 8,
        3 => 16,
        4 => 32,
        5 => 64,
        6 => 128,
        7 => 256,
        8 => 512,
        _ => 8,
    };
    let total_codewords: usize = data_len + error_codewords + 1;
    let rows: usize = (total_codewords + columns - 1) / columns;
    if rows < 3 {
        3
    } else if rows > 90 {
        90
    } else {
        rows
    }
}

/// The total width in modules: 17 per data column plus start and stop.
pub open spec fn pdf417_cols(columns: int) -> int {
    columns * 17 + 34
}

/// One cell of the symbol: eight alternating start modules, eight alternating
/// stop modules, and the payload bits row-major in between.
pub open spec fn pdf417_cell(data: Seq<u8>, cols: int, r: int, c: int) -> bool {
    if c < 8 {
        (c + r) % 2 == 0
    } else if c >= cols - 8 {
        ((c - (cols - 8)) + r + 1) % 2 == 0
    } else {
        let t = r * (cols - 16) + (c - 8);
        if t < 8 * data.len() {
            data_bit(data, t)
        } else {
            false
        }
    }
}

/// The full grid.
pub open spec fn pdf417_grid(data: Seq<u8>, rows: int, cols: int) -> Seq<Seq<bool>> {
    Seq::new(rows as nat, |r: int| Seq::new(cols as nat, |c: int| pdf417_cell(data, cols, r, c)))
}

/// Whether `s` (as bytes) is accepted with the default configuration:
/// nonempty, and the codewords fit the 90-row bound without clamping.
pub open spec fn pdf417_accepts(bytes: Seq<u8>) -> bool {
    bytes.len() > 0 && pdf417_rows_needed(bytes.len() as int, 6, 2) <= 90
}

/// The reason reported for a rejected input.
pub open spec fn pdf417_error(bytes: Seq<u8>) -> Seq<char> {
    if bytes.len() == 0 {
        "PDF417 data cannot be empty"@
    } else {
        "PDF417 data exceeds the 90-row capacity"@
    }
}

/// Builds the module grid of the payload bytes with the given configuration.
pub fn generate_pdf417_matrix(data: &Vec<u8>, config: &PDF417Config) -> (m: Vec<Vec<bool>>)
    requires
        0 < config.columns <= 30,
        data@.len() <= 0x1000_0000,
    ensures
        m@.len() == pdf417_rows(data@.len() as int, config.columns as int, config.error_correction),
        Seq::new(m@.len(), |y: int| m@[y]@) == pdf417_grid(
            data@,
            pdf417_rows(data@.len() as int, config.columns as int, config.error_correction),
            pdf417_cols(config.columns as int),
        ),
        forall|y: int| 0 <= y < m@.len() ==> (#[trigger] m@[y])@.len() == pdf417_cols(
            config.columns as int,
        ),
{
    let rows: usize = calculate_rows(data.len(), config.columns as usize, config.error_correction);
    let cols: usize = (config.columns as usize) * 17 + 34;
    let mut m: Vec<Vec<bool>> = Vec::new();
    let mut r: usize = 0;
    while r < rows
        invariant
            r <= rows,
            3 <= rows <= 90,
            cols == config.columns * 17 + 34,
            0 < config.columns <= 30,
            data@.len() <= 0x1000_0000,
            m@.len() == r as int,
            forall|y: int| 0 <= y < r as int ==> (#[trigger] m@[y])@ == Seq::new(
                cols as nat,
                |c: int| pdf417_cell(data@, cols as int, y, c),
            ),
        decreases rows - r,
    {
        let mut row: Vec<bool> = Vec::new();
        let mut c: usize = 0;
        while c < cols
            invariant
                c <= cols,
                cols == config.columns * 17 + 34,
                0 < config.columns <= 30,
                r < rows <= 90,
                data@.len() <= 0x1000_0000,
                row@ == Seq::new(c as nat, |cc: int| pdf417_cell(data@, cols as int, r as int, cc)),
            decreases cols - c,
        {
            let bit: bool;
            if c < 8 {
                bit = (c + r) % 2 == 0;
            } else if c >= cols - 8 {
                bit = ((c - (cols - 8)) + r + 1) % 2 == 0;
            } else {
                proof {
                    assert(0 <= (r as int) * (cols as int - 16) <= 90 * 544) by (nonlinear_arith)
                        requires
                            0 <= (r as int) < 90,
                            0 <= (cols as int - 16) <= 544,
                    ;
                }
                let t: usize = r * (cols - 16) + (c - 8);
                if t < 8 * data.len() {
                    bit = data_bit_at(data, t);
                } else {
                    bit = false;
                }
            }
            row.push(bit);
            c = c + 1;
            proof {
                assert(row@ =~= Seq::new(
                    c as nat,
                    |cc: int| pdf417_cell(data@, cols as int, r as int, cc),
                ));
            }
        }
        m.push(row);
        r = r + 1;
    }
    proof {
        assert(Seq::new(m@.len(), |y: int| m@[y]@) =~~= pdf417_grid(
            data@,
            pdf417_rows(data@.len() as int, config.columns as int, config.error_correction),
            pdf417_cols(config.columns as int),
        ));
    }
    m
}

/// Encodes `data` as PDF417 with the given render configuration; the symbol
/// itself uses the default PDF417 settings.
pub fn generate_pdf417_with_config(data: &str, config: &BarcodeConfig) -> (r: Result<
    Barcode,
    QuickCodesError,
>)
    ensures
        r is Ok <==> pdf417_accepts(data.spec_bytes()),
        r is Ok ==> {
            let b = r->Ok_0;
            let bytes = data.spec_bytes();
            let rows = pdf417_rows(bytes.len() as int, 6, 2);
            &&& b.barcode_type == BarcodeType::PDF417
            &&& b.data@ == data@
            &&& b.modules is Matrix
            &&& b.modules->Matrix_0@.len() == rows
            &&& Seq::new(b.modules->Matrix_0@.len(), |y: int| b.modules->Matrix_0@[y]@)
                == pdf417_grid(bytes, rows, pdf417_cols(6))
            &&& forall|y: int| 0 <= y < rows ==> (#[trigger] b.modules->Matrix_0@[y])@.len()
                == pdf417_cols(6)
            &&& b.config == *config
        },
        r is Err ==> {
            let e = r->Err_0;
            &&& (data.spec_bytes().len() == 0 ==> e is InvalidData)
            &&& (data.spec_bytes().len() != 0 ==> e is GenerationError)
            &&& crate::types::spec_error_message(&e) == pdf417_error(data.spec_bytes())
        },
{
    let bytes: Vec<u8> = data.as_bytes_vec();
    if bytes.len() == 0 {
        return Err(QuickCodesError::InvalidData(String::from_str("PDF417 data cannot be empty")));
    }
    if bytes.len() > 0x1000_0000 || calculate_rows_unclamped_exceeds(bytes.len()) {
        return Err(
            QuickCodesError::GenerationError(
                String::from_str("PDF417 data exceeds the 90-row capacity"),
            ),
        );
    }
    let pdf_config = PDF417Config::default();
    let m = generate_pdf417_matrix(&bytes, &pdf_config);
    Ok(
        Barcode {
            barcode_type: BarcodeType::PDF417,
            data: String::from_str(data),
            modules: BarcodeModules::Matrix(m),
            config: config.clone(),
        },
    )
}

/// Whether the codewords of `len` payload bytes overflow 90 rows of the
/// default six columns.
fn calculate_rows_unclamped_exceeds(len: usize) -> (r: bool)
    requires
        len > 0,
    ensures
        r == (pdf417_rows_needed(len as int, 6, 2) > 90),
{
    // 90 rows of 6 columns hold 540 codewords; 8 are error correction words
    // and 1 the length indicator.
    len > 531
}

/// Encodes `data` as PDF417 with the default render configuration.
pub fn generate_pdf417(data: &str) -> (r: Result<Barcode, QuickCodesError>)
    ensures
        r is Ok <==> pdf417_accepts(data.spec_bytes()),
        r is Ok ==> {
            let b = r->Ok_0;
            let bytes = data.spec_bytes();
            let rows = pdf417_rows(bytes.len() as int, 6, 2);
            &&& b.barcode_type == BarcodeType::PDF417
            &&& b.data@ == data@
            &&& b.modules is Matrix
            &&& b.modules->Matrix_0@.len() == rows
            &&& Seq::new(b.modules->Matrix_0@.len(), |y: int| b.modules->Matrix_0@[y]@)
                == pdf417_grid(bytes, rows, pdf417_cols(6))
            &&& forall|y: int| 0 <= y < rows ==> (#[trigger] b.modules->Matrix_0@[y])@.len()
                == pdf417_cols(6)
            &&& b.config == crate::types::default_config()
        },
        r is Err ==> {
            let e = r->Err_0;
            &&& (data.spec_bytes().len() == 0 ==> e is InvalidData)
            &&& (data.spec_bytes().len() != 0 ==> e is GenerationError)
            &&& crate::types::spec_error_message(&e) == pdf417_error(data.spec_bytes())
        },
{
    generate_pdf417_with_config(data, &BarcodeConfig::default())
}

/// A PDF417 grid is rectangular: every row spans the full symbol width.
pub proof fn lemma_pdf417_rectangular(data: Seq<u8>, rows: int, cols: int)
    requires
        0 <= rows,
        0 <= cols,
    ensures
        pdf417_grid(data, rows, cols).len() == rows,
        forall|y: int|
            0 <= y < rows ==> (#[trigger] pdf417_grid(data, rows, cols)[y]).len() == cols,
{
}

/// Encoding is deterministic: two grids of the same payload and shape are
/// identical.
pub proof fn lemma_pdf417_deterministic(
    data: Seq<u8>,
    rows: int,
    cols: int,
    g1: Seq<Seq<bool>>,
    g2: Seq<Seq<bool>>,
)
    requires
        g1 == pdf417_grid(data, rows, cols),
        g2 == pdf417_grid(data, rows, cols),
    ensures
        g1 == g2,
{
}

} // verus!
