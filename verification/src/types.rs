//! Core value types: symbology tags, render configuration, module grids,
//! the barcode value object, and the error taxonomy.

use vstd::prelude::*;
use crate::util::char_to_string;
use crate::util::find_last;
use crate::util::last_index_of;
use crate::util::lower_seq;
use crate::util::str_eq;
use crate::util::to_lower;
use vstd::string::StrSliceExecFns;
use vstd::string::StringExecFns;

verus! {

/// The supported barcode symbologies.
#[derive(Debug, Clone, Copy, PartialEq, Eq, Structural)]
pub enum BarcodeType {
    EAN13,
    UPCA,
    Code128,
    Code39,
    ITF14,
    Codabar,
    QRCode,
    DataMatrix,
    PDF417,
    Aztec,
}

/// Error returned when a symbology name cannot be parsed.
#[derive(Debug, Clone)]
pub enum BarcodeTypeParseError {
    InvalidType(String),
}

impl BarcodeTypeParseError {
    /// The human-readable reason carried by this error.
    pub fn message(&self) -> (r: String)
        ensures
            (match self {
                BarcodeTypeParseError::InvalidType(s) => r@ == s@,
            }),
    {
        match self {
            BarcodeTypeParseError::InvalidType(s) => s.clone(),
        }
    }
}

/// Which symbology a name denotes.
pub open spec fn parse_type_spec(s: Seq<char>) -> Option<BarcodeType> {
    if s == "QRCode"@ {
        Some(BarcodeType::QRCode)
    } else if s == "EAN13"@ {
        Some(BarcodeType::EAN13)
    } else if s == "UPCA"@ {
        Some(BarcodeType::UPCA)
    } else if s == "Code128"@ {
        Some(BarcodeType::Code128)
    } else if s == "Code39"@ {
        Some(BarcodeType::Code39)
    } else if s == "DataMatrix"@ {
        Some(BarcodeType::DataMatrix)
    } else if s == "PDF417"@ {
        Some(BarcodeType::PDF417)
    } else if s == "Aztec"@ {
        Some(BarcodeType::Aztec)
    } else if s == "ITF14"@ {
        Some(BarcodeType::ITF14)
    } else if s == "Codabar"@ {
        Some(BarcodeType::Codabar)
    } else {
        None
    }
}

impl BarcodeType {
    /// Parses a symbology name.
    pub fn parse_name(s: &str) -> (r: Result<BarcodeType, BarcodeTypeParseError>)
        ensures
            (r is Ok) == (parse_type_spec(s@) is Some),
            r is Ok ==> r->Ok_0 == parse_type_spec(s@).unwrap(),
            r is Err ==> (match r->Err_0 {
                BarcodeTypeParseError::InvalidType(m) => m@ == s@,
            }),
    {
        if str_eq(s, "QRCode") {
            Ok(BarcodeType::QRCode)
        } else if str_eq(s, "EAN13") {
            Ok(BarcodeType::EAN13)
        } else if str_eq(s, "UPCA") {
            Ok(BarcodeType::UPCA)
        } else if str_eq(s, "Code128") {
            Ok(BarcodeType::Code128)
        } else if str_eq(s, "Code39") {
            Ok(BarcodeType::Code39)
        } else if str_eq(s, "DataMatrix") {
            Ok(BarcodeType::DataMatrix)
        } else if str_eq(s, "PDF417") {
            Ok(BarcodeType::PDF417)
        } else if str_eq(s, "Aztec") {
            Ok(BarcodeType::Aztec)
        } else if str_eq(s, "ITF14") {
            Ok(BarcodeType::ITF14)
        } else if str_eq(s, "Codabar") {
            Ok(BarcodeType::Codabar)
        } else {
            Err(BarcodeTypeParseError::InvalidType(String::from_str(s)))
        }
    }
}

impl core::str::FromStr for BarcodeType {
    type Err = BarcodeTypeParseError;

    fn from_str(s: &str) -> Result<BarcodeType, BarcodeTypeParseError> {
        BarcodeType::parse_name(s)
    }
}

/// Output formats a barcode can be rendered to.
#[derive(Debug, Clone, Copy, PartialEq, Eq, Structural)]
pub enum ExportFormat {
    PNG,
    SVG,
    PDF,
}

/// The extension of a path: what follows the last dot of the last path
/// component, unless that dot begins the component.
pub open spec fn extension_of(s: Seq<char>) -> Option<Seq<char>> {
    let name = s.skip(last_index_of(s, '/') + 1);
    let d = last_index_of(name, '.');
    if d <= 0 {
        None
    } else {
        Some(name.skip(d + 1))
    }
}

/// Which format a lowercased extension denotes.
pub open spec fn parse_format_spec(ext: Seq<char>) -> Option<ExportFormat> {
    if ext == "png"@ {
        Some(ExportFormat::PNG)
    } else if ext == "svg"@ {
        Some(ExportFormat::SVG)
    } else if ext == "pdf"@ {
        Some(ExportFormat::PDF)
    } else {
        None
    }
}

impl ExportFormat {
    /// Chooses an export format from a file path's extension.
    pub fn from_extension(path: &str) -> (r: Result<ExportFormat, QuickCodesError>)
        ensures
            extension_of(path@) is None ==> r is Err && r->Err_0 is UnsupportedFormat
                && spec_error_message(&r->Err_0) == "File has no extension"@,
            extension_of(path@) is Some ==> {
                let le = lower_seq(extension_of(path@).unwrap());
                &&& (r is Ok) == (parse_format_spec(le) is Some)
                &&& r is Ok ==> r->Ok_0 == parse_format_spec(le).unwrap()
                &&& r is Err ==> r->Err_0 is UnsupportedFormat && spec_error_message(&r->Err_0)
                    == "Unsupported file format: "@ + le
            },
    {
        let ghost s = path@;
        let n: usize = path.unicode_len();
        let mut cs: Vec<char> = Vec::new();
        let mut i: usize = 0;
        while i < n
            invariant
                i <= n,
                n == s.len(),
                s == path@,
                cs@ == s.take(i as int),
            decreases n - i,
        {
            cs.push(path.get_char(i));
            i = i + 1;
            proof {
                assert(cs@ =~= s.take(i as int));
            }
        }
        proof {
            assert(cs@ =~= s);
            crate::util::lemma_last_index_bound(s, '/');
        }
        let slash: usize = find_last(&cs, '/');
        let name_start: usize = if slash < cs.len() {
            slash + 1
        } else {
            0
        };
        let mut name: Vec<char> = Vec::new();
        let mut k: usize = name_start;
        proof {
            assert(name@ =~= s.subrange(name_start as int, k as int));
        }
        while k < cs.len()
            invariant
                name_start <= k <= cs@.len(),
                cs@ == s,
                name_start as int == last_index_of(s, '/') + 1 || (last_index_of(s, '/') < 0
                    && name_start == 0),
                name@ == s.subrange(name_start as int, k as int),
            decreases cs@.len() - k,
        {
            name.push(cs[k]);
            k = k + 1;
            proof {
                assert(name@ =~= s.subrange(name_start as int, k as int));
            }
        }
        proof {
            assert(name@ =~= s.skip(last_index_of(s, '/') + 1));
        }
        proof {
            crate::util::lemma_last_index_bound(name@, '.');
        }
        let dot: usize = find_last(&name, '.');
        if dot == 0 || dot >= name.len() {
            return Err(
                QuickCodesError::UnsupportedFormat(String::from_str("File has no extension")),
            );
        }
        let mut ext: Vec<char> = Vec::new();
        let mut t: usize = dot + 1;
        while t < name.len()
            invariant
                dot + 1 <= t <= name@.len(),
                dot as int == last_index_of(name@, '.'),
                0 < dot < name@.len(),
                ext@ == lower_seq(name@.subrange(dot as int + 1, t as int)),
            decreases name@.len() - t,
        {
            ext.push(to_lower(name[t]));
            t = t + 1;
            proof {
                assert(ext@ =~= lower_seq(name@.subrange(dot as int + 1, t as int)));
            }
        }
        proof {
            assert(name@.subrange(dot as int + 1, name@.len() as int) =~= name@.skip(dot as int + 1));
            assert(ext@ == lower_seq(extension_of(s).unwrap()));
            reveal_strlit("png");
            reveal_strlit("svg");
            reveal_strlit("pdf");
        }
        if ext.len() == 3 && ext[0] == 'p' && ext[1] == 'n' && ext[2] == 'g' {
            proof {
                assert(ext@ =~= "png"@);
            }
            Ok(ExportFormat::PNG)
        } else if ext.len() == 3 && ext[0] == 's' && ext[1] == 'v' && ext[2] == 'g' {
            proof {
                assert(ext@ =~= "svg"@);
            }
            Ok(ExportFormat::SVG)
        } else if ext.len() == 3 && ext[0] == 'p' && ext[1] == 'd' && ext[2] == 'f' {
            proof {
                assert(ext@ =~= "pdf"@);
            }
            Ok(ExportFormat::PDF)
        } else {
            let mut m = String::from_str("Unsupported file format: ");
            let mut u: usize = 0;
            while u < ext.len()
                invariant
                    u <= ext@.len(),
                    m@ == "Unsupported file format: "@ + ext@.take(u as int),
                decreases ext@.len() - u,
            {
                let cstr = char_to_string(ext[u]);
                m.append(cstr.as_str());
                u = u + 1;
                proof {
                    assert(m@ =~= "Unsupported file format: "@ + ext@.take(u as int));
                }
            }
            proof {
                assert(ext@.take(ext@.len() as int) =~= ext@);
            }
            Err(QuickCodesError::UnsupportedFormat(m))
        }
    }
}

/// QR error correction levels.
#[derive(Debug, Clone, Copy, PartialEq, Eq, Structural)]
pub enum QRErrorCorrection {
    Low,
    Medium,
    Quartile,
    High,
}

/// QR-specific configuration.
#[derive(Debug, Clone, Copy)]
pub struct QRConfig {
    pub error_correction: QRErrorCorrection,
}

/// The default QR configuration.
pub open spec fn default_qr_config() -> QRConfig {
    QRConfig { error_correction: QRErrorCorrection::Medium }
}

impl Default for QRConfig {
    fn default() -> (r: Self)
        ensures
            r == default_qr_config(),
    {
        QRConfig { error_correction: QRErrorCorrection::Medium }
    }
}

/// Render configuration shared by every symbology.
#[derive(Debug, Clone, Copy)]
pub struct BarcodeConfig {
    pub width: u32,
    pub height: u32,
    pub margin: u32,
    pub foreground: [u8; 4],
    pub background: [u8; 4],
    pub include_text: bool,
    pub qr_config: QRConfig,
}

/// The default render configuration.
pub open spec fn default_config() -> BarcodeConfig {
    BarcodeConfig {
        width: 300,
        height: 150,
        margin: 10,
        foreground: [0, 0, 0, 255],
        background: [255, 255, 255, 255],
        include_text: true,
        qr_config: default_qr_config(),
    }
}

impl Default for BarcodeConfig {
    fn default() -> (r: Self)
        ensures
            r == default_config(),
    {
        BarcodeConfig {
            width: 300,
            height: 150,
            margin: 10,
            foreground: [0, 0, 0, 255],
            background: [255, 255, 255, 255],
            include_text: true,
            qr_config: QRConfig::default(),
        }
    }
}

/// A one- or two-dimensional grid of black (`true`) and white (`false`) modules.
#[derive(Debug, Clone)]
pub enum BarcodeModules {
    Linear(Vec<bool>),
    Matrix(Vec<Vec<bool>>),
}

impl BarcodeModules {
    /// A linear grid of `width` white modules.
    pub fn new_linear(width: usize) -> (r: Self)
        ensures
            (match r {
                BarcodeModules::Linear(d) => d@ == Seq::new(width as nat, |i: int| false),
                BarcodeModules::Matrix(_) => false,
            }),
    {
        let mut d: Vec<bool> = Vec::new();
        let mut i: usize = 0;
        while i < width
            invariant
                i <= width,
                d@ == Seq::new(i as nat, |j: int| false),
            decreases width - i,
        {
            d.push(false);
            i = i + 1;
            proof {
                assert(d@ =~= Seq::new(i as nat, |j: int| false));
            }
        }
        BarcodeModules::Linear(d)
    }

    /// A `height` by `width` matrix of white modules.
    pub fn new_matrix(width: usize, height: usize) -> (r: Self)
        ensures
            (match r {
                BarcodeModules::Matrix(d) => d@.len() == height && forall|y: int|
                    0 <= y < height ==> (#[trigger] d@[y])@ == Seq::new(
                        width as nat,
                        |x: int| false,
                    ),
                BarcodeModules::Linear(_) => false,
            }),
    {
        let mut d: Vec<Vec<bool>> = Vec::new();
        let mut y: usize = 0;
        while y < height
            invariant
                y <= height,
                d@.len() == y as int,
                forall|r: int|
                    0 <= r < y as int ==> (#[trigger] d@[r])@ == Seq::new(
                        width as nat,
                        |x: int| false,
                    ),
            decreases height - y,
        {
            let mut row: Vec<bool> = Vec::new();
            let mut x: usize = 0;
            while x < width
                invariant
                    x <= width,
                    row@ == Seq::new(x as nat, |j: int| false),
                decreases width - x,
            {
                row.push(false);
                x = x + 1;
                proof {
                    assert(row@ =~= Seq::new(x as nat, |j: int| false));
                }
            }
            d.push(row);
            y = y + 1;
        }
        BarcodeModules::Matrix(d)
    }

    /// What `get` returns for each grid shape and coordinate.
    pub open spec fn spec_get(&self, x: int, y: int) -> bool {
        match self {
            BarcodeModules::Linear(d) => {
                if 0 <= x < d@.len() && y == 0 {
                    d@[x]
                } else {
                    false
                }
            },
            BarcodeModules::Matrix(d) => {
                if 0 <= y < d@.len() && 0 <= x < d@[0]@.len() && x < d@[y]@.len() {
                    d@[y]@[x]
                } else {
                    false
                }
            },
        }
    }

    /// Read the module at `(x, y)`; out-of-range coordinates read as white.
    pub fn get(&self, x: usize, y: usize) -> (r: bool)
        ensures
            r == self.spec_get(x as int, y as int),
    {
        match self {
            BarcodeModules::Linear(d) => {
                if x < d.len() && y == 0 {
                    d[x]
                } else {
                    false
                }
            },
            BarcodeModules::Matrix(d) => {
                if y < d.len() && x < d[0].len() && x < d[y].len() {
                    d[y][x]
                } else {
                    false
                }
            },
        }
    }

    /// Write the module at `(x, y)`; out-of-range coordinates are ignored.
    pub fn set(&mut self, x: usize, y: usize, value: bool)
        ensures
            ((*final(self)) is Linear) == ((*old(self)) is Linear),
            (*old(self)) is Linear ==> (if 0 <= (x as int) < old(self)->Linear_0@.len() && y == 0 {
                final(self)->Linear_0@ == old(self)->Linear_0@.update(x as int, value)
            } else {
                final(self)->Linear_0@ == old(self)->Linear_0@
            }),
            (*old(self)) is Matrix ==> {
                let d = old(self)->Matrix_0@;
                let d2 = final(self)->Matrix_0@;
                &&& d2.len() == d.len()
                &&& forall|i: int| 0 <= i < d.len() && i != y as int ==> #[trigger] d2[i] == d[i]
                &&& (if 0 <= (y as int) < d.len() && 0 <= (x as int) < d[0]@.len() && (x as int)
                    < d[y as int]@.len() {
                    d2[y as int]@ == d[y as int]@.update(x as int, value)
                } else {
                    0 <= (y as int) < d.len() ==> d2[y as int] == d[y as int]
                })
            },
    {
        match self {
            BarcodeModules::Linear(d) => {
                if x < d.len() && y == 0 {
                    d.set(x, value);
                }
            },
            BarcodeModules::Matrix(d) => {
                if y < d.len() && x < d[0].len() && x < d[y].len() {
                    let mut row = d.remove(y);
                    row.set(x, value);
                    d.insert(y, row);
                    proof {
                        assert(forall|i: int|
                            0 <= i < old(self)->Matrix_0@.len() && i != y as int
                                ==> #[trigger] d@[i] == old(self)->Matrix_0@[i]);
                    }
                }
            },
        }
    }

    /// The modules as a one-dimensional vector, if this grid is linear.
    pub fn as_linear(&self) -> (r: Option<&Vec<bool>>)
        ensures
            (match self {
                BarcodeModules::Linear(d) => r == Some(d),
                BarcodeModules::Matrix(_) => r is None,
            }),
    {
        match self {
            BarcodeModules::Linear(d) => Some(d),
            BarcodeModules::Matrix(_) => None,
        }
    }

    /// The modules as a two-dimensional matrix, if this grid is a matrix.
    pub fn as_matrix(&self) -> (r: Option<&Vec<Vec<bool>>>)
        ensures
            (match self {
                BarcodeModules::Linear(_) => r is None,
                BarcodeModules::Matrix(d) => r == Some(d),
            }),
    {
        match self {
            BarcodeModules::Linear(_) => None,
            BarcodeModules::Matrix(d) => Some(d),
        }
    }
}

/// A successfully encoded barcode: the symbology, the canonicalized data,
/// the module grid, and the render configuration it was requested with.
#[derive(Debug, Clone)]
pub struct Barcode {
    pub barcode_type: BarcodeType,
    pub data: String,
    pub modules: BarcodeModules,
    pub config: BarcodeConfig,
}

/// The library's error taxonomy.
#[derive(Debug, Clone)]
pub enum QuickCodesError {
    /// Malformed input: empty, wrong length, out of alphabet, or a bad check digit.
    InvalidData(String),
    /// An unknown symbology name.
    InvalidType(String),
    /// Input valid but beyond the symbology's structural capacity.
    GenerationError(String),
    /// A failure while rendering a grid to an output format.
    ExportError(String),
    /// A failure while reading a barcode back from an image.
    ReaderError(String),
    /// An output format that is not supported.
    UnsupportedFormat(String),
    /// A failure in image handling.
    ImageError(String),
}

/// The reason string carried by an error value.
pub open spec fn spec_error_message(e: &QuickCodesError) -> Seq<char> {
    match e {
        QuickCodesError::InvalidData(s) => s@,
        QuickCodesError::InvalidType(s) => s@,
        QuickCodesError::GenerationError(s) => s@,
        QuickCodesError::ExportError(s) => s@,
        QuickCodesError::ReaderError(s) => s@,
        QuickCodesError::UnsupportedFormat(s) => s@,
        QuickCodesError::ImageError(s) => s@,
    }
}

impl QuickCodesError {
    /// The human-readable reason carried by this error.
    pub fn message(&self) -> (r: String)
        ensures
            r@ == spec_error_message(self),
    {
        match self {
            QuickCodesError::InvalidData(s) => s.clone(),
            QuickCodesError::InvalidType(s) => s.clone(),
            QuickCodesError::GenerationError(s) => s.clone(),
            QuickCodesError::ExportError(s) => s.clone(),
            QuickCodesError::ReaderError(s) => s.clone(),
            QuickCodesError::UnsupportedFormat(s) => s.clone(),
            QuickCodesError::ImageError(s) => s.clone(),
        }
    }
}

} // verus!
