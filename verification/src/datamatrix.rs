//! DataMatrix: square symbols from the standard's size table, an L-shaped
//! finder with alternating opposite borders, and diagonal data placement.

use vstd::prelude::*;
use crate::types::Barcode;
use crate::types::BarcodeConfig;
use crate::types::BarcodeModules;
use crate::types::BarcodeType;
use crate::types::QuickCodesError;
use crate::grid::fill_data;
use crate::grid::fill_positions;
use crate::grid::pos_view;
use vstd::string::StringSliceAdditionalSpecFns;

verus! {

/// The standard's square symbol sizes, chosen by payload byte count.
pub open spec fn dm_size(len: int) -> int {
    if len <= 3 {
        10
    } else if len <= 5 {
        12
    } else if len <= 8 {
        14
    } else if len <= 12 {
        16
    } else if len <= 18 {
        18
    } else if len <= 22 {
        20
    } else if len <= 30 {
        22
    } else if len <= 36 {
        24
    } else if len <= 44 {
        26
    } else if len <= 62 {
        32
    } else if len <= 86 {
        36
    } else if len <= 114 {
        40
    } else if len <= 144 {
        44
    } else if len <= 174 {
        48
    } else if len <= 204 {
        52
    } else if len <= 280 {
        64
    } else if len <= 368 {
        72
    } else if len <= 456 {
        80
    } else if len <= 576 {
        88
    } else if len <= 696 {
        96
    } else if len <= 816 {
        104
    } else if len <= 1050 {
        120
    } else if len <= 1304 {
        132
    } else {
        144
    }
}

/// The byte capacity of the largest square symbol.
pub open spec fn dm_max_capacity() -> int {
    1558
}

/// Chooses the symbol size for a payload of `data_len` bytes.
pub fn calculate_datamatrix_size(data_len: usize) -> (r: usize)
    requires
        1 <= data_len <= 1558,
    ensures
        r as int == dm_size(data_len as int),
        10 <= r <= 144,
{
    if data_len <= 3 {
        10
    } else if data_len <= 5 {
        12
    } else if data_len <= 8 {
        14
    } else if data_len <= 12 {
        16
    } else if data_len <= 18 {
        18
    } else if data_len <= 22 {
        20
    } else if data_len <= 30 {
        22
    } else if data_len <= 36 {
        24
    } else if data_len <= 44 {
        26
    } else if data_len <= 62 {
        32
    } else if data_len <= 86 {
        36
    } else if data_len <= 114 {
        40
    } else if data_len <= 144 {
        44
    } else if data_len <= 174 {
        48
    } else if data_len <= 204 {
        52
    } else if data_len <= 280 {
        64
    } else if data_len <= 368 {
        72
    } else if data_len <= 456 {
        80
    } else if data_len <= 576 {
        88
    } else if data_len <= 696 {
        96
    } else if data_len <= 816 {
        104
    } else if data_len <= 1050 {
        120
    } else if data_len <= 1304 {
        132
    } else {
        144
    }
}

/// The finder pattern: a solid left column and bottom row, an alternating top
/// row and right column.
pub open spec fn dm_finder_cell(size: int, x: int, y: int) -> bool {
    ||| x == 0
    ||| y == size - 1
    ||| (y == 0 && x % 2 == 0)
    ||| (x == size - 1 && y % 2 == 1)
}

/// The symbol with only the finder pattern placed.
pub open spec fn dm_base(size: int) -> Seq<Seq<bool>> {
    Seq::new(size as nat, |y: int| Seq::new(size as nat, |x: int| dm_finder_cell(size, x, y)))
}

/// Whether a cell belongs to the interior data region.
pub open spec fn dm_interior(size: int, x: int, y: int) -> bool {
    0 < x < size - 1 && 0 < y < size - 1
}

/// The interior positions of diagonal `d` with first coordinate below `j`,
/// in order of increasing first coordinate.
pub open spec fn dm_diag(size: int, d: int, j: int) -> Seq<(int, int)>
    decreases j,
{
    if j <= 0 {
        Seq::empty()
    } else {
        dm_diag(size, d, j - 1) + (if dm_interior(size, j - 1, d - (j - 1)) {
            seq![(j - 1, d - (j - 1))]
        } else {
            Seq::empty()
        })
    }
}

/// The interior positions of the first `d` diagonals, in placement order.
pub open spec fn dm_positions(size: int, d: int) -> Seq<(int, int)>
    decreases d,
{
    if d <= 0 {
        Seq::empty()
    } else {
        dm_positions(size, d - 1) + dm_diag(size, d - 1, d)
    }
}

/// The full symbol: the data bits placed diagonally over the finder base.
pub open spec fn dm_grid(bytes: Seq<u8>) -> Seq<Seq<bool>> {
    let size = dm_size(bytes.len() as int);
    fill_positions(dm_base(size), dm_positions(size, 2 * size), bytes, 0)
}

/// Whether `s` (as bytes) is accepted: nonempty and within the capacity of
/// the largest symbol.
pub open spec fn dm_accepts(bytes: Seq<u8>) -> bool {
    0 < bytes.len() <= dm_max_capacity()
}

/// The reason reported for a rejected input.
pub open spec fn dm_error(bytes: Seq<u8>) -> Seq<char> {
    if bytes.len() == 0 {
        "DataMatrix data cannot be empty"@
    } else {
        "DataMatrix data exceeds the largest symbol capacity"@
    }
}

/// Builds the finder-pattern base of a symbol.
fn dm_base_grid(size: usize) -> (m: Vec<Vec<bool>>)
    requires
        10 <= size <= 144,
    ensures
        m@.len() == size,
        forall|y: int| 0 <= y < size ==> (#[trigger] m@[y])@ == dm_base(size as int)[y],
        forall|y: int| 0 <= y < size ==> (#[trigger] m@[y])@.len() == size,
{
    let mut m: Vec<Vec<bool>> = Vec::new();
    let mut y: usize = 0;
    while y < size
        invariant
            y <= size,
            10 <= size <= 144,
            m@.len() == y as int,
            forall|r: int| 0 <= r < y as int ==> (#[trigger] m@[r])@ == Seq::new(
                size as nat,
                |x: int| dm_finder_cell(size as int, x, r),
            ),
        decreases size - y,
    {
        let mut row: Vec<bool> = Vec::new();
        let mut x: usize = 0;
        while x < size
            invariant
                x <= size,
                y < size,
                row@ == Seq::new(x as nat, |c: int| dm_finder_cell(size as int, c, y as int)),
            decreases size - x,
        {
            let cell: bool = x == 0 || y == size - 1 || (y == 0 && x % 2 == 0) || (x == size - 1
                && y % 2 == 1);
            row.push(cell);
            x = x + 1;
            proof {
                assert(row@ =~= Seq::new(
                    x as nat,
                    |c: int| dm_finder_cell(size as int, c, y as int),
                ));
            }
        }
        m.push(row);
        y = y + 1;
    }
    proof {
        assert(forall|r: int|
            0 <= r < size ==> (#[trigger] m@[r])@ == dm_base(size as int)[r]);
    }
    m
}

/// Enumerates the interior positions diagonal by diagonal.
fn dm_positions_vec(size: usize) -> (ps: Vec<(usize, usize)>)
    requires
        10 <= size <= 144,
    ensures
        pos_view(ps@) == dm_positions(size as int, 2 * size as int),
        forall|t: int|
            0 <= t < ps@.len() ==> 0 < (#[trigger] ps@[t]).0 < size - 1 && 0 < ps@[t].1 < size - 1,
{
    let mut ps: Vec<(usize, usize)> = Vec::new();
    let mut d: usize = 0;
    while d < 2 * size
        invariant
            d <= 2 * size,
            10 <= size <= 144,
            pos_view(ps@) == dm_positions(size as int, d as int),
            forall|t: int|
                0 <= t < ps@.len() ==> 0 < (#[trigger] ps@[t]).0 < size - 1 && 0 < ps@[t].1 < size
                    - 1,
        decreases 2 * size - d,
    {
        let mut i: usize = 0;
        while i < d + 1
            invariant
                i <= d + 1,
                d < 2 * size,
                10 <= size <= 144,
                pos_view(ps@) == dm_positions(size as int, d as int) + dm_diag(
                    size as int,
                    d as int,
                    i as int,
                ),
                forall|t: int|
                    0 <= t < ps@.len() ==> 0 < (#[trigger] ps@[t]).0 < size - 1 && 0 < ps@[t].1
                        < size - 1,
            decreases d + 1 - i,
        {
            let x: usize = i;
            let y: usize = d - i;
            let ghost before = pos_view(ps@);
            if x > 0 && y > 0 && x < size - 1 && y < size - 1 {
                ps.push((x, y));
                proof {
                    assert(pos_view(ps@) =~= before.push((x as int, y as int)));
                }
            }
            i = i + 1;
            proof {
                assert(dm_interior(size as int, x as int, y as int) == (x > 0 && y > 0 && x < size
                    - 1 && y < size - 1));
                assert(pos_view(ps@) =~= dm_positions(size as int, d as int) + dm_diag(
                    size as int,
                    d as int,
                    i as int,
                ));
            }
        }
        d = d + 1;
    }
    ps
}

/// Builds the full module grid of the payload bytes.
pub fn generate_datamatrix_pattern(bytes: &Vec<u8>) -> (m: Vec<Vec<bool>>)
    requires
        0 < bytes@.len() <= 1558,
    ensures
        m@.len() == dm_size(bytes@.len() as int),
        Seq::new(m@.len(), |y: int| m@[y]@) == dm_grid(bytes@),
        forall|y: int| 0 <= y < m@.len() ==> (#[trigger] m@[y])@.len() == dm_size(
            bytes@.len() as int,
        ),
{
    let size: usize = calculate_datamatrix_size(bytes.len());
    let mut m = dm_base_grid(size);
    let ps = dm_positions_vec(size);
    proof {
        assert(Seq::new(m@.len(), |y: int| m@[y]@) =~~= dm_base(size as int));
    }
    let ghost base = Seq::new(m@.len(), |y: int| m@[y]@);
    fill_data(&mut m, &ps, bytes);
    proof {
        assert(Seq::new(m@.len(), |y: int| m@[y]@) =~~= crate::grid::grid_view(m));
        assert(base == dm_base(size as int));
        assert(Seq::new(m@.len(), |y: int| m@[y]@) == dm_grid(bytes@));
    }
    m
}

/// Encodes `data` as DataMatrix with the given render configuration.
pub fn generate_datamatrix_with_config(data: &str, config: &BarcodeConfig) -> (r: Result<
    Barcode,
    QuickCodesError,
>)
    ensures
        r is Ok <==> dm_accepts(data.spec_bytes()),
        r is Ok ==> {
            let b = r->Ok_0;
            let bytes = data.spec_bytes();
            let size = dm_size(bytes.len() as int);
            &&& b.barcode_type == BarcodeType::DataMatrix
            &&& b.data@ == data@
            &&& b.modules is Matrix
            &&& b.modules->Matrix_0@.len() == size
            &&& 10 <= size <= 144
            &&& Seq::new(b.modules->Matrix_0@.len(), |y: int| b.modules->Matrix_0@[y]@) == dm_grid(
                bytes,
            )
            &&& forall|y: int| 0 <= y < size ==> (#[trigger] b.modules->Matrix_0@[y])@.len() == size
            &&& b.config == *config
        },
        r is Err ==> {
            let e = r->Err_0;
            &&& (data.spec_bytes().len() == 0 ==> e is InvalidData)
            &&& (data.spec_bytes().len() != 0 ==> e is GenerationError)
            &&& crate::types::spec_error_message(&e) == dm_error(data.spec_bytes())
        },
{
    let bytes: Vec<u8> = data.as_bytes_vec();
    if bytes.len() == 0 {
        return Err(
            QuickCodesError::InvalidData(String::from_str("DataMatrix data cannot be empty")),
        );
    }
    if bytes.len() > 1558 {
        return Err(
            QuickCodesError::GenerationError(
                String::from_str("DataMatrix data exceeds the largest symbol capacity"),
            ),
        );
    }
    let m = generate_datamatrix_pattern(&bytes);
    Ok(
        Barcode {
            barcode_type: BarcodeType::DataMatrix,
            data: String::from_str(data),
            modules: BarcodeModules::Matrix(m),
            config: config.clone(),
        },
    )
}

/// Encodes `data` as DataMatrix with the default render configuration.
pub fn generate_datamatrix(data: &str) -> (r: Result<Barcode, QuickCodesError>)
    ensures
        r is Ok <==> dm_accepts(data.spec_bytes()),
        r is Ok ==> {
            let b = r->Ok_0;
            let bytes = data.spec_bytes();
            let size = dm_size(bytes.len() as int);
            &&& b.barcode_type == BarcodeType::DataMatrix
            &&& b.data@ == data@
            &&& b.modules is Matrix
            &&& b.modules->Matrix_0@.len() == size
            &&& 10 <= size <= 144
            &&& Seq::new(b.modules->Matrix_0@.len(), |y: int| b.modules->Matrix_0@[y]@) == dm_grid(
                bytes,
            )
            &&& forall|y: int| 0 <= y < size ==> (#[trigger] b.modules->Matrix_0@[y])@.len() == size
            &&& b.config == crate::types::default_config()
        },
        r is Err ==> {
            let e = r->Err_0;
            &&& (data.spec_bytes().len() == 0 ==> e is InvalidData)
            &&& (data.spec_bytes().len() != 0 ==> e is GenerationError)
            &&& crate::types::spec_error_message(&e) == dm_error(data.spec_bytes())
        },
{
    generate_datamatrix_with_config(data, &BarcodeConfig::default())
}

/// Encoding is deterministic: two grids of the same payload are identical.
pub proof fn lemma_dm_deterministic(bytes: Seq<u8>, g1: Seq<Seq<bool>>, g2: Seq<Seq<bool>>)
    requires
        g1 == dm_grid(bytes),
        g2 == dm_grid(bytes),
    ensures
        g1 == g2,
{
}

} // verus!
