//! Pure helpers of the image-reading pipeline: run-length analysis of a scan
//! line, a region of interest, and the pattern-length decoding stubs.

use vstd::prelude::*;
use crate::types::QuickCodesError;

verus! {

/// A region of an image that may contain a barcode.
#[derive(Debug, Clone, Copy, PartialEq, Eq, Structural)]
pub struct BarcodeRegion {
    pub x: u32,
    pub y: u32,
    pub width: u32,
    pub height: u32,
}

/// Whether a grayscale pixel counts as black.
pub open spec fn is_black(p: u8) -> bool {
    p < 128
}

/// The run-length state after the first `i` pixels of a scan line: the
/// completed runs, and the run still open.
pub open spec fn rle_state(line: Seq<u8>, i: int) -> (Seq<(bool, int)>, (bool, int))
    decreases i,
{
    if i <= 1 {
        (Seq::empty(), (is_black(line[0]), 1))
    } else {
        let prev = rle_state(line, i - 1);
        if is_black(line[i - 1]) == prev.1.0 {
            (prev.0, (prev.1.0, prev.1.1 + 1))
        } else {
            (prev.0.push(prev.1), (is_black(line[i - 1]), 1))
        }
    }
}

/// The complete run-length encoding of a nonempty scan line.
pub open spec fn detect_bars_spec(line: Seq<u8>) -> Seq<(bool, int)> {
    let s = rle_state(line, line.len() as int);
    s.0.push(s.1)
}

/// Groups a scan line into runs of dark and light pixels with their widths.
pub fn detect_bars(line: &[u8]) -> (r: Result<Vec<(bool, u32)>, QuickCodesError>)
    requires
        0 < line@.len() <= 0xFFFF_FFFF,
    ensures
        r is Ok,
        r->Ok_0@.map_values(|b: (bool, u32)| (b.0, b.1 as int)) == detect_bars_spec(line@),
{
    let mut bars: Vec<(bool, u32)> = Vec::new();
    let first: u8 = *vstd::slice::slice_index_get(line, 0);
    let mut cur_color: bool = first < 128;
    let mut cur_count: u32 = 1;
    let mut i: usize = 1;
    while i < line.len()
        invariant
            1 <= i <= line@.len() <= 0xFFFF_FFFF,
            cur_count as int <= i,
            ({
                let s = rle_state(line@, i as int);
                &&& bars@.map_values(|b: (bool, u32)| (b.0, b.1 as int)) == s.0
                &&& cur_color == s.1.0
                &&& cur_count as int == s.1.1
            }),
        decreases line@.len() - i,
    {
        let p: u8 = *vstd::slice::slice_index_get(line, i);
        let black: bool = p < 128;
        let ghost before = bars@.map_values(|b: (bool, u32)| (b.0, b.1 as int));
        if black == cur_color {
            cur_count = cur_count + 1;
        } else {
            bars.push((cur_color, cur_count));
            proof {
                assert(bars@.map_values(|b: (bool, u32)| (b.0, b.1 as int)) =~= before.push(
                    (cur_color, cur_count as int),
                ));
            }
            cur_color = black;
            cur_count = 1;
        }
        i = i + 1;
    }
    let ghost before = bars@.map_values(|b: (bool, u32)| (b.0, b.1 as int));
    bars.push((cur_color, cur_count));
    proof {
        assert(bars@.map_values(|b: (bool, u32)| (b.0, b.1 as int)) =~= before.push(
            (cur_color, cur_count as int),
        ));
        assert(bars@.map_values(|b: (bool, u32)| (b.0, b.1 as int)) =~= detect_bars_spec(line@));
    }
    Ok(bars)
}

/// Stands in for EAN-13 pattern decoding: a pattern of plausible length maps
/// to a fixed valid payload.
pub fn simulate_ean13_decode(pattern: &[bool]) -> (r: Option<String>)
    ensures
        (r is Some) == (pattern@.len() >= 95),
        r is Some ==> r.unwrap()@ == "1234567890128"@,
{
    if pattern.len() >= 95 {
        Some(String::from_str("1234567890128"))
    } else {
        None
    }
}

/// Stands in for UPC-A pattern decoding.
pub fn simulate_upc_a_decode(pattern: &[bool]) -> (r: Option<String>)
    ensures
        (r is Some) == (pattern@.len() >= 95),
        r is Some ==> r.unwrap()@ == "036000291452"@,
{
    if pattern.len() >= 95 {
        Some(String::from_str("036000291452"))
    } else {
        None
    }
}

/// Stands in for Code128 pattern decoding.
pub fn simulate_code128_decode(pattern: &[bool]) -> (r: Option<String>)
    ensures
        (r is Some) == (pattern@.len() >= 68),
        r is Some ==> r.unwrap()@ == "HELLO123"@,
{
    if pattern.len() >= 68 {
        Some(String::from_str("HELLO123"))
    } else {
        None
    }
}

} // verus!
