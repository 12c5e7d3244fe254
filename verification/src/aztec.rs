//! Aztec: a central bullseye finder, a reference grid in full format, and
//! data bits spiralling outward around the finder.

use vstd::prelude::*;
use crate::types::Barcode;
use crate::types::BarcodeConfig;
use crate::types::BarcodeModules;
use crate::types::BarcodeType;
use crate::types::QuickCodesError;
use crate::grid::fill_data;
use crate::grid::fill_positions;
use crate::grid::pos_view;
use vstd::string::StringSliceAdditionalSpecFns;

verus! {

/// Aztec-specific configuration.
#[derive(Debug, Clone, Copy)]
pub struct AztecConfig {
    /// Compact format (uses less space).
    pub compact: bool,
    /// Error correction percentage (5-95).
    pub error_correction: u8,
    /// Size layers (1-32 full, 1-4 compact); chosen from the data when absent.
    pub layers: Option<u8>,
}

/// The default Aztec configuration: full format, about 23 percent error
/// correction, automatic layer count.
pub open spec fn default_aztec_config() -> AztecConfig {
    AztecConfig { compact: false, error_correction: 23, layers: None }
}

impl Default for AztecConfig {
    fn default() -> (r: Self)
        ensures
            r == default_aztec_config(),
    {
        AztecConfig { compact: false, error_correction: 23, layers: None }
    }
}

/// The highest layer count of a format.
pub open spec fn aztec_max_layers(compact: bool) -> int {
    if compact {
        4
    } else {
        32
    }
}

/// The approximate bit capacity of a layer count.
pub open spec fn aztec_capacity(layer: int, compact: bool) -> int {
    if compact {
        if 64 * layer >= 200 {
            64 * layer - 200
        } else {
            0
        }
    } else {
        256 * layer
    }
}

/// The first layer count from `l` upward whose capacity holds `bits`, or the
/// format's maximum.
pub open spec fn aztec_layer_from(l: int, bits: int, compact: bool) -> int
    decreases aztec_max_layers(compact) - l,
{
    if l >= aztec_max_layers(compact) {
        aztec_max_layers(compact)
    } else if aztec_capacity(l, compact) >= bits {
        l
    } else {
        aztec_layer_from(l + 1, bits, compact)
    }
}

/// The layer count chosen for a payload of `len` bytes.
pub open spec fn aztec_layers(len: int, compact: bool) -> int {
    aztec_layer_from(1, 8 * len, compact)
}

/// The layer search never leaves the format's range.
pub proof fn lemma_aztec_layers_bounds(l: int, bits: int, compact: bool)
    requires
        1 <= l <= aztec_max_layers(compact),
    ensures
        l <= aztec_layer_from(l, bits, compact) <= aztec_max_layers(compact),
    decreases aztec_max_layers(compact) - l,
{
    if l < aztec_max_layers(compact) && aztec_capacity(l, compact) < bits {
        lemma_aztec_layers_bounds(l + 1, bits, compact);
    }
}

fn layer_from(l: u8, bits: usize, compact: bool) -> (r: u8)
    requires
        1 <= l,
        (l as int) <= aztec_max_layers(compact),
        bits <= 0x1000_0000,
    ensures
        r as int == aztec_layer_from(l as int, bits as int, compact),
        1 <= r,
        r as int <= aztec_max_layers(compact),
    decreases aztec_max_layers(compact) - l,
{
    let max: u8 = if compact {
        4
    } else {
        32
    };
    if l >= max {
        max
    } else {
        let cap: usize = if compact {
            let c: usize = (l as usize) * 64;
            if c >= 200 {
                c - 200
            } else {
                0
            }
        } else {
            (l as usize) * 256
        };
        if cap >= bits {
            l
        } else {
            layer_from(l + 1, bits, compact)
        }
    }
}

/// Computes the layer count for a payload of `data_len` bytes.
pub fn calculate_layers(data_len: usize, compact: bool) -> (r: u8)
    requires
        data_len <= 0x100_0000,
    ensures
        r as int == aztec_layers(data_len as int, compact),
        1 <= r,
        r as int <= aztec_max_layers(compact),
{
    layer_from(1, data_len * 8, compact)
}

/// The symbol width of a layer count.
pub open spec fn aztec_size(layers: int, compact: bool) -> int {
    if compact {
        11 + 4 * layers
    } else {
        15 + 4 * layers
    }
}

/// The Chebyshev distance of a cell from the center.
pub open spec fn cheb(center: int, x: int, y: int) -> int {
    let dx = if x >= center {
        x - center
    } else {
        center - x
    };
    let dy = if y >= center {
        y - center
    } else {
        center - y
    };
    if dx >= dy {
        dx
    } else {
        dy
    }
}

/// A fixed cell of the symbol before data placement: the bullseye rings
/// first, then, in full format, the reference grid on every sixteenth row
/// and column counted from the center. The bullseye is never overwritten.
pub open spec fn aztec_base_cell(size: int, compact: bool, x: int, y: int) -> bool {
    let center = size / 2;
    if cheb(center, x, y) <= 5 {
        cheb(center, x, y) % 2 == 1
    } else if !compact && (x % 16 == center % 16 || y % 16 == center % 16) {
        (x + y) % 2 == 0
    } else {
        false
    }
}

/// The symbol with only the fixed patterns placed.
pub open spec fn aztec_base(size: int, compact: bool) -> Seq<Seq<bool>> {
    Seq::new(size as nat, |y: int| Seq::new(size as nat, |x: int| aztec_base_cell(size, compact, x, y)))
}

/// Whether a cell may carry data: outside the bullseye, and in full format
/// off the center-anchored reference grid.
pub open spec fn aztec_is_data(center: int, compact: bool, x: int, y: int) -> bool {
    &&& !(cheb(center, x, y) <= 5)
    &&& (compact || (x % 16 != center % 16 && y % 16 != center % 16))
}

/// The cells of the square ring of the given radius, clockwise from its top
/// left corner: top row, right column, bottom row and left column.
pub open spec fn ring_seq(center: int, radius: int) -> Seq<(int, int)> {
    let start = center - radius;
    let end = center + radius + 1;
    Seq::new((end - start) as nat, |t: int| (start + t, start)) + Seq::new(
        (end - start - 1) as nat,
        |t: int| (end - 1, start + 1 + t),
    ) + Seq::new((end - 1 - start) as nat, |t: int| (end - 2 - t, end - 1)) + Seq::new(
        (end - 2 - start) as nat,
        |t: int| (start, end - 2 - t),
    )
}

/// The data-carrying cells of `ps`, in order.
pub open spec fn data_filter(ps: Seq<(int, int)>, center: int, compact: bool) -> Seq<(int, int)>
    decreases ps.len(),
{
    if ps.len() == 0 {
        Seq::empty()
    } else {
        let p = data_filter(ps.drop_last(), center, compact);
        if aztec_is_data(center, compact, ps.last().0, ps.last().1) {
            p.push(ps.last())
        } else {
            p
        }
    }
}

/// The data positions of the rings with radius below `r`, innermost first,
/// starting at the spiral's first radius `sr`.
pub open spec fn aztec_positions_upto(center: int, compact: bool, sr: int, r: int) -> Seq<
    (int, int),
>
    decreases r,
{
    if r <= sr || r <= 0 {
        Seq::empty()
    } else {
        aztec_positions_upto(center, compact, sr, r - 1) + data_filter(
            ring_seq(center, r - 1),
            center,
            compact,
        )
    }
}


/// Every surviving cell of a filtered position list is a data cell and stays
/// within the given coordinate bounds.
proof fn lemma_data_filter_elems(ps: Seq<(int, int)>, center: int, compact: bool, lo: int, hi: int)
    requires
        forall|t: int|
            0 <= t < ps.len() ==> lo <= (#[trigger] ps[t]).0 <= hi && lo <= ps[t].1 <= hi,
    ensures
        forall|t: int|
            0 <= t < data_filter(ps, center, compact).len() ==> {
                let p = #[trigger] data_filter(ps, center, compact)[t];
                &&& aztec_is_data(center, compact, p.0, p.1)
                &&& lo <= p.0 <= hi
                &&& lo <= p.1 <= hi
            },
    decreases ps.len(),
{
    if ps.len() > 0 {
        let head = ps.drop_last();
        assert(forall|t: int|
            0 <= t < head.len() ==> lo <= (#[trigger] head[t]).0 <= hi && lo <= head[t].1 <= hi);
        lemma_data_filter_elems(head, center, compact, lo, hi);
        assert(lo <= ps.last().0 <= hi && lo <= ps.last().1 <= hi);
        let f = data_filter(ps, center, compact);
        let fh = data_filter(head, center, compact);
        assert forall|t: int| 0 <= t < f.len() implies {
            let p = #[trigger] f[t];
            &&& aztec_is_data(center, compact, p.0, p.1)
            &&& lo <= p.0 <= hi
            &&& lo <= p.1 <= hi
        } by {
            if aztec_is_data(center, compact, ps.last().0, ps.last().1) {
                assert(f == fh.push(ps.last()));
                if t < fh.len() {
                    assert(f[t] == fh[t]);
                } else {
                    assert(f[t] == ps.last());
                }
            } else {
                assert(f == fh);
                assert(f[t] == fh[t]);
            }
        }
    }
}

/// Every cell of a ring lies within its square.
proof fn lemma_ring_elems(center: int, radius: int)
    requires
        1 <= radius < center,
    ensures
        forall|t: int|
            0 <= t < ring_seq(center, radius).len() ==> {
                let p = #[trigger] ring_seq(center, radius)[t];
                &&& center - radius <= p.0 <= center + radius
                &&& center - radius <= p.1 <= center + radius
            },
{
    let start = center - radius;
    let end = center + radius + 1;
    let r = ring_seq(center, radius);
    assert forall|t: int| 0 <= t < r.len() implies {
        let p = #[trigger] r[t];
        &&& start <= p.0 <= end - 1
        &&& start <= p.1 <= end - 1
    } by {
        let la = end - start;
        let lb = end - start - 1;
        let lc = end - 1 - start;
        if t < la {
            assert(r[t] == (start + t, start));
        } else if t < la + lb {
            assert(r[t] == (end - 1, start + 1 + (t - la)));
        } else if t < la + lb + lc {
            assert(r[t] == (end - 2 - (t - la - lb), end - 1));
        } else {
            assert(r[t] == (start, end - 2 - (t - la - lb - lc)));
        }
    }
}

/// Every position of the data spiral is a data cell and lies strictly inside
/// the symbol.
proof fn lemma_aztec_positions_elems(center: int, compact: bool, sr: int, r: int)
    requires
        6 <= sr,
        r <= center,
    ensures
        forall|t: int|
            0 <= t < aztec_positions_upto(center, compact, sr, r).len() ==> {
                let p = #[trigger] aztec_positions_upto(center, compact, sr, r)[t];
                &&& aztec_is_data(center, compact, p.0, p.1)
                &&& 1 <= p.0 <= 2 * center - 1
                &&& 1 <= p.1 <= 2 * center - 1
            },
    decreases r,
{
    if r > sr && r > 0 {
        lemma_aztec_positions_elems(center, compact, sr, r - 1);
        lemma_ring_elems(center, r - 1);
        lemma_data_filter_elems(
            ring_seq(center, r - 1),
            center,
            compact,
            center - (r - 1),
            center + (r - 1),
        );
        let prev = aztec_positions_upto(center, compact, sr, r - 1);
        let ring = data_filter(ring_seq(center, r - 1), center, compact);
        assert forall|t: int|
            0 <= t < aztec_positions_upto(center, compact, sr, r).len() implies {
            let p = #[trigger] aztec_positions_upto(center, compact, sr, r)[t];
            &&& aztec_is_data(center, compact, p.0, p.1)
            &&& 1 <= p.0 <= 2 * center - 1
            &&& 1 <= p.1 <= 2 * center - 1
        } by {
            if t < prev.len() {
                assert(aztec_positions_upto(center, compact, sr, r)[t] == prev[t]);
            } else {
                assert(aztec_positions_upto(center, compact, sr, r)[t] == ring[t - prev.len()]);
            }
        }
    }
}

/// The bullseye finder is intact in every symbol: each cell within Chebyshev
/// distance five of the center carries exactly the alternating ring parity,
/// written by neither the reference grid nor the data spiral.
pub proof fn lemma_aztec_bullseye_intact(
    bytes: Seq<u8>,
    layers: int,
    compact: bool,
    x: int,
    y: int,
)
    requires
        1 <= layers <= aztec_max_layers(compact),
        0 <= x < aztec_size(layers, compact),
        0 <= y < aztec_size(layers, compact),
        cheb(aztec_size(layers, compact) / 2, x, y) <= 5,
    ensures
        aztec_grid(bytes, layers, compact)[y][x] == (cheb(
            aztec_size(layers, compact) / 2,
            x,
            y,
        ) % 2 == 1),
{
    let size = aztec_size(layers, compact);
    let center = size / 2;
    let base = aztec_base(size, compact);
    let sr = aztec_start_radius(compact);
    let ps = aztec_positions_upto(center, compact, sr, center);
    assert(base[y].len() == size);
    assert(base[y][x] == (cheb(center, x, y) % 2 == 1));
    lemma_aztec_positions_elems(center, compact, sr, center);
    assert forall|t: int| 0 <= t < ps.len() implies #[trigger] ps[t] != (x, y) by {
        assert(aztec_is_data(center, compact, ps[t].0, ps[t].1));
    }
    assert(forall|t: int|
        0 <= t < ps.len() ==> 0 <= (#[trigger] ps[t]).1 < base.len() && 0 <= ps[t].0
            < base[ps[t].1].len());
    crate::grid::lemma_fill_untouched(base, ps, bytes, 0, x, y);
}

/// The first radius of the data spiral.
pub open spec fn aztec_start_radius(compact: bool) -> int {
    if compact {
        6
    } else {
        8
    }
}

/// The full symbol: the data bits placed along the spiral over the fixed base.
pub open spec fn aztec_grid(bytes: Seq<u8>, layers: int, compact: bool) -> Seq<Seq<bool>> {
    let size = aztec_size(layers, compact);
    let center = size / 2;
    fill_positions(
        aztec_base(size, compact),
        aztec_positions_upto(center, compact, aztec_start_radius(compact), center),
        bytes,
        0,
    )
}

/// Whether `s` (as bytes) is accepted by the default full format: nonempty
/// and within the capacity of the largest layer count.
pub open spec fn aztec_accepts(bytes: Seq<u8>) -> bool {
    0 < bytes.len() && 8 * bytes.len() <= aztec_capacity(aztec_max_layers(false), false)
}

/// The reason reported for a rejected input.
pub open spec fn aztec_error(bytes: Seq<u8>) -> Seq<char> {
    if bytes.len() == 0 {
        "Aztec data cannot be empty"@
    } else {
        "Aztec data exceeds the largest symbol capacity"@
    }
}

/// Stamps the bullseye finder rings onto the center of an existing matrix:
/// cells within Chebyshev distance five of the center take the ring parity,
/// all other cells are left as they were.
pub fn generate_finder_pattern(matrix: &mut Vec<Vec<bool>>, size: usize)
    requires
        11 <= size,
        old(matrix)@.len() >= size,
        forall|y: int| 0 <= y < old(matrix)@.len() ==> (#[trigger] old(matrix)@[y])@.len() >= size,
    ensures
        final(matrix)@.len() == old(matrix)@.len(),
        forall|y: int| 0 <= y < old(matrix)@.len() ==> (#[trigger] final(matrix)@[y])@.len()
            == old(matrix)@[y]@.len(),
        forall|y: int, x: int|
            0 <= y < old(matrix)@.len() && 0 <= x < old(matrix)@[y]@.len()
                ==> final(matrix)@[y]@[x] == (if cheb((size / 2) as int, x, y) <= 5 {
                cheb((size / 2) as int, x, y) % 2 == 1
            } else {
                old(matrix)@[y]@[x]
            }),
{
    let center: usize = size / 2;
    let y0: usize = center - 5;
    let mut y: usize = y0;
    while y < center + 6
        invariant
            11 <= size,
            center == size / 2,
            y0 == center - 5,
            y0 <= y <= center + 6,
            center + 6 <= size,
            matrix@.len() == old(matrix)@.len() >= size,
            forall|r: int| 0 <= r < old(matrix)@.len() ==> (#[trigger] matrix@[r])@.len()
                == old(matrix)@[r]@.len(),
            forall|r: int| 0 <= r < old(matrix)@.len() ==> old(matrix)@[r]@.len() >= size,
            forall|r: int, c: int|
                0 <= r < old(matrix)@.len() && 0 <= c < old(matrix)@[r]@.len()
                    ==> matrix@[r]@[c] == (if r < y as int && cheb(center as int, c, r) <= 5 {
                    cheb(center as int, c, r) % 2 == 1
                } else {
                    old(matrix)@[r]@[c]
                }),
        decreases center + 6 - y,
    {
        let mut x: usize = y0;
        while x < center + 6
            invariant
                11 <= size,
                center == size / 2,
                y0 == center - 5,
                y0 <= x <= center + 6,
                y0 <= y < center + 6,
                center + 6 <= size,
                matrix@.len() == old(matrix)@.len() >= size,
                forall|r: int| 0 <= r < old(matrix)@.len() ==> (#[trigger] matrix@[r])@.len()
                    == old(matrix)@[r]@.len(),
                forall|r: int| 0 <= r < old(matrix)@.len() ==> old(matrix)@[r]@.len() >= size,
                forall|r: int, c: int|
                    0 <= r < old(matrix)@.len() && 0 <= c < old(matrix)@[r]@.len()
                        ==> matrix@[r]@[c] == (if (r < y as int || (r == y as int && c < x as int))
                        && cheb(center as int, c, r) <= 5 {
                        cheb(center as int, c, r) % 2 == 1
                    } else {
                        old(matrix)@[r]@[c]
                    }),
            decreases center + 6 - x,
        {
            let dx: usize = if x >= center {
                x - center
            } else {
                center - x
            };
            let dy: usize = if y >= center {
                y - center
            } else {
                center - y
            };
            let d: usize = if dx >= dy {
                dx
            } else {
                dy
            };
            crate::grid::set_cell(matrix, x, y, d % 2 == 1);
            x = x + 1;
        }
        y = y + 1;
        proof {
            assert forall|r: int, c: int|
                0 <= r < old(matrix)@.len() && 0 <= c < old(matrix)@[r]@.len() implies
                matrix@[r]@[c] == (if r < y as int && cheb(center as int, c, r) <= 5 {
                    cheb(center as int, c, r) % 2 == 1
                } else {
                    old(matrix)@[r]@[c]
                }) by {
                if r == y as int - 1 && cheb(center as int, c, r) <= 5 {
                    assert(y0 as int <= c < center as int + 6);
                }
            }
        }
    }
    proof {
        assert forall|r: int, c: int|
            0 <= r < old(matrix)@.len() && 0 <= c < old(matrix)@[r]@.len() implies
            matrix@[r]@[c] == (if cheb((size / 2) as int, c, r) <= 5 {
                cheb((size / 2) as int, c, r) % 2 == 1
            } else {
                old(matrix)@[r]@[c]
            }) by {
            if cheb(center as int, c, r) <= 5 {
                assert(y0 as int <= r < center as int + 6);
            }
        }
    }
}

/// Builds the fixed-pattern base of a symbol.
fn aztec_base_grid(size: usize, compact: bool) -> (m: Vec<Vec<bool>>)
    requires
        15 <= size <= 143,
    ensures
        m@.len() == size,
        forall|y: int| 0 <= y < size ==> (#[trigger] m@[y])@ == aztec_base(size as int, compact)[y],
        forall|y: int| 0 <= y < size ==> (#[trigger] m@[y])@.len() == size,
{
    let center: usize = size / 2;
    let mut m: Vec<Vec<bool>> = Vec::new();
    let mut y: usize = 0;
    while y < size
        invariant
            y <= size,
            15 <= size <= 143,
            center == size / 2,
            m@.len() == y as int,
            forall|r: int| 0 <= r < y as int ==> (#[trigger] m@[r])@ == Seq::new(
                size as nat,
                |x: int| aztec_base_cell(size as int, compact, x, r),
            ),
        decreases size - y,
    {
        let mut row: Vec<bool> = Vec::new();
        let mut x: usize = 0;
        while x < size
            invariant
                x <= size,
                y < size,
                15 <= size <= 143,
                center == size / 2,
                row@ == Seq::new(
                    x as nat,
                    |c: int| aztec_base_cell(size as int, compact, c, y as int),
                ),
            decreases size - x,
        {
            let dx: usize = if x >= center {
                x - center
            } else {
                center - x
            };
            let dy: usize = if y >= center {
                y - center
            } else {
                center - y
            };
            let d: usize = if dx >= dy {
                dx
            } else {
                dy
            };
            let cell: bool;
            if d <= 5 {
                cell = d % 2 == 1;
            } else if !compact && (x % 16 == center % 16 || y % 16 == center % 16) {
                cell = (x + y) % 2 == 0;
            } else {
                cell = false;
            }
            row.push(cell);
            x = x + 1;
            proof {
                assert(row@ =~= Seq::new(
                    x as nat,
                    |c: int| aztec_base_cell(size as int, compact, c, y as int),
                ));
            }
        }
        m.push(row);
        y = y + 1;
    }
    proof {
        assert(forall|r: int|
            0 <= r < size ==> (#[trigger] m@[r])@ == aztec_base(size as int, compact)[r]);
    }
    m
}

/// Enumerates one ring of cells clockwise.
#[verifier::loop_isolation(false)]
#[verifier::rlimit(60)]
fn ring_vec(center: usize, radius: usize) -> (ps: Vec<(usize, usize)>)
    requires
        6 <= radius < center,
        center <= 80,
    ensures
        pos_view(ps@) == ring_seq(center as int, radius as int),
        forall|t: int|
            0 <= t < ps@.len() ==> 1 <= (#[trigger] ps@[t]).0 <= 2 * center && 1 <= ps@[t].1 <= 2
                * center,
{
    let start: usize = center - radius;
    let end: usize = center + radius + 1;
    let ghost top = Seq::new((end - start) as nat, |t: int| (start + t as int, start as int));
    let ghost right = Seq::new(
        (end - start - 1) as nat,
        |t: int| (end as int - 1, start + 1 + t as int),
    );
    let ghost bottom = Seq::new((end - 1 - start) as nat, |t: int| (end - 2 - t as int, end as int - 1));
    let ghost left = Seq::new((end - 2 - start) as nat, |t: int| (start as int, end - 2 - t as int));
    let mut ps: Vec<(usize, usize)> = Vec::new();
    let mut x: usize = start;
    while x < end
        invariant
            start <= x <= end,
            1 <= start < end <= 2 * center,
            pos_view(ps@) == top.take(x - start),
            forall|t: int|
                0 <= t < ps@.len() ==> 1 <= (#[trigger] ps@[t]).0 <= 2 * center && 1 <= ps@[t].1
                    <= 2 * center,
        decreases end - x,
    {
        let ghost prev = pos_view(ps@);
        ps.push((x, start));
        proof {
            assert(pos_view(ps@) =~= prev.push((x as int, start as int)));
        }
        x = x + 1;
        proof {
            assert(pos_view(ps@) =~= top.take(x - start));
        }
    }
    proof {
        assert(top.take(end - start) =~= top);
    }
    let mut yy: usize = start + 1;
    while yy < end
        invariant
            start + 1 <= yy <= end,
            1 <= start < end <= 2 * center,
            pos_view(ps@) == top + right.take(yy - start - 1),
            forall|t: int|
                0 <= t < ps@.len() ==> 1 <= (#[trigger] ps@[t]).0 <= 2 * center && 1 <= ps@[t].1
                    <= 2 * center,
        decreases end - yy,
    {
        let ghost prev = pos_view(ps@);
        ps.push((end - 1, yy));
        proof {
            assert(pos_view(ps@) =~= prev.push((end as int - 1, yy as int)));
        }
        yy = yy + 1;
        proof {
            assert(pos_view(ps@) =~= top + right.take(yy - start - 1));
        }
    }
    proof {
        assert(right.take(end - start - 1) =~= right);
    }
    let mut t: usize = 0;
    while t < end - 1 - start
        invariant
            t <= end - 1 - start,
            1 <= start < end <= 2 * center,
            end - start >= 13,
            pos_view(ps@) == top + right + bottom.take(t as int),
            forall|tt: int|
                0 <= tt < ps@.len() ==> 1 <= (#[trigger] ps@[tt]).0 <= 2 * center && 1 <= ps@[tt].1
                    <= 2 * center,
        decreases end - 1 - start - t,
    {
        let ghost prev = pos_view(ps@);
        ps.push((end - 2 - t, end - 1));
        proof {
            assert(pos_view(ps@) =~= prev.push((end as int - 2 - (t as int), end as int - 1)));
        }
        t = t + 1;
        proof {
            assert(pos_view(ps@) =~= top + right + bottom.take(t as int));
        }
    }
    proof {
        assert(bottom.take(end - 1 - start) =~= bottom);
    }
    let mut u: usize = 0;
    while u < end - 2 - start
        invariant
            u <= end - 2 - start,
            1 <= start < end <= 2 * center,
            end - start >= 13,
            pos_view(ps@) == top + right + bottom + left.take(u as int),
            forall|tt: int|
                0 <= tt < ps@.len() ==> 1 <= (#[trigger] ps@[tt]).0 <= 2 * center && 1 <= ps@[tt].1
                    <= 2 * center,
        decreases end - 2 - start - u,
    {
        let ghost prev = pos_view(ps@);
        ps.push((start, end - 2 - u));
        proof {
            assert(pos_view(ps@) =~= prev.push((start as int, end as int - 2 - (u as int))));
        }
        u = u + 1;
        proof {
            assert(pos_view(ps@) =~= top + right + bottom + left.take(u as int));
        }
    }
    proof {
        assert(left.take(end - 2 - start) =~= left);
        assert(pos_view(ps@) =~= ring_seq(center as int, radius as int));
    }
    ps
}

/// Enumerates the data positions of the whole spiral.
#[verifier::loop_isolation(false)]
fn aztec_positions_vec(center: usize, compact: bool) -> (ps: Vec<(usize, usize)>)
    requires
        7 <= center <= 71,
    ensures
        pos_view(ps@) == aztec_positions_upto(
            center as int,
            compact,
            aztec_start_radius(compact),
            center as int,
        ),
        forall|t: int|
            0 <= t < ps@.len() ==> 1 <= (#[trigger] ps@[t]).0 <= 2 * center && 1 <= ps@[t].1 <= 2
                * center,
{
    let sr: usize = if compact {
        6
    } else {
        8
    };
    let mut ps: Vec<(usize, usize)> = Vec::new();
    let mut radius: usize = sr;
    while radius < center
        invariant
            sr <= radius <= center || (radius == sr && sr >= center),
            sr == aztec_start_radius(compact),
            7 <= center <= 71,
            pos_view(ps@) == aztec_positions_upto(center as int, compact, sr as int, radius as int),
            forall|t: int|
                0 <= t < ps@.len() ==> 1 <= (#[trigger] ps@[t]).0 <= 2 * center && 1 <= ps@[t].1
                    <= 2 * center,
        decreases center - radius,
    {
        let ring = ring_vec(center, radius);
        let ghost rs = ring_seq(center as int, radius as int);
        let mut k: usize = 0;
        let ghost base = pos_view(ps@);
        while k < ring.len()
            invariant
                k <= ring@.len(),
                7 <= center <= 71,
                pos_view(ring@) == rs,
                pos_view(ps@) == base + data_filter(rs.take(k as int), center as int, compact),
                forall|t: int|
                    0 <= t < ring@.len() ==> 1 <= (#[trigger] ring@[t]).0 <= 2 * center && 1
                        <= ring@[t].1 <= 2 * center,
                forall|t: int|
                    0 <= t < ps@.len() ==> 1 <= (#[trigger] ps@[t]).0 <= 2 * center && 1
                        <= ps@[t].1 <= 2 * center,
            decreases ring@.len() - k,
        {
            let (x, y) = ring[k];
            let dx: usize = if x >= center {
                x - center
            } else {
                center - x
            };
            let dy: usize = if y >= center {
                y - center
            } else {
                center - y
            };
            let d: usize = if dx >= dy {
                dx
            } else {
                dy
            };
            let is_data: bool = !(d <= 5) && (compact || (x % 16 != center % 16 && y % 16
                != center % 16));
            proof {
                assert(rs[k as int] == (x as int, y as int));
                assert(is_data == aztec_is_data(center as int, compact, x as int, y as int));
                assert(rs.take(k as int + 1).drop_last() =~= rs.take(k as int));
                assert(rs.take(k as int + 1).last() == rs[k as int]);
            }
            if is_data {
                let ghost prev = pos_view(ps@);
                ps.push((x, y));
                proof {
                    assert(pos_view(ps@) =~= prev.push((x as int, y as int)));
                    assert(pos_view(ps@) =~= base + data_filter(
                        rs.take(k as int + 1),
                        center as int,
                        compact,
                    ));
                }
            }
            k = k + 1;
        }
        proof {
            assert(rs.take(ring@.len() as int) =~= rs);
        }
        radius = radius + 1;
    }
    ps
}

/// Builds the full module grid of the payload bytes with the given
/// configuration.
pub fn generate_aztec_matrix(bytes: &Vec<u8>, config: &AztecConfig) -> (m: Vec<Vec<bool>>)
    requires
        bytes@.len() <= 0x100_0000,
        config.layers is Some ==> 1 <= config.layers.unwrap() && config.layers.unwrap() as int
            <= aztec_max_layers(config.compact),
    ensures
        ({
            let layers = if config.layers is Some {
                config.layers.unwrap() as int
            } else {
                aztec_layers(bytes@.len() as int, config.compact)
            };
            let size = aztec_size(layers, config.compact);
            &&& m@.len() == size
            &&& Seq::new(m@.len(), |y: int| m@[y]@) == aztec_grid(bytes@, layers, config.compact)
            &&& forall|y: int| 0 <= y < size ==> (#[trigger] m@[y])@.len() == size
        }),
{
    let layers: u8 = match config.layers {
        Some(l) => l,
        None => calculate_layers(bytes.len(), config.compact),
    };
    let size: usize = if config.compact {
        11 + 4 * (layers as usize)
    } else {
        15 + 4 * (layers as usize)
    };
    let center: usize = size / 2;
    let mut m = aztec_base_grid(size, config.compact);
    let ps = aztec_positions_vec(center, config.compact);
    proof {
        assert(Seq::new(m@.len(), |y: int| m@[y]@) =~~= aztec_base(size as int, config.compact));
    }
    let ghost base = Seq::new(m@.len(), |y: int| m@[y]@);
    fill_data(&mut m, &ps, bytes);
    proof {
        assert(Seq::new(m@.len(), |y: int| m@[y]@) =~~= crate::grid::grid_view(m));
        assert(Seq::new(m@.len(), |y: int| m@[y]@) == aztec_grid(
            bytes@,
            layers as int,
            config.compact,
        ));
    }
    m
}

/// Encodes `data` as an Aztec code with the given render configuration; the
/// symbol itself uses the default Aztec settings.
pub fn generate_aztec_with_config(data: &str, config: &BarcodeConfig) -> (r: Result<
    Barcode,
    QuickCodesError,
>)
    ensures
        r is Ok <==> aztec_accepts(data.spec_bytes()),
        r is Ok ==> {
            let b = r->Ok_0;
            let bytes = data.spec_bytes();
            let layers = aztec_layers(bytes.len() as int, false);
            let size = aztec_size(layers, false);
            &&& b.barcode_type == BarcodeType::Aztec
            &&& b.data@ == data@
            &&& b.modules is Matrix
            &&& b.modules->Matrix_0@.len() == size
            &&& 19 <= size <= 143
            &&& Seq::new(b.modules->Matrix_0@.len(), |y: int| b.modules->Matrix_0@[y]@)
                == aztec_grid(bytes, layers, false)
            &&& forall|y: int| 0 <= y < size ==> (#[trigger] b.modules->Matrix_0@[y])@.len() == size
            &&& b.config == *config
        },
        r is Err ==> {
            let e = r->Err_0;
            &&& (data.spec_bytes().len() == 0 ==> e is InvalidData)
            &&& (data.spec_bytes().len() != 0 ==> e is GenerationError)
            &&& crate::types::spec_error_message(&e) == aztec_error(data.spec_bytes())
        },
{
    let bytes: Vec<u8> = data.as_bytes_vec();
    if bytes.len() == 0 {
        return Err(QuickCodesError::InvalidData(String::from_str("Aztec data cannot be empty")));
    }
    if bytes.len() > 1024 {
        return Err(
            QuickCodesError::GenerationError(
                String::from_str("Aztec data exceeds the largest symbol capacity"),
            ),
        );
    }
    let aztec_config = AztecConfig::default();
    let m = generate_aztec_matrix(&bytes, &aztec_config);
    proof {
        lemma_aztec_layers_bounds(1, 8 * bytes@.len() as int, false);
    }
    Ok(
        Barcode {
            barcode_type: BarcodeType::Aztec,
            data: String::from_str(data),
            modules: BarcodeModules::Matrix(m),
            config: config.clone(),
        },
    )
}

/// Encodes `data` as an Aztec code with the default render configuration.
pub fn generate_aztec(data: &str) -> (r: Result<Barcode, QuickCodesError>)
    ensures
        r is Ok <==> aztec_accepts(data.spec_bytes()),
        r is Ok ==> {
            let b = r->Ok_0;
            let bytes = data.spec_bytes();
            let layers = aztec_layers(bytes.len() as int, false);
            let size = aztec_size(layers, false);
            &&& b.barcode_type == BarcodeType::Aztec
            &&& b.data@ == data@
            &&& b.modules is Matrix
            &&& b.modules->Matrix_0@.len() == size
            &&& 19 <= size <= 143
            &&& Seq::new(b.modules->Matrix_0@.len(), |y: int| b.modules->Matrix_0@[y]@)
                == aztec_grid(bytes, layers, false)
            &&& forall|y: int| 0 <= y < size ==> (#[trigger] b.modules->Matrix_0@[y])@.len() == size
            &&& b.config == crate::types::default_config()
        },
        r is Err ==> {
            let e = r->Err_0;
            &&& (data.spec_bytes().len() == 0 ==> e is InvalidData)
            &&& (data.spec_bytes().len() != 0 ==> e is GenerationError)
            &&& crate::types::spec_error_message(&e) == aztec_error(data.spec_bytes())
        },
{
    generate_aztec_with_config(data, &BarcodeConfig::default())
}

/// Encoding is deterministic: two grids of the same payload and settings are
/// identical.
pub proof fn lemma_aztec_deterministic(
    bytes: Seq<u8>,
    layers: int,
    compact: bool,
    g1: Seq<Seq<bool>>,
    g2: Seq<Seq<bool>>,
)
    requires
        g1 == aztec_grid(bytes, layers, compact),
        g2 == aztec_grid(bytes, layers, compact),
    ensures
        g1 == g2,
{
}

} // verus!
