//! Shared two-dimensional grid helpers for the matrix encoders: cell updates
//! and bit-by-bit placement of a byte stream along a list of positions.

use vstd::prelude::*;
use crate::util::bit_is_set;
use crate::util::bit_of;

verus! {

/// `g` with the cell at column `x` of row `y` set to `v`.
pub open spec fn grid_set(g: Seq<Seq<bool>>, x: int, y: int, v: bool) -> Seq<Seq<bool>> {
    g.update(y, g[y].update(x, v))
}

/// Bit `k` of the byte stream `data`, most significant bit of each byte first.
pub open spec fn data_bit(data: Seq<u8>, k: int) -> bool {
    bit_of(data[k / 8] as u16, (7 - (k % 8)) as nat)
}

/// Reads bit `k` of the byte stream.
pub fn data_bit_at(data: &Vec<u8>, k: usize) -> (r: bool)
    requires
        (k as int) < 8 * data@.len(),
        data@.len() <= 0x1000_0000,
    ensures
        r == data_bit(data@, k as int),
{
    let byte: u8 = data[k / 8];
    bit_is_set(byte as u16, 7 - (k % 8))
}

/// Sets the cell at column `x` of row `y`.
pub fn set_cell(g: &mut Vec<Vec<bool>>, x: usize, y: usize, v: bool)
    requires
        (y as int) < old(g)@.len(),
        (x as int) < old(g)@[y as int]@.len(),
    ensures
        final(g)@.len() == old(g)@.len(),
        forall|i: int| 0 <= i < old(g)@.len() && i != y as int ==> #[trigger] final(g)@[i]
            == old(g)@[i],
        final(g)@[y as int]@ == old(g)@[y as int]@.update(x as int, v),
    decreases 0int,
{
    let mut row = g.remove(y);
    row.set(x, v);
    g.insert(y, row);
    proof {
        assert(forall|i: int|
            0 <= i < old(g)@.len() && i != y as int ==> #[trigger] g@[i] == old(g)@[i]);
    }
}

/// The deep view of a grid: each row as a sequence.
pub open spec fn grid_view(g: Vec<Vec<bool>>) -> Seq<Seq<bool>> {
    Seq::new(g@.len(), |y: int| g@[y]@)
}

/// Places the bits of `data`, starting at bit `k`, into consecutive positions
/// of `ps` (column, then row) until the bits run out.
pub open spec fn fill_positions(
    g: Seq<Seq<bool>>,
    ps: Seq<(int, int)>,
    data: Seq<u8>,
    k: int,
) -> Seq<Seq<bool>>
    decreases ps.len(),
{
    if ps.len() == 0 {
        g
    } else if k < 8 * data.len() {
        fill_positions(
            grid_set(g, ps[0].0, ps[0].1, data_bit(data, k)),
            ps.drop_first(),
            data,
            k + 1,
        )
    } else {
        g
    }
}


/// A cell at none of the positions keeps its value through the fill.
pub proof fn lemma_fill_untouched(
    g: Seq<Seq<bool>>,
    ps: Seq<(int, int)>,
    data: Seq<u8>,
    k: int,
    x: int,
    y: int,
)
    requires
        0 <= y < g.len(),
        0 <= x < g[y].len(),
        forall|t: int|
            0 <= t < ps.len() ==> 0 <= (#[trigger] ps[t]).1 < g.len() && 0 <= ps[t].0
                < g[ps[t].1].len(),
        forall|t: int| 0 <= t < ps.len() ==> #[trigger] ps[t] != (x, y),
    ensures
        fill_positions(g, ps, data, k).len() == g.len(),
        fill_positions(g, ps, data, k)[y].len() == g[y].len(),
        fill_positions(g, ps, data, k)[y][x] == g[y][x],
    decreases ps.len(),
{
    if ps.len() > 0 && k < 8 * data.len() {
        let p = ps[0];
        let g2 = grid_set(g, p.0, p.1, data_bit(data, k));
        assert(g2.len() == g.len());
        assert(forall|i: int| 0 <= i < g.len() ==> (#[trigger] g2[i]).len() == g[i].len());
        assert(g2[y][x] == g[y][x]) by {
            if p.1 == y {
                assert(p.0 != x);
            }
        }
        let tail = ps.drop_first();
        assert(forall|t: int|
            0 <= t < tail.len() ==> 0 <= (#[trigger] tail[t]).1 < g2.len() && 0 <= tail[t].0
                < g2[tail[t].1].len());
        assert(forall|t: int| 0 <= t < tail.len() ==> #[trigger] tail[t] != (x, y));
        lemma_fill_untouched(g2, tail, data, k + 1, x, y);
    }
}

/// The positions of `ps` as mathematical pairs.
pub open spec fn pos_view(ps: Seq<(usize, usize)>) -> Seq<(int, int)> {
    ps.map_values(|p: (usize, usize)| (p.0 as int, p.1 as int))
}

/// Fills `g` with the bits of `data` along the positions of `ps`.
pub fn fill_data(g: &mut Vec<Vec<bool>>, ps: &Vec<(usize, usize)>, data: &Vec<u8>)
    requires
        data@.len() <= 0x1000_0000,
        forall|t: int|
            0 <= t < ps@.len() ==> 0 <= (#[trigger] ps@[t]).1 < old(g)@.len() && 0 <= ps@[t].0
                < old(g)@[ps@[t].1 as int]@.len(),
        forall|i: int, j: int|
            0 <= i < old(g)@.len() && 0 <= j < old(g)@.len() ==> (#[trigger] old(g)@[i])@.len()
                == (#[trigger] old(g)@[j])@.len(),
    ensures
        grid_view(*final(g)) == fill_positions(grid_view(*old(g)), pos_view(ps@), data@, 0),
        final(g)@.len() == old(g)@.len(),
        forall|i: int| 0 <= i < old(g)@.len() ==> (#[trigger] final(g)@[i])@.len()
            == old(g)@[i]@.len(),
{
    let total: usize = 8 * data.len();
    let mut t: usize = 0;
    let mut k: usize = 0;
    proof {
        assert(pos_view(ps@).skip(0) =~= pos_view(ps@));
    }
    while t < ps.len() && k < total
        invariant
            t <= ps@.len(),
            k <= total,
            total == 8 * data@.len(),
            data@.len() <= 0x1000_0000,
            g@.len() == old(g)@.len(),
            forall|i: int| 0 <= i < old(g)@.len() ==> (#[trigger] g@[i])@.len()
                == old(g)@[i]@.len(),
            forall|tt: int|
                0 <= tt < ps@.len() ==> 0 <= (#[trigger] ps@[tt]).1 < old(g)@.len() && 0
                    <= ps@[tt].0 < old(g)@[ps@[tt].1 as int]@.len(),
            fill_positions(grid_view(*old(g)), pos_view(ps@), data@, 0) == fill_positions(
                grid_view(*g),
                pos_view(ps@).skip(t as int),
                data@,
                k as int,
            ),
        decreases ps@.len() - t,
    {
        let (x, y) = ps[t];
        let ghost before = grid_view(*g);
        let bit: bool = data_bit_at(data, k);
        set_cell(g, x, y, bit);
        proof {
            let rest = pos_view(ps@).skip(t as int);
            assert(rest[0] == (x as int, y as int));
            assert(grid_view(*g) =~~= grid_set(before, x as int, y as int, bit));
            assert(rest.drop_first() =~= pos_view(ps@).skip(t as int + 1));
        }
        t = t + 1;
        k = k + 1;
    }
    proof {
        if t == ps@.len() {
            assert(pos_view(ps@).skip(t as int).len() == 0);
        }
        assert(fill_positions(grid_view(*g), pos_view(ps@).skip(t as int), data@, k as int)
            == grid_view(*g));
    }
}

} // verus!
