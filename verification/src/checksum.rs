//! The weighted mod-10 checksum shared by the numeric symbologies.

use vstd::prelude::*;
use crate::util::all_digits;

verus! {

/// The sum of the digits of `ds`, each weighted by `even_w` at even indices
/// and `odd_w` at odd indices.
pub open spec fn weighted_sum(ds: Seq<u8>, even_w: int, odd_w: int) -> int
    decreases ds.len(),
{
    if ds.len() == 0 {
        0
    } else {
        weighted_sum(ds.drop_last(), even_w, odd_w) + (ds.last() as int) * (
        if (ds.len() - 1) % 2 == 0 {
            even_w
        } else {
            odd_w
        })
    }
}

/// The mod-10 check digit completing a weighted sum to a multiple of ten.
pub open spec fn mod10_check(sum: int) -> int {
    (10 - sum % 10) % 10
}

/// Computes the weighted sum of up to a thousand digits.
pub fn weighted_sum_u32(ds: &[u8], even_w: u32, odd_w: u32) -> (r: u32)
    requires
        all_digits(ds@),
        ds@.len() <= 1000,
        even_w <= 3,
        odd_w <= 3,
    ensures
        r as int == weighted_sum(ds@, even_w as int, odd_w as int),
{
    let mut sum: u32 = 0;
    let mut i: usize = 0;
    while i < ds.len()
        invariant
            i <= ds@.len() <= 1000,
            all_digits(ds@),
            even_w <= 3,
            odd_w <= 3,
            sum as int == weighted_sum(ds@.take(i as int), even_w as int, odd_w as int),
            sum <= 27 * i,
        decreases ds@.len() - i,
    {
        let d: u8 = *vstd::slice::slice_index_get(ds, i);
        let w: u32 = if i % 2 == 0 {
            even_w
        } else {
            odd_w
        };
        proof {
            assert(ds@[i as int] < 10);
            assert(0 <= (d as int) * (w as int) <= 27) by (nonlinear_arith)
                requires
                    0 <= (d as int) < 10,
                    0 <= (w as int) <= 3,
            ;
        }
        sum = sum + (d as u32) * w;
        i = i + 1;
        proof {
            let t = ds@.take(i as int);
            assert(t.drop_last() =~= ds@.take(i as int - 1));
            assert(t.last() == ds@[i as int - 1]);
        }
    }
    proof {
        assert(ds@.take(ds@.len() as int) =~= ds@);
    }
    sum
}

/// The check digit, as the original formula writes it: zero when the sum is
/// already a multiple of ten, else the distance to the next one.
pub fn mod10_check_u32(sum: u32) -> (r: u8)
    ensures
        r as int == mod10_check(sum as int),
        r < 10,
{
    let rem: u32 = sum % 10;
    if rem == 0 {
        0
    } else {
        (10 - rem) as u8
    }
}

} // verus!
