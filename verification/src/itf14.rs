//! ITF-14: exactly thirteen digits plus a computed check digit, encoded as
//! interleaved narrow and wide bars and spaces.

use vstd::prelude::*;
use crate::types::Barcode;
use crate::types::BarcodeConfig;
use crate::types::BarcodeModules;
use crate::types::BarcodeType;
use crate::types::QuickCodesError;
use crate::util::all_digit_chars;
use crate::util::all_digits;
use crate::util::bit_is_set;
use crate::util::bit_of;
use crate::util::digit_chars;
use crate::util::digit_vals;
use crate::util::digits_to_string;
use crate::util::is_digit_char;
use crate::util::pattern_seq;
use crate::util::append_pattern;
use crate::checksum::mod10_check;
use crate::checksum::mod10_check_u32;
use crate::checksum::weighted_sum;
use crate::checksum::weighted_sum_u32;

verus! {

/// The five-element narrow/wide pattern of a digit; a set bit means wide.
pub open spec fn itf_code(d: u8) -> u16 {
    if d == 0 {
        0b00110
    } else if d == 1 {
        0b10001
    } else if d == 2 {
        0b01001
    } else if d == 3 {
        0b11000
    } else if d == 4 {
        0b00101
    } else if d == 5 {
        0b10100
    } else if d == 6 {
        0b01100
    } else if d == 7 {
        0b00011
    } else if d == 8 {
        0b10010
    } else {
        0b01010
    }
}

fn itf_code_of(d: u8) -> (r: u16)
    requires
        d < 10,
    ensures
        r == itf_code(d),
{
    match d {
        0 => 0b00110,
        1 => 0b10001,
        2 => 0b01001,
        3 => 0b11000,
        4 => 0b00101,
        5 => 0b10100,
        6 => 0b01100,
        7 => 0b00011,
        8 => 0b10010,
        _ => 0b01010,
    }
}

/// The ITF-14 weighted sum: weight three at even indices, one at odd indices.
pub open spec fn itf14_check(ds: Seq<u8>) -> int {
    mod10_check(weighted_sum(ds, 3, 1))
}

/// Computes the mod-10 check digit of a digit string.
pub fn calculate_check_digit(data: &str) -> (r: u8)
    requires
        all_digit_chars(data@),
        data@.len() <= 1000,
    ensures
        r as int == itf14_check(digit_vals(data@)),
        r < 10,
{
    let ghost s = data@;
    let n: usize = data.unicode_len();
    let mut digits: Vec<u8> = Vec::new();
    let mut i: usize = 0;
    while i < n
        invariant
            i <= n,
            n == s.len() <= 1000,
            s == data@,
            all_digit_chars(s),
            digits@ == digit_vals(s.take(i as int)),
            all_digits(digits@),
        decreases n - i,
    {
        let c: char = data.get_char(i);
        let cv: u32 = c as u32;
        proof {
            assert(is_digit_char(s[i as int]));
        }
        digits.push((cv - 48) as u8);
        i = i + 1;
        proof {
            assert(digits@ =~= digit_vals(s.take(i as int)));
        }
    }
    proof {
        assert(s.take(n as int) =~= s);
    }
    let sum = weighted_sum_u32(digits.as_slice(), 3, 1);
    mod10_check_u32(sum)
}

/// One interleaved step: a bar from digit `a` followed by a space from digit
/// `b`, each doubled when the corresponding pattern element is wide.
pub open spec fn itf_pair_step(a: u8, b: u8, i: int) -> Seq<bool> {
    (if bit_of(itf_code(a), (4 - i) as nat) {
        seq![true, true]
    } else {
        seq![true]
    }) + (if bit_of(itf_code(b), (4 - i) as nat) {
        seq![false, false]
    } else {
        seq![false]
    })
}

/// The first `n` interleaved steps of the digit pair `(a, b)`.
pub open spec fn itf_pair_seq(a: u8, b: u8, n: int) -> Seq<bool>
    decreases n,
{
    if n <= 0 {
        Seq::empty()
    } else {
        itf_pair_seq(a, b, n - 1) + itf_pair_step(a, b, n - 1)
    }
}

/// The concatenated patterns of the first `n` digit pairs of `ds`.
pub open spec fn itf_pairs(ds: Seq<u8>, n: int) -> Seq<bool>
    decreases n,
{
    if n <= 0 {
        Seq::empty()
    } else {
        itf_pairs(ds, n - 1) + itf_pair_seq(ds[2 * (n - 1)], ds[2 * (n - 1) + 1], 5)
    }
}

/// The full ITF-14 pattern of fourteen digits: start code, seven interleaved
/// pairs, stop code.
pub open spec fn itf14_modules(ds: Seq<u8>) -> Seq<bool> {
    pattern_seq(0b1010, 4) + itf_pairs(ds, 7) + pattern_seq(0b11101, 5)
}

proof fn lemma_itf_pair_seq_len(a: u8, b: u8, n: int)
    requires
        0 <= n,
    ensures
        n <= itf_pair_seq(a, b, n).len() <= 4 * n,
    decreases n,
{
    if n > 0 {
        lemma_itf_pair_seq_len(a, b, n - 1);
    }
}

proof fn lemma_itf_pairs_len(ds: Seq<u8>, n: int)
    requires
        0 <= n,
    ensures
        itf_pairs(ds, n).len() <= 20 * n,
    decreases n,
{
    if n > 0 {
        lemma_itf_pairs_len(ds, n - 1);
        lemma_itf_pair_seq_len(ds[2 * (n - 1)], ds[2 * (n - 1) + 1], 5);
    }
}

/// Whether `s` is accepted: exactly thirteen characters, all digits.
pub open spec fn itf14_accepts(s: Seq<char>) -> bool {
    s.len() == 13 && all_digit_chars(s)
}

/// The canonical fourteen digits: the input digits with the check appended.
pub open spec fn itf14_canonical(s: Seq<char>) -> Seq<u8> {
    digit_vals(s).push(itf14_check(digit_vals(s)) as u8)
}

/// The reason reported for a rejected input.
pub open spec fn itf14_error(s: Seq<char>) -> Seq<char> {
    if s.len() != 13 {
        "ITF-14 data must be exactly 13 digits (check digit will be calculated)"@
    } else {
        "ITF-14 data must contain only digits"@
    }
}

/// Encodes `data` as ITF-14.
pub fn generate_itf14(data: &str) -> (r: Result<Barcode, QuickCodesError>)
    ensures
        r is Ok <==> itf14_accepts(data@),
        r is Ok ==> {
            let b = r->Ok_0;
            &&& b.barcode_type == BarcodeType::ITF14
            &&& b.data@ == digit_chars(itf14_canonical(data@))
            &&& b.modules is Linear
            &&& b.modules->Linear_0@ == itf14_modules(itf14_canonical(data@))
            &&& b.config.width == b.modules->Linear_0@.len() as u32
            &&& b.config.height == b.config.width / 2
            &&& b.config.margin == 10
            &&& b.config.include_text
        },
        r is Err ==> r->Err_0 is InvalidData && r->Err_0->InvalidData_0@ == itf14_error(data@),
{
    let ghost s = data@;
    let n: usize = data.unicode_len();
    if n != 13 {
        return Err(
            QuickCodesError::InvalidData(
                String::from_str(
                    "ITF-14 data must be exactly 13 digits (check digit will be calculated)",
                ),
            ),
        );
    }
    let mut digits: Vec<u8> = Vec::new();
    let mut i: usize = 0;
    while i < n
        invariant
            i <= n,
            n == s.len() == 13,
            s == data@,
            digits@ == digit_vals(s.take(i as int)),
            all_digits(digits@),
            forall|j: int| 0 <= j < i as int ==> is_digit_char(#[trigger] s[j]),
        decreases n - i,
    {
        let c: char = data.get_char(i);
        let cv: u32 = c as u32;
        if 48 <= cv && cv <= 57 {
            digits.push((cv - 48) as u8);
            proof {
                assert(digits@ =~= digit_vals(s.take(i as int + 1)));
            }
        } else {
            proof {
                assert(!is_digit_char(s[i as int]));
            }
            return Err(
                QuickCodesError::InvalidData(
                    String::from_str("ITF-14 data must contain only digits"),
                ),
            );
        }
        i = i + 1;
    }
    proof {
        assert(s.take(n as int) =~= s);
        assert(all_digit_chars(s));
    }
    let sum = weighted_sum_u32(digits.as_slice(), 3, 1);
    let check: u8 = mod10_check_u32(sum);
    digits.push(check);
    proof {
        assert(digits@ =~= itf14_canonical(s));
    }
    let mut v: Vec<bool> = Vec::new();
    append_pattern(&mut v, 0b1010, 4);
    proof {
        assert(v@ =~= pattern_seq(0b1010, 4) + itf_pairs(digits@, 0));
    }
    let mut p: usize = 0;
    while p < 7
        invariant
            p <= 7,
            digits@.len() == 14,
            all_digits(digits@),
            v@ == pattern_seq(0b1010, 4) + itf_pairs(digits@, p as int),
        decreases 7 - p,
    {
        let a: u8 = digits[2 * p];
        let b: u8 = digits[2 * p + 1];
        let code_a: u16 = itf_code_of(a);
        let code_b: u16 = itf_code_of(b);
        let ghost before = v@;
        let mut q: usize = 0;
        while q < 5
            invariant
                q <= 5,
                a == digits@[2 * (p as int)],
                b == digits@[2 * (p as int) + 1],
                code_a == itf_code(a),
                code_b == itf_code(b),
                v@ == before + itf_pair_seq(a, b, q as int),
            decreases 5 - q,
        {
            v.push(true);
            if bit_is_set(code_a, 4 - q) {
                v.push(true);
            }
            v.push(false);
            if bit_is_set(code_b, 4 - q) {
                v.push(false);
            }
            q = q + 1;
            proof {
                assert(v@ =~= before + itf_pair_seq(a, b, q as int));
            }
        }
        p = p + 1;
        proof {
            assert(v@ =~= pattern_seq(0b1010, 4) + itf_pairs(digits@, p as int));
        }
    }
    append_pattern(&mut v, 0b11101, 5);
    proof {
        assert(v@ =~= itf14_modules(digits@));
        lemma_itf_pairs_len(digits@, 7);
    }
    let w: u32 = v.len() as u32;
    let mut config = BarcodeConfig::default();
    config.width = w;
    config.height = w / 2;
    Ok(
        Barcode {
            barcode_type: BarcodeType::ITF14,
            data: digits_to_string(&digits),
            modules: BarcodeModules::Linear(v),
            config,
        },
    )
}

} // verus!
