//! EAN-13: validation, check digit, and the 95-module bar pattern.

use vstd::prelude::*;
use crate::types::Barcode;
use crate::types::BarcodeConfig;
use crate::types::BarcodeModules;
use crate::types::BarcodeType;
use crate::types::QuickCodesError;
use crate::types::default_config;
use crate::util::all_digits;
use crate::util::bit_is_set;
use crate::util::bit_of;
use crate::util::digit_char;
use crate::util::digit_chars;
use crate::util::digit_val;
use crate::util::digit_vals;
use crate::util::digits_to_string;
use crate::util::is_digit_char;
use crate::util::is_sep;
use crate::util::pattern_seq;
use crate::util::push_digit;
use crate::util::strip_seps;
use crate::util::append_pattern;
use crate::checksum::mod10_check;
use crate::checksum::mod10_check_u32;
use crate::checksum::weighted_sum;
use crate::checksum::weighted_sum_u32;

verus! {

/// The L (odd parity) pattern for a left-half digit, seven modules.
pub open spec fn left_l_code(d: u8) -> u16 {
    if d == 0 {
        0b0001101
    } else if d == 1 {
        0b0011001
    } else if d == 2 {
        0b0010011
    } else if d == 3 {
        0b0111101
    } else if d == 4 {
        0b0100011
    } else if d == 5 {
        0b0110001
    } else if d == 6 {
        0b0101111
    } else if d == 7 {
        0b0111011
    } else if d == 8 {
        0b0110111
    } else {
        0b0001011
    }
}

/// The G (even parity) pattern for a left-half digit, seven modules.
pub open spec fn left_g_code(d: u8) -> u16 {
    if d == 0 {
        0b0100111
    } else if d == 1 {
        0b0110011
    } else if d == 2 {
        0b0011011
    } else if d == 3 {
        0b0100001
    } else if d == 4 {
        0b0011101
    } else if d == 5 {
        0b0111001
    } else if d == 6 {
        0b0000101
    } else if d == 7 {
        0b0010001
    } else if d == 8 {
        0b0001001
    } else {
        0b0010111
    }
}

/// The pattern for a right-half digit, seven modules.
pub open spec fn right_code(d: u8) -> u16 {
    if d == 0 {
        0b1110010
    } else if d == 1 {
        0b1100110
    } else if d == 2 {
        0b1101100
    } else if d == 3 {
        0b1000010
    } else if d == 4 {
        0b1011100
    } else if d == 5 {
        0b1001110
    } else if d == 6 {
        0b1010000
    } else if d == 7 {
        0b1000100
    } else if d == 8 {
        0b1001000
    } else {
        0b1110100
    }
}

/// The parity selection for the six left digits, keyed by the first digit:
/// bit 5 down to bit 0 give positions 0 to 5, a set bit selecting the G table.
pub open spec fn parity_mask(first: u8) -> u16 {
    if first == 0 {
        0b000000
    } else if first == 1 {
        0b001011
    } else if first == 2 {
        0b001101
    } else if first == 3 {
        0b001110
    } else if first == 4 {
        0b010011
    } else if first == 5 {
        0b011001
    } else if first == 6 {
        0b011100
    } else if first == 7 {
        0b010101
    } else if first == 8 {
        0b010110
    } else {
        0b011010
    }
}

/// Whether left position `j` of a code starting with `first` uses the G table.
pub open spec fn uses_g(first: u8, j: int) -> bool {
    bit_of(parity_mask(first), (5 - j) as nat)
}

pub(crate) fn left_l(d: u8) -> (r: u16)
    requires
        d < 10,
    ensures
        r == left_l_code(d),
{
    match d {
        0 => 0b0001101,
        1 => 0b0011001,
        2 => 0b0010011,
        3 => 0b0111101,
        4 => 0b0100011,
        5 => 0b0110001,
        6 => 0b0101111,
        7 => 0b0111011,
        8 => 0b0110111,
        _ => 0b0001011,
    }
}

fn left_g(d: u8) -> (r: u16)
    requires
        d < 10,
    ensures
        r == left_g_code(d),
{
    match d {
        0 => 0b0100111,
        1 => 0b0110011,
        2 => 0b0011011,
        3 => 0b0100001,
        4 => 0b0011101,
        5 => 0b0111001,
        6 => 0b0000101,
        7 => 0b0010001,
        8 => 0b0001001,
        _ => 0b0010111,
    }
}

pub(crate) fn right(d: u8) -> (r: u16)
    requires
        d < 10,
    ensures
        r == right_code(d),
{
    match d {
        0 => 0b1110010,
        1 => 0b1100110,
        2 => 0b1101100,
        3 => 0b1000010,
        4 => 0b1011100,
        5 => 0b1001110,
        6 => 0b1010000,
        7 => 0b1000100,
        8 => 0b1001000,
        _ => 0b1110100,
    }
}

fn parity(first: u8) -> (r: u16)
    requires
        first < 10,
    ensures
        r == parity_mask(first),
{
    match first {
        0 => 0b000000,
        1 => 0b001011,
        2 => 0b001101,
        3 => 0b001110,
        4 => 0b010011,
        5 => 0b011001,
        6 => 0b011100,
        7 => 0b010101,
        8 => 0b010110,
        _ => 0b011010,
    }
}

/// The start and end guard, three modules reading bar, space, bar.
pub open spec fn guard_seq() -> Seq<bool> {
    pattern_seq(0b101, 3)
}

/// The center guard, five modules.
pub open spec fn center_seq() -> Seq<bool> {
    pattern_seq(0b01010, 5)
}

/// The EAN-13 weighted sum: weight one at even indices, three at odd indices.
pub open spec fn ean13_check(ds: Seq<u8>) -> int {
    mod10_check(weighted_sum(ds, 1, 3))
}

/// Computes the check digit completing twelve data digits.
pub fn calculate_ean13_check_digit(digits: &[u8]) -> (r: u8)
    requires
        all_digits(digits@),
        digits@.len() == 12,
    ensures
        r as int == ean13_check(digits@),
        r < 10,
{
    let sum = weighted_sum_u32(digits, 1, 3);
    mod10_check_u32(sum)
}

/// The concatenated patterns of the first `n` left-half digits of `ds`
/// (digits one through six of a full thirteen-digit code).
pub open spec fn ean13_left_seq(ds: Seq<u8>, n: int) -> Seq<bool>
    decreases n,
{
    if n <= 0 {
        Seq::empty()
    } else {
        ean13_left_seq(ds, n - 1) + pattern_seq(
            if uses_g(ds[0], n - 1) {
                left_g_code(ds[n])
            } else {
                left_l_code(ds[n])
            },
            7,
        )
    }
}

/// The concatenated patterns of the first `n` right-half digits of `ds`
/// (digits seven through twelve of a full thirteen-digit code).
pub open spec fn ean13_right_seq(ds: Seq<u8>, n: int) -> Seq<bool>
    decreases n,
{
    if n <= 0 {
        Seq::empty()
    } else {
        ean13_right_seq(ds, n - 1) + pattern_seq(right_code(ds[n + 6]), 7)
    }
}

pub proof fn lemma_ean13_left_len(ds: Seq<u8>, n: int)
    requires
        0 <= n,
    ensures
        ean13_left_seq(ds, n).len() == 7 * n,
    decreases n,
{
    if n > 0 {
        lemma_ean13_left_len(ds, n - 1);
    }
}

pub proof fn lemma_ean13_right_len(ds: Seq<u8>, n: int)
    requires
        0 <= n,
    ensures
        ean13_right_seq(ds, n).len() == 7 * n,
    decreases n,
{
    if n > 0 {
        lemma_ean13_right_len(ds, n - 1);
    }
}

/// The full 95-module pattern of a thirteen-digit code.
pub open spec fn ean13_modules(ds: Seq<u8>) -> Seq<bool> {
    guard_seq() + ean13_left_seq(ds, 6) + center_seq() + ean13_right_seq(ds, 6) + guard_seq()
}

/// An EAN-13 pattern always has 95 modules.
pub proof fn lemma_ean13_modules_len(ds: Seq<u8>)
    ensures
        ean13_modules(ds).len() == 95,
{
    lemma_ean13_left_len(ds, 6);
    lemma_ean13_right_len(ds, 6);
}

/// Builds the bar pattern of a thirteen-digit code.
pub fn generate_ean13_pattern(digits: &Vec<u8>) -> (r: Result<Vec<bool>, QuickCodesError>)
    requires
        all_digits(digits@),
    ensures
        digits@.len() == 13 ==> r is Ok && r->Ok_0@ == ean13_modules(digits@)
            && r->Ok_0@.len() == 95,
        digits@.len() != 13 ==> r is Err && r->Err_0 is GenerationError
            && r->Err_0->GenerationError_0@ == "EAN-13 requires exactly 13 digits"@,
{
    if digits.len() != 13 {
        return Err(
            QuickCodesError::GenerationError(String::from_str("EAN-13 requires exactly 13 digits")),
        );
    }
    let first: u8 = digits[0];
    let pm: u16 = parity(first);
    let mut v: Vec<bool> = Vec::new();
    append_pattern(&mut v, 0b101, 3);
    proof {
        assert(v@ =~= guard_seq() + ean13_left_seq(digits@, 0));
    }
    let mut j: usize = 0;
    while j < 6
        invariant
            j <= 6,
            digits@.len() == 13,
            all_digits(digits@),
            first == digits@[0],
            pm == parity_mask(first),
            v@ == guard_seq() + ean13_left_seq(digits@, j as int),
        decreases 6 - j,
    {
        let d: u8 = digits[j + 1];
        let g: bool = bit_is_set(pm, 5 - j);
        let code: u16 = if g {
            left_g(d)
        } else {
            left_l(d)
        };
        append_pattern(&mut v, code, 7);
        j = j + 1;
        proof {
            assert(v@ =~= guard_seq() + ean13_left_seq(digits@, j as int));
        }
    }
    append_pattern(&mut v, 0b01010, 5);
    proof {
        assert(v@ =~= guard_seq() + ean13_left_seq(digits@, 6) + center_seq() + ean13_right_seq(
            digits@,
            0,
        ));
    }
    let ghost mid = v@;
    let mut k: usize = 0;
    while k < 6
        invariant
            k <= 6,
            digits@.len() == 13,
            all_digits(digits@),
            mid == guard_seq() + ean13_left_seq(digits@, 6) + center_seq() + ean13_right_seq(
                digits@,
                0,
            ),
            v@ == guard_seq() + ean13_left_seq(digits@, 6) + center_seq() + ean13_right_seq(
                digits@,
                k as int,
            ),
        decreases 6 - k,
    {
        let d: u8 = digits[k + 7];
        let code: u16 = right(d);
        append_pattern(&mut v, code, 7);
        k = k + 1;
        proof {
            assert(v@ =~= guard_seq() + ean13_left_seq(digits@, 6) + center_seq()
                + ean13_right_seq(digits@, k as int));
        }
    }
    append_pattern(&mut v, 0b101, 3);
    proof {
        assert(v@ =~= ean13_modules(digits@));
        lemma_ean13_modules_len(digits@);
    }
    Ok(v)
}

/// Every character is a digit, a space, or a hyphen.
pub open spec fn ean13_chars_ok(s: Seq<char>) -> bool {
    forall|i: int| 0 <= i < s.len() ==> is_sep(#[trigger] s[i]) || is_digit_char(s[i])
}

/// Whether `s` is accepted: only digits and separators, and after stripping
/// either twelve digits or thirteen whose last digit is the correct check digit.
pub open spec fn ean13_accepts(s: Seq<char>) -> bool {
    &&& ean13_chars_ok(s)
    &&& {
        let ds = digit_vals(strip_seps(s));
        ||| ds.len() == 12
        ||| (ds.len() == 13 && ds[12] as int == ean13_check(ds.take(12)))
    }
}

/// The canonical thirteen digits of an accepted input: the check digit is
/// appended to a twelve-digit input and kept as supplied otherwise.
pub open spec fn ean13_canonical(s: Seq<char>) -> Seq<u8> {
    let ds = digit_vals(strip_seps(s));
    if ds.len() == 12 {
        ds.push(ean13_check(ds) as u8)
    } else {
        ds
    }
}

/// The reason reported for a rejected input.
pub open spec fn ean13_error(s: Seq<char>) -> Seq<char> {
    if !ean13_chars_ok(s) {
        "EAN-13 data must contain only digits"@
    } else {
        let ds = digit_vals(strip_seps(s));
        if ds.len() != 12 && ds.len() != 13 {
            "EAN-13 data must be 12 or 13 digits long"@
        } else {
            "Invalid EAN-13 check digit. Expected "@ + seq![digit_char(ean13_check(ds.take(12)))]
                + ", got "@ + seq![digit_char(ds[12] as int)]
        }
    }
}

/// Validates the input and produces the canonical thirteen digits.
pub fn process_ean13_data(data: &str) -> (r: Result<Vec<u8>, QuickCodesError>)
    ensures
        r is Ok <==> ean13_accepts(data@),
        r is Ok ==> r->Ok_0@ == ean13_canonical(data@) && all_digits(r->Ok_0@)
            && r->Ok_0@.len() == 13,
        r is Err ==> r->Err_0 is InvalidData && r->Err_0->InvalidData_0@ == ean13_error(data@),
{
    let ghost s = data@;
    let n: usize = data.unicode_len();
    let mut digits: Vec<u8> = Vec::new();
    let mut i: usize = 0;
    while i < n
        invariant
            i <= n,
            n == s.len(),
            s == data@,
            digits@ == digit_vals(strip_seps(s.take(i as int))),
            all_digits(digits@),
            forall|j: int| 0 <= j < i as int ==> is_sep(#[trigger] s[j]) || is_digit_char(s[j]),
        decreases n - i,
    {
        let c: char = data.get_char(i);
        let cv: u32 = c as u32;
        proof {
            let t = s.take(i as int + 1);
            assert(t.drop_last() =~= s.take(i as int));
            assert(t.last() == s[i as int]);
        }
        if c == ' ' || c == '-' {
        } else if 48 <= cv && cv <= 57 {
            digits.push((cv - 48) as u8);
            proof {
                assert(digits@ =~= digit_vals(strip_seps(s.take(i as int + 1))));
            }
        } else {
            proof {
                assert(!is_sep(s[i as int]) && !is_digit_char(s[i as int]));
                assert(!ean13_chars_ok(s));
            }
            return Err(
                QuickCodesError::InvalidData(
                    String::from_str("EAN-13 data must contain only digits"),
                ),
            );
        }
        i = i + 1;
    }
    proof {
        assert(s.take(n as int) =~= s);
        assert(ean13_chars_ok(s));
    }
    if digits.len() == 12 {
        let check: u8 = calculate_ean13_check_digit(digits.as_slice());
        digits.push(check);
        proof {
            assert(digits@ =~= ean13_canonical(s));
        }
        Ok(digits)
    } else if digits.len() == 13 {
        let head = vstd::slice::slice_subrange(digits.as_slice(), 0, 12);
        proof {
            assert(head@ =~= digit_vals(strip_seps(s)).take(12));
        }
        let check: u8 = calculate_ean13_check_digit(head);
        if digits[12] == check {
            Ok(digits)
        } else {
            let mut m = String::from_str("Invalid EAN-13 check digit. Expected ");
            push_digit(&mut m, check);
            m.append(", got ");
            push_digit(&mut m, digits[12]);
            proof {
                assert(m@ =~= ean13_error(s));
            }
            Err(QuickCodesError::InvalidData(m))
        }
    } else {
        Err(
            QuickCodesError::InvalidData(
                String::from_str("EAN-13 data must be 12 or 13 digits long"),
            ),
        )
    }
}

/// Renders canonical digits for display.
pub fn format_ean13_data(digits: &Vec<u8>) -> (r: String)
    requires
        all_digits(digits@),
    ensures
        r@ == digit_chars(digits@),
{
    digits_to_string(digits)
}

/// Encodes `data` as EAN-13 with the given render configuration.
pub fn generate_ean13_with_config(data: &str, config: &BarcodeConfig) -> (r: Result<
    Barcode,
    QuickCodesError,
>)
    ensures
        r is Ok <==> ean13_accepts(data@),
        r is Ok ==> {
            let b = r->Ok_0;
            &&& b.barcode_type == BarcodeType::EAN13
            &&& b.data@ == digit_chars(ean13_canonical(data@))
            &&& b.modules is Linear
            &&& b.modules->Linear_0@ == ean13_modules(ean13_canonical(data@))
            &&& b.modules->Linear_0@.len() == 95
            &&& b.config == *config
        },
        r is Err ==> r->Err_0 is InvalidData && r->Err_0->InvalidData_0@ == ean13_error(data@),
{
    let digits = match process_ean13_data(data) {
        Ok(d) => d,
        Err(e) => {
            return Err(e);
        },
    };
    let pattern = match generate_ean13_pattern(&digits) {
        Ok(p) => p,
        Err(e) => {
            proof {
                assert(false);
            }
            return Err(e);
        },
    };
    Ok(
        Barcode {
            barcode_type: BarcodeType::EAN13,
            data: format_ean13_data(&digits),
            modules: BarcodeModules::Linear(pattern),
            config: config.clone(),
        },
    )
}

/// Encodes `data` as EAN-13 with the default render configuration.
pub fn generate_ean13(data: &str) -> (r: Result<Barcode, QuickCodesError>)
    ensures
        r is Ok <==> ean13_accepts(data@),
        r is Ok ==> {
            let b = r->Ok_0;
            &&& b.barcode_type == BarcodeType::EAN13
            &&& b.data@ == digit_chars(ean13_canonical(data@))
            &&& b.modules is Linear
            &&& b.modules->Linear_0@ == ean13_modules(ean13_canonical(data@))
            &&& b.modules->Linear_0@.len() == 95
            &&& b.config == default_config()
        },
        r is Err ==> r->Err_0 is InvalidData && r->Err_0->InvalidData_0@ == ean13_error(data@),
{
    generate_ean13_with_config(data, &BarcodeConfig::default())
}

/// Appending the correct check digit to a twelve-digit input changes neither
/// acceptance, nor the canonical digits, nor the module pattern: encoding the
/// twelve digits and encoding the completed thirteen digits agree.
pub proof fn lemma_ean13_check_round_trip(s: Seq<char>)
    requires
        ean13_chars_ok(s),
        digit_vals(strip_seps(s)).len() == 12,
    ensures
        ean13_accepts(s),
        ean13_accepts(s + seq![digit_char(ean13_check(digit_vals(strip_seps(s))))]),
        ean13_canonical(s) == ean13_canonical(
            s + seq![digit_char(ean13_check(digit_vals(strip_seps(s))))],
        ),
        ean13_modules(ean13_canonical(s)) == ean13_modules(
            ean13_canonical(s + seq![digit_char(ean13_check(digit_vals(strip_seps(s))))]),
        ),
{
    let ds = digit_vals(strip_seps(s));
    let c = ean13_check(ds);
    let ch = digit_char(c);
    let s2 = s + seq![ch];
    assert(0 <= c < 10);
    assert(!is_sep(ch) && is_digit_char(ch));
    assert(s2.drop_last() =~= s);
    assert(s2.last() == ch);
    assert(strip_seps(s2) =~= strip_seps(s).push(ch));
    assert(digit_vals(strip_seps(s2)) =~= ds.push(digit_val(ch)));
    assert(digit_val(ch) as int == c);
    let ds2 = digit_vals(strip_seps(s2));
    assert(ds2.take(12) =~= ds);
    assert(forall|i: int| 0 <= i < s2.len() ==> is_sep(#[trigger] s2[i]) || is_digit_char(s2[i]));
    assert(ean13_accepts(s2));
    assert(ean13_canonical(s2) =~= ds.push(c as u8));
    assert(ean13_canonical(s) =~= ds.push(c as u8));
}

/// A thirteen-digit input whose last digit is not the check digit of its first
/// twelve is rejected, never silently corrected.
pub proof fn lemma_ean13_rejects_wrong_check(s: Seq<char>)
    requires
        digit_vals(strip_seps(s)).len() == 13,
        digit_vals(strip_seps(s))[12] as int != ean13_check(digit_vals(strip_seps(s)).take(12)),
    ensures
        !ean13_accepts(s),
{
}

} // verus!
