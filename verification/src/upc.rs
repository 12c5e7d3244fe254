//! UPC-A: validation, check digit, and the 95-module bar pattern.
//! UPC-A shares the digit pattern tables and guards of EAN-13.

use vstd::prelude::*;
use crate::types::Barcode;
use crate::types::BarcodeConfig;
use crate::types::BarcodeModules;
use crate::types::BarcodeType;
use crate::types::QuickCodesError;
use crate::types::default_config;
use crate::util::all_digits;
use crate::util::digit_char;
use crate::util::digit_chars;
use crate::util::digit_val;
use crate::util::digit_vals;
use crate::util::digits_to_string;
use crate::util::is_digit_char;
use crate::util::is_sep;
use crate::util::pattern_seq;
use crate::util::push_digit;
use crate::util::strip_seps;
use crate::util::append_pattern;
use crate::checksum::mod10_check;
use crate::checksum::mod10_check_u32;
use crate::checksum::weighted_sum;
use crate::checksum::weighted_sum_u32;
use crate::ean13::center_seq;
use crate::ean13::guard_seq;
use crate::ean13::left_l;
use crate::ean13::left_l_code;
use crate::ean13::right;
use crate::ean13::right_code;

verus! {

/// The UPC-A weighted sum: weight three at even indices, one at odd indices.
pub open spec fn upc_a_check(ds: Seq<u8>) -> int {
    mod10_check(weighted_sum(ds, 3, 1))
}

/// Computes the check digit completing eleven data digits.
pub fn calculate_upc_a_check_digit(digits: &[u8]) -> (r: u8)
    requires
        all_digits(digits@),
        digits@.len() == 11,
    ensures
        r as int == upc_a_check(digits@),
        r < 10,
{
    let sum = weighted_sum_u32(digits, 3, 1);
    mod10_check_u32(sum)
}

/// The concatenated patterns of the first `n` left-half digits of `ds`
/// (digits zero through five; UPC-A always uses the L table).
pub open spec fn upc_a_left_seq(ds: Seq<u8>, n: int) -> Seq<bool>
    decreases n,
{
    if n <= 0 {
        Seq::empty()
    } else {
        upc_a_left_seq(ds, n - 1) + pattern_seq(left_l_code(ds[n - 1]), 7)
    }
}

/// The concatenated patterns of the first `n` right-half digits of `ds`
/// (digits six through eleven).
pub open spec fn upc_a_right_seq(ds: Seq<u8>, n: int) -> Seq<bool>
    decreases n,
{
    if n <= 0 {
        Seq::empty()
    } else {
        upc_a_right_seq(ds, n - 1) + pattern_seq(right_code(ds[n + 5]), 7)
    }
}

pub proof fn lemma_upc_a_left_len(ds: Seq<u8>, n: int)
    requires
        0 <= n,
    ensures
        upc_a_left_seq(ds, n).len() == 7 * n,
    decreases n,
{
    if n > 0 {
        lemma_upc_a_left_len(ds, n - 1);
    }
}

pub proof fn lemma_upc_a_right_len(ds: Seq<u8>, n: int)
    requires
        0 <= n,
    ensures
        upc_a_right_seq(ds, n).len() == 7 * n,
    decreases n,
{
    if n > 0 {
        lemma_upc_a_right_len(ds, n - 1);
    }
}

/// The full 95-module pattern of a twelve-digit code.
pub open spec fn upc_a_modules(ds: Seq<u8>) -> Seq<bool> {
    guard_seq() + upc_a_left_seq(ds, 6) + center_seq() + upc_a_right_seq(ds, 6) + guard_seq()
}

/// A UPC-A pattern always has 95 modules.
pub proof fn lemma_upc_a_modules_len(ds: Seq<u8>)
    ensures
        upc_a_modules(ds).len() == 95,
{
    lemma_upc_a_left_len(ds, 6);
    lemma_upc_a_right_len(ds, 6);
}

/// Builds the bar pattern of a twelve-digit code.
pub fn generate_upc_a_pattern(digits: &Vec<u8>) -> (r: Result<Vec<bool>, QuickCodesError>)
    requires
        all_digits(digits@),
    ensures
        digits@.len() == 12 ==> r is Ok && r->Ok_0@ == upc_a_modules(digits@)
            && r->Ok_0@.len() == 95,
        digits@.len() != 12 ==> r is Err && r->Err_0 is GenerationError
            && r->Err_0->GenerationError_0@ == "UPC-A requires exactly 12 digits"@,
{
    if digits.len() != 12 {
        return Err(
            QuickCodesError::GenerationError(String::from_str("UPC-A requires exactly 12 digits")),
        );
    }
    let mut v: Vec<bool> = Vec::new();
    append_pattern(&mut v, 0b101, 3);
    proof {
        assert(v@ =~= guard_seq() + upc_a_left_seq(digits@, 0));
    }
    let mut j: usize = 0;
    while j < 6
        invariant
            j <= 6,
            digits@.len() == 12,
            all_digits(digits@),
            v@ == guard_seq() + upc_a_left_seq(digits@, j as int),
        decreases 6 - j,
    {
        let code: u16 = left_l(digits[j]);
        append_pattern(&mut v, code, 7);
        j = j + 1;
        proof {
            assert(v@ =~= guard_seq() + upc_a_left_seq(digits@, j as int));
        }
    }
    append_pattern(&mut v, 0b01010, 5);
    proof {
        assert(v@ =~= guard_seq() + upc_a_left_seq(digits@, 6) + center_seq() + upc_a_right_seq(
            digits@,
            0,
        ));
    }
    let mut k: usize = 0;
    while k < 6
        invariant
            k <= 6,
            digits@.len() == 12,
            all_digits(digits@),
            v@ == guard_seq() + upc_a_left_seq(digits@, 6) + center_seq() + upc_a_right_seq(
                digits@,
                k as int,
            ),
        decreases 6 - k,
    {
        let code: u16 = right(digits[k + 6]);
        append_pattern(&mut v, code, 7);
        k = k + 1;
        proof {
            assert(v@ =~= guard_seq() + upc_a_left_seq(digits@, 6) + center_seq()
                + upc_a_right_seq(digits@, k as int));
        }
    }
    append_pattern(&mut v, 0b101, 3);
    proof {
        assert(v@ =~= upc_a_modules(digits@));
        lemma_upc_a_modules_len(digits@);
    }
    Ok(v)
}

/// Every character is a digit, a space, or a hyphen.
pub open spec fn upc_a_chars_ok(s: Seq<char>) -> bool {
    forall|i: int| 0 <= i < s.len() ==> is_sep(#[trigger] s[i]) || is_digit_char(s[i])
}

/// Whether `s` is accepted: only digits and separators, and after stripping
/// either eleven digits or twelve whose last digit is the correct check digit.
pub open spec fn upc_a_accepts(s: Seq<char>) -> bool {
    &&& upc_a_chars_ok(s)
    &&& {
        let ds = digit_vals(strip_seps(s));
        ||| ds.len() == 11
        ||| (ds.len() == 12 && ds[11] as int == upc_a_check(ds.take(11)))
    }
}

/// The canonical twelve digits of an accepted input.
pub open spec fn upc_a_canonical(s: Seq<char>) -> Seq<u8> {
    let ds = digit_vals(strip_seps(s));
    if ds.len() == 11 {
        ds.push(upc_a_check(ds) as u8)
    } else {
        ds
    }
}

/// The reason reported for a rejected input.
pub open spec fn upc_a_error(s: Seq<char>) -> Seq<char> {
    if !upc_a_chars_ok(s) {
        "UPC-A data must contain only digits"@
    } else {
        let ds = digit_vals(strip_seps(s));
        if ds.len() != 11 && ds.len() != 12 {
            "UPC-A data must be 11 or 12 digits long"@
        } else {
            "Invalid UPC-A check digit. Expected "@ + seq![digit_char(upc_a_check(ds.take(11)))]
                + ", got "@ + seq![digit_char(ds[11] as int)]
        }
    }
}

/// Validates the input and produces the canonical twelve digits.
pub fn process_upc_a_data(data: &str) -> (r: Result<Vec<u8>, QuickCodesError>)
    ensures
        r is Ok <==> upc_a_accepts(data@),
        r is Ok ==> r->Ok_0@ == upc_a_canonical(data@) && all_digits(r->Ok_0@)
            && r->Ok_0@.len() == 12,
        r is Err ==> r->Err_0 is InvalidData && r->Err_0->InvalidData_0@ == upc_a_error(data@),
{
    let ghost s = data@;
    let n: usize = data.unicode_len();
    let mut digits: Vec<u8> = Vec::new();
    let mut i: usize = 0;
    while i < n
        invariant
            i <= n,
            n == s.len(),
            s == data@,
            digits@ == digit_vals(strip_seps(s.take(i as int))),
            all_digits(digits@),
            forall|j: int| 0 <= j < i as int ==> is_sep(#[trigger] s[j]) || is_digit_char(s[j]),
        decreases n - i,
    {
        let c: char = data.get_char(i);
        let cv: u32 = c as u32;
        proof {
            let t = s.take(i as int + 1);
            assert(t.drop_last() =~= s.take(i as int));
            assert(t.last() == s[i as int]);
        }
        if c == ' ' || c == '-' {
        } else if 48 <= cv && cv <= 57 {
            digits.push((cv - 48) as u8);
            proof {
                assert(digits@ =~= digit_vals(strip_seps(s.take(i as int + 1))));
            }
        } else {
            proof {
                assert(!is_sep(s[i as int]) && !is_digit_char(s[i as int]));
                assert(!upc_a_chars_ok(s));
            }
            return Err(
                QuickCodesError::InvalidData(
                    String::from_str("UPC-A data must contain only digits"),
                ),
            );
        }
        i = i + 1;
    }
    proof {
        assert(s.take(n as int) =~= s);
        assert(upc_a_chars_ok(s));
    }
    if digits.len() == 11 {
        let check: u8 = calculate_upc_a_check_digit(digits.as_slice());
        digits.push(check);
        proof {
            assert(digits@ =~= upc_a_canonical(s));
        }
        Ok(digits)
    } else if digits.len() == 12 {
        let head = vstd::slice::slice_subrange(digits.as_slice(), 0, 11);
        proof {
            assert(head@ =~= digit_vals(strip_seps(s)).take(11));
        }
        let check: u8 = calculate_upc_a_check_digit(head);
        if digits[11] == check {
            Ok(digits)
        } else {
            let mut m = String::from_str("Invalid UPC-A check digit. Expected ");
            push_digit(&mut m, check);
            m.append(", got ");
            push_digit(&mut m, digits[11]);
            proof {
                assert(m@ =~= upc_a_error(s));
            }
            Err(QuickCodesError::InvalidData(m))
        }
    } else {
        Err(
            QuickCodesError::InvalidData(
                String::from_str("UPC-A data must be 11 or 12 digits long"),
            ),
        )
    }
}

/// Renders canonical digits for display.
pub fn format_upc_a_data(digits: &Vec<u8>) -> (r: String)
    requires
        all_digits(digits@),
    ensures
        r@ == digit_chars(digits@),
{
    digits_to_string(digits)
}

/// Encodes `data` as UPC-A with the given render configuration.
pub fn generate_upc_a_with_config(data: &str, config: &BarcodeConfig) -> (r: Result<
    Barcode,
    QuickCodesError,
>)
    ensures
        r is Ok <==> upc_a_accepts(data@),
        r is Ok ==> {
            let b = r->Ok_0;
            &&& b.barcode_type == BarcodeType::UPCA
            &&& b.data@ == digit_chars(upc_a_canonical(data@))
            &&& b.modules is Linear
            &&& b.modules->Linear_0@ == upc_a_modules(upc_a_canonical(data@))
            &&& b.modules->Linear_0@.len() == 95
            &&& b.config == *config
        },
        r is Err ==> r->Err_0 is InvalidData && r->Err_0->InvalidData_0@ == upc_a_error(data@),
{
    let digits = match process_upc_a_data(data) {
        Ok(d) => d,
        Err(e) => {
            return Err(e);
        },
    };
    let pattern = match generate_upc_a_pattern(&digits) {
        Ok(p) => p,
        Err(e) => {
            proof {
                assert(false);
            }
            return Err(e);
        },
    };
    Ok(
        Barcode {
            barcode_type: BarcodeType::UPCA,
            data: format_upc_a_data(&digits),
            modules: BarcodeModules::Linear(pattern),
            config: config.clone(),
        },
    )
}

/// Encodes `data` as UPC-A with the default render configuration.
pub fn generate_upc_a(data: &str) -> (r: Result<Barcode, QuickCodesError>)
    ensures
        r is Ok <==> upc_a_accepts(data@),
        r is Ok ==> {
            let b = r->Ok_0;
            &&& b.barcode_type == BarcodeType::UPCA
            &&& b.data@ == digit_chars(upc_a_canonical(data@))
            &&& b.modules is Linear
            &&& b.modules->Linear_0@ == upc_a_modules(upc_a_canonical(data@))
            &&& b.modules->Linear_0@.len() == 95
            &&& b.config == default_config()
        },
        r is Err ==> r->Err_0 is InvalidData && r->Err_0->InvalidData_0@ == upc_a_error(data@),
{
    generate_upc_a_with_config(data, &BarcodeConfig::default())
}

/// Appending the correct check digit to an eleven-digit input changes neither
/// acceptance, nor the canonical digits, nor the module pattern.
pub proof fn lemma_upc_a_check_round_trip(s: Seq<char>)
    requires
        upc_a_chars_ok(s),
        digit_vals(strip_seps(s)).len() == 11,
    ensures
        upc_a_accepts(s),
        upc_a_accepts(s + seq![digit_char(upc_a_check(digit_vals(strip_seps(s))))]),
        upc_a_canonical(s) == upc_a_canonical(
            s + seq![digit_char(upc_a_check(digit_vals(strip_seps(s))))],
        ),
        upc_a_modules(upc_a_canonical(s)) == upc_a_modules(
            upc_a_canonical(s + seq![digit_char(upc_a_check(digit_vals(strip_seps(s))))]),
        ),
{
    let ds = digit_vals(strip_seps(s));
    let c = upc_a_check(ds);
    let ch = digit_char(c);
    let s2 = s + seq![ch];
    assert(0 <= c < 10);
    assert(!is_sep(ch) && is_digit_char(ch));
    assert(s2.drop_last() =~= s);
    assert(s2.last() == ch);
    assert(strip_seps(s2) =~= strip_seps(s).push(ch));
    assert(digit_vals(strip_seps(s2)) =~= ds.push(digit_val(ch)));
    assert(digit_val(ch) as int == c);
    let ds2 = digit_vals(strip_seps(s2));
    assert(ds2.take(11) =~= ds);
    assert(forall|i: int| 0 <= i < s2.len() ==> is_sep(#[trigger] s2[i]) || is_digit_char(s2[i]));
    assert(upc_a_accepts(s2));
    assert(upc_a_canonical(s2) =~= ds.push(c as u8));
    assert(upc_a_canonical(s) =~= ds.push(c as u8));
}

/// A twelve-digit input whose last digit is not the check digit of its first
/// eleven is rejected, never silently corrected.
pub proof fn lemma_upc_a_rejects_wrong_check(s: Seq<char>)
    requires
        digit_vals(strip_seps(s)).len() == 12,
        digit_vals(strip_seps(s))[11] as int != upc_a_check(digit_vals(strip_seps(s)).take(11)),
    ensures
        !upc_a_accepts(s),
{
}

} // verus!
