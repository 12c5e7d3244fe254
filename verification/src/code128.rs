//! Code128: code set selection, the mod-103 symbol checksum, and the
//! 11-module symbol patterns with the 13-module stop pattern.
//!
//! Input may be any ASCII, which code sets A and B cover together; the FNC4
//! extension that would reach Latin-1 beyond ASCII is not offered, so other
//! characters are rejected. Code set C packs two digits per symbol: the
//! encoding starts in C for data opening with four or more digits (or made
//! of exactly two), switches into C for runs of six digits or of four that
//! reach the end, and otherwise moves between sets A and B only when the
//! next character demands it. This is the standard's recommended selection;
//! a symbol stream of provably minimal length is not attempted.

use vstd::prelude::*;
use crate::types::Barcode;
use crate::types::BarcodeConfig;
use crate::types::BarcodeModules;
use crate::types::BarcodeType;
use crate::types::QuickCodesError;
use crate::types::default_config;
use crate::util::digit_val;
use crate::util::is_digit_char;
use crate::util::pattern_seq;
use crate::util::append_pattern;
use vstd::arithmetic::div_mod::lemma_add_mod_noop;
use vstd::arithmetic::div_mod::lemma_mul_mod_noop_right;

verus! {

/// The module pattern of a Code128 symbol value; values 0 to 105 are eleven
/// modules wide, the stop symbol 106 is thirteen.
pub open spec fn c128_pattern(v: int) -> u16 {
    if v == 0 {
        0b11011001100
    } else if v == 1 {
        0b11001101100
    } else if v == 2 {
        0b11001100110
    } else if v == 3 {
        0b10010011000
    } else if v == 4 {
        0b10010001100
    } else if v == 5 {
        0b10001001100
    } else if v == 6 {
        0b10011001000
    } else if v == 7 {
        0b10011000100
    } else if v == 8 {
        0b10001100100
    } else if v == 9 {
        0b11001001000
    } else if v == 10 {
        0b11001000100
    } else if v == 11 {
        0b11000100100
    } else if v == 12 {
        0b10110011100
    } else if v == 13 {
        0b10011011100
    } else if v == 14 {
        0b10011001110
    } else if v == 15 {
        0b10111001100
    } else if v == 16 {
        0b10011101100
    } else if v == 17 {
        0b10011100110
    } else if v == 18 {
        0b11001110010
    } else if v == 19 {
        0b11001011100
    } else if v == 20 {
        0b11001001110
    } else if v == 21 {
        0b11011100100
    } else if v == 22 {
        0b11001110100
    } else if v == 23 {
        0b11101101110
    } else if v == 24 {
        0b11101001100
    } else if v == 25 {
        0b11100101100
    } else if v == 26 {
        0b11100100110
    } else if v == 27 {
        0b11101100100
    } else if v == 28 {
        0b11100110100
    } else if v == 29 {
        0b11100110010
    } else if v == 30 {
        0b11011011000
    } else if v == 31 {
        0b11011000110
    } else if v == 32 {
        0b11000110110
    } else if v == 33 {
        0b10100011000
    } else if v == 34 {
        0b10001011000
    } else if v == 35 {
        0b10001000110
    } else if v == 36 {
        0b10110001000
    } else if v == 37 {
        0b10001101000
    } else if v == 38 {
        0b10001100010
    } else if v == 39 {
        0b11010001000
    } else if v == 40 {
        0b11000101000
    } else if v == 41 {
        0b11000100010
    } else if v == 42 {
        0b10110111000
    } else if v == 43 {
        0b10110001110
    } else if v == 44 {
        0b10001101110
    } else if v == 45 {
        0b10111011000
    } else if v == 46 {
        0b10111000110
    } else if v == 47 {
        0b10001110110
    } else if v == 48 {
        0b11101110110
    } else if v == 49 {
        0b11010001110
    } else if v == 50 {
        0b11000101110
    } else if v == 51 {
        0b11011101000
    } else if v == 52 {
        0b11011100010
    } else if v == 53 {
        0b11011101110
    } else if v == 54 {
        0b11101011000
    } else if v == 55 {
        0b11101000110
    } else if v == 56 {
        0b11100010110
    } else if v == 57 {
        0b11101101000
    } else if v == 58 {
        0b11101100010
    } else if v == 59 {
        0b11100011010
    } else if v == 60 {
        0b11101111010
    } else if v == 61 {
        0b11001000010
    } else if v == 62 {
        0b11110001010
    } else if v == 63 {
        0b10100110000
    } else if v == 64 {
        0b10100001100
    } else if v == 65 {
        0b10010110000
    } else if v == 66 {
        0b10010000110
    } else if v == 67 {
        0b10000101100
    } else if v == 68 {
        0b10000100110
    } else if v == 69 {
        0b10110010000
    } else if v == 70 {
        0b10110000100
    } else if v == 71 {
        0b10011010000
    } else if v == 72 {
        0b10011000010
    } else if v == 73 {
        0b10000110100
    } else if v == 74 {
        0b10000110010
    } else if v == 75 {
        0b11000010010
    } else if v == 76 {
        0b11001010000
    } else if v == 77 {
        0b11110111010
    } else if v == 78 {
        0b11000010100
    } else if v == 79 {
        0b10001111010
    } else if v == 80 {
        0b10100111100
    } else if v == 81 {
        0b10010111100
    } else if v == 82 {
        0b10010011110
    } else if v == 83 {
        0b10111100100
    } else if v == 84 {
        0b10011110100
    } else if v == 85 {
        0b10011110010
    } else if v == 86 {
        0b11110100100
    } else if v == 87 {
        0b11110010100
    } else if v == 88 {
        0b11110010010
    } else if v == 89 {
        0b11011011110
    } else if v == 90 {
        0b11011110110
    } else if v == 91 {
        0b11110110110
    } else if v == 92 {
        0b10101111000
    } else if v == 93 {
        0b10100011110
    } else if v == 94 {
        0b10001011110
    } else if v == 95 {
        0b10111101000
    } else if v == 96 {
        0b10111100010
    } else if v == 97 {
        0b11110101000
    } else if v == 98 {
        0b11110100010
    } else if v == 99 {
        0b10111011110
    } else if v == 100 {
        0b10111101110
    } else if v == 101 {
        0b11101011110
    } else if v == 102 {
        0b11110101110
    } else if v == 103 {
        0b11010000100
    } else if v == 104 {
        0b11010010000
    } else if v == 105 {
        0b11010011100
    } else if v == 106 {
        0b1100011101011
    } else {
        0
    }
}

fn c128_pattern_of(v: u8) -> (r: u16)
    requires
        v <= 106,
    ensures
        r == c128_pattern(v as int),
{
    match v {
        0 => 0b11011001100,
        1 => 0b11001101100,
        2 => 0b11001100110,
        3 => 0b10010011000,
        4 => 0b10010001100,
        5 => 0b10001001100,
        6 => 0b10011001000,
        7 => 0b10011000100,
        8 => 0b10001100100,
        9 => 0b11001001000,
        10 => 0b11001000100,
        11 => 0b11000100100,
        12 => 0b10110011100,
        13 => 0b10011011100,
        14 => 0b10011001110,
        15 => 0b10111001100,
        16 => 0b10011101100,
        17 => 0b10011100110,
        18 => 0b11001110010,
        19 => 0b11001011100,
        20 => 0b11001001110,
        21 => 0b11011100100,
        22 => 0b11001110100,
        23 => 0b11101101110,
        24 => 0b11101001100,
        25 => 0b11100101100,
        26 => 0b11100100110,
        27 => 0b11101100100,
        28 => 0b11100110100,
        29 => 0b11100110010,
        30 => 0b11011011000,
        31 => 0b11011000110,
        32 => 0b11000110110,
        33 => 0b10100011000,
        34 => 0b10001011000,
        35 => 0b10001000110,
        36 => 0b10110001000,
        37 => 0b10001101000,
        38 => 0b10001100010,
        39 => 0b11010001000,
        40 => 0b11000101000,
        41 => 0b11000100010,
        42 => 0b10110111000,
        43 => 0b10110001110,
        44 => 0b10001101110,
        45 => 0b10111011000,
        46 => 0b10111000110,
        47 => 0b10001110110,
        48 => 0b11101110110,
        49 => 0b11010001110,
        50 => 0b11000101110,
        51 => 0b11011101000,
        52 => 0b11011100010,
        53 => 0b11011101110,
        54 => 0b11101011000,
        55 => 0b11101000110,
        56 => 0b11100010110,
        57 => 0b11101101000,
        58 => 0b11101100010,
        59 => 0b11100011010,
        60 => 0b11101111010,
        61 => 0b11001000010,
        62 => 0b11110001010,
        63 => 0b10100110000,
        64 => 0b10100001100,
        65 => 0b10010110000,
        66 => 0b10010000110,
        67 => 0b10000101100,
        68 => 0b10000100110,
        69 => 0b10110010000,
        70 => 0b10110000100,
        71 => 0b10011010000,
        72 => 0b10011000010,
        73 => 0b10000110100,
        74 => 0b10000110010,
        75 => 0b11000010010,
        76 => 0b11001010000,
        77 => 0b11110111010,
        78 => 0b11000010100,
        79 => 0b10001111010,
        80 => 0b10100111100,
        81 => 0b10010111100,
        82 => 0b10010011110,
        83 => 0b10111100100,
        84 => 0b10011110100,
        85 => 0b10011110010,
        86 => 0b11110100100,
        87 => 0b11110010100,
        88 => 0b11110010010,
        89 => 0b11011011110,
        90 => 0b11011110110,
        91 => 0b11110110110,
        92 => 0b10101111000,
        93 => 0b10100011110,
        94 => 0b10001011110,
        95 => 0b10111101000,
        96 => 0b10111100010,
        97 => 0b11110101000,
        98 => 0b11110100010,
        99 => 0b10111011110,
        100 => 0b10111101110,
        101 => 0b11101011110,
        102 => 0b11110101110,
        103 => 0b11010000100,
        104 => 0b11010010000,
        105 => 0b11010011100,
        106 => 0b1100011101011,
        _ => 0,
    }
}

/// The start symbol for code set A.
pub open spec fn c128_start_a() -> int {
    103
}

/// The start symbol for code set B.
pub open spec fn c128_start_b() -> int {
    104
}

/// The start symbol for code set C.
pub open spec fn c128_start_c() -> int {
    105
}

/// The symbol switching to code set B while in code set A.
pub open spec fn c128_code_b() -> int {
    100
}

/// The symbol switching to code set A while in code set B.
pub open spec fn c128_code_a() -> int {
    101
}

/// Whether a character lies in code set A's range: the control characters
/// and ASCII 32 to 95.
pub open spec fn c128_a_covers(c: char) -> bool {
    (c as int) <= 95
}

/// Whether a character lies in code set B's range: ASCII 32 to 127.
pub open spec fn c128_b_covers(c: char) -> bool {
    32 <= (c as int) <= 127
}

/// A character's symbol value in code set A.
pub open spec fn c128_sym_a(c: char) -> u8 {
    if (c as int) < 32 {
        ((c as int) + 64) as u8
    } else {
        ((c as int) - 32) as u8
    }
}

/// A character's symbol value in code set B.
pub open spec fn c128_sym_b(c: char) -> u8 {
    ((c as int) - 32) as u8
}

/// The symbol switching to code set C while in code set A or B.
pub open spec fn c128_code_c() -> int {
    99
}

/// The number of consecutive digits starting at position `i`.
pub open spec fn digit_run(s: Seq<char>, i: int) -> int
    decreases s.len() - i,
{
    if i < 0 || i >= s.len() || !is_digit_char(s[i]) {
        0
    } else {
        1 + digit_run(s, i + 1)
    }
}

/// The code set C symbol of the digit pair at position `i`.
pub open spec fn c128_pair(s: Seq<char>, i: int) -> u8 {
    (10 * digit_val(s[i]) + digit_val(s[i + 1])) as u8
}

/// Whether code set C is entered at position `i`: a run of six digits, or a
/// run of four that reaches the end of the data.
pub open spec fn c128_enter_c(s: Seq<char>, i: int) -> bool {
    digit_run(s, i) >= 6 || (digit_run(s, i) >= 4 && i + digit_run(s, i) == s.len())
}

/// The code set the encoding starts in: C for data opening with four or more
/// digits or made of exactly two, A for a leading control character, else B
/// (0 is A, 1 is B, 2 is C).
pub open spec fn c128_start_set(s: Seq<char>) -> int {
    if digit_run(s, 0) >= 4 || (s.len() == 2 && digit_run(s, 0) == 2) {
        2
    } else if s.len() > 0 && (s[0] as int) < 32 {
        0
    } else {
        1
    }
}

/// The symbol values encoding `s` from position `i` on, given the active
/// code set (0 A, 1 B, 2 C): digit pairs in C, one character per symbol in
/// A and B, each CODE switch emitted together with what demanded it.
pub open spec fn c128_body(s: Seq<char>, i: int, set: int) -> Seq<u8>
    decreases s.len() - i,
    via c128_body_decreases
{
    if i < 0 || i >= s.len() {
        Seq::empty()
    } else if set == 2 {
        if digit_run(s, i) >= 2 {
            seq![c128_pair(s, i)] + c128_body(s, i + 2, 2)
        } else if (s[i] as int) < 32 {
            seq![c128_code_a() as u8, c128_sym_a(s[i])] + c128_body(s, i + 1, 0)
        } else {
            seq![c128_code_b() as u8, c128_sym_b(s[i])] + c128_body(s, i + 1, 1)
        }
    } else if c128_enter_c(s, i) {
        seq![c128_code_c() as u8, c128_pair(s, i)] + c128_body(s, i + 2, 2)
    } else if set == 0 {
        if !c128_a_covers(s[i]) {
            seq![c128_code_b() as u8, c128_sym_b(s[i])] + c128_body(s, i + 1, 1)
        } else {
            seq![c128_sym_a(s[i])] + c128_body(s, i + 1, 0)
        }
    } else {
        if (s[i] as int) < 32 {
            seq![c128_code_a() as u8, c128_sym_a(s[i])] + c128_body(s, i + 1, 0)
        } else {
            seq![c128_sym_b(s[i])] + c128_body(s, i + 1, 1)
        }
    }
}

#[via_fn]
proof fn c128_body_decreases(s: Seq<char>, i: int, set: int) {
    if 0 <= i < s.len() && digit_run(s, i) >= 2 {
        assert(digit_run(s, i) == 1 + digit_run(s, i + 1));
        assert(i + 1 < s.len());
    }
}

/// The symbol values encoding `s`, exclusive of start, checksum and stop.
pub open spec fn c128_symbols(s: Seq<char>) -> Seq<u8> {
    c128_body(s, 0, c128_start_set(s))
}

/// The start symbol chosen for `s`.
pub open spec fn c128_start(s: Seq<char>) -> int {
    if c128_start_set(s) == 2 {
        c128_start_c()
    } else if c128_start_set(s) == 0 {
        c128_start_a()
    } else {
        c128_start_b()
    }
}

/// The weighted symbol sum of the first `n` symbols, weights starting at one.
pub open spec fn c128_weighted(syms: Seq<u8>, n: int) -> int
    decreases n,
{
    if n <= 0 {
        0
    } else {
        c128_weighted(syms, n - 1) + (syms[n - 1] as int) * n
    }
}

/// The mod-103 check symbol of `s`.
pub open spec fn c128_check(s: Seq<char>) -> int {
    (c128_start(s) + c128_weighted(c128_symbols(s), c128_symbols(s).len() as int)) % 103
}

/// The concatenated patterns of the first `n` symbols.
pub open spec fn c128_symbol_modules(syms: Seq<u8>, n: int) -> Seq<bool>
    decreases n,
{
    if n <= 0 {
        Seq::empty()
    } else {
        c128_symbol_modules(syms, n - 1) + pattern_seq(c128_pattern(syms[n - 1] as int), 11)
    }
}

/// The full pattern: start symbol, data symbols, check symbol, stop pattern.
pub open spec fn code128_modules(s: Seq<char>) -> Seq<bool> {
    let syms = c128_symbols(s);
    pattern_seq(c128_pattern(c128_start(s)), 11) + c128_symbol_modules(syms, syms.len() as int)
        + pattern_seq(c128_pattern(c128_check(s)), 11) + pattern_seq(c128_pattern(106), 13)
}

/// Whether `s` is accepted: nonempty and within the ASCII range that code
/// sets A and B cover together.
pub open spec fn code128_accepts(s: Seq<char>) -> bool {
    s.len() > 0 && forall|i: int| 0 <= i < s.len() ==> (#[trigger] s[i] as int) <= 127
}

/// The reason reported for a rejected input.
pub open spec fn code128_error(s: Seq<char>) -> Seq<char> {
    if s.len() == 0 {
        "Code128 data cannot be empty"@
    } else {
        "Code128 data must use ASCII characters"@
    }
}

/// Computes the mod-103 check symbol of the symbols in `syms` with the given
/// start value.
fn c128_checksum(syms: &Vec<u8>, start: u8) -> (r: u8)
    requires
        forall|i: int| 0 <= i < syms@.len() ==> #[trigger] syms@[i] <= 102,
        start <= 105,
    ensures
        r as int == (start + c128_weighted(syms@, syms@.len() as int)) % 103,
        r < 103,
{
    let mut sum: u32 = (start as u32) % 103;
    let mut wm: u32 = 1;
    let mut i: usize = 0;
    proof {
        lemma_add_mod_noop(start as int, c128_weighted(syms@, 0), 103);
    }
    while i < syms.len()
        invariant
            i <= syms@.len(),
            forall|j: int| 0 <= j < syms@.len() ==> #[trigger] syms@[j] <= 102,
            start <= 105,
            sum < 103,
            wm < 103,
            wm as int == (i + 1) % 103,
            sum as int == (start + c128_weighted(syms@, i as int)) % 103,
        decreases syms@.len() - i,
    {
        let v: u8 = syms[i];
        proof {
            assert(syms@[i as int] <= 102);
            assert(0 <= (v as int) * (wm as int) <= 10404) by (nonlinear_arith)
                requires
                    0 <= (v as int) <= 102,
                    0 <= (wm as int) < 103,
            ;
        }
        let t: u32 = (sum + ((v as u32) * wm) % 103) % 103;
        proof {
            let w_true = i as int + 1;
            let prev = start + c128_weighted(syms@, i as int);
            lemma_mul_mod_noop_right(v as int, w_true, 103);
            assert(((v as int) * wm) % 103 == ((v as int) * w_true) % 103);
            lemma_add_mod_noop(prev, (v as int) * w_true, 103);
            assert((prev % 103 + ((v as int) * w_true) % 103) % 103 == (prev + (v as int) * w_true)
                % 103);
        }
        sum = t;
        let w2: u32 = (wm + 1) % 103;
        proof {
            lemma_add_mod_noop(i as int + 1, 1, 103);
        }
        wm = w2;
        i = i + 1;
    }
    (sum % 103) as u8
}


/// The run of digits starting at `i` and ending at the first non-digit is
/// exactly what `digit_run` counts.
proof fn lemma_digit_run_prefix(s: Seq<char>, i: int, j: int)
    requires
        0 <= i <= j <= s.len(),
        forall|m: int| i <= m < j ==> is_digit_char(#[trigger] s[m]),
        j == s.len() || !is_digit_char(s[j]),
    ensures
        digit_run(s, i) == j - i,
    decreases j - i,
{
    if i < j {
        assert(is_digit_char(s[i]));
        lemma_digit_run_prefix(s, i + 1, j);
    }
}

/// Counts the consecutive digits starting at position `i`.
fn digit_run_at(chars: &Vec<char>, i: usize) -> (r: usize)
    requires
        i <= chars@.len(),
        forall|j: int| 0 <= j < chars@.len() ==> 0 <= (#[trigger] chars@[j] as int) <= 127,
    ensures
        r as int == digit_run(chars@, i as int),
        i + r <= chars@.len(),
{
    let ghost s = chars@;
    let mut j: usize = i;
    while j < chars.len()
        invariant
            i <= j <= s.len(),
            s == chars@,
            forall|t: int| 0 <= t < s.len() ==> 0 <= (#[trigger] s[t] as int) <= 127,
            forall|m: int| i as int <= m < j as int ==> is_digit_char(#[trigger] s[m]),
        decreases s.len() - j,
    {
        let c: char = chars[j];
        proof {
            assert(0 <= (s[j as int] as int) <= 127);
        }
        let cv: u32 = c as u32;
        if !(48 <= cv && cv <= 57) {
            proof {
                assert(!is_digit_char(s[j as int]));
                lemma_digit_run_prefix(s, i as int, j as int);
            }
            return j - i;
        }
        j = j + 1;
    }
    proof {
        lemma_digit_run_prefix(s, i as int, j as int);
    }
    j - i
}

/// Builds the symbol stream: digit pairs in code set C, one symbol per
/// character in sets A and B, switching only where the next characters
/// demand it.
#[verifier::loop_isolation(false)]
#[verifier::rlimit(80)]
fn build_symbols(chars: &Vec<char>) -> (syms: Vec<u8>)
    requires
        chars@.len() > 0,
        forall|j: int| 0 <= j < chars@.len() ==> 0 <= (#[trigger] chars@[j] as int) <= 127,
    ensures
        syms@ == c128_symbols(chars@),
        forall|j: int| 0 <= j < syms@.len() ==> #[trigger] syms@[j] <= 102,
{
    let ghost s = chars@;
    let n: usize = chars.len();
    proof {
        assert(0 <= (s[0] as int) <= 127);
    }
    let run0: usize = digit_run_at(chars, 0);
    let mut set: u8 = if run0 >= 4 || (n == 2 && run0 == 2) {
        2
    } else if (chars[0] as u32) < 32 {
        0
    } else {
        1
    };
    let mut syms: Vec<u8> = Vec::new();
    let mut k: usize = 0;
    proof {
        assert(set as int == c128_start_set(s));
        assert(c128_symbols(s) =~= syms@ + c128_body(s, 0, set as int));
    }
    while k < n
        invariant
            k <= n,
            set <= 2,
            forall|j: int| 0 <= j < syms@.len() ==> #[trigger] syms@[j] <= 102,
            c128_symbols(s) == syms@ + c128_body(s, k as int, set as int),
        decreases n - k,
    {
        let run: usize = digit_run_at(chars, k);
        let ghost k0 = k as int;
        let ghost set0 = set as int;
        let ghost prev = syms@;
        let enter: bool = set != 2 && (run >= 6 || (run >= 4 && k + run == n));
        proof {
            assert(set0 != 2 ==> enter == c128_enter_c(s, k0));
        }
        if (set == 2 && run >= 2) || enter {
            proof {
                assert(digit_run(s, k0) >= 2);
                assert(is_digit_char(s[k0]) && digit_run(s, k0 + 1) >= 1);
                assert(is_digit_char(s[k0 + 1]));
            }
            let a: char = chars[k];
            let b: char = chars[k + 1];
            let va: u32 = (a as u32) - 48;
            let vb: u32 = (b as u32) - 48;
            if enter {
                syms.push(99);
            }
            syms.push((10 * va + vb) as u8);
            set = 2;
            proof {
                assert((10 * va + vb) as u8 == c128_pair(s, k0));
                if enter {
                    assert(c128_body(s, k0, set0) == seq![c128_code_c() as u8, c128_pair(s, k0)]
                        + c128_body(s, k0 + 2, 2));
                    assert(syms@ =~= prev + seq![c128_code_c() as u8, c128_pair(s, k0)]);
                    assert(prev + (seq![c128_code_c() as u8, c128_pair(s, k0)] + c128_body(
                        s,
                        k0 + 2,
                        2,
                    )) =~= syms@ + c128_body(s, k0 + 2, 2));
                } else {
                    assert(c128_body(s, k0, 2) == seq![c128_pair(s, k0)] + c128_body(
                        s,
                        k0 + 2,
                        2,
                    ));
                    assert(syms@ =~= prev + seq![c128_pair(s, k0)]);
                    assert(prev + (seq![c128_pair(s, k0)] + c128_body(s, k0 + 2, 2)) =~= syms@
                        + c128_body(s, k0 + 2, 2));
                }
            }
            k = k + 2;
        } else {
            let c: char = chars[k];
            proof {
                assert(s[k0] == c && 0 <= (c as int) <= 127);
            }
            let cv: u32 = c as u32;
            if set == 2 {
                if cv < 32 {
                    syms.push(101);
                    syms.push((cv + 64) as u8);
                    set = 0;
                    proof {
                        assert(c128_body(s, k0, 2) == seq![
                            c128_code_a() as u8,
                            c128_sym_a(c),
                        ] + c128_body(s, k0 + 1, 0));
                        assert(syms@ =~= prev + seq![c128_code_a() as u8, c128_sym_a(c)]);
                        assert(prev + (seq![c128_code_a() as u8, c128_sym_a(c)] + c128_body(
                            s,
                            k0 + 1,
                            0,
                        )) =~= syms@ + c128_body(s, k0 + 1, 0));
                    }
                } else {
                    syms.push(100);
                    syms.push((cv - 32) as u8);
                    set = 1;
                    proof {
                        assert(c128_body(s, k0, 2) == seq![
                            c128_code_b() as u8,
                            c128_sym_b(c),
                        ] + c128_body(s, k0 + 1, 1));
                        assert(syms@ =~= prev + seq![c128_code_b() as u8, c128_sym_b(c)]);
                        assert(prev + (seq![c128_code_b() as u8, c128_sym_b(c)] + c128_body(
                            s,
                            k0 + 1,
                            1,
                        )) =~= syms@ + c128_body(s, k0 + 1, 1));
                    }
                }
            } else if set == 0 {
                if cv > 95 {
                    syms.push(100);
                    syms.push((cv - 32) as u8);
                    set = 1;
                    proof {
                        assert(c128_body(s, k0, 0) == seq![
                            c128_code_b() as u8,
                            c128_sym_b(c),
                        ] + c128_body(s, k0 + 1, 1));
                        assert(syms@ =~= prev + seq![c128_code_b() as u8, c128_sym_b(c)]);
                        assert(prev + (seq![c128_code_b() as u8, c128_sym_b(c)] + c128_body(
                            s,
                            k0 + 1,
                            1,
                        )) =~= syms@ + c128_body(s, k0 + 1, 1));
                    }
                } else {
                    let v: u8 = if cv < 32 {
                        (cv + 64) as u8
                    } else {
                        (cv - 32) as u8
                    };
                    syms.push(v);
                    proof {
                        assert(v == c128_sym_a(c));
                        assert(c128_body(s, k0, 0) == seq![c128_sym_a(c)] + c128_body(
                            s,
                            k0 + 1,
                            0,
                        ));
                        assert(syms@ =~= prev + seq![c128_sym_a(c)]);
                        assert(prev + (seq![c128_sym_a(c)] + c128_body(s, k0 + 1, 0)) =~= syms@
                            + c128_body(s, k0 + 1, 0));
                    }
                }
            } else {
                if cv < 32 {
                    syms.push(101);
                    syms.push((cv + 64) as u8);
                    set = 0;
                    proof {
                        assert(c128_body(s, k0, 1) == seq![
                            c128_code_a() as u8,
                            c128_sym_a(c),
                        ] + c128_body(s, k0 + 1, 0));
                        assert(syms@ =~= prev + seq![c128_code_a() as u8, c128_sym_a(c)]);
                        assert(prev + (seq![c128_code_a() as u8, c128_sym_a(c)] + c128_body(
                            s,
                            k0 + 1,
                            0,
                        )) =~= syms@ + c128_body(s, k0 + 1, 0));
                    }
                } else {
                    syms.push((cv - 32) as u8);
                    proof {
                        assert(c128_body(s, k0, 1) == seq![c128_sym_b(c)] + c128_body(
                            s,
                            k0 + 1,
                            1,
                        ));
                        assert(syms@ =~= prev + seq![c128_sym_b(c)]);
                        assert(prev + (seq![c128_sym_b(c)] + c128_body(s, k0 + 1, 1)) =~= syms@
                            + c128_body(s, k0 + 1, 1));
                    }
                }
            }
            k = k + 1;
        }
    }
    proof {
        assert(c128_body(s, n as int, set as int) =~= Seq::<u8>::empty());
        assert(syms@ =~= c128_symbols(s));
    }
    syms
}

/// Encodes `data` as Code128 with the given render configuration.
#[verifier::rlimit(80)]
pub fn generate_code128_with_config(data: &str, config: &BarcodeConfig) -> (r: Result<
    Barcode,
    QuickCodesError,
>)
    ensures
        r is Ok <==> code128_accepts(data@),
        r is Ok ==> {
            let b = r->Ok_0;
            &&& b.barcode_type == BarcodeType::Code128
            &&& b.data@ == data@
            &&& b.modules is Linear
            &&& b.modules->Linear_0@ == code128_modules(data@)
            &&& b.config == *config
        },
        r is Err ==> r->Err_0 is InvalidData && r->Err_0->InvalidData_0@ == code128_error(data@),
{
    let ghost s = data@;
    let n: usize = data.unicode_len();
    if n == 0 {
        return Err(
            QuickCodesError::InvalidData(String::from_str("Code128 data cannot be empty")),
        );
    }
    let mut chars: Vec<char> = Vec::new();
    let mut i: usize = 0;
    while i < n
        invariant
            i <= n,
            n == s.len(),
            s == data@,
            chars@ == s.take(i as int),
            forall|j: int| 0 <= j < i as int ==> 0 <= (#[trigger] s[j] as int) <= 127,
        decreases n - i,
    {
        let c: char = data.get_char(i);
        let cv: u32 = c as u32;
        if cv > 127 {
            return Err(
                QuickCodesError::InvalidData(
                    String::from_str("Code128 data must use ASCII characters"),
                ),
            );
        }
        chars.push(c);
        i = i + 1;
        proof {
            assert(chars@ =~= s.take(i as int));
        }
    }
    proof {
        assert(s.take(n as int) =~= s);
        assert(code128_accepts(s));
    }
    let syms = build_symbols(&chars);
    proof {
        assert(syms@ == c128_symbols(s));
    }
    let run0: usize = digit_run_at(&chars, 0);
    proof {
        assert(0 <= (s[0] as int) <= 127);
    }
    let start: u8 = if run0 >= 4 || (n == 2 && run0 == 2) {
        105
    } else if (chars[0] as u32) < 32 {
        103
    } else {
        104
    };
    proof {
        assert(start as int == c128_start(s));
    }
    let check: u8 = c128_checksum(&syms, start);
    let mut v: Vec<bool> = Vec::new();
    let start_pat: u16 = c128_pattern_of(start);
    append_pattern(&mut v, start_pat, 11);
    let ghost head = pattern_seq(c128_pattern(c128_start(s)), 11);
    proof {
        assert(v@ =~= head + c128_symbol_modules(syms@, 0));
    }
    let mut t: usize = 0;
    while t < syms.len()
        invariant
            t <= syms@.len(),
            forall|j: int| 0 <= j < syms@.len() ==> #[trigger] syms@[j] <= 102,
            v@ == head + c128_symbol_modules(syms@, t as int),
        decreases syms@.len() - t,
    {
        let pat: u16 = c128_pattern_of(syms[t]);
        append_pattern(&mut v, pat, 11);
        t = t + 1;
        proof {
            assert(v@ =~= head + c128_symbol_modules(syms@, t as int));
        }
    }
    let check_pat: u16 = c128_pattern_of(check);
    append_pattern(&mut v, check_pat, 11);
    let stop_pat: u16 = c128_pattern_of(106);
    append_pattern(&mut v, stop_pat, 13);
    proof {
        assert(v@ =~= code128_modules(s));
    }
    let out = String::from_str(data);
    Ok(
        Barcode {
            barcode_type: BarcodeType::Code128,
            data: out,
            modules: BarcodeModules::Linear(v),
            config: config.clone(),
        },
    )
}

/// Encodes `data` as Code128 with the default render configuration.
pub fn generate_code128(data: &str) -> (r: Result<Barcode, QuickCodesError>)
    ensures
        r is Ok <==> code128_accepts(data@),
        r is Ok ==> {
            let b = r->Ok_0;
            &&& b.barcode_type == BarcodeType::Code128
            &&& b.data@ == data@
            &&& b.modules is Linear
            &&& b.modules->Linear_0@ == code128_modules(data@)
            &&& b.config == default_config()
        },
        r is Err ==> r->Err_0 is InvalidData && r->Err_0->InvalidData_0@ == code128_error(data@),
{
    generate_code128_with_config(data, &BarcodeConfig::default())
}

} // verus!
