//! Shared helpers: bit-pattern expansion, digit handling, and decimal text.

use vstd::prelude::*;
use vstd::arithmetic::power2::pow2;
use vstd::arithmetic::power2::lemma_pow2_strictly_increases;
use vstd::arithmetic::power2::lemma2_to64;

verus! {

/// Bit `k` (counting from the least significant bit) of `code`.
pub open spec fn bit_of(code: u16, k: nat) -> bool {
    ((code as nat) / pow2(k)) % 2 == 1
}

/// The `width` low bits of `code` as modules, most significant bit first,
/// so a binary literal reads left to right like the printed bar pattern.
pub open spec fn pattern_seq(code: u16, width: nat) -> Seq<bool> {
    Seq::new(width, |j: int| bit_of(code, (width - 1 - j) as nat))
}

/// `2^k` as a `u32`.
fn pow2_u32(k: usize) -> (r: u32)
    requires
        k <= 16,
    ensures
        r as nat == pow2(k as nat),
{
    proof {
        lemma2_to64();
    }
    let mut r: u32 = 1;
    let mut i: usize = 0;
    while i < k
        invariant
            i <= k <= 16,
            r as nat == pow2(i as nat),
        decreases k - i,
    {
        proof {
            if (i as nat) < 16 {
                lemma_pow2_strictly_increases(i as nat, 16);
            }
            lemma2_to64();
        }
        r = r * 2;
        i = i + 1;
        proof {
            assert(pow2(i as nat) == 2 * pow2((i - 1) as nat)) by {
                vstd::arithmetic::power2::lemma_pow2_unfold(i as nat);
            }
        }
    }
    r
}

/// Whether bit `k` (from the least significant end) of `code` is set.
pub fn bit_is_set(code: u16, k: usize) -> (r: bool)
    requires
        k <= 16,
    ensures
        r == bit_of(code, k as nat),
{
    let p: u32 = pow2_u32(k);
    proof {
        vstd::arithmetic::power2::lemma_pow2_pos(k as nat);
    }
    ((code as u32) / p) % 2 == 1
}

/// Appends the `width`-bit pattern of `code` to `v`, leftmost module first.
pub fn append_pattern(v: &mut Vec<bool>, code: u16, width: usize)
    requires
        width <= 16,
    ensures
        final(v)@ == old(v)@ + pattern_seq(code, width as nat),
{
    let mut j: usize = 0;
    while j < width
        invariant
            j <= width <= 16,
            v@ == old(v)@ + pattern_seq(code, width as nat).take(j as int),
        decreases width - j,
    {
        let k: usize = width - 1 - j;
        let p: u32 = pow2_u32(k);
        proof {
            vstd::arithmetic::power2::lemma_pow2_pos(k as nat);
        }
        let bit: bool = ((code as u32) / p) % 2 == 1;
        proof {
            assert(bit == bit_of(code, k as nat));
        }
        v.push(bit);
        j = j + 1;
        proof {
            assert(v@ =~= old(v)@ + pattern_seq(code, width as nat).take(j as int));
        }
    }
    proof {
        assert(pattern_seq(code, width as nat).take(width as int) =~= pattern_seq(
            code,
            width as nat,
        ));
    }
}

/// True of the characters stripped before numeric validation.
pub open spec fn is_sep(c: char) -> bool {
    c == ' ' || c == '-'
}

/// True of the ASCII digits.
pub open spec fn is_digit_char(c: char) -> bool {
    48 <= (c as int) <= 57
}

/// The numeric value of an ASCII digit character.
pub open spec fn digit_val(c: char) -> u8 {
    ((c as int) - 48) as u8
}

/// `s` with spaces and hyphens removed.
pub open spec fn strip_seps(s: Seq<char>) -> Seq<char>
    decreases s.len(),
{
    if s.len() == 0 {
        Seq::empty()
    } else {
        let p = strip_seps(s.drop_last());
        if is_sep(s.last()) {
            p
        } else {
            p.push(s.last())
        }
    }
}

/// Every character of `s` is an ASCII digit.
pub open spec fn all_digit_chars(s: Seq<char>) -> bool {
    forall|i: int| 0 <= i < s.len() ==> is_digit_char(#[trigger] s[i])
}

/// The digit values of a sequence of ASCII digit characters.
pub open spec fn digit_vals(s: Seq<char>) -> Seq<u8> {
    s.map_values(|c: char| digit_val(c))
}

/// Every element of `ds` is a single digit value.
pub open spec fn all_digits(ds: Seq<u8>) -> bool {
    forall|i: int| 0 <= i < ds.len() ==> #[trigger] ds[i] < 10
}

/// The digit character for a digit value.
pub open spec fn digit_char(d: int) -> char {
    if d == 0 {
        '0'
    } else if d == 1 {
        '1'
    } else if d == 2 {
        '2'
    } else if d == 3 {
        '3'
    } else if d == 4 {
        '4'
    } else if d == 5 {
        '5'
    } else if d == 6 {
        '6'
    } else if d == 7 {
        '7'
    } else if d == 8 {
        '8'
    } else {
        '9'
    }
}

/// The digit characters of a sequence of digit values.
pub open spec fn digit_chars(ds: Seq<u8>) -> Seq<char> {
    ds.map_values(|d: u8| digit_char(d as int))
}

/// Appends the digit character for `d` to `s`.
pub fn push_digit(s: &mut String, d: u8)
    requires
        d < 10,
    ensures
        final(s)@ == old(s)@ + seq![digit_char(d as int)],
{
    proof {
        reveal_strlit("0");
        reveal_strlit("1");
        reveal_strlit("2");
        reveal_strlit("3");
        reveal_strlit("4");
        reveal_strlit("5");
        reveal_strlit("6");
        reveal_strlit("7");
        reveal_strlit("8");
        reveal_strlit("9");
    }
    match d {
        0 => s.append("0"),
        1 => s.append("1"),
        2 => s.append("2"),
        3 => s.append("3"),
        4 => s.append("4"),
        5 => s.append("5"),
        6 => s.append("6"),
        7 => s.append("7"),
        8 => s.append("8"),
        _ => s.append("9"),
    }
    proof {
        assert(s@ =~= old(s)@ + seq![digit_char(d as int)]);
    }
}

/// The digit values of `ds` rendered as a string.
pub fn digits_to_string(ds: &Vec<u8>) -> (r: String)
    requires
        all_digits(ds@),
    ensures
        r@ == digit_chars(ds@),
{
    let mut r = String::new();
    let mut i: usize = 0;
    while i < ds.len()
        invariant
            i <= ds@.len(),
            all_digits(ds@),
            r@.len() == i as int,
            forall|j: int| 0 <= j < i as int ==> r@[j] == digit_char(ds@[j] as int),
        decreases ds@.len() - i,
    {
        push_digit(&mut r, ds[i]);
        i = i + 1;
    }
    proof {
        assert(r@ =~= digit_chars(ds@));
    }
    r
}

/// The decimal rendering of a natural number.
pub open spec fn dec_str(n: nat) -> Seq<char>
    decreases n,
{
    if n < 10 {
        seq![digit_char(n as int)]
    } else {
        dec_str(n / 10) + seq![digit_char((n % 10) as int)]
    }
}

/// Appends the decimal rendering of `n` to `s`.
pub fn append_u64(s: &mut String, n: u64)
    ensures
        final(s)@ == old(s)@ + dec_str(n as nat),
    decreases n,
{
    if n < 10 {
        push_digit(s, n as u8);
    } else {
        append_u64(s, n / 10);
        push_digit(s, (n % 10) as u8);
        proof {
            assert(s@ =~= old(s)@ + dec_str(n as nat));
        }
    }
}

/// ASCII uppercase of a character; other characters are unchanged.
pub open spec fn upper_char(c: char) -> char {
    if 97 <= (c as int) <= 122 {
        (((c as u8) - 32) as char)
    } else {
        c
    }
}

/// ASCII uppercase of a character sequence.
pub open spec fn upper_seq(s: Seq<char>) -> Seq<char> {
    s.map_values(|c: char| upper_char(c))
}

/// ASCII uppercase of one character.
pub fn to_upper(c: char) -> (r: char)
    ensures
        r == upper_char(c),
{
    let cv: u32 = c as u32;
    if 97 <= cv && cv <= 122 {
        ((cv - 32) as u8) as char
    } else {
        c
    }
}

/// The index of the first character failing `valid`, or minus one if none does.
pub open spec fn first_bad_index(cs: Seq<char>, valid: spec_fn(char) -> bool) -> int
    decreases cs.len(),
{
    if cs.len() == 0 {
        -1
    } else if !valid(cs[0]) {
        0
    } else {
        let r = first_bad_index(cs.drop_first(), valid);
        if r < 0 {
            -1
        } else {
            r + 1
        }
    }
}

/// If everything before `i` is valid and `cs[i]` is not, then `i` is the
/// first bad index.
pub proof fn lemma_first_bad_at(cs: Seq<char>, valid: spec_fn(char) -> bool, i: int)
    requires
        0 <= i < cs.len(),
        forall|j: int| 0 <= j < i ==> valid(#[trigger] cs[j]),
        !valid(cs[i]),
    ensures
        first_bad_index(cs, valid) == i,
    decreases i,
{
    if i > 0 {
        let tail = cs.drop_first();
        assert(forall|j: int| 0 <= j < i - 1 ==> valid(#[trigger] tail[j]));
        assert(tail[i - 1] == cs[i]);
        lemma_first_bad_at(tail, valid, i - 1);
    }
}

/// If every character is valid there is no bad index.
pub proof fn lemma_first_bad_none(cs: Seq<char>, valid: spec_fn(char) -> bool)
    requires
        forall|j: int| 0 <= j < cs.len() ==> valid(#[trigger] cs[j]),
    ensures
        first_bad_index(cs, valid) == -1,
    decreases cs.len(),
{
    if cs.len() > 0 {
        let tail = cs.drop_first();
        assert(forall|j: int| 0 <= j < tail.len() ==> valid(#[trigger] tail[j]));
        lemma_first_bad_none(tail, valid);
    }
}


/// ASCII lowercase of a character; other characters are unchanged.
pub open spec fn lower_char(c: char) -> char {
    if 65 <= (c as int) <= 90 {
        (((c as u8) + 32) as char)
    } else {
        c
    }
}

/// ASCII lowercase of a character sequence.
pub open spec fn lower_seq(s: Seq<char>) -> Seq<char> {
    s.map_values(|c: char| lower_char(c))
}

/// ASCII lowercase of one character.
pub fn to_lower(c: char) -> (r: char)
    ensures
        r == lower_char(c),
{
    let cv: u32 = c as u32;
    if 65 <= cv && cv <= 90 {
        ((cv + 32) as u8) as char
    } else {
        c
    }
}

/// Whether two strings hold the same characters.
pub fn str_eq(a: &str, b: &str) -> (r: bool)
    ensures
        r == (a@ == b@),
{
    let n: usize = a.unicode_len();
    let m: usize = b.unicode_len();
    if n != m {
        return false;
    }
    let mut i: usize = 0;
    while i < n
        invariant
            i <= n,
            n == a@.len() == b@.len(),
            forall|j: int| 0 <= j < i as int ==> a@[j] == b@[j],
        decreases n - i,
    {
        if a.get_char(i) != b.get_char(i) {
            return false;
        }
        i = i + 1;
    }
    proof {
        assert(a@ =~= b@);
    }
    true
}

/// The index of the last occurrence of `c` in `s`, or minus one.
pub open spec fn last_index_of(s: Seq<char>, c: char) -> int
    decreases s.len(),
{
    if s.len() == 0 {
        -1
    } else if s.last() == c {
        s.len() - 1
    } else {
        last_index_of(s.drop_last(), c)
    }
}

/// The last-occurrence index lies below the length.
pub proof fn lemma_last_index_bound(s: Seq<char>, c: char)
    ensures
        -1 <= last_index_of(s, c) < s.len(),
    decreases s.len(),
{
    if s.len() > 0 && s.last() != c {
        lemma_last_index_bound(s.drop_last(), c);
    }
}

/// Finds the index of the last occurrence of `c` among the characters of
/// `cs`, or the length of `cs` if it never occurs.
pub fn find_last(cs: &Vec<char>, c: char) -> (r: usize)
    ensures
        last_index_of(cs@, c) >= 0 ==> r as int == last_index_of(cs@, c),
        last_index_of(cs@, c) < 0 ==> r == cs@.len(),
{
    let mut i: usize = cs.len();
    proof {
        assert(cs@.take(cs@.len() as int) =~= cs@);
    }
    while i > 0
        invariant
            i <= cs@.len(),
            last_index_of(cs@, c) == last_index_of(cs@.take(i as int), c),
        decreases i,
    {
        proof {
            assert(cs@.take(i as int).drop_last() =~= cs@.take(i as int - 1));
        }
        if cs[i - 1] == c {
            return i - 1;
        }
        i = i - 1;
    }
    proof {
        assert(cs@.take(0) =~= Seq::<char>::empty());
    }
    cs.len()
}

/// Relies on `core::fmt::Display` for `char`: formatting a char yields
/// exactly that one character.
#[verifier::external_body]
pub fn char_to_string(c: char) -> (r: String)
    ensures
        r@ == seq![c],
{
    format!("{}", c)
}

} // verus!
