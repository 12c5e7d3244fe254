//! Code39: alphanumeric data wrapped in asterisk markers, nine modules per
//! character with single-module gaps.

use vstd::prelude::*;
use crate::types::Barcode;
use crate::types::BarcodeConfig;
use crate::types::BarcodeModules;
use crate::types::BarcodeType;
use crate::types::QuickCodesError;
use crate::util::char_to_string;
use crate::util::first_bad_index;
use crate::util::lemma_first_bad_at;
use crate::util::pattern_seq;
use crate::util::to_upper;
use crate::util::upper_char;
use crate::util::upper_seq;
use crate::util::append_pattern;

verus! {

/// The nine-module pattern of a Code39 character, if the character is in the
/// alphabet (the asterisk marker included).
pub open spec fn code39_code(c: char) -> Option<u16> {
    if c == '0' {
        Some(0b000110100)
    } else if c == '1' {
        Some(0b100100001)
    } else if c == '2' {
        Some(0b001100001)
    } else if c == '3' {
        Some(0b101100000)
    } else if c == '4' {
        Some(0b000110001)
    } else if c == '5' {
        Some(0b100110000)
    } else if c == '6' {
        Some(0b001110000)
    } else if c == '7' {
        Some(0b000100101)
    } else if c == '8' {
        Some(0b100100100)
    } else if c == '9' {
        Some(0b001100100)
    } else if c == 'A' {
        Some(0b100001001)
    } else if c == 'B' {
        Some(0b001001001)
    } else if c == 'C' {
        Some(0b101001000)
    } else if c == 'D' {
        Some(0b000011001)
    } else if c == 'E' {
        Some(0b100011000)
    } else if c == 'F' {
        Some(0b001011000)
    } else if c == 'G' {
        Some(0b000001101)
    } else if c == 'H' {
        Some(0b100001100)
    } else if c == 'I' {
        Some(0b001001100)
    } else if c == 'J' {
        Some(0b000011100)
    } else if c == 'K' {
        Some(0b100000011)
    } else if c == 'L' {
        Some(0b001000011)
    } else if c == 'M' {
        Some(0b101000010)
    } else if c == 'N' {
        Some(0b000010011)
    } else if c == 'O' {
        Some(0b100010010)
    } else if c == 'P' {
        Some(0b001010010)
    } else if c == 'Q' {
        Some(0b000000111)
    } else if c == 'R' {
        Some(0b100000110)
    } else if c == 'S' {
        Some(0b001000110)
    } else if c == 'T' {
        Some(0b000010110)
    } else if c == 'U' {
        Some(0b110000001)
    } else if c == 'V' {
        Some(0b011000001)
    } else if c == 'W' {
        Some(0b111000000)
    } else if c == 'X' {
        Some(0b010010001)
    } else if c == 'Y' {
        Some(0b110010000)
    } else if c == 'Z' {
        Some(0b011010000)
    } else if c == '-' {
        Some(0b010000101)
    } else if c == '.' {
        Some(0b110000100)
    } else if c == ' ' {
        Some(0b011000100)
    } else if c == '$' {
        Some(0b010101000)
    } else if c == '/' {
        Some(0b010100010)
    } else if c == '+' {
        Some(0b010001010)
    } else if c == '%' {
        Some(0b000101010)
    } else if c == '*' {
        Some(0b010010100)
    } else {
        None
    }
}

fn code39_code_of(c: char) -> (r: Option<u16>)
    ensures
        r == code39_code(c),
{
    match c {
        '0' => Some(0b000110100),
        '1' => Some(0b100100001),
        '2' => Some(0b001100001),
        '3' => Some(0b101100000),
        '4' => Some(0b000110001),
        '5' => Some(0b100110000),
        '6' => Some(0b001110000),
        '7' => Some(0b000100101),
        '8' => Some(0b100100100),
        '9' => Some(0b001100100),
        'A' => Some(0b100001001),
        'B' => Some(0b001001001),
        'C' => Some(0b101001000),
        'D' => Some(0b000011001),
        'E' => Some(0b100011000),
        'F' => Some(0b001011000),
        'G' => Some(0b000001101),
        'H' => Some(0b100001100),
        'I' => Some(0b001001100),
        'J' => Some(0b000011100),
        'K' => Some(0b100000011),
        'L' => Some(0b001000011),
        'M' => Some(0b101000010),
        'N' => Some(0b000010011),
        'O' => Some(0b100010010),
        'P' => Some(0b001010010),
        'Q' => Some(0b000000111),
        'R' => Some(0b100000110),
        'S' => Some(0b001000110),
        'T' => Some(0b000010110),
        'U' => Some(0b110000001),
        'V' => Some(0b011000001),
        'W' => Some(0b111000000),
        'X' => Some(0b010010001),
        'Y' => Some(0b110010000),
        'Z' => Some(0b011010000),
        '-' => Some(0b010000101),
        '.' => Some(0b110000100),
        ' ' => Some(0b011000100),
        '$' => Some(0b010101000),
        '/' => Some(0b010100010),
        '+' => Some(0b010001010),
        '%' => Some(0b000101010),
        '*' => Some(0b010010100),
        _ => None,
    }
}

/// Whether a (already uppercased) character can be encoded as payload data.
/// The asterisk has a pattern but is reserved as the start/stop marker and is
/// not valid data.
pub open spec fn code39_valid(c: char) -> bool {
    code39_code(c) is Some && c != '*'
}

/// The concatenation of the first `n` character patterns of `cs`, with a
/// single white module between consecutive characters.
pub open spec fn code39_join(cs: Seq<char>, n: int) -> Seq<bool>
    decreases n,
{
    if n <= 0 {
        Seq::empty()
    } else if n == 1 {
        pattern_seq(code39_code(cs[0]).unwrap(), 9)
    } else {
        code39_join(cs, n - 1) + seq![false] + pattern_seq(code39_code(cs[n - 1]).unwrap(), 9)
    }
}

/// The full pattern: the uppercased data wrapped in asterisk markers.
pub open spec fn code39_modules(s: Seq<char>) -> Seq<bool> {
    let cs = seq!['*'] + upper_seq(s) + seq!['*'];
    code39_join(cs, cs.len() as int)
}

/// Whether `s` is accepted: nonempty, and every uppercased character is in
/// the alphabet.
pub open spec fn code39_accepts(s: Seq<char>) -> bool {
    s.len() > 0 && forall|i: int| 0 <= i < s.len() ==> code39_valid(upper_char(#[trigger] s[i]))
}

/// The canonical data: the input uppercased.
pub open spec fn code39_canonical(s: Seq<char>) -> Seq<char> {
    upper_seq(s)
}

/// The reason reported for a rejected input, naming the first character (after
/// uppercasing) outside the alphabet.
pub open spec fn code39_error(s: Seq<char>) -> Seq<char> {
    if s.len() == 0 {
        "Data cannot be empty"@
    } else {
        let u = upper_seq(s);
        let bad = u[first_bad_index(u, |c: char| code39_valid(c))];
        "Invalid character '"@ + seq![bad] + "' for Code39. Only A-Z, 0-9, and -. $/+% are allowed."@
    }
}

/// Encodes `data` as Code39.
pub fn generate_code39(data: &str) -> (r: Result<Barcode, QuickCodesError>)
    ensures
        r is Ok <==> code39_accepts(data@),
        r is Ok ==> {
            let b = r->Ok_0;
            &&& b.barcode_type == BarcodeType::Code39
            &&& b.data@ == code39_canonical(data@)
            &&& b.modules is Linear
            &&& b.modules->Linear_0@ == code39_modules(data@)
            &&& b.config.width == b.modules->Linear_0@.len() as u32
            &&& b.config.height == b.config.width / 2
            &&& b.config.margin == 10
            &&& b.config.include_text
        },
        r is Err ==> r->Err_0 is InvalidData && r->Err_0->InvalidData_0@ == code39_error(data@),
{
    let ghost s = data@;
    let n: usize = data.unicode_len();
    if n == 0 {
        return Err(QuickCodesError::InvalidData(String::from_str("Data cannot be empty")));
    }
    let mut ups: Vec<char> = Vec::new();
    let mut i: usize = 0;
    while i < n
        invariant
            i <= n,
            n == s.len(),
            s == data@,
            ups@ == upper_seq(s.take(i as int)),
            forall|j: int| 0 <= j < i as int ==> code39_valid(upper_char(#[trigger] s[j])),
        decreases n - i,
    {
        let u: char = to_upper(data.get_char(i));
        match code39_code_of(u) {
            Some(_) if u != '*' => {
                ups.push(u);
                proof {
                    assert(ups@ =~= upper_seq(s.take(i as int + 1)));
                }
            },
            _ => {
                proof {
                    let uf = upper_seq(s);
                    assert(forall|j: int| 0 <= j < i as int ==> code39_valid(
                        #[trigger] uf[j],
                    ));
                    assert(uf[i as int] == u);
                    lemma_first_bad_at(uf, |c: char| code39_valid(c), i as int);
                }
                let mut m = String::from_str("Invalid character '");
                let cs = char_to_string(u);
                m.append(cs.as_str());
                m.append("' for Code39. Only A-Z, 0-9, and -. $/+% are allowed.");
                proof {
                    assert(m@ =~= code39_error(s));
                }
                return Err(QuickCodesError::InvalidData(m));
            },
        }
        i = i + 1;
    }
    proof {
        assert(s.take(n as int) =~= s);
        assert(ups@ == upper_seq(s));
        assert(code39_accepts(s));
    }
    let ghost cs = seq!['*'] + upper_seq(s) + seq!['*'];
    let mut v: Vec<bool> = Vec::new();
    append_pattern(&mut v, 0b010010100, 9);
    proof {
        assert(cs[0] == '*');
        assert(v@ =~= code39_join(cs, 1));
    }
    let mut k: usize = 0;
    while k < ups.len()
        invariant
            k <= ups@.len(),
            ups@ == upper_seq(s),
            cs == seq!['*'] + upper_seq(s) + seq!['*'],
            forall|j: int| 0 <= j < ups@.len() ==> code39_valid(#[trigger] ups@[j]),
            v@ == code39_join(cs, k as int + 1),
        decreases ups@.len() - k,
    {
        v.push(false);
        let code: u16 = match code39_code_of(ups[k]) {
            Some(c) => c,
            None => {
                proof {
                    assert(false);
                }
                0
            },
        };
        append_pattern(&mut v, code, 9);
        k = k + 1;
        proof {
            assert(cs[k as int] == ups@[k as int - 1]);
            assert(v@ =~= code39_join(cs, k as int + 1));
        }
    }
    v.push(false);
    append_pattern(&mut v, 0b010010100, 9);
    proof {
        assert(cs[cs.len() - 1] == '*');
        assert(v@ =~= code39_join(cs, cs.len() as int));
        assert(v@ =~= code39_modules(s));
    }
    let mut out = String::new();
    let mut t: usize = 0;
    while t < ups.len()
        invariant
            t <= ups@.len(),
            out@ == ups@.take(t as int),
        decreases ups@.len() - t,
    {
        let cstr = char_to_string(ups[t]);
        out.append(cstr.as_str());
        t = t + 1;
        proof {
            assert(out@ =~= ups@.take(t as int));
        }
    }
    proof {
        assert(out@ =~= upper_seq(s));
    }
    let w: u32 = v.len() as u32;
    let mut config = BarcodeConfig::default();
    config.width = w;
    config.height = w / 2;
    Ok(
        Barcode {
            barcode_type: BarcodeType::Code39,
            data: out,
            modules: BarcodeModules::Linear(v),
            config,
        },
    )
}

/// Uppercasing is idempotent, so lowercase input encodes exactly as its
/// uppercased form: acceptance, canonical data, pattern and error all agree.
pub proof fn lemma_code39_case_insensitive(s: Seq<char>)
    ensures
        code39_accepts(s) == code39_accepts(upper_seq(s)),
        code39_canonical(s) == code39_canonical(upper_seq(s)),
        code39_modules(s) == code39_modules(upper_seq(s)),
        code39_error(s) == code39_error(upper_seq(s)),
{
    let u = upper_seq(s);
    assert(upper_seq(u) =~= u);
    if code39_accepts(s) {
        assert forall|i: int| 0 <= i < u.len() implies code39_valid(upper_char(
            #[trigger] u[i],
        )) by {
            assert(u[i] == upper_char(s[i]));
            assert(code39_valid(upper_char(s[i])));
        }
        assert(code39_accepts(u));
    }
    if code39_accepts(u) {
        assert forall|i: int| 0 <= i < s.len() implies code39_valid(upper_char(
            #[trigger] s[i],
        )) by {
            assert(code39_valid(upper_char(u[i])));
            assert(u[i] == upper_char(s[i]));
        }
        assert(code39_accepts(s));
    }
}

} // verus!
