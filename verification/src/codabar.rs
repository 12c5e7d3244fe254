//! Codabar: digits and a few symbols between A-D start and stop characters,
//! seven modules per character with single-module gaps.

use vstd::prelude::*;
use crate::types::Barcode;
use crate::types::BarcodeConfig;
use crate::types::BarcodeModules;
use crate::types::BarcodeType;
use crate::types::QuickCodesError;
use crate::util::char_to_string;
use crate::util::first_bad_index;
use crate::util::lemma_first_bad_at;
use crate::util::pattern_seq;
use crate::util::to_upper;
use crate::util::upper_char;
use crate::util::upper_seq;
use crate::util::append_pattern;

verus! {

/// The seven-module pattern of a Codabar character, if it is in the alphabet.
pub open spec fn codabar_code(c: char) -> Option<u16> {
    if c == '0' {
        Some(0b0000011)
    } else if c == '1' {
        Some(0b0000110)
    } else if c == '2' {
        Some(0b0001001)
    } else if c == '3' {
        Some(0b1100000)
    } else if c == '4' {
        Some(0b0010010)
    } else if c == '5' {
        Some(0b1000010)
    } else if c == '6' {
        Some(0b0100001)
    } else if c == '7' {
        Some(0b0100100)
    } else if c == '8' {
        Some(0b0110000)
    } else if c == '9' {
        Some(0b1001000)
    } else if c == '-' {
        Some(0b0001100)
    } else if c == '$' {
        Some(0b0011000)
    } else if c == ':' {
        Some(0b1000101)
    } else if c == '/' {
        Some(0b1010001)
    } else if c == '.' {
        Some(0b1010100)
    } else if c == '+' {
        Some(0b0010101)
    } else if c == 'A' {
        Some(0b1011001)
    } else if c == 'B' {
        Some(0b1001011)
    } else if c == 'C' {
        Some(0b0011011)
    } else if c == 'D' {
        Some(0b0011101)
    } else {
        None
    }
}

fn codabar_code_of(c: char) -> (r: Option<u16>)
    ensures
        r == codabar_code(c),
{
    match c {
        '0' => Some(0b0000011),
        '1' => Some(0b0000110),
        '2' => Some(0b0001001),
        '3' => Some(0b1100000),
        '4' => Some(0b0010010),
        '5' => Some(0b1000010),
        '6' => Some(0b0100001),
        '7' => Some(0b0100100),
        '8' => Some(0b0110000),
        '9' => Some(0b1001000),
        '-' => Some(0b0001100),
        '$' => Some(0b0011000),
        ':' => Some(0b1000101),
        '/' => Some(0b1010001),
        '.' => Some(0b1010100),
        '+' => Some(0b0010101),
        'A' => Some(0b1011001),
        'B' => Some(0b1001011),
        'C' => Some(0b0011011),
        'D' => Some(0b0011101),
        _ => None,
    }
}

/// Whether a (already uppercased) character can be encoded.
pub open spec fn codabar_valid(c: char) -> bool {
    codabar_code(c) is Some
}

/// Whether a character may open or close a Codabar code.
pub open spec fn codabar_start_stop(c: char) -> bool {
    c == 'A' || c == 'B' || c == 'C' || c == 'D'
}

/// The concatenation of the first `n` character patterns of `cs`, with a
/// single white module between consecutive characters.
pub open spec fn codabar_join(cs: Seq<char>, n: int) -> Seq<bool>
    decreases n,
{
    if n <= 0 {
        Seq::empty()
    } else if n == 1 {
        pattern_seq(codabar_code(cs[0]).unwrap(), 7)
    } else {
        codabar_join(cs, n - 1) + seq![false] + pattern_seq(codabar_code(cs[n - 1]).unwrap(), 7)
    }
}

/// The full pattern of the uppercased data.
pub open spec fn codabar_modules(s: Seq<char>) -> Seq<bool> {
    codabar_join(upper_seq(s), s.len() as int)
}

/// Whether `s` is accepted: nonempty, every uppercased character in the
/// alphabet, and the first and last characters drawn from A-D.
pub open spec fn codabar_accepts(s: Seq<char>) -> bool {
    &&& s.len() > 0
    &&& forall|i: int| 0 <= i < s.len() ==> codabar_valid(upper_char(#[trigger] s[i]))
    &&& codabar_start_stop(upper_char(s[0]))
    &&& codabar_start_stop(upper_char(s[s.len() - 1]))
}

/// The canonical data: the input uppercased.
pub open spec fn codabar_canonical(s: Seq<char>) -> Seq<char> {
    upper_seq(s)
}

/// The reason reported for a rejected input.
pub open spec fn codabar_error(s: Seq<char>) -> Seq<char> {
    if s.len() == 0 {
        "Data cannot be empty"@
    } else if !(forall|i: int| 0 <= i < s.len() ==> codabar_valid(upper_char(#[trigger] s[i]))) {
        let u = upper_seq(s);
        let bad = u[first_bad_index(u, |c: char| codabar_valid(c))];
        "Invalid character '"@ + seq![bad] + "' for Codabar. Only 0-9, -$:/.+ and A-D are allowed."@
    } else {
        "Codabar data must start and end with A, B, C, or D"@
    }
}

/// Encodes `data` as Codabar.
pub fn generate_codabar(data: &str) -> (r: Result<Barcode, QuickCodesError>)
    ensures
        r is Ok <==> codabar_accepts(data@),
        r is Ok ==> {
            let b = r->Ok_0;
            &&& b.barcode_type == BarcodeType::Codabar
            &&& b.data@ == codabar_canonical(data@)
            &&& b.modules is Linear
            &&& b.modules->Linear_0@ == codabar_modules(data@)
            &&& b.config.width == b.modules->Linear_0@.len() as u32
            &&& b.config.height == b.config.width / 2
            &&& b.config.margin == 10
            &&& b.config.include_text
        },
        r is Err ==> r->Err_0 is InvalidData && r->Err_0->InvalidData_0@ == codabar_error(data@),
{
    let ghost s = data@;
    let n: usize = data.unicode_len();
    if n == 0 {
        return Err(QuickCodesError::InvalidData(String::from_str("Data cannot be empty")));
    }
    let mut ups: Vec<char> = Vec::new();
    let mut i: usize = 0;
    while i < n
        invariant
            i <= n,
            n == s.len(),
            s == data@,
            ups@ == upper_seq(s.take(i as int)),
            forall|j: int| 0 <= j < i as int ==> codabar_valid(upper_char(#[trigger] s[j])),
        decreases n - i,
    {
        let u: char = to_upper(data.get_char(i));
        match codabar_code_of(u) {
            Some(_) => {
                ups.push(u);
                proof {
                    assert(ups@ =~= upper_seq(s.take(i as int + 1)));
                }
            },
            None => {
                proof {
                    let uf = upper_seq(s);
                    assert(forall|j: int| 0 <= j < i as int ==> codabar_valid(
                        #[trigger] uf[j],
                    ));
                    assert(uf[i as int] == u);
                    lemma_first_bad_at(uf, |c: char| codabar_valid(c), i as int);
                }
                let mut m = String::from_str("Invalid character '");
                let cstr = char_to_string(u);
                m.append(cstr.as_str());
                m.append("' for Codabar. Only 0-9, -$:/.+ and A-D are allowed.");
                proof {
                    assert(m@ =~= codabar_error(s));
                }
                return Err(QuickCodesError::InvalidData(m));
            },
        }
        i = i + 1;
    }
    proof {
        assert(s.take(n as int) =~= s);
        assert(ups@ == upper_seq(s));
    }
    let first: char = ups[0];
    let last: char = ups[ups.len() - 1];
    let first_ok: bool = first == 'A' || first == 'B' || first == 'C' || first == 'D';
    let last_ok: bool = last == 'A' || last == 'B' || last == 'C' || last == 'D';
    if !first_ok || !last_ok {
        return Err(
            QuickCodesError::InvalidData(
                String::from_str("Codabar data must start and end with A, B, C, or D"),
            ),
        );
    }
    let mut v: Vec<bool> = Vec::new();
    let mut k: usize = 0;
    while k < ups.len()
        invariant
            k <= ups@.len(),
            ups@ == upper_seq(s),
            s.len() == ups@.len(),
            forall|j: int| 0 <= j < ups@.len() ==> codabar_valid(#[trigger] ups@[j]),
            v@ == codabar_join(ups@, k as int),
        decreases ups@.len() - k,
    {
        if k > 0 {
            v.push(false);
        }
        let code: u16 = match codabar_code_of(ups[k]) {
            Some(c) => c,
            None => {
                proof {
                    assert(false);
                }
                0
            },
        };
        append_pattern(&mut v, code, 7);
        k = k + 1;
        proof {
            assert(v@ =~= codabar_join(ups@, k as int));
        }
    }
    proof {
        assert(v@ =~= codabar_modules(s));
    }
    let mut out = String::new();
    let mut t: usize = 0;
    while t < ups.len()
        invariant
            t <= ups@.len(),
            out@ == ups@.take(t as int),
        decreases ups@.len() - t,
    {
        let cstr = char_to_string(ups[t]);
        out.append(cstr.as_str());
        t = t + 1;
        proof {
            assert(out@ =~= ups@.take(t as int));
        }
    }
    proof {
        assert(out@ =~= upper_seq(s));
    }
    let w: u32 = v.len() as u32;
    let mut config = BarcodeConfig::default();
    config.width = w;
    config.height = w / 2;
    Ok(
        Barcode {
            barcode_type: BarcodeType::Codabar,
            data: out,
            modules: BarcodeModules::Linear(v),
            config,
        },
    )
}

/// Uppercasing is idempotent, so lowercase input encodes exactly as its
/// uppercased form: acceptance, canonical data, pattern and error all agree.
pub proof fn lemma_codabar_case_insensitive(s: Seq<char>)
    ensures
        codabar_accepts(s) == codabar_accepts(upper_seq(s)),
        codabar_canonical(s) == codabar_canonical(upper_seq(s)),
        codabar_modules(s) == codabar_modules(upper_seq(s)),
{
    let u = upper_seq(s);
    assert(upper_seq(u) =~= u);
    if s.len() > 0 {
        assert(u[0] == upper_char(s[0]));
        assert(u[u.len() - 1] == upper_char(s[s.len() - 1]));
        assert(forall|c: char| codabar_start_stop(c) ==> upper_char(c) == c);
        if forall|i: int| 0 <= i < s.len() ==> codabar_valid(upper_char(#[trigger] s[i])) {
            assert forall|i: int| 0 <= i < u.len() implies codabar_valid(upper_char(
                #[trigger] u[i],
            )) by {
                assert(u[i] == upper_char(s[i]));
                assert(codabar_valid(upper_char(s[i])));
            }
        }
        if forall|i: int| 0 <= i < u.len() ==> codabar_valid(upper_char(#[trigger] u[i])) {
            assert forall|i: int| 0 <= i < s.len() implies codabar_valid(upper_char(
                #[trigger] s[i],
            )) by {
                assert(codabar_valid(upper_char(u[i])));
                assert(u[i] == upper_char(s[i]));
            }
        }
    }
}

} // verus!
