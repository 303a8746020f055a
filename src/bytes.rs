use vstd::prelude::*;
use vstd::string::StringSliceAdditionalSpecFns;
use vstd::slice::{slice_subrange, slice_to_vec};
use vstd::utf8::{decode_utf8, valid_utf8};

use crate::lexer::{find, find_tag, is_hex_digit, is_space, lift_view, run_end, scan, tag, tag_at, ByteClass};

verus! {

/// The value of a hex digit.
pub open spec fn hex_val(b: u8) -> int {
    if 48 <= b <= 57 {
        b - 48
    } else if 65 <= b <= 70 {
        b - 55
    } else {
        b - 87
    }
}

/// The hex digits of `s`, with whitespace left out.
pub open spec fn hex_digits(s: Seq<u8>) -> Seq<u8>
    decreases s.len(),
{
    if s.len() == 0 {
        s
    } else if is_space(s.last()) {
        hex_digits(s.drop_last())
    } else {
        hex_digits(s.drop_last()).push(s.last())
    }
}

/// The bytes that pairs of hex digits stand for, high nibble first.
pub open spec fn hex_pairs(d: Seq<u8>) -> Seq<u8> {
    Seq::new(d.len() / 2, |i: int| (hex_val(d[2 * i]) * 16 + hex_val(d[2 * i + 1])) as u8)
}

/// Hex text, which may hold whitespace anywhere: the bytes it stands for, or
/// `None` on a byte that is neither, or an odd number of digits.
pub open spec fn spec_from_hex(s: Seq<u8>) -> Option<Seq<u8>> {
    if (forall|i: int| 0 <= i < s.len() ==> is_hex_digit(#[trigger] s[i]) || is_space(s[i]))
        && hex_digits(s).len() % 2 == 0 {
        Some(hex_pairs(hex_digits(s)))
    } else {
        None
    }
}

pub proof fn lemma_hex_digits(s: Seq<u8>)
    ensures
        forall|i: int| 0 <= i < hex_digits(s).len() ==> !is_space(#[trigger] hex_digits(s)[i]),
        (forall|i: int| 0 <= i < s.len() ==> is_hex_digit(#[trigger] s[i]) || is_space(s[i]))
            ==> (forall|i: int| 0 <= i < hex_digits(s).len() ==> is_hex_digit(#[trigger] hex_digits(s)[i])),
    decreases s.len(),
{
    if s.len() > 0 {
        lemma_hex_digits(s.drop_last());
        if forall|i: int| 0 <= i < s.len() ==> is_hex_digit(#[trigger] s[i]) || is_space(s[i]) {
            assert forall|i: int| 0 <= i < s.drop_last().len() implies is_hex_digit(#[trigger] s.drop_last()[i])
                || is_space(s.drop_last()[i]) by {
                assert(s.drop_last()[i] == s[i]);
            }
            let d = hex_digits(s.drop_last());
            assert(is_hex_digit(s[s.len() - 1]) || is_space(s[s.len() - 1]));
            assert forall|i: int| 0 <= i < hex_digits(s).len() implies is_hex_digit(#[trigger] hex_digits(s)[i]) by {
                if i < d.len() {
                    assert(hex_digits(s)[i] == d[i]);
                }
            }
        }
        let d = hex_digits(s.drop_last());
        assert forall|i: int| 0 <= i < hex_digits(s).len() implies !is_space(#[trigger] hex_digits(s)[i]) by {
            if i < d.len() {
                assert(hex_digits(s)[i] == d[i]);
            }
        }
    }
}

/// Decodes hex text into bytes; whitespace between digits is skipped.
pub fn from_hex(s: &[u8]) -> (r: Option<Vec<u8>>)
    ensures
        match r {
            Some(b) => spec_from_hex(s@) == Some(b@),
            None => spec_from_hex(s@) is None,
        },
{
    let mut b: Vec<u8> = Vec::new();
    let mut odd = false;
    let mut buf: u8 = 0;
    let mut i: usize = 0;
    while i < s.len()
        invariant
            i <= s@.len(),
            forall|j: int| 0 <= j < i ==> is_hex_digit(#[trigger] s@[j]) || is_space(s@[j]),
            odd == (hex_digits(s@.subrange(0, i as int)).len() % 2 == 1),
            !odd ==> b@ == hex_pairs(hex_digits(s@.subrange(0, i as int))),
            odd ==> b@ == hex_pairs(hex_digits(s@.subrange(0, i as int)).drop_last()),
            odd ==> buf as int == hex_val(hex_digits(s@.subrange(0, i as int)).last()),
            odd ==> buf < 16,
        decreases s@.len() - i,
    {
        let c = s[i];
        let pre = Ghost(s@.subrange(0, i as int));
        assert(s@.subrange(0, i + 1).drop_last() =~= pre@);
        assert(s@.subrange(0, i + 1).last() == c);
        let v: u8;
        if 48 <= c && c <= 57 {
            v = c - 48;
        } else if 65 <= c && c <= 70 {
            v = c - 55;
        } else if 97 <= c && c <= 102 {
            v = c - 87;
        } else if c == 32 || c == 13 || c == 10 || c == 9 {
            i = i + 1;
            continue;
        } else {
            proof {
                lemma_hex_digits(s@);
            }
            assert(!(is_hex_digit(s@[i as int]) || is_space(s@[i as int])));
            return None;
        }
        let ghost d = hex_digits(s@.subrange(0, i + 1));
        assert(d == hex_digits(pre@).push(c));
        if odd {
            let byte: u8 = buf * 16 + v;
            b.push(byte);
            odd = false;
            assert(b@ =~= hex_pairs(d));
        } else {
            buf = v;
            odd = true;
            assert(d.drop_last() =~= hex_digits(pre@));
        }
        i = i + 1;
    }
    assert(s@.subrange(0, s@.len() as int) =~= s@);
    if odd {
        None
    } else {
        Some(b)
    }
}

/// A byte literal: `0x` and a run of hex digits, or text between double
/// quotes, taken byte for byte.
pub open spec fn spec_binary_v(s: Seq<u8>, p: int) -> Option<(Seq<u8>, int)> {
    let hex_start = p + "0x".spec_bytes().len();
    let quote = "\"".spec_bytes();
    if tag_at(s, p, "0x".spec_bytes()) && spec_from_hex(
        s.subrange(hex_start, run_end(s, hex_start, ByteClass::HexDigit)),
    ) is Some {
        let e = run_end(s, hex_start, ByteClass::HexDigit);
        Some((spec_from_hex(s.subrange(hex_start, e))->0, e))
    } else if tag_at(s, p, quote) && find(s, p + quote.len(), quote) is Some {
        let i = find(s, p + quote.len(), quote)->0;
        Some((s.subrange(p + quote.len(), i), i + quote.len()))
    } else {
        None
    }
}

/// A byte literal at `pos`.
pub fn binary_v(input: &[u8], pos: usize) -> (r: Option<(Vec<u8>, usize)>)
    requires
        pos <= input@.len(),
    ensures
        lift_view(r) == spec_binary_v(input@, pos as int),
        r matches Some((_, q)) ==> pos <= q <= input@.len(),
{
    proof {
        crate::lexer::lemma_len_fits(input);
    }
    let prefix = "0x".as_bytes();
    if tag(input, pos, prefix) {
        let start = pos + prefix.len();
        let e = scan(input, start, ByteClass::HexDigit);
        let digits = slice_subrange(input, start, e);
        match from_hex(digits) {
            Some(b) => {
                return Some((b, e));
            },
            None => {},
        }
    }
    let quote = "\"".as_bytes();
    if tag(input, pos, quote) {
        let start = pos + quote.len();
        match find_tag(input, start, quote) {
            Some(i) => {
                let text = slice_subrange(input, start, i);
                return Some((slice_to_vec(text), i + quote.len()));
            },
            None => {},
        }
    }
    None
}

/// Relies on `String::from_utf8`: it succeeds exactly on valid UTF-8, and the
/// string holds the characters that the bytes encode.
#[verifier::external_body]
fn utf8_string(b: Vec<u8>) -> (r: Option<String>)
    ensures
        r is Some <==> valid_utf8(b@),
        r matches Some(t) ==> t@ == decode_utf8(b@),
{
    String::from_utf8(b).ok()
}

/// A byte literal whose bytes are UTF-8 text.
pub open spec fn spec_string_v(s: Seq<u8>, p: int) -> Option<(Seq<char>, int)> {
    match spec_binary_v(s, p) {
        Some((b, q)) => if valid_utf8(b) {
            Some((decode_utf8(b), q))
        } else {
            None
        },
        None => None,
    }
}

/// A byte literal at `pos` whose bytes are UTF-8 text, as a string.
pub fn string_v(input: &[u8], pos: usize) -> (r: Option<(String, usize)>)
    requires
        pos <= input@.len(),
    ensures
        lift_view(r) == spec_string_v(input@, pos as int),
        r matches Some((_, q)) ==> pos <= q <= input@.len(),
{
    match binary_v(input, pos) {
        Some((b, q)) => match utf8_string(b) {
            Some(t) => Some((t, q)),
            None => None,
        },
        None => None,
    }
}

} // verus!
