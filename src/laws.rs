use vstd::prelude::*;
use vstd::string::StringSliceAdditionalSpecFns;

use crate::bytes::{hex_digits, hex_pairs, hex_val, spec_binary_v, spec_from_hex, spec_string_v};
use crate::decl::{update_v, NewTypeV};
use crate::element_id::{hex_value, id_class, spec_id};
use crate::lexer::{find, in_class, is_hex_digit, is_ident_start, is_space, run_end, span, spec_name, tag_at, ByteClass};
use crate::numbers::{dec_value, spec_int_v, spec_uint_v};
use crate::properties::PropertyV;

verus! {

/// An identifier followed by a byte that cannot continue it is parsed whole,
/// and parsing resumes at that byte.
pub proof fn lemma_identifier_longest_match(s: Seq<u8>, p: int, e: int)
    requires
        0 <= p < e <= s.len(),
        is_ident_start(s[p]),
        forall|i: int| p < i < e ==> in_class(ByteClass::Ident, #[trigger] s[i]),
        e == s.len() || !in_class(ByteClass::Ident, s[e]),
    ensures
        spec_name(s, p) == Some((span(p, e), e)),
{
    lemma_run_to(s, p + 1, e);
}

proof fn lemma_run_to(s: Seq<u8>, i: int, e: int)
    requires
        0 <= i <= e <= s.len(),
        forall|k: int| i <= k < e ==> in_class(ByteClass::Ident, #[trigger] s[k]),
        e == s.len() || !in_class(ByteClass::Ident, s[e]),
    ensures
        run_end(s, i, ByteClass::Ident) == e,
    decreases e - i,
{
    if i < e {
        lemma_run_to(s, i + 1, e);
    }
}

/// Hex text with an odd number of digits does not decode.
pub proof fn lemma_odd_hex_digits_fail(s: Seq<u8>)
    requires
        hex_digits(s).len() % 2 == 1,
    ensures
        spec_from_hex(s) is None,
{
}

/// Hex text with a byte that is neither a hex digit nor whitespace does not
/// decode.
pub proof fn lemma_non_hex_byte_fails(s: Seq<u8>, i: int)
    requires
        0 <= i < s.len(),
        !is_hex_digit(s[i]),
        !is_space(s[i]),
    ensures
        spec_from_hex(s) is None,
{
}

/// The lower-case hex digit of a nibble.
pub open spec fn hex_char(n: int) -> u8 {
    if n < 10 {
        (48 + n) as u8
    } else {
        (87 + n) as u8
    }
}

/// Bytes written as hex, two lower-case digits each, high nibble first.
pub open spec fn hex_encode(b: Seq<u8>) -> Seq<u8> {
    Seq::new(
        2 * b.len(),
        |i: int|
            if i % 2 == 0 {
                hex_char(b[i / 2] as int / 16)
            } else {
                hex_char(b[i / 2] as int % 16)
            },
    )
}

/// A hex digit in lower case.
pub open spec fn lower_hex(c: u8) -> u8 {
    if 65 <= c <= 70 {
        (c + 32) as u8
    } else {
        c
    }
}

proof fn lemma_hex_char_val(c: u8)
    requires
        is_hex_digit(c),
    ensures
        0 <= hex_val(c) < 16,
        hex_char(hex_val(c)) == lower_hex(c),
{
}

/// Decoding hex text and writing the bytes back as hex gives its digits
/// again, in lower case and without the whitespace: no digit is lost.
pub proof fn lemma_hex_round_trip(s: Seq<u8>)
    requires
        spec_from_hex(s) is Some,
    ensures
        hex_encode(spec_from_hex(s)->0) == hex_digits(s).map_values(|c: u8| lower_hex(c)),
{
    let d = hex_digits(s);
    let b = hex_pairs(d);
    crate::bytes::lemma_hex_digits(s);
    assert forall|i: int| 0 <= i < 2 * b.len() implies #[trigger] hex_encode(b)[i] == lower_hex(d[i]) by {
        let k = i / 2;
        assert(0 <= k < b.len());
        let hi = hex_val(d[2 * k]);
        let lo = hex_val(d[2 * k + 1]);
        lemma_hex_char_val(d[2 * k]);
        lemma_hex_char_val(d[2 * k + 1]);
        assert(b[k] == hi * 16 + lo);
        assert((hi * 16 + lo) / 16 == hi && (hi * 16 + lo) % 16 == lo) by (nonlinear_arith)
            requires
                0 <= hi < 16,
                0 <= lo < 16,
        ;
        if i % 2 == 0 {
            assert(i == 2 * k);
        } else {
            assert(i == 2 * k + 1);
        }
    }
    assert(hex_encode(b) =~= d.map_values(|c: u8| lower_hex(c)));
}

proof fn lemma_no_quote(s: Seq<u8>, i: int, t: Seq<u8>)
    requires
        0 <= i,
        t == seq![34u8],
        forall|k: int| i <= k < s.len() ==> s[k] != 34,
    ensures
        find(s, i, t) is None,
    decreases s.len() - i,
{
    if i < s.len() {
        assert(s.subrange(i, i + 1)[0] == s[i]);
        lemma_no_quote(s, i + 1, t);
    }
}

/// A literal that opens a double quote and never closes it does not parse,
/// neither as bytes nor as text.
pub proof fn lemma_unterminated_quote_fails(s: Seq<u8>, p: int)
    requires
        0 <= p < s.len(),
        s[p] == 34,
        forall|k: int| p < k < s.len() ==> s[k] != 34,
    ensures
        spec_binary_v(s, p) is None,
        spec_string_v(s, p) is None,
{
    reveal_strlit("\"");
    reveal_strlit("0x");
    vstd::string::is_ascii_spec_bytes("\"");
    vstd::string::is_ascii_spec_bytes("0x");
    let quote = "\"".spec_bytes();
    assert(quote =~= seq![34u8]);
    assert("0x".spec_bytes() =~= seq![48u8, 120u8]);
    if tag_at(s, p, "0x".spec_bytes()) {
        assert(s.subrange(p, p + 2)[0] == s[p]);
    }
    lemma_no_quote(s, p + 1, quote);
}

/// A run of decimal digits whose value exceeds 64 bits is no unsigned
/// integer.
pub proof fn lemma_uint_overflow_fails(s: Seq<u8>, p: int)
    requires
        dec_value(s, p, run_end(s, p, ByteClass::Digit)) > u64::MAX,
    ensures
        spec_uint_v(s, p) is None,
{
}

/// A run of decimal digits whose value exceeds 63 bits is no signed integer.
pub proof fn lemma_int_overflow_fails(s: Seq<u8>, p: int)
    requires
        0 <= p < run_end(s, p, ByteClass::IntChar),
        s[p] != 45,
        dec_value(s, p, run_end(s, p, ByteClass::IntChar)) > i64::MAX,
    ensures
        spec_int_v(s, p) is None,
{
}

/// Hex digits whose value lies in none of the tag classes are no element tag.
pub proof fn lemma_id_outside_classes_fails(s: Seq<u8>, p: int)
    requires
        id_class(hex_value(s, p, run_end(s, p, ByteClass::HexDigit)) as u32) is None,
    ensures
        spec_id(s, p) is None,
{
}

/// Two properties for the same slot of a declaration: the later one wins.
pub proof fn lemma_last_property_wins(nt: NewTypeV, earlier: PropertyV, later: PropertyV)
    requires
        (earlier is IntDefault && later is IntDefault) || (earlier is IntRange && later is IntRange) || (
        earlier is UintDefault && later is UintDefault) || (earlier is UintRange && later is UintRange),
    ensures
        update_v(update_v(nt, earlier), later) == update_v(nt, later),
{
}

/// A default and a range fill different slots: their order does not matter.
pub proof fn lemma_default_and_range_independent(nt: NewTypeV, d: PropertyV, r: PropertyV)
    requires
        (d is IntDefault && r is IntRange) || (d is UintDefault && r is UintRange),
    ensures
        update_v(update_v(nt, d), r) == update_v(update_v(nt, r), d),
{
}

} // verus!
