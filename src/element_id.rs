use vstd::prelude::*;

use crate::bytes::hex_val;
use crate::lexer::{is_hex_digit, lift, run_end, scan, ByteClass};

verus! {

/// An element tag, held in its encoded form: marker bit and value bits.
#[derive(Clone, Copy, Debug, PartialEq, Eq, Structural)]
pub struct ElementId {
    pub encoded: u32,
}

/// The four tag classes, by encoded length in bytes.
#[derive(Clone, Copy, Debug, PartialEq, Eq, Structural)]
pub enum IdClass {
    A,
    B,
    C,
    D,
}

/// The class of an encoded tag: the marker bit is the top bit of its shortest
/// big-endian form, and the value bits below it are not all ones.
pub open spec fn id_class(v: u32) -> Option<IdClass> {
    if 0x80 <= v <= 0xFE {
        Some(IdClass::A)
    } else if 0x4000 <= v <= 0x7FFE {
        Some(IdClass::B)
    } else if 0x20_0000 <= v <= 0x3F_FFFE {
        Some(IdClass::C)
    } else if 0x1000_0000 <= v <= 0x1FFF_FFFE {
        Some(IdClass::D)
    } else {
        None
    }
}

impl ElementId {
    pub open spec fn valid(self) -> bool {
        id_class(self.encoded) is Some
    }

    /// The tag whose encoded form is `v`, where `v` is in one of the classes.
    pub fn from_encoded(v: u32) -> (r: Option<ElementId>)
        ensures
            r is Some <==> id_class(v) is Some,
            r matches Some(id) ==> id.encoded == v,
    {
        if (0x80 <= v && v <= 0xFE) || (0x4000 <= v && v <= 0x7FFE) || (0x20_0000 <= v && v
            <= 0x3F_FFFE) || (0x1000_0000 <= v && v <= 0x1FFF_FFFE) {
            Some(ElementId { encoded: v })
        } else {
            None
        }
    }

    /// The one-byte tag with 7 value bits `v`.
    pub fn new_class_a(v: u32) -> (r: Option<ElementId>)
        ensures
            r is Some <==> v < 0x7F,
            r matches Some(id) ==> id.encoded == 0x80 + v && id_class(id.encoded) == Some(IdClass::A),
    {
        if v < 0x7F {
            Some(ElementId { encoded: 0x80 + v })
        } else {
            None
        }
    }

    /// The two-byte tag with 14 value bits `v`.
    pub fn new_class_b(v: u32) -> (r: Option<ElementId>)
        ensures
            r is Some <==> v < 0x3FFF,
            r matches Some(id) ==> id.encoded == 0x4000 + v && id_class(id.encoded) == Some(IdClass::B),
    {
        if v < 0x3FFF {
            Some(ElementId { encoded: 0x4000 + v })
        } else {
            None
        }
    }

    /// The three-byte tag with 21 value bits `v`.
    pub fn new_class_c(v: u32) -> (r: Option<ElementId>)
        ensures
            r is Some <==> v < 0x1F_FFFF,
            r matches Some(id) ==> id.encoded == 0x20_0000 + v && id_class(id.encoded) == Some(IdClass::C),
    {
        if v < 0x1F_FFFF {
            Some(ElementId { encoded: 0x20_0000 + v })
        } else {
            None
        }
    }

    /// The four-byte tag with 28 value bits `v`.
    pub fn new_class_d(v: u32) -> (r: Option<ElementId>)
        ensures
            r is Some <==> v < 0x0FFF_FFFF,
            r matches Some(id) ==> id.encoded == 0x1000_0000 + v && id_class(id.encoded) == Some(IdClass::D),
    {
        if v < 0x0FFF_FFFF {
            Some(ElementId { encoded: 0x1000_0000 + v })
        } else {
            None
        }
    }
}

/// The value of the hex digits `s[i..e]`.
pub open spec fn hex_value(s: Seq<u8>, i: int, e: int) -> nat
    decreases e - i,
{
    if e <= i {
        0
    } else {
        hex_value(s, i, e - 1) * 16 + hex_val(s[e - 1]) as nat
    }
}

/// An element tag: a non-empty run of hex digits whose value fits in 32 bits
/// and lies in one of the tag classes.
pub open spec fn spec_id(s: Seq<u8>, p: int) -> Option<(ElementId, int)> {
    let e = run_end(s, p, ByteClass::HexDigit);
    if p < e && hex_value(s, p, e) <= u32::MAX && id_class(hex_value(s, p, e) as u32) is Some {
        Some((ElementId { encoded: hex_value(s, p, e) as u32 }, e))
    } else {
        None
    }
}

/// An element tag at `pos`, written in hex.
pub fn id(input: &[u8], pos: usize) -> (r: Option<(ElementId, usize)>)
    requires
        pos <= input@.len(),
    ensures
        lift(r) == spec_id(input@, pos as int),
{
    let e = scan(input, pos, ByteClass::HexDigit);
    proof {
        crate::lexer::lemma_run_end(input@, pos as int, ByteClass::HexDigit);
    }
    if e == pos {
        return None;
    }
    let mut acc: u64 = 0;
    let mut over = false;
    let mut j: usize = pos;
    while j < e
        invariant
            pos <= j <= e <= input@.len(),
            forall|k: int| pos <= k < e ==> is_hex_digit(#[trigger] input@[k]),
            !over ==> acc == hex_value(input@, pos as int, j as int) && acc <= u32::MAX,
            over ==> hex_value(input@, pos as int, j as int) > u32::MAX,
        decreases e - j,
    {
        let c = input[j];
        let d: u64 = if c <= 57 {
            (c - 48) as u64
        } else if c <= 70 {
            (c - 55) as u64
        } else {
            (c - 87) as u64
        };
        assert(d == hex_val(input@[j as int]));
        assert(hex_value(input@, pos as int, j + 1) == hex_value(input@, pos as int, j as int) * 16 + d);
        if !over {
            let next = acc * 16 + d;
            if next > u32::MAX as u64 {
                over = true;
            } else {
                acc = next;
            }
        }
        j = j + 1;
    }
    if over {
        return None;
    }
    match ElementId::from_encoded(acc as u32) {
        Some(t) => Some((t, e)),
        None => None,
    }
}

} // verus!
