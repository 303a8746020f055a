use vstd::prelude::*;

use crate::lexer::{is_digit, lift, run_end, scan, span, ByteClass, Span};

verus! {

/// The value of the decimal digits `s[i..e]`.
pub open spec fn dec_value(s: Seq<u8>, i: int, e: int) -> nat
    decreases e - i,
{
    if e <= i {
        0
    } else {
        dec_value(s, i, e - 1) * 10 + (s[e - 1] - 48) as nat
    }
}

pub open spec fn all_digits(s: Seq<u8>, i: int, e: int) -> bool {
    forall|j: int| i <= j < e ==> is_digit(#[trigger] s[j])
}

pub open spec fn pow10(k: nat) -> nat
    decreases k,
{
    if k == 0 {
        1
    } else {
        10 * pow10((k - 1) as nat)
    }
}

/// `n` digits stand for less than `10^n`.
pub proof fn lemma_dec_value_bound(s: Seq<u8>, i: int, e: int)
    requires
        i <= e,
        all_digits(s, i, e),
    ensures
        dec_value(s, i, e) < pow10((e - i) as nat),
    decreases e - i,
{
    if i < e {
        lemma_dec_value_bound(s, i, e - 1);
        let a = dec_value(s, i, e - 1);
        let b = pow10((e - 1 - i) as nat);
        assert(is_digit(s[e - 1]));
        assert(a * 10 + 9 < b * 10) by (nonlinear_arith)
            requires
                a < b,
        ;
    }
}

proof fn lemma_dec_value_step(s: Seq<u8>, i: int, e: int)
    requires
        i < e,
        is_digit(s[e - 1]),
    ensures
        dec_value(s, i, e) >= dec_value(s, i, e - 1),
        dec_value(s, i, e) == dec_value(s, i, e - 1) * 10 + (s[e - 1] - 48),
{
}

/// The value of the digits `input[i..e]`, or `None` where it exceeds `limit`.
pub(crate) fn digits_value(input: &[u8], i: usize, e: usize, limit: u64) -> (r: Option<u64>)
    requires
        i <= e <= input@.len(),
        all_digits(input@, i as int, e as int),
    ensures
        match r {
            Some(v) => v == dec_value(input@, i as int, e as int) && v <= limit,
            None => dec_value(input@, i as int, e as int) > limit,
        },
{
    let mut acc: u64 = 0;
    let mut over = false;
    let mut j: usize = i;
    while j < e
        invariant
            i <= j <= e <= input@.len(),
            all_digits(input@, i as int, e as int),
            !over ==> acc == dec_value(input@, i as int, j as int) && acc <= limit,
            over ==> dec_value(input@, i as int, j as int) > limit,
        decreases e - j,
    {
        let d = input[j] - 48;
        proof {
            lemma_dec_value_step(input@, i as int, j + 1);
        }
        if !over {
            let next: u128 = acc as u128 * 10 + d as u128;
            if next > limit as u128 {
                over = true;
            } else {
                acc = next as u64;
            }
        }
        j = j + 1;
    }
    if over {
        None
    } else {
        Some(acc)
    }
}

/// An unsigned decimal: the longest digit run, which must be non-empty and fit
/// in 64 bits.
pub open spec fn spec_uint_v(s: Seq<u8>, p: int) -> Option<(u64, int)> {
    let e = run_end(s, p, ByteClass::Digit);
    if p < e && dec_value(s, p, e) <= u64::MAX {
        Some((dec_value(s, p, e) as u64, e))
    } else {
        None
    }
}

/// An unsigned 64-bit decimal at `pos`.
pub fn uint_v(input: &[u8], pos: usize) -> (r: Option<(u64, usize)>)
    requires
        pos <= input@.len(),
    ensures
        lift(r) == spec_uint_v(input@, pos as int),
        r matches Some((_, q)) ==> pos < q <= input@.len(),
{
    let e = scan(input, pos, ByteClass::Digit);
    proof {
        crate::lexer::lemma_run_end(input@, pos as int, ByteClass::Digit);
    }
    if e == pos {
        return None;
    }
    match digits_value(input, pos, e, u64::MAX) {
        Some(v) => Some((v, e)),
        None => None,
    }
}

/// A signed decimal: the longest run of digits and `-`, which must be one
/// optional leading `-` and a non-empty digit run, and fit in 64 bits.
pub open spec fn spec_int_v(s: Seq<u8>, p: int) -> Option<(i64, int)> {
    let e = run_end(s, p, ByteClass::IntChar);
    if p < e && s[p] == 45 {
        if p + 1 < e && all_digits(s, p + 1, e) && dec_value(s, p + 1, e) <= 0x8000_0000_0000_0000 {
            Some(((0 - dec_value(s, p + 1, e)) as i64, e))
        } else {
            None
        }
    } else if p < e && all_digits(s, p, e) && dec_value(s, p, e) <= i64::MAX {
        Some((dec_value(s, p, e) as i64, e))
    } else {
        None
    }
}

fn find_minus(input: &[u8], i: usize, e: usize) -> (r: bool)
    requires
        i <= e <= input@.len(),
        forall|j: int| i <= j < e ==> is_digit(#[trigger] input@[j]) || input@[j] == 45,
    ensures
        r == !all_digits(input@, i as int, e as int),
{
    let mut j: usize = i;
    while j < e
        invariant
            i <= j <= e <= input@.len(),
            forall|k: int| i <= k < e ==> is_digit(#[trigger] input@[k]) || input@[k] == 45,
            all_digits(input@, i as int, j as int),
        decreases e - j,
    {
        if input[j] == 45 {
            return true;
        }
        j = j + 1;
    }
    false
}

/// A signed 64-bit decimal at `pos`.
pub fn int_v(input: &[u8], pos: usize) -> (r: Option<(i64, usize)>)
    requires
        pos <= input@.len(),
    ensures
        lift(r) == spec_int_v(input@, pos as int),
        r matches Some((_, q)) ==> pos < q <= input@.len(),
{
    let e = scan(input, pos, ByteClass::IntChar);
    proof {
        crate::lexer::lemma_run_end(input@, pos as int, ByteClass::IntChar);
    }
    if e == pos {
        return None;
    }
    if input[pos] == 45 {
        if e == pos + 1 || find_minus(input, pos + 1, e) {
            return None;
        }
        match digits_value(input, pos + 1, e, 0x8000_0000_0000_0000) {
            Some(v) => {
                let n: i64 = if v == 0x8000_0000_0000_0000 {
                    i64::MIN
                } else {
                    0 - (v as i64)
                };
                Some((n, e))
            },
            None => None,
        }
    } else {
        if find_minus(input, pos, e) {
            return None;
        }
        match digits_value(input, pos, e, i64::MAX as u64) {
            Some(v) => Some((v as i64, e)),
            None => None,
        }
    }
}

/// Where an optional `+` or `-` at `i` ends, within `..e`.
pub open spec fn after_sign(s: Seq<u8>, i: int, e: int) -> int {
    if i < e && (s[i] == 43 || s[i] == 45) {
        i + 1
    } else {
        i
    }
}

/// `s[i..e]` is decimal floating-point text in the syntax that std's `f64`
/// parser accepts, restricted to the bytes `0-9 - + . e`: a sign, digits with
/// an optional point (at least one digit in all), and an optional exponent.
pub open spec fn float_syntax(s: Seq<u8>, i: int, e: int) -> bool {
    let a = after_sign(s, i, e);
    let b = run_end(s, a, ByteClass::Digit);
    let c = if b < e && s[b] == 46 {
        run_end(s, b + 1, ByteClass::Digit)
    } else {
        b
    };
    let n_digits = if b < e && s[b] == 46 {
        (b - a) + (c - (b + 1))
    } else {
        b - a
    };
    let f = if c < e && s[c] == 101 {
        let g = after_sign(s, c + 1, e);
        if run_end(s, g, ByteClass::Digit) > g {
            run_end(s, g, ByteClass::Digit)
        } else {
            -1
        }
    } else {
        c
    };
    n_digits > 0 && f == e
}

/// A float literal: the longest run of `0-9 - + . e`, which must be float text.
/// The span holds that text; turning it into a number is left to the caller.
pub open spec fn spec_float_v(s: Seq<u8>, p: int) -> Option<(Span, int)> {
    let e = run_end(s, p, ByteClass::FloatChar);
    if float_syntax(s, p, e) {
        Some((span(p, e), e))
    } else {
        None
    }
}

/// A float literal at `pos`.
pub fn float_v(input: &[u8], pos: usize) -> (r: Option<(Span, usize)>)
    requires
        pos <= input@.len(),
    ensures
        lift(r) == spec_float_v(input@, pos as int),
        r matches Some((sp, q)) ==> sp.start == pos && sp.end == q && pos < q <= input@.len(),
{
    let e = scan(input, pos, ByteClass::FloatChar);
    proof {
        crate::lexer::lemma_run_end(input@, pos as int, ByteClass::FloatChar);
    }
    let a = if pos < e && (input[pos] == 43 || input[pos] == 45) {
        pos + 1
    } else {
        pos
    };
    let b = scan(input, a, ByteClass::Digit);
    let point = b < e && input[b] == 46;
    let c = if point {
        scan(input, b + 1, ByteClass::Digit)
    } else {
        b
    };
    let n_digits = if point {
        (b - a) + (c - (b + 1))
    } else {
        b - a
    };
    let f_ok = if c < e && input[c] == 101 {
        let g = if c + 1 < e && (input[c + 1] == 43 || input[c + 1] == 45) {
            c + 2
        } else {
            c + 1
        };
        let h = scan(input, g, ByteClass::Digit);
        h > g && h == e
    } else {
        c == e
    };
    if n_digits > 0 && f_ok {
        Some((Span { start: pos, end: e }, e))
    } else {
        None
    }
}

} // verus!
