use vstd::prelude::*;
use vstd::string::StringSliceAdditionalSpecFns;

use crate::date::{date_v, spec_date_v, DateTime};
use crate::lexer::{dots, dots_bytes, lift, lift_view, name, or_else, sep_end, separator, spec_name, tag, tag_at, Span};
use crate::numbers::{float_v, int_v, spec_float_v, spec_int_v, spec_uint_v, uint_v};

verus! {

/// An item of a comma-separated list, with its grammar.
pub trait ListItem: Sized + Copy {
    spec fn spec_item(s: Seq<u8>, p: int) -> Option<(Self, int)>;

    fn parse_item(input: &[u8], pos: usize) -> (r: Option<(Self, usize)>)
        requires
            pos <= input@.len(),
        ensures
            lift(r) == Self::spec_item(input@, pos as int),
            r matches Some((_, q)) ==> pos <= q <= input@.len(),
    ;
}

/// The items that follow one ending at `q`: each is a comma between
/// separators and an item; the list ends before the first comma that is not
/// followed by an item.
pub open spec fn spec_more<T: ListItem>(s: Seq<u8>, q: int) -> (Seq<T>, int)
    decreases s.len() - q,
{
    let c = sep_end(s, q);
    if 0 <= q && 0 <= c < s.len() && s[c] == 44 {
        match T::spec_item(s, sep_end(s, c + 1)) {
            Some((v, q2)) => if q < q2 <= s.len() {
                (seq![v] + spec_more::<T>(s, q2).0, spec_more::<T>(s, q2).1)
            } else {
                (seq![], q)
            },
            None => (seq![], q),
        }
    } else {
        (seq![], q)
    }
}

/// A non-empty comma-separated list of items.
pub open spec fn spec_list<T: ListItem>(s: Seq<u8>, p: int) -> Option<(Seq<T>, int)> {
    match T::spec_item(s, p) {
        Some((v, q)) => Some((seq![v] + spec_more::<T>(s, q).0, spec_more::<T>(s, q).1)),
        None => None,
    }
}

/// A non-empty comma-separated list of items at `pos`.
pub fn list<T: ListItem>(input: &[u8], pos: usize) -> (r: Option<(Vec<T>, usize)>)
    requires
        pos <= input@.len(),
    ensures
        lift_view(r) == spec_list::<T>(input@, pos as int),
        r matches Some((_, q)) ==> pos <= q <= input@.len(),
{
    let (first, q0) = match T::parse_item(input, pos) {
        Some(x) => x,
        None => {
            return None;
        },
    };
    let mut items: Vec<T> = Vec::new();
    items.push(first);
    let mut q = q0;
    assert(items@ =~= seq![first]);
    loop
        invariant
            pos <= q <= input@.len(),
            spec_list::<T>(input@, pos as int) == Some(
                (items@ + spec_more::<T>(input@, q as int).0, spec_more::<T>(input@, q as int).1),
            ),
        ensures
            pos <= q <= input@.len(),
            spec_list::<T>(input@, pos as int) == Some(
                (items@ + spec_more::<T>(input@, q as int).0, spec_more::<T>(input@, q as int).1),
            ),
            spec_more::<T>(input@, q as int).0 == Seq::<T>::empty(),
            spec_more::<T>(input@, q as int).1 == q,
        decreases input@.len() - q,
    {
        let c = separator(input, q);
        if c >= input.len() || input[c] != 44 {
            break;
        }
        let c2 = separator(input, c + 1);
        match T::parse_item(input, c2) {
            Some((v, q2)) => {
                let ghost old_items = items@;
                assert(spec_more::<T>(input@, q as int).0 =~= seq![v] + spec_more::<T>(input@, q2 as int).0);
                items.push(v);
                assert(old_items + spec_more::<T>(input@, q as int).0 =~= items@ + spec_more::<T>(input@, q2 as int).0);
                q = q2;
            },
            None => {
                break;
            },
        }
    }
    assert(items@ + spec_more::<T>(input@, q as int).0 =~= items@);
    Some((items, q))
}

/// `keyword sep : sep` at `p`: where what follows it starts.
pub open spec fn spec_prefix(s: Seq<u8>, p: int, kw: Seq<u8>) -> Option<int> {
    if tag_at(s, p, kw) && 0 <= sep_end(s, p + kw.len()) < s.len() && s[sep_end(s, p + kw.len())] == 58 {
        Some(sep_end(s, sep_end(s, p + kw.len()) + 1))
    } else {
        None
    }
}

/// `sep ;` at `q`: where it ends.
pub open spec fn spec_terminator(s: Seq<u8>, q: int) -> Option<int> {
    if 0 <= sep_end(s, q) < s.len() && s[sep_end(s, q)] == 59 {
        Some(sep_end(s, q) + 1)
    } else {
        None
    }
}

pub fn prefix(input: &[u8], pos: usize, kw: &[u8]) -> (r: Option<usize>)
    requires
        pos <= input@.len(),
    ensures
        crate::lexer::lift_pos(r) == spec_prefix(input@, pos as int, kw@),
        r matches Some(q) ==> pos <= q <= input@.len(),
{
    let n = input.len();
    if !tag(input, pos, kw) {
        return None;
    }
    let a = separator(input, pos + kw.len());
    if a < n && input[a] == 58 {
        Some(separator(input, a + 1))
    } else {
        None
    }
}

pub fn terminator(input: &[u8], pos: usize) -> (r: Option<usize>)
    requires
        pos <= input@.len(),
    ensures
        crate::lexer::lift_pos(r) == spec_terminator(input@, pos as int),
        r matches Some(q) ==> pos < q <= input@.len(),
{
    let a = separator(input, pos);
    if a < input.len() && input[a] == 59 {
        Some(a + 1)
    } else {
        None
    }
}

/// `keyword : body ;`, given what the body parser returns where it starts.
pub open spec fn spec_statement<T>(s: Seq<u8>, p: int, kw: Seq<u8>, body: spec_fn(int) -> Option<(T, int)>) -> Option<(T, int)> {
    match spec_prefix(s, p, kw) {
        Some(a) => match body(a) {
            Some((v, b)) => match spec_terminator(s, b) {
                Some(e) => Some((v, e)),
                None => None,
            },
            None => None,
        },
        None => None,
    }
}

impl ListItem for Span {
    open spec fn spec_item(s: Seq<u8>, p: int) -> Option<(Span, int)> {
        spec_name(s, p)
    }

    fn parse_item(input: &[u8], pos: usize) -> (r: Option<(Span, usize)>) {
        name(input, pos)
    }
}

/// A non-empty comma-separated list of identifiers.
pub fn parents(input: &[u8], pos: usize) -> (r: Option<(Vec<Span>, usize)>)
    requires
        pos <= input@.len(),
    ensures
        lift_view(r) == spec_list::<Span>(input@, pos as int),
{
    list::<Span>(input, pos)
}

/// `parent : name, name ... ;`
pub open spec fn spec_parent(s: Seq<u8>, p: int) -> Option<(Seq<Span>, int)> {
    spec_statement(s, p, "parent".spec_bytes(), |a: int| spec_list::<Span>(s, a))
}

/// The parents an element may have.
pub fn parent(input: &[u8], pos: usize) -> (r: Option<(Vec<Span>, usize)>)
    requires
        pos <= input@.len(),
    ensures
        lift_view(r) == spec_parent(input@, pos as int),
{
    let a = match prefix(input, pos, "parent".as_bytes()) {
        Some(a) => a,
        None => {
            return None;
        },
    };
    let (v, b) = match list::<Span>(input, a) {
        Some(x) => x,
        None => {
            return None;
        },
    };
    match terminator(input, b) {
        Some(e) => Some((v, e)),
        None => None,
    }
}

/// The nesting levels at which an element may occur, bounds included.
#[derive(Clone, Copy, Debug, PartialEq, Eq, Structural)]
pub enum Level {
    Open { start: u64 },
    Bounded { start: u64, end: u64 },
}

/// `start..` or `start..end`.
pub open spec fn spec_level_body(s: Seq<u8>, a: int) -> Option<(Level, int)> {
    match spec_uint_v(s, a) {
        Some((start, b)) => if tag_at(s, b, dots()) {
            match spec_uint_v(s, b + 2) {
                Some((end, c)) => Some((Level::Bounded { start, end }, c)),
                None => Some((Level::Open { start }, b + 2)),
            }
        } else {
            None
        },
        None => None,
    }
}

/// `level : start..[end] ;`
pub open spec fn spec_level(s: Seq<u8>, p: int) -> Option<(Level, int)> {
    spec_statement(s, p, "level".spec_bytes(), |a: int| spec_level_body(s, a))
}

fn level_body(input: &[u8], a: usize) -> (r: Option<(Level, usize)>)
    requires
        a <= input@.len(),
    ensures
        lift(r) == spec_level_body(input@, a as int),
        r matches Some((_, q)) ==> a <= q <= input@.len(),
{
    proof {
        crate::lexer::lemma_len_fits(input);
    }
    let (start, b) = match uint_v(input, a) {
        Some(x) => x,
        None => {
            return None;
        },
    };
    if !tag(input, b, dots_bytes()) {
        return None;
    }
    match uint_v(input, b + 2) {
        Some((end, c)) => Some((Level::Bounded { start, end }, c)),
        None => Some((Level::Open { start }, b + 2)),
    }
}

/// The nesting levels of an element.
pub fn level(input: &[u8], pos: usize) -> (r: Option<(Level, usize)>)
    requires
        pos <= input@.len(),
    ensures
        lift(r) == spec_level(input@, pos as int),
{
    let a = match prefix(input, pos, "level".as_bytes()) {
        Some(a) => a,
        None => {
            return None;
        },
    };
    let (v, b) = match level_body(input, a) {
        Some(x) => x,
        None => {
            return None;
        },
    };
    match terminator(input, b) {
        Some(e) => Some((v, e)),
        None => None,
    }
}

/// How many times an element may occur in its parent.
#[derive(Clone, Copy, Debug, PartialEq, Eq, Structural)]
pub enum Cardinality {
    ZeroOrOne,
    ExactlyOne,
    ZeroOrMany,
    OneOrMany,
}

/// One of the symbols `*`, `?`, `1`, `+`.
pub open spec fn spec_card_symbol(s: Seq<u8>, a: int) -> Option<(Cardinality, int)> {
    if 0 <= a < s.len() && s[a] == 42 {
        Some((Cardinality::ZeroOrMany, a + 1))
    } else if 0 <= a < s.len() && s[a] == 63 {
        Some((Cardinality::ZeroOrOne, a + 1))
    } else if 0 <= a < s.len() && s[a] == 49 {
        Some((Cardinality::ExactlyOne, a + 1))
    } else if 0 <= a < s.len() && s[a] == 43 {
        Some((Cardinality::OneOrMany, a + 1))
    } else {
        None
    }
}

/// `card : symbol ;`
pub open spec fn spec_cardinality(s: Seq<u8>, p: int) -> Option<(Cardinality, int)> {
    spec_statement(s, p, "card".spec_bytes(), |a: int| spec_card_symbol(s, a))
}

/// The cardinality of an element.
pub fn cardinality(input: &[u8], pos: usize) -> (r: Option<(Cardinality, usize)>)
    requires
        pos <= input@.len(),
    ensures
        lift(r) == spec_cardinality(input@, pos as int),
{
    let a = match prefix(input, pos, "card".as_bytes()) {
        Some(a) => a,
        None => {
            return None;
        },
    };
    if a >= input.len() {
        return None;
    }
    let c = if input[a] == 42 {
        Cardinality::ZeroOrMany
    } else if input[a] == 63 {
        Cardinality::ZeroOrOne
    } else if input[a] == 49 {
        Cardinality::ExactlyOne
    } else if input[a] == 43 {
        Cardinality::OneOrMany
    } else {
        return None;
    };
    match terminator(input, a + 1) {
        Some(e) => Some((c, e)),
        None => None,
    }
}

/// An item of a range of signed integers; bounds are included.
#[derive(Clone, Copy, Debug, PartialEq, Eq, Structural)]
pub enum IntRangeItem {
    Single(i64),
    Bounded { start: i64, end: i64 },
    From { start: i64 },
    To { end: i64 },
}

/// `a..b`, `a..`, `..b` or `a`, tried in that order.
pub open spec fn spec_int_item(s: Seq<u8>, p: int) -> Option<(IntRangeItem, int)> {
    let bounded = match spec_int_v(s, p) {
        Some((a, b)) => if tag_at(s, b, dots()) {
            match spec_int_v(s, b + 2) {
                Some((c, d)) => Some((IntRangeItem::Bounded { start: a, end: c }, d)),
                None => None,
            }
        } else {
            None
        },
        None => None,
    };
    let from = match spec_int_v(s, p) {
        Some((a, b)) => if tag_at(s, b, dots()) {
            Some((IntRangeItem::From { start: a }, b + 2))
        } else {
            None
        },
        None => None,
    };
    let to = if tag_at(s, p, dots()) {
        match spec_int_v(s, p + 2) {
            Some((c, d)) => Some((IntRangeItem::To { end: c }, d)),
            None => None,
        }
    } else {
        None
    };
    let single = match spec_int_v(s, p) {
        Some((a, b)) => Some((IntRangeItem::Single(a), b)),
        None => None,
    };
    or_else(bounded, or_else(from, or_else(to, single)))
}

impl ListItem for IntRangeItem {
    open spec fn spec_item(s: Seq<u8>, p: int) -> Option<(IntRangeItem, int)> {
        spec_int_item(s, p)
    }

    fn parse_item(input: &[u8], pos: usize) -> (r: Option<(IntRangeItem, usize)>) {
        proof {
            crate::lexer::lemma_len_fits(input);
        }
        let dots = dots_bytes();
        match int_v(input, pos) {
            Some((a, b)) => {
                if tag(input, b, dots) {
                    match int_v(input, b + 2) {
                        Some((c, d)) => {
                            return Some((IntRangeItem::Bounded { start: a, end: c }, d));
                        },
                        None => {
                            return Some((IntRangeItem::From { start: a }, b + 2));
                        },
                    }
                }
            },
            None => {},
        }
        if tag(input, pos, dots) {
            match int_v(input, pos + 2) {
                Some((c, d)) => {
                    return Some((IntRangeItem::To { end: c }, d));
                },
                None => {},
            }
        }
        match int_v(input, pos) {
            Some((a, b)) => Some((IntRangeItem::Single(a), b)),
            None => None,
        }
    }
}

/// An item of a range of unsigned integers; bounds are included.
#[derive(Clone, Copy, Debug, PartialEq, Eq, Structural)]
pub enum UintRangeItem {
    Single(u64),
    Bounded { start: u64, end: u64 },
    From { start: u64 },
    To { end: u64 },
}

/// `a..b`, `a..` or `a`, tried in that order.
pub open spec fn spec_uint_item(s: Seq<u8>, p: int) -> Option<(UintRangeItem, int)> {
    let bounded = match spec_uint_v(s, p) {
        Some((a, b)) => if tag_at(s, b, dots()) {
            match spec_uint_v(s, b + 2) {
                Some((c, d)) => Some((UintRangeItem::Bounded { start: a, end: c }, d)),
                None => None,
            }
        } else {
            None
        },
        None => None,
    };
    let from = match spec_uint_v(s, p) {
        Some((a, b)) => if tag_at(s, b, dots()) {
            Some((UintRangeItem::From { start: a }, b + 2))
        } else {
            None
        },
        None => None,
    };
    let single = match spec_uint_v(s, p) {
        Some((a, b)) => Some((UintRangeItem::Single(a), b)),
        None => None,
    };
    or_else(bounded, or_else(from, single))
}

impl ListItem for UintRangeItem {
    open spec fn spec_item(s: Seq<u8>, p: int) -> Option<(UintRangeItem, int)> {
        spec_uint_item(s, p)
    }

    fn parse_item(input: &[u8], pos: usize) -> (r: Option<(UintRangeItem, usize)>) {
        proof {
            crate::lexer::lemma_len_fits(input);
        }
        match uint_v(input, pos) {
            Some((a, b)) => {
                if tag(input, b, dots_bytes()) {
                    match uint_v(input, b + 2) {
                        Some((c, d)) => Some((UintRangeItem::Bounded { start: a, end: c }, d)),
                        None => Some((UintRangeItem::From { start: a }, b + 2)),
                    }
                } else {
                    Some((UintRangeItem::Single(a), b))
                }
            },
            None => None,
        }
    }
}

/// An item of a range of floats, each bound included or not. Bounds are
/// float literals, held as the spans of their text.
#[derive(Clone, Copy, Debug, PartialEq, Eq, Structural)]
pub enum FloatRangeItem {
    Bounded { start: Span, include_start: bool, end: Span, include_end: bool },
    From { start: Span, include_start: bool },
    To { end: Span, include_end: bool },
}

/// Past an optional `=` at `p`.
pub open spec fn after_eq(s: Seq<u8>, p: int) -> int {
    if 0 <= p < s.len() && s[p] == 61 {
        p + 1
    } else {
        p
    }
}

pub open spec fn byte_at(s: Seq<u8>, p: int, b: u8) -> bool {
    0 <= p < s.len() && s[p] == b
}

/// `a <[=] .. <[=] b`, `<[=] b` or `>[=] a`, tried in that order.
pub open spec fn spec_float_item(s: Seq<u8>, p: int) -> Option<(FloatRangeItem, int)> {
    let bounded = match spec_float_v(s, p) {
        Some((a, b)) => if byte_at(s, b, 60) && tag_at(s, after_eq(s, b + 1), dots())
            && byte_at(s, after_eq(s, b + 1) + 2, 60) {
            match spec_float_v(s, after_eq(s, after_eq(s, b + 1) + 3)) {
                Some((c, d)) => Some((FloatRangeItem::Bounded {
                    start: a,
                    include_start: byte_at(s, b + 1, 61),
                    end: c,
                    include_end: byte_at(s, after_eq(s, b + 1) + 3, 61),
                }, d)),
                None => None,
            }
        } else {
            None
        },
        None => None,
    };
    let to = if byte_at(s, p, 60) {
        match spec_float_v(s, after_eq(s, p + 1)) {
            Some((c, d)) => Some((FloatRangeItem::To { end: c, include_end: byte_at(s, p + 1, 61) }, d)),
            None => None,
        }
    } else {
        None
    };
    let from = if byte_at(s, p, 62) {
        match spec_float_v(s, after_eq(s, p + 1)) {
            Some((c, d)) => Some((FloatRangeItem::From { start: c, include_start: byte_at(s, p + 1, 61) }, d)),
            None => None,
        }
    } else {
        None
    };
    or_else(bounded, or_else(to, from))
}

fn skip_eq(input: &[u8], p: usize) -> (r: (bool, usize))
    requires
        p <= input@.len(),
    ensures
        r.0 == byte_at(input@, p as int, 61),
        r.1 == after_eq(input@, p as int),
        r.1 <= input@.len(),
{
    if p < input.len() && input[p] == 61 {
        (true, p + 1)
    } else {
        (false, p)
    }
}

/// `<[=] x` or `>[=] x` at `pos`, where `op` is the comparison byte.
fn float_bound(input: &[u8], pos: usize, op: u8) -> (r: Option<(Span, bool, usize)>)
    requires
        pos <= input@.len(),
    ensures
        match r {
            Some((c, inc, d)) => byte_at(input@, pos as int, op) && inc == byte_at(input@, pos + 1, 61)
                && spec_float_v(input@, after_eq(input@, pos + 1)) == Some((c, d as int))
                && pos < d <= input@.len(),
            None => !byte_at(input@, pos as int, op) || spec_float_v(input@, after_eq(input@, pos + 1)) is None,
        },
{
    if pos >= input.len() || input[pos] != op {
        return None;
    }
    let (inc, a) = skip_eq(input, pos + 1);
    match float_v(input, a) {
        Some((c, d)) => Some((c, inc, d)),
        None => None,
    }
}

impl ListItem for FloatRangeItem {
    open spec fn spec_item(s: Seq<u8>, p: int) -> Option<(FloatRangeItem, int)> {
        spec_float_item(s, p)
    }

    fn parse_item(input: &[u8], pos: usize) -> (r: Option<(FloatRangeItem, usize)>) {
        let n = input.len();
        match float_v(input, pos) {
            Some((a, b)) => {
                if b < n && input[b] == 60 {
                    let (include_start, e1) = skip_eq(input, b + 1);
                    if tag(input, e1, dots_bytes()) {
                        match float_bound(input, e1 + 2, 60) {
                            Some((c, include_end, d)) => {
                                return Some((FloatRangeItem::Bounded { start: a, include_start, end: c, include_end }, d));
                            },
                            None => {},
                        }
                    }
                }
            },
            None => {},
        }
        match float_bound(input, pos, 60) {
            Some((c, include_end, d)) => {
                return Some((FloatRangeItem::To { end: c, include_end }, d));
            },
            None => {},
        }
        match float_bound(input, pos, 62) {
            Some((c, include_start, d)) => Some((FloatRangeItem::From { start: c, include_start }, d)),
            None => None,
        }
    }
}

/// An item of a range of dates; bounds are included.
#[derive(Clone, Copy, Debug, PartialEq, Eq, Structural)]
pub enum DateRangeItem {
    Single(DateTime),
    Bounded { start: DateTime, end: DateTime },
    From { start: DateTime },
    To { end: DateTime },
}

/// `a..b`, `a..` or `..b`, tried in that order.
pub open spec fn spec_date_item(s: Seq<u8>, p: int) -> Option<(DateRangeItem, int)> {
    let bounded = match spec_date_v(s, p) {
        Some((a, b)) => if tag_at(s, b, dots()) {
            match spec_date_v(s, b + 2) {
                Some((c, d)) => Some((DateRangeItem::Bounded { start: a, end: c }, d)),
                None => None,
            }
        } else {
            None
        },
        None => None,
    };
    let from = match spec_date_v(s, p) {
        Some((a, b)) => if tag_at(s, b, dots()) {
            Some((DateRangeItem::From { start: a }, b + 2))
        } else {
            None
        },
        None => None,
    };
    let to = if tag_at(s, p, dots()) {
        match spec_date_v(s, p + 2) {
            Some((c, d)) => Some((DateRangeItem::To { end: c }, d)),
            None => None,
        }
    } else {
        None
    };
    or_else(bounded, or_else(from, to))
}

impl ListItem for DateRangeItem {
    open spec fn spec_item(s: Seq<u8>, p: int) -> Option<(DateRangeItem, int)> {
        spec_date_item(s, p)
    }

    fn parse_item(input: &[u8], pos: usize) -> (r: Option<(DateRangeItem, usize)>) {
        proof {
            crate::lexer::lemma_len_fits(input);
        }
        let dots = dots_bytes();
        match date_v(input, pos) {
            Some((a, b)) => {
                if tag(input, b, dots) {
                    match date_v(input, b + 2) {
                        Some((c, d)) => {
                            return Some((DateRangeItem::Bounded { start: a, end: c }, d));
                        },
                        None => {
                            return Some((DateRangeItem::From { start: a }, b + 2));
                        },
                    }
                }
            },
            None => {},
        }
        if tag(input, pos, dots) {
            match date_v(input, pos + 2) {
                Some((c, d)) => Some((DateRangeItem::To { end: c }, d)),
                None => None,
            }
        } else {
            None
        }
    }
}

} // verus!
