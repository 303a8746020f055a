use vstd::prelude::*;
use vstd::string::StringSliceAdditionalSpecFns;

use crate::bytes::{binary_v, spec_binary_v, spec_string_v, string_v};
use crate::constraints::{
    byte_at, list, prefix, spec_list, spec_statement, terminator, DateRangeItem, FloatRangeItem,
    IntRangeItem, UintRangeItem,
};
use crate::date::{date_v, spec_date_v, DateTime};
use crate::lexer::{lift_view, tag, tag_at, Span};
use crate::numbers::{float_v, int_v, spec_float_v, spec_int_v, spec_uint_v, uint_v};

verus! {

/// A property of a type declaration.
#[derive(Clone, Debug, PartialEq)]
pub enum Property {
    IntDefault(i64),
    UintDefault(u64),
    /// The span of a float literal.
    FloatDefault(Span),
    DateDefault(DateTime),
    StringDefault(String),
    BinaryDefault(Vec<u8>),
    IntRange(Vec<IntRangeItem>),
    UintRange(Vec<UintRangeItem>),
    FloatRange(Vec<FloatRangeItem>),
    DateRange(Vec<DateRangeItem>),
    /// The allowed lengths of an element, in bytes.
    Size(Vec<UintRangeItem>),
    Ordered(bool),
}

/// What a `Property` holds, with its text and lists as sequences.
pub enum PropertyV {
    IntDefault(i64),
    UintDefault(u64),
    FloatDefault(Span),
    DateDefault(DateTime),
    StringDefault(Seq<char>),
    BinaryDefault(Seq<u8>),
    IntRange(Seq<IntRangeItem>),
    UintRange(Seq<UintRangeItem>),
    FloatRange(Seq<FloatRangeItem>),
    DateRange(Seq<DateRangeItem>),
    Size(Seq<UintRangeItem>),
    Ordered(bool),
}

impl View for Property {
    type V = PropertyV;

    open spec fn view(&self) -> PropertyV {
        match self {
            Property::IntDefault(v) => PropertyV::IntDefault(*v),
            Property::UintDefault(v) => PropertyV::UintDefault(*v),
            Property::FloatDefault(v) => PropertyV::FloatDefault(*v),
            Property::DateDefault(v) => PropertyV::DateDefault(*v),
            Property::StringDefault(v) => PropertyV::StringDefault(v@),
            Property::BinaryDefault(v) => PropertyV::BinaryDefault(v@),
            Property::IntRange(v) => PropertyV::IntRange(v@),
            Property::UintRange(v) => PropertyV::UintRange(v@),
            Property::FloatRange(v) => PropertyV::FloatRange(v@),
            Property::DateRange(v) => PropertyV::DateRange(v@),
            Property::Size(v) => PropertyV::Size(v@),
            Property::Ordered(v) => PropertyV::Ordered(*v),
        }
    }
}

/// Applies `f` to the value of a successful parse.
pub open spec fn map_value<A, B>(r: Option<(A, int)>, f: spec_fn(A) -> B) -> Option<(B, int)> {
    match r {
        Some((v, q)) => Some((f(v), q)),
        None => None,
    }
}

pub open spec fn def_kw() -> Seq<u8> {
    "def".spec_bytes()
}

pub open spec fn range_kw() -> Seq<u8> {
    "range".spec_bytes()
}

/// `def : integer ;`
pub open spec fn spec_int_def(s: Seq<u8>, p: int) -> Option<(PropertyV, int)> {
    map_value(spec_statement(s, p, def_kw(), |a: int| spec_int_v(s, a)), |v: i64| PropertyV::IntDefault(v))
}

/// `def : integer ;`
pub fn int_def(input: &[u8], pos: usize) -> (r: Option<(Property, usize)>)
    requires
        pos <= input@.len(),
    ensures
        r matches Some((_, q)) ==> pos < q <= input@.len(),
        lift_view(r) == spec_int_def(input@, pos as int),
{
    let a = match prefix(input, pos, "def".as_bytes()) {
        Some(a) => a,
        None => {
            return None;
        },
    };
    let (v, b) = match int_v(input, a) {
        Some(x) => x,
        None => {
            return None;
        },
    };
    match terminator(input, b) {
        Some(e) => Some((Property::IntDefault(v), e)),
        None => None,
    }
}

/// `def : unsigned integer ;`
pub open spec fn spec_uint_def(s: Seq<u8>, p: int) -> Option<(PropertyV, int)> {
    map_value(spec_statement(s, p, def_kw(), |a: int| spec_uint_v(s, a)), |v: u64| PropertyV::UintDefault(v))
}

/// `def : unsigned integer ;`
pub fn uint_def(input: &[u8], pos: usize) -> (r: Option<(Property, usize)>)
    requires
        pos <= input@.len(),
    ensures
        r matches Some((_, q)) ==> pos < q <= input@.len(),
        lift_view(r) == spec_uint_def(input@, pos as int),
{
    let a = match prefix(input, pos, "def".as_bytes()) {
        Some(a) => a,
        None => {
            return None;
        },
    };
    let (v, b) = match uint_v(input, a) {
        Some(x) => x,
        None => {
            return None;
        },
    };
    match terminator(input, b) {
        Some(e) => Some((Property::UintDefault(v), e)),
        None => None,
    }
}

/// `def : float ;`
pub open spec fn spec_float_def(s: Seq<u8>, p: int) -> Option<(PropertyV, int)> {
    map_value(spec_statement(s, p, def_kw(), |a: int| spec_float_v(s, a)), |v: Span| PropertyV::FloatDefault(v))
}

/// `def : float ;`
pub fn float_def(input: &[u8], pos: usize) -> (r: Option<(Property, usize)>)
    requires
        pos <= input@.len(),
    ensures
        r matches Some((_, q)) ==> pos < q <= input@.len(),
        lift_view(r) == spec_float_def(input@, pos as int),
{
    let a = match prefix(input, pos, "def".as_bytes()) {
        Some(a) => a,
        None => {
            return None;
        },
    };
    let (v, b) = match float_v(input, a) {
        Some(x) => x,
        None => {
            return None;
        },
    };
    match terminator(input, b) {
        Some(e) => Some((Property::FloatDefault(v), e)),
        None => None,
    }
}

/// `def : date ;`
pub open spec fn spec_date_def(s: Seq<u8>, p: int) -> Option<(PropertyV, int)> {
    map_value(spec_statement(s, p, def_kw(), |a: int| spec_date_v(s, a)), |v: DateTime| PropertyV::DateDefault(v))
}

/// `def : date ;`
pub fn date_def(input: &[u8], pos: usize) -> (r: Option<(Property, usize)>)
    requires
        pos <= input@.len(),
    ensures
        r matches Some((_, q)) ==> pos < q <= input@.len(),
        lift_view(r) == spec_date_def(input@, pos as int),
{
    let a = match prefix(input, pos, "def".as_bytes()) {
        Some(a) => a,
        None => {
            return None;
        },
    };
    let (v, b) = match date_v(input, a) {
        Some(x) => x,
        None => {
            return None;
        },
    };
    match terminator(input, b) {
        Some(e) => Some((Property::DateDefault(v), e)),
        None => None,
    }
}

/// `def : literal ;`, whose bytes must be UTF-8 text
pub open spec fn spec_string_def(s: Seq<u8>, p: int) -> Option<(PropertyV, int)> {
    map_value(spec_statement(s, p, def_kw(), |a: int| spec_string_v(s, a)), |v: Seq<char>| PropertyV::StringDefault(v))
}

/// `def : literal ;`, whose bytes must be UTF-8 text
pub fn string_def(input: &[u8], pos: usize) -> (r: Option<(Property, usize)>)
    requires
        pos <= input@.len(),
    ensures
        r matches Some((_, q)) ==> pos < q <= input@.len(),
        lift_view(r) == spec_string_def(input@, pos as int),
{
    let a = match prefix(input, pos, "def".as_bytes()) {
        Some(a) => a,
        None => {
            return None;
        },
    };
    let (v, b) = match string_v(input, a) {
        Some(x) => x,
        None => {
            return None;
        },
    };
    match terminator(input, b) {
        Some(e) => Some((Property::StringDefault(v), e)),
        None => None,
    }
}

/// `def : literal ;`, any bytes
pub open spec fn spec_binary_def(s: Seq<u8>, p: int) -> Option<(PropertyV, int)> {
    map_value(spec_statement(s, p, def_kw(), |a: int| spec_binary_v(s, a)), |v: Seq<u8>| PropertyV::BinaryDefault(v))
}

/// `def : literal ;`, any bytes
pub fn binary_def(input: &[u8], pos: usize) -> (r: Option<(Property, usize)>)
    requires
        pos <= input@.len(),
    ensures
        r matches Some((_, q)) ==> pos < q <= input@.len(),
        lift_view(r) == spec_binary_def(input@, pos as int),
{
    let a = match prefix(input, pos, "def".as_bytes()) {
        Some(a) => a,
        None => {
            return None;
        },
    };
    let (v, b) = match binary_v(input, a) {
        Some(x) => x,
        None => {
            return None;
        },
    };
    match terminator(input, b) {
        Some(e) => Some((Property::BinaryDefault(v), e)),
        None => None,
    }
}

/// `range : item, item ... ;` over signed integers
pub open spec fn spec_int_range(s: Seq<u8>, p: int) -> Option<(PropertyV, int)> {
    map_value(spec_statement(s, p, range_kw(), |a: int| spec_list::<IntRangeItem>(s, a)), |v: Seq<IntRangeItem>| PropertyV::IntRange(v))
}

/// `range : item, item ... ;` over signed integers
pub fn int_range(input: &[u8], pos: usize) -> (r: Option<(Property, usize)>)
    requires
        pos <= input@.len(),
    ensures
        r matches Some((_, q)) ==> pos < q <= input@.len(),
        lift_view(r) == spec_int_range(input@, pos as int),
{
    let a = match prefix(input, pos, "range".as_bytes()) {
        Some(a) => a,
        None => {
            return None;
        },
    };
    let (v, b) = match list::<IntRangeItem>(input, a) {
        Some(x) => x,
        None => {
            return None;
        },
    };
    match terminator(input, b) {
        Some(e) => Some((Property::IntRange(v), e)),
        None => None,
    }
}

/// `range : item, item ... ;` over unsigned integers
pub open spec fn spec_uint_range(s: Seq<u8>, p: int) -> Option<(PropertyV, int)> {
    map_value(spec_statement(s, p, range_kw(), |a: int| spec_list::<UintRangeItem>(s, a)), |v: Seq<UintRangeItem>| PropertyV::UintRange(v))
}

/// `range : item, item ... ;` over unsigned integers
pub fn uint_range(input: &[u8], pos: usize) -> (r: Option<(Property, usize)>)
    requires
        pos <= input@.len(),
    ensures
        r matches Some((_, q)) ==> pos < q <= input@.len(),
        lift_view(r) == spec_uint_range(input@, pos as int),
{
    let a = match prefix(input, pos, "range".as_bytes()) {
        Some(a) => a,
        None => {
            return None;
        },
    };
    let (v, b) = match list::<UintRangeItem>(input, a) {
        Some(x) => x,
        None => {
            return None;
        },
    };
    match terminator(input, b) {
        Some(e) => Some((Property::UintRange(v), e)),
        None => None,
    }
}

/// `range : item, item ... ;` over floats
pub open spec fn spec_float_range(s: Seq<u8>, p: int) -> Option<(PropertyV, int)> {
    map_value(spec_statement(s, p, range_kw(), |a: int| spec_list::<FloatRangeItem>(s, a)), |v: Seq<FloatRangeItem>| PropertyV::FloatRange(v))
}

/// `range : item, item ... ;` over floats
pub fn float_range(input: &[u8], pos: usize) -> (r: Option<(Property, usize)>)
    requires
        pos <= input@.len(),
    ensures
        r matches Some((_, q)) ==> pos < q <= input@.len(),
        lift_view(r) == spec_float_range(input@, pos as int),
{
    let a = match prefix(input, pos, "range".as_bytes()) {
        Some(a) => a,
        None => {
            return None;
        },
    };
    let (v, b) = match list::<FloatRangeItem>(input, a) {
        Some(x) => x,
        None => {
            return None;
        },
    };
    match terminator(input, b) {
        Some(e) => Some((Property::FloatRange(v), e)),
        None => None,
    }
}

/// `range : item, item ... ;` over dates
pub open spec fn spec_date_range(s: Seq<u8>, p: int) -> Option<(PropertyV, int)> {
    map_value(spec_statement(s, p, range_kw(), |a: int| spec_list::<DateRangeItem>(s, a)), |v: Seq<DateRangeItem>| PropertyV::DateRange(v))
}

/// `range : item, item ... ;` over dates
pub fn date_range(input: &[u8], pos: usize) -> (r: Option<(Property, usize)>)
    requires
        pos <= input@.len(),
    ensures
        r matches Some((_, q)) ==> pos < q <= input@.len(),
        lift_view(r) == spec_date_range(input@, pos as int),
{
    let a = match prefix(input, pos, "range".as_bytes()) {
        Some(a) => a,
        None => {
            return None;
        },
    };
    let (v, b) = match list::<DateRangeItem>(input, a) {
        Some(x) => x,
        None => {
            return None;
        },
    };
    match terminator(input, b) {
        Some(e) => Some((Property::DateRange(v), e)),
        None => None,
    }
}

/// `size : item, item ... ;`, the allowed lengths in bytes
pub open spec fn spec_size(s: Seq<u8>, p: int) -> Option<(PropertyV, int)> {
    map_value(spec_statement(s, p, "size".spec_bytes(), |a: int| spec_list::<UintRangeItem>(s, a)), |v: Seq<UintRangeItem>| PropertyV::Size(v))
}

/// `size : item, item ... ;`, the allowed lengths in bytes
pub fn size(input: &[u8], pos: usize) -> (r: Option<(Property, usize)>)
    requires
        pos <= input@.len(),
    ensures
        r matches Some((_, q)) ==> pos < q <= input@.len(),
        lift_view(r) == spec_size(input@, pos as int),
{
    let a = match prefix(input, pos, "size".as_bytes()) {
        Some(a) => a,
        None => {
            return None;
        },
    };
    let (v, b) = match list::<UintRangeItem>(input, a) {
        Some(x) => x,
        None => {
            return None;
        },
    };
    match terminator(input, b) {
        Some(e) => Some((Property::Size(v), e)),
        None => None,
    }
}

/// `yes` or `1` for true, `no` or `0` for false, tried in that order.
pub open spec fn spec_flag(s: Seq<u8>, a: int) -> Option<(bool, int)> {
    if tag_at(s, a, "yes".spec_bytes()) {
        Some((true, a + "yes".spec_bytes().len()))
    } else if byte_at(s, a, 49) {
        Some((true, a + 1))
    } else if tag_at(s, a, "no".spec_bytes()) {
        Some((false, a + "no".spec_bytes().len()))
    } else if byte_at(s, a, 48) {
        Some((false, a + 1))
    } else {
        None
    }
}

/// `ordered : flag ;`
pub open spec fn spec_ordered(s: Seq<u8>, p: int) -> Option<(PropertyV, int)> {
    map_value(spec_statement(s, p, "ordered".spec_bytes(), |a: int| spec_flag(s, a)), |v: bool| PropertyV::Ordered(v))
}

/// Whether the children of an element must keep their order.
pub fn ordered(input: &[u8], pos: usize) -> (r: Option<(Property, usize)>)
    requires
        pos <= input@.len(),
    ensures
        r matches Some((_, q)) ==> pos < q <= input@.len(),
        lift_view(r) == spec_ordered(input@, pos as int),
{
    let n = input.len();
    let a = match prefix(input, pos, "ordered".as_bytes()) {
        Some(a) => a,
        None => {
            return None;
        },
    };
    let yes = "yes".as_bytes();
    let no = "no".as_bytes();
    let (v, b) = if tag(input, a, yes) {
        (true, a + yes.len())
    } else if a < n && input[a] == 49 {
        (true, a + 1)
    } else if tag(input, a, no) {
        (false, a + no.len())
    } else if a < n && input[a] == 48 {
        (false, a + 1)
    } else {
        return None;
    };
    match terminator(input, b) {
        Some(e) => Some((Property::Ordered(v), e)),
        None => None,
    }
}

/// The uint range `range : item, item ... ;` as a list.
pub open spec fn spec_uint_items(s: Seq<u8>, p: int) -> Option<(Seq<UintRangeItem>, int)> {
    spec_statement(s, p, range_kw(), |a: int| spec_list::<UintRangeItem>(s, a))
}

fn uint_items(input: &[u8], pos: usize) -> (r: Option<(Vec<UintRangeItem>, usize)>)
    requires
        pos <= input@.len(),
    ensures
        r matches Some((_, q)) ==> pos < q <= input@.len(),
        lift_view(r) == spec_uint_items(input@, pos as int),
{
    let a = match prefix(input, pos, "range".as_bytes()) {
        Some(a) => a,
        None => {
            return None;
        },
    };
    let (v, b) = match list::<UintRangeItem>(input, a) {
        Some(x) => x,
        None => {
            return None;
        },
    };
    match terminator(input, b) {
        Some(e) => Some((v, e)),
        None => None,
    }
}

/// An item of a range of Unicode code points, bounds included.
#[derive(Clone, Copy, Debug, PartialEq, Eq, Structural)]
pub enum StringRangeItem {
    Single(u32),
    Bounded { start: u32, end: u32 },
    From { start: u32 },
    To { end: u32 },
}

/// The same item over code points, where every bound is at most 0x10FFFF.
pub open spec fn string_item_of(i: UintRangeItem) -> Option<StringRangeItem> {
    match i {
        UintRangeItem::Single(v) => if v <= 0x10FFFF {
            Some(StringRangeItem::Single(v as u32))
        } else {
            None
        },
        UintRangeItem::Bounded { start, end } => if start <= 0x10FFFF && end <= 0x10FFFF {
            Some(StringRangeItem::Bounded { start: start as u32, end: end as u32 })
        } else {
            None
        },
        UintRangeItem::From { start } => if start <= 0x10FFFF {
            Some(StringRangeItem::From { start: start as u32 })
        } else {
            None
        },
        UintRangeItem::To { end } => if end <= 0x10FFFF {
            Some(StringRangeItem::To { end: end as u32 })
        } else {
            None
        },
    }
}

/// A uint range over code points: all of its items must be in the domain.
pub open spec fn spec_string_range(s: Seq<u8>, p: int) -> Option<(Seq<StringRangeItem>, int)> {
    match spec_uint_items(s, p) {
        Some((items, e)) => if forall|i: int| 0 <= i < items.len() ==> (#[trigger] string_item_of(items[i])) is Some {
            Some((items.map_values(|x: UintRangeItem| string_item_of(x)->0), e))
        } else {
            None
        },
        None => None,
    }
}

fn string_item(i: UintRangeItem) -> (r: Option<StringRangeItem>)
    ensures
        r == string_item_of(i),
{
    match i {
        UintRangeItem::Single(v) => if v <= 0x10FFFF {
            Some(StringRangeItem::Single(v as u32))
        } else {
            None
        },
        UintRangeItem::Bounded { start, end } => if start <= 0x10FFFF && end <= 0x10FFFF {
            Some(StringRangeItem::Bounded { start: start as u32, end: end as u32 })
        } else {
            None
        },
        UintRangeItem::From { start } => if start <= 0x10FFFF {
            Some(StringRangeItem::From { start: start as u32 })
        } else {
            None
        },
        UintRangeItem::To { end } => if end <= 0x10FFFF {
            Some(StringRangeItem::To { end: end as u32 })
        } else {
            None
        },
    }
}

/// The code points that a string element may hold.
pub fn string_range(input: &[u8], pos: usize) -> (r: Option<(Vec<StringRangeItem>, usize)>)
    requires
        pos <= input@.len(),
    ensures
        r matches Some((_, q)) ==> pos < q <= input@.len(),
        lift_view(r) == spec_string_range(input@, pos as int),
{
    let (items, e) = match uint_items(input, pos) {
        Some(x) => x,
        None => {
            return None;
        },
    };
    let mut out: Vec<StringRangeItem> = Vec::new();
    let mut i: usize = 0;
    while i < items.len()
        invariant
            i <= items@.len(),
            spec_uint_items(input@, pos as int) == Some((items@, e as int)),
            forall|j: int| 0 <= j < i ==> (#[trigger] string_item_of(items@[j])) is Some,
            out@ =~= items@.subrange(0, i as int).map_values(|x: UintRangeItem| string_item_of(x)->0),
        decreases items@.len() - i,
    {
        match string_item(items[i]) {
            Some(x) => {
                out.push(x);
            },
            None => {
                assert(!(string_item_of(items@[i as int]) is Some));
                assert(!(forall|j: int| 0 <= j < items@.len() ==> (#[trigger] string_item_of(items@[j])) is Some));
                return None;
            },
        }
        i = i + 1;
    }
    assert(items@.subrange(0, items@.len() as int) =~= items@);
    Some((out, e))
}

/// An item of a range of byte values, bounds included.
#[derive(Clone, Copy, Debug, PartialEq, Eq, Structural)]
pub enum BinaryRangeItem {
    Single(u8),
    Bounded { start: u8, end: u8 },
    From { start: u8 },
    To { end: u8 },
}

/// The same item over bytes, where every bound is at most 0xFF.
pub open spec fn binary_item_of(i: UintRangeItem) -> Option<BinaryRangeItem> {
    match i {
        UintRangeItem::Single(v) => if v <= 0xFF {
            Some(BinaryRangeItem::Single(v as u8))
        } else {
            None
        },
        UintRangeItem::Bounded { start, end } => if start <= 0xFF && end <= 0xFF {
            Some(BinaryRangeItem::Bounded { start: start as u8, end: end as u8 })
        } else {
            None
        },
        UintRangeItem::From { start } => if start <= 0xFF {
            Some(BinaryRangeItem::From { start: start as u8 })
        } else {
            None
        },
        UintRangeItem::To { end } => if end <= 0xFF {
            Some(BinaryRangeItem::To { end: end as u8 })
        } else {
            None
        },
    }
}

/// A uint range over bytes: all of its items must be in the domain.
pub open spec fn spec_binary_range(s: Seq<u8>, p: int) -> Option<(Seq<BinaryRangeItem>, int)> {
    match spec_uint_items(s, p) {
        Some((items, e)) => if forall|i: int| 0 <= i < items.len() ==> (#[trigger] binary_item_of(items[i])) is Some {
            Some((items.map_values(|x: UintRangeItem| binary_item_of(x)->0), e))
        } else {
            None
        },
        None => None,
    }
}

fn binary_item(i: UintRangeItem) -> (r: Option<BinaryRangeItem>)
    ensures
        r == binary_item_of(i),
{
    match i {
        UintRangeItem::Single(v) => if v <= 0xFF {
            Some(BinaryRangeItem::Single(v as u8))
        } else {
            None
        },
        UintRangeItem::Bounded { start, end } => if start <= 0xFF && end <= 0xFF {
            Some(BinaryRangeItem::Bounded { start: start as u8, end: end as u8 })
        } else {
            None
        },
        UintRangeItem::From { start } => if start <= 0xFF {
            Some(BinaryRangeItem::From { start: start as u8 })
        } else {
            None
        },
        UintRangeItem::To { end } => if end <= 0xFF {
            Some(BinaryRangeItem::To { end: end as u8 })
        } else {
            None
        },
    }
}

/// The byte values that a binary element may hold.
pub fn binary_range(input: &[u8], pos: usize) -> (r: Option<(Vec<BinaryRangeItem>, usize)>)
    requires
        pos <= input@.len(),
    ensures
        r matches Some((_, q)) ==> pos < q <= input@.len(),
        lift_view(r) == spec_binary_range(input@, pos as int),
{
    let (items, e) = match uint_items(input, pos) {
        Some(x) => x,
        None => {
            return None;
        },
    };
    let mut out: Vec<BinaryRangeItem> = Vec::new();
    let mut i: usize = 0;
    while i < items.len()
        invariant
            i <= items@.len(),
            spec_uint_items(input@, pos as int) == Some((items@, e as int)),
            forall|j: int| 0 <= j < i ==> (#[trigger] binary_item_of(items@[j])) is Some,
            out@ =~= items@.subrange(0, i as int).map_values(|x: UintRangeItem| binary_item_of(x)->0),
        decreases items@.len() - i,
    {
        match binary_item(items[i]) {
            Some(x) => {
                out.push(x);
            },
            None => {
                assert(!(binary_item_of(items@[i as int]) is Some));
                assert(!(forall|j: int| 0 <= j < items@.len() ==> (#[trigger] binary_item_of(items@[j])) is Some));
                return None;
            },
        }
        i = i + 1;
    }
    assert(items@.subrange(0, items@.len() as int) =~= items@);
    Some((out, e))
}

} // verus!
