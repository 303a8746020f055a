use vstd::prelude::*;
use vstd::string::StringSliceAdditionalSpecFns;

use crate::constraints::{byte_at, IntRangeItem, UintRangeItem};
use crate::lexer::{lift, lift_view, name, or_else, sep_end, separator, spec_name, tag, tag_at, Span};
use crate::properties::{
    int_def, int_range, spec_int_def, spec_int_range, spec_uint_def, spec_uint_range, uint_def,
    uint_range, Property, PropertyV,
};

verus! {

/// The type tag of a declaration: a built-in kind or the name of a user type.
#[derive(Clone, Copy, Debug, PartialEq, Eq, Structural)]
pub enum Type {
    Int,
    Uint,
    Float,
    String,
    Date,
    Binary,
    Container,
    Name(Span),
}

/// The keywords `int`, `uint`, `float`, `string`, `date`, `binary`,
/// `container`, tried in that order as prefixes, else an identifier.
pub open spec fn spec_type(s: Seq<u8>, p: int) -> Option<(Type, int)> {
    if tag_at(s, p, "int".spec_bytes()) {
        Some((Type::Int, p + "int".spec_bytes().len()))
    } else if tag_at(s, p, "uint".spec_bytes()) {
        Some((Type::Uint, p + "uint".spec_bytes().len()))
    } else if tag_at(s, p, "float".spec_bytes()) {
        Some((Type::Float, p + "float".spec_bytes().len()))
    } else if tag_at(s, p, "string".spec_bytes()) {
        Some((Type::String, p + "string".spec_bytes().len()))
    } else if tag_at(s, p, "date".spec_bytes()) {
        Some((Type::Date, p + "date".spec_bytes().len()))
    } else if tag_at(s, p, "binary".spec_bytes()) {
        Some((Type::Binary, p + "binary".spec_bytes().len()))
    } else if tag_at(s, p, "container".spec_bytes()) {
        Some((Type::Container, p + "container".spec_bytes().len()))
    } else {
        match spec_name(s, p) {
            Some((n, q)) => Some((Type::Name(n), q)),
            None => None,
        }
    }
}

/// A type tag at `pos`.
pub fn type_(input: &[u8], pos: usize) -> (r: Option<(Type, usize)>)
    requires
        pos <= input@.len(),
    ensures
        lift(r) == spec_type(input@, pos as int),
        r matches Some((_, q)) ==> pos <= q <= input@.len(),
{
    proof {
        crate::lexer::lemma_len_fits(input);
    }
    let k_int = "int".as_bytes();
    let k_uint = "uint".as_bytes();
    let k_float = "float".as_bytes();
    let k_string = "string".as_bytes();
    let k_date = "date".as_bytes();
    let k_binary = "binary".as_bytes();
    let k_container = "container".as_bytes();
    if tag(input, pos, k_int) {
        Some((Type::Int, pos + k_int.len()))
    } else if tag(input, pos, k_uint) {
        Some((Type::Uint, pos + k_uint.len()))
    } else if tag(input, pos, k_float) {
        Some((Type::Float, pos + k_float.len()))
    } else if tag(input, pos, k_string) {
        Some((Type::String, pos + k_string.len()))
    } else if tag(input, pos, k_date) {
        Some((Type::Date, pos + k_date.len()))
    } else if tag(input, pos, k_binary) {
        Some((Type::Binary, pos + k_binary.len()))
    } else if tag(input, pos, k_container) {
        Some((Type::Container, pos + k_container.len()))
    } else {
        match name(input, pos) {
            Some((sp, q)) => Some((Type::Name(sp), q)),
            None => None,
        }
    }
}

/// A declared type: its name, and the default and range given to it, if any.
#[derive(Clone, Debug, PartialEq)]
pub enum NewType {
    Int { name: Span, default: Option<i64>, range: Option<Vec<IntRangeItem>> },
    Uint { name: Span, default: Option<u64>, range: Option<Vec<UintRangeItem>> },
}

/// What a `NewType` holds, with its ranges as sequences.
pub enum NewTypeV {
    Int { name: Span, default: Option<i64>, range: Option<Seq<IntRangeItem>> },
    Uint { name: Span, default: Option<u64>, range: Option<Seq<UintRangeItem>> },
}

pub open spec fn opt_view<T: View>(o: Option<T>) -> Option<T::V> {
    match o {
        Some(v) => Some(v@),
        None => None,
    }
}

impl View for NewType {
    type V = NewTypeV;

    open spec fn view(&self) -> NewTypeV {
        match self {
            NewType::Int { name, default, range } => NewTypeV::Int {
                name: *name,
                default: *default,
                range: opt_view(*range),
            },
            NewType::Uint { name, default, range } => NewTypeV::Uint {
                name: *name,
                default: *default,
                range: opt_view(*range),
            },
        }
    }
}

/// A property of the declaration's kind fills its slot, replacing what was
/// there; any other property leaves the declaration as it is.
pub open spec fn update_v(nt: NewTypeV, p: PropertyV) -> NewTypeV {
    match (nt, p) {
        (NewTypeV::Int { name, default, range }, PropertyV::IntDefault(v)) => NewTypeV::Int {
            name,
            default: Some(v),
            range,
        },
        (NewTypeV::Int { name, default, range }, PropertyV::IntRange(v)) => NewTypeV::Int {
            name,
            default,
            range: Some(v),
        },
        (NewTypeV::Uint { name, default, range }, PropertyV::UintDefault(v)) => NewTypeV::Uint {
            name,
            default: Some(v),
            range,
        },
        (NewTypeV::Uint { name, default, range }, PropertyV::UintRange(v)) => NewTypeV::Uint {
            name,
            default,
            range: Some(v),
        },
        _ => nt,
    }
}

impl NewType {
    /// Applies a property to the declaration.
    pub fn update(&mut self, p: Property)
        ensures
            final(self)@ == update_v(old(self)@, p@),
    {
        match (self, p) {
            (NewType::Int { default, .. }, Property::IntDefault(v)) => {
                *default = Some(v);
            },
            (NewType::Int { range, .. }, Property::IntRange(v)) => {
                *range = Some(v);
            },
            (NewType::Uint { default, .. }, Property::UintDefault(v)) => {
                *default = Some(v);
            },
            (NewType::Uint { range, .. }, Property::UintRange(v)) => {
                *range = Some(v);
            },
            _ => {},
        }
    }
}

/// The declaration with `p` applied.
pub fn update_newtype_with_property(nt: NewType, p: Property) -> (r: NewType)
    ensures
        r@ == update_v(nt@, p@),
{
    let mut nt = nt;
    nt.update(p);
    nt
}

/// One property of an `int` declaration (a range, else a default), or of a
/// `uint` one.
pub open spec fn spec_prop(is_uint: bool, s: Seq<u8>, a: int) -> Option<(PropertyV, int)> {
    if is_uint {
        or_else(spec_uint_range(s, a), spec_uint_def(s, a))
    } else {
        or_else(spec_int_range(s, a), spec_int_def(s, a))
    }
}

fn prop(is_uint: bool, input: &[u8], a: usize) -> (r: Option<(Property, usize)>)
    requires
        a <= input@.len(),
    ensures
        lift_view(r) == spec_prop(is_uint, input@, a as int),
        r matches Some((_, q)) ==> a < q <= input@.len(),
{
    if is_uint {
        match uint_range(input, a) {
            Some(x) => Some(x),
            None => uint_def(input, a),
        }
    } else {
        match int_range(input, a) {
            Some(x) => Some(x),
            None => int_def(input, a),
        }
    }
}

/// The properties that follow one ending at `q`, each after a separator,
/// applied in order to `nt`; the fold stops at the first position where none
/// follows.
pub open spec fn spec_fold(is_uint: bool, s: Seq<u8>, q: int, nt: NewTypeV) -> (NewTypeV, int)
    decreases s.len() - q,
{
    match spec_prop(is_uint, s, sep_end(s, q)) {
        Some((p, b)) => if 0 <= q < b <= s.len() {
            spec_fold(is_uint, s, b, update_v(nt, p))
        } else {
            (nt, q)
        },
        None => (nt, q),
    }
}

/// `[ property property ... ] [;]` after `d`, folded into `nt`.
pub open spec fn spec_bracketed(is_uint: bool, s: Seq<u8>, d: int, nt: NewTypeV) -> Option<(NewTypeV, int)> {
    let e = sep_end(s, d);
    let f = sep_end(s, e + 1);
    if byte_at(s, e, 91) {
        match spec_prop(is_uint, s, sep_end(s, f)) {
            Some((first, g)) => {
                let folded = spec_fold(is_uint, s, g, update_v(nt, first));
                let i = sep_end(s, folded.1);
                let j = sep_end(s, i + 1);
                if byte_at(s, i, 93) {
                    Some((folded.0, if byte_at(s, j, 59) { j + 1 } else { j }))
                } else {
                    None
                }
            },
            None => None,
        }
    } else {
        None
    }
}

/// A declaration with no default and no range.
pub open spec fn empty_decl(is_uint: bool, nm: Span) -> NewTypeV {
    if is_uint {
        NewTypeV::Uint { name: nm, default: None, range: None }
    } else {
        NewTypeV::Int { name: nm, default: None, range: None }
    }
}

/// Past an optional `sep ;` at `d`.
pub open spec fn after_semicolon(s: Seq<u8>, d: int) -> int {
    if byte_at(s, sep_end(s, d), 59) {
        sep_end(s, d) + 1
    } else {
        d
    }
}

/// `name := type [ properties ] [;]`. Only `int` and `uint` declarations take
/// properties; any other type tag gives an empty `int` declaration.
pub open spec fn spec_dtype(s: Seq<u8>, p: int) -> Option<(NewTypeV, int)> {
    match spec_name(s, p) {
        Some((nm, a)) => {
            let b = sep_end(s, a);
            if tag_at(s, b, ":=".spec_bytes()) {
                match spec_type(s, sep_end(s, b + ":=".spec_bytes().len())) {
                    Some((Type::Int, d)) => or_else(
                        spec_bracketed(false, s, d, empty_decl(false, nm)),
                        Some((empty_decl(false, nm), after_semicolon(s, d))),
                    ),
                    Some((Type::Uint, d)) => or_else(
                        spec_bracketed(true, s, d, empty_decl(true, nm)),
                        Some((empty_decl(true, nm), after_semicolon(s, d))),
                    ),
                    Some((_, d)) => Some((empty_decl(false, nm), after_semicolon(s, d))),
                    None => None,
                }
            } else {
                None
            }
        },
        None => None,
    }
}

fn new_decl(is_uint: bool, nm: Span) -> (r: NewType)
    ensures
        r@ == empty_decl(is_uint, nm),
{
    if is_uint {
        NewType::Uint { name: nm, default: None, range: None }
    } else {
        NewType::Int { name: nm, default: None, range: None }
    }
}

fn bracketed(is_uint: bool, input: &[u8], d: usize, nt: NewType) -> (r: Option<(NewType, usize)>)
    requires
        d <= input@.len(),
    ensures
        lift_view(r) == spec_bracketed(is_uint, input@, d as int, nt@),
        r matches Some((_, q)) ==> q <= input@.len(),
{
    let n = input.len();
    let e = separator(input, d);
    if e >= n || input[e] != 91 {
        return None;
    }
    let f = separator(input, e + 1);
    let (first, g) = match prop(is_uint, input, separator(input, f)) {
        Some(x) => x,
        None => {
            return None;
        },
    };
    let mut nt = nt;
    nt.update(first);
    let ghost start = nt@;
    let mut q = g;
    loop
        invariant
            q <= input@.len(),
            spec_fold(is_uint, input@, g as int, start) == spec_fold(is_uint, input@, q as int, nt@),
        ensures
            q <= input@.len(),
            spec_fold(is_uint, input@, g as int, start) == (nt@, q as int),
        decreases input@.len() - q,
    {
        let a = separator(input, q);
        match prop(is_uint, input, a) {
            Some((p, b)) => {
                nt.update(p);
                q = b;
            },
            None => {
                break;
            },
        }
    }
    let i = separator(input, q);
    if i >= n || input[i] != 93 {
        return None;
    }
    let j = separator(input, i + 1);
    if j < n && input[j] == 59 {
        Some((nt, j + 1))
    } else {
        Some((nt, j))
    }
}

fn skip_semicolon(input: &[u8], d: usize) -> (r: usize)
    requires
        d <= input@.len(),
    ensures
        r == after_semicolon(input@, d as int),
{
    let j = separator(input, d);
    if j < input.len() && input[j] == 59 {
        j + 1
    } else {
        d
    }
}

/// A type declaration at `pos`.
pub fn dtype(input: &[u8], pos: usize) -> (r: Option<(NewType, usize)>)
    requires
        pos <= input@.len(),
    ensures
        lift_view(r) == spec_dtype(input@, pos as int),
{
    proof {
        crate::lexer::lemma_len_fits(input);
    }
    let (nm, a) = match name(input, pos) {
        Some(x) => x,
        None => {
            return None;
        },
    };
    let b = separator(input, a);
    let assign = ":=".as_bytes();
    if !tag(input, b, assign) {
        return None;
    }
    let c = separator(input, b + assign.len());
    match type_(input, c) {
        Some((Type::Int, d)) => match bracketed(false, input, d, new_decl(false, nm)) {
            Some(x) => Some(x),
            None => Some((new_decl(false, nm), skip_semicolon(input, d))),
        },
        Some((Type::Uint, d)) => match bracketed(true, input, d, new_decl(true, nm)) {
            Some(x) => Some(x),
            None => Some((new_decl(true, nm), skip_semicolon(input, d))),
        },
        Some((_, d)) => Some((new_decl(false, nm), skip_semicolon(input, d))),
        None => None,
    }
}

} // verus!
