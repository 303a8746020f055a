use vstd::prelude::*;
use vstd::string::StringSliceAdditionalSpecFns;

use crate::bytes::{binary_v, spec_binary_v, spec_string_v, string_v};
use crate::constraints::{byte_at, spec_terminator, terminator};
use crate::date::{date_v, spec_date_v, DateTime};
use crate::lexer::{lift_view, name, or_else, sep_end, separator, spec_name, tag, tag_at, Span};
use crate::numbers::{float_v, int_v, spec_float_v, spec_int_v, spec_uint_v, uint_v};

verus! {

/// A statement of the header block: a name and a literal of some kind.
#[derive(Clone, Debug, PartialEq)]
pub enum HeaderStatement {
    Uint { name: Span, value: u64 },
    Int { name: Span, value: i64 },
    /// The value is the span of a float literal.
    Float { name: Span, value: Span },
    Date { name: Span, value: DateTime },
    String { name: Span, value: String },
    Binary { name: Span, value: Vec<u8> },
    /// The value is an identifier.
    Named { name: Span, value: Span },
}

/// What a `HeaderStatement` holds, with its text and bytes as sequences.
pub enum HeaderStatementV {
    Uint { name: Span, value: u64 },
    Int { name: Span, value: i64 },
    Float { name: Span, value: Span },
    Date { name: Span, value: DateTime },
    String { name: Span, value: Seq<char> },
    Binary { name: Span, value: Seq<u8> },
    Named { name: Span, value: Span },
}

impl View for HeaderStatement {
    type V = HeaderStatementV;

    open spec fn view(&self) -> HeaderStatementV {
        match self {
            HeaderStatement::Uint { name, value } => HeaderStatementV::Uint { name: *name, value: *value },
            HeaderStatement::Int { name, value } => HeaderStatementV::Int { name: *name, value: *value },
            HeaderStatement::Float { name, value } => HeaderStatementV::Float { name: *name, value: *value },
            HeaderStatement::Date { name, value } => HeaderStatementV::Date { name: *name, value: *value },
            HeaderStatement::String { name, value } => HeaderStatementV::String { name: *name, value: value@ },
            HeaderStatement::Binary { name, value } => HeaderStatementV::Binary { name: *name, value: value@ },
            HeaderStatement::Named { name, value } => HeaderStatementV::Named { name: *name, value: *value },
        }
    }
}

pub open spec fn statements_view(v: Seq<HeaderStatement>) -> Seq<HeaderStatementV> {
    v.map_values(|x: HeaderStatement| x@)
}

/// A literal followed by `sep ;`, given what its parser returned.
pub open spec fn ended<T>(s: Seq<u8>, r: Option<(T, int)>) -> Option<(T, int)> {
    match r {
        Some((v, q)) => match spec_terminator(s, q) {
            Some(e) => Some((v, e)),
            None => None,
        },
        None => None,
    }
}

/// The literal of a statement named `nm`, with its `;`, at `a`. Its kind is
/// the first that matches, in the order unsigned, signed, float, date,
/// UTF-8 text, bytes, identifier.
pub open spec fn spec_statement_value(s: Seq<u8>, a: int, nm: Span) -> Option<(HeaderStatementV, int)> {
    let as_uint = match ended(s, spec_uint_v(s, a)) {
        Some((v, e)) => Some((HeaderStatementV::Uint { name: nm, value: v }, e)),
        None => None,
    };
    let as_int = match ended(s, spec_int_v(s, a)) {
        Some((v, e)) => Some((HeaderStatementV::Int { name: nm, value: v }, e)),
        None => None,
    };
    let as_float = match ended(s, spec_float_v(s, a)) {
        Some((v, e)) => Some((HeaderStatementV::Float { name: nm, value: v }, e)),
        None => None,
    };
    let as_date = match ended(s, spec_date_v(s, a)) {
        Some((v, e)) => Some((HeaderStatementV::Date { name: nm, value: v }, e)),
        None => None,
    };
    let as_string = match ended(s, spec_string_v(s, a)) {
        Some((v, e)) => Some((HeaderStatementV::String { name: nm, value: v }, e)),
        None => None,
    };
    let as_binary = match ended(s, spec_binary_v(s, a)) {
        Some((v, e)) => Some((HeaderStatementV::Binary { name: nm, value: v }, e)),
        None => None,
    };
    let as_named = match ended(s, spec_name(s, a)) {
        Some((v, e)) => Some((HeaderStatementV::Named { name: nm, value: v }, e)),
        None => None,
    };
    or_else(as_uint, or_else(as_int, or_else(as_float, or_else(as_date, or_else(as_string,
        or_else(as_binary, as_named))))))
}

/// `name := literal ;`
pub open spec fn spec_header_statement(s: Seq<u8>, p: int) -> Option<(HeaderStatementV, int)> {
    match spec_name(s, p) {
        Some((nm, a)) => {
            let b = sep_end(s, a);
            if tag_at(s, b, ":=".spec_bytes()) {
                spec_statement_value(s, sep_end(s, b + ":=".spec_bytes().len()), nm)
            } else {
                None
            }
        },
        None => None,
    }
}

fn statement_value(input: &[u8], a: usize, nm: Span) -> (r: Option<(HeaderStatement, usize)>)
    requires
        a <= input@.len(),
    ensures
        lift_view(r) == spec_statement_value(input@, a as int, nm),
        r matches Some((_, q)) ==> a < q <= input@.len(),
{
    if let Some((v, b)) = uint_v(input, a) {
        if let Some(e) = terminator(input, b) {
            return Some((HeaderStatement::Uint { name: nm, value: v }, e));
        }
    }
    if let Some((v, b)) = int_v(input, a) {
        if let Some(e) = terminator(input, b) {
            return Some((HeaderStatement::Int { name: nm, value: v }, e));
        }
    }
    if let Some((v, b)) = float_v(input, a) {
        if let Some(e) = terminator(input, b) {
            return Some((HeaderStatement::Float { name: nm, value: v }, e));
        }
    }
    if let Some((v, b)) = date_v(input, a) {
        if let Some(e) = terminator(input, b) {
            return Some((HeaderStatement::Date { name: nm, value: v }, e));
        }
    }
    if let Some((v, b)) = string_v(input, a) {
        if let Some(e) = terminator(input, b) {
            return Some((HeaderStatement::String { name: nm, value: v }, e));
        }
    }
    if let Some((v, b)) = binary_v(input, a) {
        if let Some(e) = terminator(input, b) {
            return Some((HeaderStatement::Binary { name: nm, value: v }, e));
        }
    }
    if let Some((v, b)) = name(input, a) {
        if let Some(e) = terminator(input, b) {
            return Some((HeaderStatement::Named { name: nm, value: v }, e));
        }
    }
    None
}

/// A header statement at `pos`.
pub fn header_statement(input: &[u8], pos: usize) -> (r: Option<(HeaderStatement, usize)>)
    requires
        pos <= input@.len(),
    ensures
        lift_view(r) == spec_header_statement(input@, pos as int),
        r matches Some((_, q)) ==> pos < q <= input@.len(),
{
    proof {
        crate::lexer::lemma_len_fits(input);
    }
    let (nm, a) = match name(input, pos) {
        Some(x) => x,
        None => {
            return None;
        },
    };
    let b = separator(input, a);
    let assign = ":=".as_bytes();
    if !tag(input, b, assign) {
        return None;
    }
    statement_value(input, separator(input, b + assign.len()), nm)
}

/// The statements that follow one ending at `q`, each after a separator; the
/// list ends where no statement follows.
pub open spec fn spec_more_statements(s: Seq<u8>, q: int) -> (Seq<HeaderStatementV>, int)
    decreases s.len() - q,
{
    match spec_header_statement(s, sep_end(s, q)) {
        Some((st, b)) => if 0 <= q < b <= s.len() {
            (seq![st] + spec_more_statements(s, b).0, spec_more_statements(s, b).1)
        } else {
            (seq![], q)
        },
        None => (seq![], q),
    }
}

/// `declare header {`, with separators between the tokens and after them.
pub open spec fn spec_hblock_open(s: Seq<u8>, p: int) -> Option<int> {
    let k_declare = "declare".spec_bytes();
    let k_header = "header".spec_bytes();
    let a = sep_end(s, p + k_declare.len());
    let b = sep_end(s, a + k_header.len());
    if tag_at(s, p, k_declare) && tag_at(s, a, k_header) && byte_at(s, b, 123) {
        Some(sep_end(s, b + 1))
    } else {
        None
    }
}

/// `declare header { statement statement ... }`: one statement or more, in
/// order.
pub open spec fn spec_hblock(s: Seq<u8>, p: int) -> Option<(Seq<HeaderStatementV>, int)> {
    match spec_hblock_open(s, p) {
        Some(c) => match spec_header_statement(s, c) {
            Some((first, q)) => {
                let more = spec_more_statements(s, q);
                let e = sep_end(s, more.1);
                if byte_at(s, e, 125) {
                    Some((seq![first] + more.0, e + 1))
                } else {
                    None
                }
            },
            None => None,
        },
        None => None,
    }
}

fn hblock_open(input: &[u8], pos: usize) -> (r: Option<usize>)
    requires
        pos <= input@.len(),
    ensures
        crate::lexer::lift_pos(r) == spec_hblock_open(input@, pos as int),
        r matches Some(q) ==> q <= input@.len(),
{
    let n = input.len();
    let k_declare = "declare".as_bytes();
    let k_header = "header".as_bytes();
    if !tag(input, pos, k_declare) {
        return None;
    }
    let a = separator(input, pos + k_declare.len());
    if !tag(input, a, k_header) {
        return None;
    }
    let b = separator(input, a + k_header.len());
    if b < n && input[b] == 123 {
        Some(separator(input, b + 1))
    } else {
        None
    }
}

/// The header block at `pos`.
pub fn hblock(input: &[u8], pos: usize) -> (r: Option<(Vec<HeaderStatement>, usize)>)
    requires
        pos <= input@.len(),
    ensures
        match r {
            Some((v, q)) => spec_hblock(input@, pos as int) == Some((statements_view(v@), q as int)),
            None => spec_hblock(input@, pos as int) is None,
        },
{
    let c = match hblock_open(input, pos) {
        Some(c) => c,
        None => {
            return None;
        },
    };
    let (first, q0) = match header_statement(input, c) {
        Some(x) => x,
        None => {
            return None;
        },
    };
    let mut items: Vec<HeaderStatement> = Vec::new();
    items.push(first);
    let mut q = q0;
    let ghost first_v = items@[0]@;
    assert(statements_view(items@) =~= seq![first_v]);
    loop
        invariant
            q <= input@.len(),
            statements_view(items@) + spec_more_statements(input@, q as int).0
                == seq![first_v] + spec_more_statements(input@, q0 as int).0,
            spec_more_statements(input@, q as int).1 == spec_more_statements(input@, q0 as int).1,
        ensures
            q <= input@.len(),
            statements_view(items@) == seq![first_v] + spec_more_statements(input@, q0 as int).0,
            q == spec_more_statements(input@, q0 as int).1,
        decreases input@.len() - q,
    {
        let a = separator(input, q);
        match header_statement(input, a) {
            Some((st, b)) => {
                let ghost old_items = statements_view(items@);
                assert(spec_more_statements(input@, q as int).0 =~= seq![st@] + spec_more_statements(input@, b as int).0);
                items.push(st);
                assert(statements_view(items@) =~= old_items.push(st@));
                assert(old_items + spec_more_statements(input@, q as int).0 =~= statements_view(items@)
                    + spec_more_statements(input@, b as int).0);
                q = b;
            },
            None => {
                assert(spec_more_statements(input@, q as int).0 =~= Seq::<HeaderStatementV>::empty());
                assert(statements_view(items@) + spec_more_statements(input@, q as int).0
                    =~= statements_view(items@));
                break;
            },
        }
    }
    let e = separator(input, q);
    if e < input.len() && input[e] == 125 {
        Some((items, e + 1))
    } else {
        None
    }
}

} // verus!
