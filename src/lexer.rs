use vstd::prelude::*;
use vstd::string::StringSliceAdditionalSpecFns;

verus! {

/// A region `start..end` of the input buffer.
#[derive(Clone, Copy, Debug, PartialEq, Eq, Structural)]
pub struct Span {
    pub start: usize,
    pub end: usize,
}

/// Turns an executable parse result into the form that grammar functions
/// give, with the position as an `int`.
pub open spec fn lift<T>(r: Option<(T, usize)>) -> Option<(T, int)> {
    match r {
        Some((v, q)) => Some((v, q as int)),
        None => None,
    }
}

/// The same as `lift`, for results that are seen through their view.
pub open spec fn lift_view<T: View>(r: Option<(T, usize)>) -> Option<(T::V, int)> {
    match r {
        Some((v, q)) => Some((v@, q as int)),
        None => None,
    }
}

pub open spec fn span(p: int, q: int) -> Span {
    Span { start: p as usize, end: q as usize }
}

pub open spec fn is_digit(b: u8) -> bool {
    48 <= b <= 57
}

pub open spec fn is_hex_digit(b: u8) -> bool {
    is_digit(b) || (65 <= b <= 70) || (97 <= b <= 102)
}

pub open spec fn is_alpha(b: u8) -> bool {
    (65 <= b <= 90) || (97 <= b <= 122)
}

pub open spec fn is_ident_start(b: u8) -> bool {
    is_alpha(b) || b == 95
}

pub open spec fn is_space(b: u8) -> bool {
    b == 32 || b == 9 || b == 13 || b == 10
}

/// The byte classes over which the grammar takes longest runs.
#[derive(Clone, Copy, Debug, PartialEq, Eq, Structural)]
pub enum ByteClass {
    Digit,
    HexDigit,
    /// Letters, digits and underscore.
    Ident,
    /// Digits and `-`.
    IntChar,
    /// Digits, `-`, `+`, `.` and `e`.
    FloatChar,
}

pub open spec fn in_class(c: ByteClass, b: u8) -> bool {
    match c {
        ByteClass::Digit => is_digit(b),
        ByteClass::HexDigit => is_hex_digit(b),
        ByteClass::Ident => is_alpha(b) || is_digit(b) || b == 95,
        ByteClass::IntChar => is_digit(b) || b == 45,
        ByteClass::FloatChar => is_digit(b) || b == 45 || b == 43 || b == 46 || b == 101,
    }
}

pub fn has_class(c: ByteClass, b: u8) -> (r: bool)
    ensures
        r == in_class(c, b),
{
    let digit = 48 <= b && b <= 57;
    match c {
        ByteClass::Digit => digit,
        ByteClass::HexDigit => digit || (65 <= b && b <= 70) || (97 <= b && b <= 102),
        ByteClass::Ident => (65 <= b && b <= 90) || (97 <= b && b <= 122) || digit || b == 95,
        ByteClass::IntChar => digit || b == 45,
        ByteClass::FloatChar => digit || b == 45 || b == 43 || b == 46 || b == 101,
    }
}

/// The end of the longest run of class `c` that starts at `p`.
pub open spec fn run_end(s: Seq<u8>, p: int, c: ByteClass) -> int
    decreases s.len() - p,
{
    if 0 <= p < s.len() && in_class(c, s[p]) {
        run_end(s, p + 1, c)
    } else {
        p
    }
}

/// The run ends within the buffer, every byte of it is in the class, and the
/// byte after it (if any) is not.
pub proof fn lemma_run_end(s: Seq<u8>, p: int, c: ByteClass)
    requires
        0 <= p <= s.len(),
    ensures
        p <= run_end(s, p, c) <= s.len(),
        forall|i: int| p <= i < run_end(s, p, c) ==> in_class(c, #[trigger] s[i]),
        run_end(s, p, c) == s.len() || !in_class(c, s[run_end(s, p, c)]),
    decreases s.len() - p,
{
    if p < s.len() && in_class(c, s[p]) {
        lemma_run_end(s, p + 1, c);
    }
}

/// Scans the longest run of bytes of class `c` from `pos`.
pub fn scan(input: &[u8], pos: usize, c: ByteClass) -> (r: usize)
    requires
        pos <= input@.len(),
    ensures
        r == run_end(input@, pos as int, c),
        pos <= r <= input@.len(),
{
    let mut i: usize = pos;
    while i < input.len() && has_class(c, input[i])
        invariant
            pos <= i <= input@.len(),
            run_end(input@, i as int, c) == run_end(input@, pos as int, c),
        decreases input@.len() - i,
    {
        i = i + 1;
    }
    proof {
        lemma_run_end(input@, pos as int, c);
    }
    i
}

/// A slice's length fits in `usize`, so positions within it do too.
pub proof fn lemma_len_fits(input: &[u8])
    ensures
        input@.len() <= usize::MAX,
{
    assert(vstd::slice::spec_slice_len(input) == input@.len());
}

/// The range operator `..`.
pub open spec fn dots() -> Seq<u8> {
    seq![46u8, 46u8]
}

pub fn dots_bytes() -> (r: &'static [u8])
    ensures
        r@ == dots(),
{
    let r = "..".as_bytes();
    proof {
        reveal_strlit("..");
        vstd::string::is_ascii_spec_bytes("..");
        assert(r@ =~= dots());
    }
    r
}

/// First-match choice between two alternatives.
pub open spec fn or_else<T>(a: Option<T>, b: Option<T>) -> Option<T> {
    if a is Some {
        a
    } else {
        b
    }
}

/// `t` occurs in `s` at `p`.
pub open spec fn tag_at(s: Seq<u8>, p: int, t: Seq<u8>) -> bool {
    0 <= p && p + t.len() <= s.len() && s.subrange(p, p + t.len()) == t
}

/// Whether `t` occurs in the input at `pos`.
pub fn tag(input: &[u8], pos: usize, t: &[u8]) -> (r: bool)
    ensures
        r == tag_at(input@, pos as int, t@),
{
    if pos > input.len() || t.len() > input.len() - pos {
        return false;
    }
    let mut i: usize = 0;
    while i < t.len()
        invariant
            pos + t@.len() <= input@.len(),
            input@.len() <= usize::MAX,
            i <= t@.len(),
            forall|j: int| 0 <= j < i ==> input@[pos + j] == t@[j],
        decreases t@.len() - i,
    {
        if input[pos + i] != t[i] {
            assert(input@.subrange(pos as int, pos + t@.len())[i as int] != t@[i as int]);
            return false;
        }
        i = i + 1;
    }
    assert(input@.subrange(pos as int, pos + t@.len()) =~= t@);
    true
}

/// The first position at or after `p` where `t` occurs.
pub open spec fn find(s: Seq<u8>, p: int, t: Seq<u8>) -> Option<int>
    decreases s.len() - p,
{
    if p < 0 || p >= s.len() || p + t.len() > s.len() {
        None
    } else if tag_at(s, p, t) {
        Some(p)
    } else {
        find(s, p + 1, t)
    }
}

proof fn lemma_find(s: Seq<u8>, p: int, t: Seq<u8>)
    requires
        0 <= p,
    ensures
        find(s, p, t) matches Some(i) ==> p <= i && i + t.len() <= s.len(),
    decreases s.len() - p,
{
    if p < s.len() && p + t.len() <= s.len() && !tag_at(s, p, t) {
        lemma_find(s, p + 1, t);
    }
}

/// Looks for the first occurrence of `t` at or after `pos`.
pub fn find_tag(input: &[u8], pos: usize, t: &[u8]) -> (r: Option<usize>)
    requires
        pos <= input@.len(),
    ensures
        lift_pos(r) == find(input@, pos as int, t@),
        r matches Some(i) ==> pos <= i && i + t@.len() <= input@.len(),
{
    proof {
        lemma_find(input@, pos as int, t@);
    }
    let mut i: usize = pos;
    while i < input.len() && t.len() <= input.len() - i
        invariant
            pos <= i,
            i <= input@.len(),
            find(input@, i as int, t@) == find(input@, pos as int, t@),
        decreases input@.len() - i,
    {
        if tag(input, i, t) {
            return Some(i);
        }
        i = i + 1;
    }
    None
}

pub open spec fn lift_pos(r: Option<usize>) -> Option<int> {
    match r {
        Some(q) => Some(q as int),
        None => None,
    }
}

/// `// text\n`: the text up to the first newline, which is consumed too.
pub open spec fn spec_lcomment(s: Seq<u8>, p: int) -> Option<(Span, int)> {
    let open = "//".spec_bytes();
    let nl = "\n".spec_bytes();
    if tag_at(s, p, open) {
        match find(s, p + open.len(), nl) {
            Some(i) => Some((span(p + open.len(), i), i + nl.len())),
            None => None,
        }
    } else {
        None
    }
}

/// `/* text */`: the text up to the first `*/`, which is consumed too.
pub open spec fn spec_bcomment(s: Seq<u8>, p: int) -> Option<(Span, int)> {
    let open = "/*".spec_bytes();
    let close = "*/".spec_bytes();
    if tag_at(s, p, open) {
        match find(s, p + open.len(), close) {
            Some(i) => Some((span(p + open.len(), i), i + close.len())),
            None => None,
        }
    } else {
        None
    }
}

pub open spec fn spec_comment(s: Seq<u8>, p: int) -> Option<(Span, int)> {
    match spec_lcomment(s, p) {
        Some(r) => Some(r),
        None => spec_bcomment(s, p),
    }
}

/// Where a comment that starts at `p` ends; `p` where none starts.
pub open spec fn comment_end(s: Seq<u8>, p: int) -> int {
    match spec_comment(s, p) {
        Some((_, q)) => q,
        None => p,
    }
}

/// The end of the longest run of whitespace and comments from `p`.
pub open spec fn sep_end(s: Seq<u8>, p: int) -> int
    decreases s.len() - p,
{
    if 0 <= p < s.len() && is_space(s[p]) {
        sep_end(s, p + 1)
    } else if 0 <= p < comment_end(s, p) <= s.len() {
        sep_end(s, comment_end(s, p))
    } else {
        p
    }
}

/// An identifier: a letter or underscore, then letters, digits and underscores.
pub open spec fn spec_name(s: Seq<u8>, p: int) -> Option<(Span, int)> {
    if 0 <= p < s.len() && is_ident_start(s[p]) {
        let e = run_end(s, p + 1, ByteClass::Ident);
        Some((span(p, e), e))
    } else {
        None
    }
}

fn delimited_text(input: &[u8], pos: usize, open: &[u8], close: &[u8]) -> (r: Option<(Span, usize)>)
    requires
        pos <= input@.len(),
    ensures
        lift(r) == (if tag_at(input@, pos as int, open@) {
            match find(input@, pos + open@.len(), close@) {
                Some(i) => Some((span(pos + open@.len(), i), i + close@.len())),
                None => None,
            }
        } else {
            None
        }),
        r matches Some((_, q)) ==> q <= input@.len(),
{
    proof {
        crate::lexer::lemma_len_fits(input);
    }
    if !tag(input, pos, open) {
        return None;
    }
    let start = pos + open.len();
    match find_tag(input, start, close) {
        Some(i) => Some((Span { start, end: i }, i + close.len())),
        None => None,
    }
}

/// A line comment; the span covers its text.
pub fn lcomment(input: &[u8], pos: usize) -> (r: Option<(Span, usize)>)
    requires
        pos <= input@.len(),
    ensures
        lift(r) == spec_lcomment(input@, pos as int),
        r matches Some((_, q)) ==> q <= input@.len(),
{
    delimited_text(input, pos, "//".as_bytes(), "\n".as_bytes())
}

/// A block comment; the span covers its text.
pub fn bcomment(input: &[u8], pos: usize) -> (r: Option<(Span, usize)>)
    requires
        pos <= input@.len(),
    ensures
        lift(r) == spec_bcomment(input@, pos as int),
        r matches Some((_, q)) ==> q <= input@.len(),
{
    delimited_text(input, pos, "/*".as_bytes(), "*/".as_bytes())
}

/// A line or a block comment, tried in that order.
pub fn comment(input: &[u8], pos: usize) -> (r: Option<(Span, usize)>)
    requires
        pos <= input@.len(),
    ensures
        lift(r) == spec_comment(input@, pos as int),
        r matches Some((_, q)) ==> q <= input@.len(),
{
    match lcomment(input, pos) {
        Some(r) => Some(r),
        None => bcomment(input, pos),
    }
}

/// Skips whitespace and comments; always succeeds, possibly consuming nothing.
pub fn separator(input: &[u8], pos: usize) -> (r: usize)
    requires
        pos <= input@.len(),
    ensures
        r == sep_end(input@, pos as int),
        pos <= r <= input@.len(),
{
    let mut i: usize = pos;
    loop
        invariant
            pos <= i <= input@.len(),
            sep_end(input@, i as int) == sep_end(input@, pos as int),
        decreases input@.len() - i,
    {
        if i < input.len() && (input[i] == 32 || input[i] == 9 || input[i] == 13 || input[i] == 10) {
            i = i + 1;
        } else {
            match comment(input, i) {
                Some((_, q)) => {
                    if q > i {
                        i = q;
                    } else {
                        return i;
                    }
                },
                None => {
                    return i;
                },
            }
        }
    }
}

/// An identifier at `pos`, as the longest run that the grammar allows.
pub fn name(input: &[u8], pos: usize) -> (r: Option<(Span, usize)>)
    requires
        pos <= input@.len(),
    ensures
        lift(r) == spec_name(input@, pos as int),
        r matches Some((sp, q)) ==> sp.start == pos && sp.end == q && pos < q <= input@.len(),
{
    if pos < input.len() && ((65 <= input[pos] && input[pos] <= 90) || (97 <= input[pos] && input[pos] <= 122) || input[pos] == 95) {
        let e = scan(input, pos + 1, ByteClass::Ident);
        Some((Span { start: pos, end: e }, e))
    } else {
        None
    }
}

} // verus!
