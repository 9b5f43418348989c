//! Rules shared by the OBJ and MTL line grammars: keyword lines that carry a
//! text, runs of floats, line endings and end-of-line comments, and the
//! form in which a rule run on a whole text reports its outcome.
use crate::lexer::{
    CharClass, Decimal, DecimalView, Scan, char_at, char_is, decimal_wf, float_at,
    is_white_space, rscan_white, rscan_white_exec, scan,
    scan_class, spaced_float_at, spaced_uint_at, spec_float, spec_spaced_float, spec_spaced_uint,
    spec_uint, spec_unsigned_float, starts_with_at, tag_at, uint_at, unsigned_float_at,
};
use crate::text::{str_chars, string_of};
use vstd::prelude::*;
use vstd::string::{StrSliceExecFns, StringExecFns};

verus! {

/// The view of an optional decimal.
pub open spec fn opt_dec_view(o: Option<Decimal>) -> Option<DecimalView> {
    match o {
        Some(d) => Some(d@),
        None => None,
    }
}


/// The end of the run of white space from `i`, not going past `hi`.
pub open spec fn scan_white_to(s: Seq<char>, i: int, hi: int) -> int
    decreases hi - i,
{
    if i < hi && is_white_space(s[i]) {
        scan_white_to(s, i + 1, hi)
    } else {
        i
    }
}

proof fn lemma_scan_white_to(s: Seq<char>, i: int, hi: int)
    requires
        i <= hi,
    ensures
        i <= scan_white_to(s, i, hi) <= hi,
    decreases hi - i,
{
    if i < hi && is_white_space(s[i]) {
        lemma_scan_white_to(s, i + 1, hi);
    }
}

pub fn scan_white_to_exec(s: &[char], i: usize, hi: usize) -> (j: usize)
    requires
        i <= hi <= s@.len(),
    ensures
        j == scan_white_to(s@, i as int, hi as int),
        i <= j <= hi,
{
    proof {
        lemma_scan_white_to(s@, i as int, hi as int);
    }
    let mut j = i;
    while j < hi
        invariant
            i <= j <= hi <= s@.len(),
            scan_white_to(s@, i as int, hi as int) == scan_white_to(s@, j as int, hi as int),
        ensures
            scan_white_to(s@, j as int, hi as int) == j,
        decreases hi - j,
    {
        if !crate::lexer::class_contains(s[j], CharClass::WhiteSpace) {
            break;
        }
        j = j + 1;
    }
    j
}

/// The bounds of `s[lo..hi]` without leading and trailing white space.
pub open spec fn trimmed(s: Seq<char>, lo: int, hi: int) -> (int, int) {
    let a = scan_white_to(s, lo, hi);
    (a, rscan_white(s, a, hi))
}

/// A line of text after a keyword: the keyword, optional white space, one or
/// more characters up to the end of the line, optional white space and line
/// feeds. Its value is the taken text without surrounding white space.
pub open spec fn spec_string_line(s: Seq<char>, i: int, tag: Seq<char>) -> Scan<Seq<char>> {
    if !starts_with_at(s, i, tag) {
        Scan::Miss
    } else {
        let p2 = scan(s, i + tag.len(), CharClass::Multispace);
        let p3 = scan(s, p2, CharClass::NotNewline);
        if p3 == p2 {
            Scan::Miss
        } else {
            let p4 = scan(s, p3, CharClass::Multispace);
            let p5 = scan(s, p4, CharClass::Newline);
            let (a, b) = trimmed(s, p2, p3);
            Scan::Found(p5 as usize, s.subrange(a, b))
        }
    }
}

/// The view of a scan result that carries a string.
pub open spec fn string_scan_view(r: Scan<String>) -> Scan<Seq<char>> {
    match r {
        Scan::Found(j, t) => Scan::Found(j, t@),
        Scan::Miss => Scan::Miss,
        Scan::Abort => Scan::Abort,
    }
}

/// A line of text after the keyword `tag`.
pub fn string_line_at(s: &[char], i: usize, tag: &str) -> (r: Scan<String>)
    requires
        i <= s@.len(),
    ensures
        string_scan_view(r) == spec_string_line(s@, i as int, tag@),
        r matches Scan::Found(j, _) ==> i <= j <= s@.len(),
{
    if !tag_at(s, i, tag) {
        return Scan::Miss;
    }
    let tl = tag.unicode_len();
    let p2 = scan_class(s, i + tl, CharClass::Multispace);
    let p3 = scan_class(s, p2, CharClass::NotNewline);
    if p3 == p2 {
        return Scan::Miss;
    }
    let p4 = scan_class(s, p3, CharClass::Multispace);
    let p5 = scan_class(s, p4, CharClass::Newline);
    let a = scan_white_to_exec(s, p2, p3);
    let b = rscan_white_exec(s, a, p3);
    Scan::Found(p5, string_of(s, a, b))
}

/// An optional spaced float: absent when it does not match, a failure when it
/// fails.
pub open spec fn spec_opt_spaced_float(s: Seq<char>, i: int) -> Scan<Option<DecimalView>> {
    match spec_spaced_float(s, i) {
        Scan::Found(j, d) => Scan::Found(j, Some(d)),
        Scan::Miss => Scan::Found(i as usize, None),
        Scan::Abort => Scan::Abort,
    }
}

/// Three spaced floats in a row.
pub open spec fn spec_float_triple(s: Seq<char>, i: int) -> Scan<(DecimalView, DecimalView, DecimalView)> {
    match spec_spaced_float(s, i) {
        Scan::Found(j1, x) => match spec_spaced_float(s, j1 as int) {
            Scan::Found(j2, y) => match spec_spaced_float(s, j2 as int) {
                Scan::Found(j3, z) => Scan::Found(j3, (x, y, z)),
                Scan::Miss => Scan::Miss,
                Scan::Abort => Scan::Abort,
            },
            Scan::Miss => Scan::Miss,
            Scan::Abort => Scan::Abort,
        },
        Scan::Miss => Scan::Miss,
        Scan::Abort => Scan::Abort,
    }
}

/// Two spaced floats in a row.
pub open spec fn spec_float_pair(s: Seq<char>, i: int) -> Scan<(DecimalView, DecimalView)> {
    match spec_spaced_float(s, i) {
        Scan::Found(j1, x) => match spec_spaced_float(s, j1 as int) {
            Scan::Found(j2, y) => Scan::Found(j2, (x, y)),
            Scan::Miss => Scan::Miss,
            Scan::Abort => Scan::Abort,
        },
        Scan::Miss => Scan::Miss,
        Scan::Abort => Scan::Abort,
    }
}

/// Three spaced floats at `i`.
pub fn float_triple_at(s: &[char], i: usize) -> (r: Scan<(Decimal, Decimal, Decimal)>)
    requires
        i <= s@.len(),
    ensures
        match (r, spec_float_triple(s@, i as int)) {
            (Scan::Found(j, (x, y, z)), Scan::Found(k, (a, b, c))) => j == k && x@ == a && y@ == b
                && z@ == c && i <= j <= s@.len() && decimal_wf(x@) && decimal_wf(y@) && decimal_wf(
                z@,
            ),
            (Scan::Miss, Scan::Miss) => true,
            (Scan::Abort, Scan::Abort) => true,
            _ => false,
        },
{
    match spaced_float_at(s, i) {
        Scan::Found(j1, x) => match spaced_float_at(s, j1) {
            Scan::Found(j2, y) => match spaced_float_at(s, j2) {
                Scan::Found(j3, z) => Scan::Found(j3, (x, y, z)),
                Scan::Miss => Scan::Miss,
                Scan::Abort => Scan::Abort,
            },
            Scan::Miss => Scan::Miss,
            Scan::Abort => Scan::Abort,
        },
        Scan::Miss => Scan::Miss,
        Scan::Abort => Scan::Abort,
    }
}

/// Two spaced floats at `i`.
pub fn float_pair_at(s: &[char], i: usize) -> (r: Scan<(Decimal, Decimal)>)
    requires
        i <= s@.len(),
    ensures
        match (r, spec_float_pair(s@, i as int)) {
            (Scan::Found(j, (x, y)), Scan::Found(k, (a, b))) => j == k && x@ == a && y@ == b && i
                <= j <= s@.len() && decimal_wf(x@) && decimal_wf(y@),
            (Scan::Miss, Scan::Miss) => true,
            (Scan::Abort, Scan::Abort) => true,
            _ => false,
        },
{
    match spaced_float_at(s, i) {
        Scan::Found(j1, x) => match spaced_float_at(s, j1) {
            Scan::Found(j2, y) => Scan::Found(j2, (x, y)),
            Scan::Miss => Scan::Miss,
            Scan::Abort => Scan::Abort,
        },
        Scan::Miss => Scan::Miss,
        Scan::Abort => Scan::Abort,
    }
}

/// An optional spaced float at `i`.
pub fn opt_spaced_float_at(s: &[char], i: usize) -> (r: Scan<Option<Decimal>>)
    requires
        i <= s@.len(),
    ensures
        match (r, spec_opt_spaced_float(s@, i as int)) {
            (Scan::Found(j, x), Scan::Found(k, a)) => j == k && opt_dec_view(x) == a && i <= j
                <= s@.len() && (x matches Some(d) ==> decimal_wf(d@)),
            (Scan::Abort, Scan::Abort) => true,
            _ => false,
        },
{
    match spaced_float_at(s, i) {
        Scan::Found(j, d) => Scan::Found(j, Some(d)),
        Scan::Miss => Scan::Found(i, None),
        Scan::Abort => Scan::Abort,
    }
}

// ---------------------------------------------------------------------------
// Line endings and comments

/// A line ending at `i`: a line feed, or a carriage return and a line feed.
pub open spec fn spec_line_ending(s: Seq<char>, i: int) -> Scan<()> {
    if char_at(s, i, '\n') {
        Scan::Found((i + 1) as usize, ())
    } else if char_at(s, i, '\r') && char_at(s, i + 1, '\n') {
        Scan::Found((i + 2) as usize, ())
    } else {
        Scan::Miss
    }
}

/// A comment at `i`: `#`, one or more characters that are neither carriage
/// return nor line feed, and a line ending. Its value is the bounds of the
/// text between `#` and the line ending.
pub open spec fn spec_comment(s: Seq<char>, i: int) -> Scan<(usize, usize)> {
    if !char_at(s, i, '#') {
        Scan::Miss
    } else {
        let j = scan(s, i + 1, CharClass::NotLineBreak);
        if j == i + 1 {
            Scan::Miss
        } else {
            match spec_line_ending(s, j) {
                Scan::Found(k, _) => Scan::Found(k, ((i + 1) as usize, j as usize)),
                _ => Scan::Miss,
            }
        }
    }
}

/// The end of a line at `i`: the end of the text, a line ending, or a comment.
pub open spec fn spec_end_of_line_maybe_comment(s: Seq<char>, i: int) -> Scan<()> {
    if i == s.len() {
        Scan::Found(i as usize, ())
    } else if spec_line_ending(s, i) is Found {
        spec_line_ending(s, i)
    } else {
        match spec_comment(s, i) {
            Scan::Found(k, _) => Scan::Found(k, ()),
            _ => Scan::Miss,
        }
    }
}

/// A line ending at `i`.
pub fn line_ending_at(s: &[char], i: usize) -> (r: Scan<()>)
    requires
        i <= s@.len(),
    ensures
        r == spec_line_ending(s@, i as int),
        r matches Scan::Found(j, _) ==> i < j <= s@.len(),
{
    if char_is(s, i, '\n') {
        Scan::Found(i + 1, ())
    } else if char_is(s, i, '\r') && char_is(s, i + 1, '\n') {
        Scan::Found(i + 2, ())
    } else {
        Scan::Miss
    }
}

/// A comment at `i`.
pub fn comment_at(s: &[char], i: usize) -> (r: Scan<(usize, usize)>)
    requires
        i <= s@.len(),
    ensures
        r == spec_comment(s@, i as int),
        r matches Scan::Found(k, (a, b)) ==> i < a < b < k <= s@.len(),
{
    if !char_is(s, i, '#') {
        return Scan::Miss;
    }
    let j = scan_class(s, i + 1, CharClass::NotLineBreak);
    if j == i + 1 {
        return Scan::Miss;
    }
    match line_ending_at(s, j) {
        Scan::Found(k, _) => Scan::Found(k, (i + 1, j)),
        _ => Scan::Miss,
    }
}

/// The end of a line at `i`.
pub fn end_of_line_maybe_comment_at(s: &[char], i: usize) -> (r: Scan<()>)
    requires
        i <= s@.len(),
    ensures
        r == spec_end_of_line_maybe_comment(s@, i as int),
        r matches Scan::Found(j, _) ==> i <= j <= s@.len(),
{
    if i == s.len() {
        return Scan::Found(i, ());
    }
    let e = line_ending_at(s, i);
    if matches!(e, Scan::Found(_, _)) {
        return e;
    }
    match comment_at(s, i) {
        Scan::Found(k, _) => Scan::Found(k, ()),
        _ => Scan::Miss,
    }
}

// ---------------------------------------------------------------------------
// Rules run on a whole text

/// How a rule run on a text fails: it does not match, so that another rule
/// may be tried, or it fails for good.
#[derive(Debug, Clone, Copy, PartialEq, Eq, Structural)]
pub enum ParseError {
    Error,
    Failure,
}

/// What a rule that ran from the start of `s` reports: the text after what it
/// read, and its value; or how it failed.
pub open spec fn outcome<V>(s: Seq<char>, r: Scan<V>) -> Result<(Seq<char>, V), ParseError> {
    match r {
        Scan::Found(j, v) => Ok((s.subrange(j as int, s.len() as int), v)),
        Scan::Miss => Err(ParseError::Error),
        Scan::Abort => Err(ParseError::Failure),
    }
}

/// The view of a reported outcome.
pub open spec fn result_view<T: View>(r: Result<(String, T), ParseError>) -> Result<
    (Seq<char>, T::V),
    ParseError,
> {
    match r {
        Ok((rest, v)) => Ok((rest@, v@)),
        Err(e) => Err(e),
    }
}

/// The view of a scan result.
pub open spec fn scan_view<T: View>(r: Scan<T>) -> Scan<T::V> {
    match r {
        Scan::Found(j, v) => Scan::Found(j, v@),
        Scan::Miss => Scan::Miss,
        Scan::Abort => Scan::Abort,
    }
}

/// Report the outcome of a rule that ran from the start of `s`.
pub fn finish<T: View>(s: &[char], r: Scan<T>) -> (out: Result<(String, T), ParseError>)
    requires
        r matches Scan::Found(j, _) ==> j <= s@.len(),
    ensures
        result_view(out) == outcome(s@, scan_view(r)),
{
    match r {
        Scan::Found(j, v) => Ok((string_of(s, j, s.len()), v)),
        Scan::Miss => Err(ParseError::Error),
        Scan::Abort => Err(ParseError::Failure),
    }
}

/// The text of a comment that was read.
pub open spec fn comment_text(s: Seq<char>, r: Scan<(usize, usize)>) -> Scan<Seq<char>> {
    match r {
        Scan::Found(k, (a, b)) => Scan::Found(k, s.subrange(a as int, b as int)),
        Scan::Miss => Scan::Miss,
        Scan::Abort => Scan::Abort,
    }
}

/// `s` without leading and trailing white space.
pub open spec fn trim(s: Seq<char>) -> Seq<char> {
    let (a, b) = trimmed(s, 0, s.len() as int);
    s.subrange(a, b)
}

/// An unsigned integer at the start of `input`.
pub fn unsigned_integer(input: &str) -> (out: Result<(String, u32), ParseError>)
    ensures
        result_view(out) == outcome(input@, spec_uint(input@, 0)),
{
    let s = str_chars(input);
    let r = uint_at(s.as_slice(), 0);
    finish(s.as_slice(), r)
}

/// A number without a sign of its own at the start of `input`.
pub fn unsigned_float(input: &str) -> (out: Result<(String, Decimal), ParseError>)
    ensures
        result_view(out) == outcome(input@, spec_unsigned_float(input@, 0)),
        out matches Ok((_, d)) ==> decimal_wf(d@),
{
    let s = str_chars(input);
    let r = unsigned_float_at(s.as_slice(), 0);
    finish(s.as_slice(), r)
}

/// A number with an optional sign at the start of `input`.
pub fn float(input: &str) -> (out: Result<(String, Decimal), ParseError>)
    ensures
        result_view(out) == outcome(input@, spec_float(input@, 0)),
        out matches Ok((_, d)) ==> decimal_wf(d@),
{
    let s = str_chars(input);
    let r = float_at(s.as_slice(), 0);
    finish(s.as_slice(), r)
}

/// A number surrounded by optional white space at the start of `input`.
pub fn spaced_float(input: &str) -> (out: Result<(String, Decimal), ParseError>)
    ensures
        result_view(out) == outcome(input@, spec_spaced_float(input@, 0)),
        out matches Ok((_, d)) ==> decimal_wf(d@),
{
    let s = str_chars(input);
    let r = spaced_float_at(s.as_slice(), 0);
    finish(s.as_slice(), r)
}

/// An unsigned integer surrounded by optional white space at the start of
/// `input`.
pub fn spaced_uint(input: &str) -> (out: Result<(String, u32), ParseError>)
    ensures
        result_view(out) == outcome(input@, spec_spaced_uint(input@, 0)),
{
    let s = str_chars(input);
    let r = spaced_uint_at(s.as_slice(), 0);
    finish(s.as_slice(), r)
}

/// Three spaced numbers at the start of `input`.
pub fn float_triple(input: &str) -> (out: Result<(String, (Decimal, Decimal, Decimal)), ParseError>)
    ensures
        result_view(out) == outcome(input@, spec_float_triple(input@, 0)),
{
    let s = str_chars(input);
    let r = float_triple_at(s.as_slice(), 0);
    finish(s.as_slice(), r)
}

/// Two spaced numbers at the start of `input` once its surrounding white
/// space is trimmed; the rest is what follows them in the trimmed text.
pub fn float_pair(input: &str) -> (out: Result<(String, (Decimal, Decimal)), ParseError>)
    ensures
        result_view(out) == outcome(trim(input@), spec_float_pair(trim(input@), 0)),
{
    let s = str_chars(input);
    let n = s.len();
    let a = scan_white_to_exec(s.as_slice(), 0, n);
    let b = rscan_white_exec(s.as_slice(), a, n);
    let t = &s.as_slice()[a..b];
    assert(t@ == trim(input@));
    let r = float_pair_at(t, 0);
    finish(t, r)
}

/// A comment at the start of `input`, and its text between `#` and the line
/// ending.
pub fn comment(input: &str) -> (out: Result<(String, String), ParseError>)
    ensures
        result_view(out) == outcome(input@, comment_text(input@, spec_comment(input@, 0))),
{
    let s = str_chars(input);
    match comment_at(s.as_slice(), 0) {
        Scan::Found(k, (a, b)) => Ok((string_of(s.as_slice(), k, s.len()), string_of(s.as_slice(), a, b))),
        Scan::Miss => Err(ParseError::Error),
        Scan::Abort => Err(ParseError::Failure),
    }
}

/// The end of a line at the start of `input`: the end of the text, a line
/// ending, or a comment.
pub fn end_of_line_maybe_comment(input: &str) -> (out: Result<(String, ()), ParseError>)
    ensures
        result_view(out) == outcome(input@, spec_end_of_line_maybe_comment(input@, 0)),
{
    let s = str_chars(input);
    let r = end_of_line_maybe_comment_at(s.as_slice(), 0);
    finish(s.as_slice(), r)
}

} // verus!
