//! Printing a line of an OBJ file and reading the text back gives a line that
//! prints the same: numbers keep their value and their shortest text, names
//! and face corners come back unchanged.
use crate::lexer::{
    CharClass, DecimalView, Scan, char_at, sign_at, decimal_text, decimal_wf, digit_chars, digit_seq, digit_value,
    digits_value, digits_wf, first_nonzero, in_class, is_white_space, lexeme_value,
    magnitude_text, nonzero_end, scan, spec_float, spec_mantissa, spec_recognize_float,
    spec_unsigned_float, zero_chars,
};
use crate::common::scan_white_to;
use crate::model::obj_lines_from;
use crate::lexer::{rscan_white, starts_with_at};
use crate::obj::{
    FaceIndex, NUM_OBJ_RULES, ObjLineView, TextLine, face_index_text, first_obj_rule, line_wf,
    obj_line_text, obj_rule, opt_spaced_text, spaced_text, spec_face_line, spec_texcoord_line,
    spec_triple_line, spec_vertex_line,
    spec_face_item, spec_face_pair, spec_face_triple, spec_opt_uint, spec_parse_obj_line,
    spec_text_line, text_line_tag, text_line_view, line_end, spec_next_obj_line,
};
use crate::lexer::{spec_spaced_float, spec_uint};
use crate::text::{decimal, digit_char};
use vstd::prelude::*;

verus! {

// ---------------------------------------------------------------------------
// Characters and runs

/// A digit's character is a digit of the given value, and none of the
/// characters that end or mark a number.
pub proof fn lemma_digit_char(x: nat)
    requires
        x < 10,
    ensures
        in_class(digit_char(x), CharClass::Digit),
        digit_value(digit_char(x)) == x,
        !in_class(digit_char(x), CharClass::Multispace),
        !is_white_space(digit_char(x)),
        digit_char(x) != '.' && digit_char(x) != 'e' && digit_char(x) != 'E',
        digit_char(x) != '-' && digit_char(x) != '+' && digit_char(x) != '/',
        digit_char(x) != '\n',
{
}

/// A run of `n` characters of class `k` that ends at the end of the text or
/// at a character outside the class is scanned whole.
pub proof fn lemma_scan_run(s: Seq<char>, i: int, n: int, k: CharClass)
    requires
        0 <= i,
        0 <= n,
        i + n <= s.len(),
        forall|j: int| i <= j < i + n ==> in_class(#[trigger] s[j], k),
        i + n == s.len() || !in_class(s[i + n], k),
    ensures
        scan(s, i, k) == i + n,
    decreases n,
{
    if n > 0 {
        lemma_scan_run(s, i + 1, n - 1, k);
    }
}

/// The digit values read back from the characters of digits `q`.
pub proof fn lemma_digit_seq_of_chars(s: Seq<char>, i: int, q: Seq<u8>)
    requires
        0 <= i,
        i + q.len() <= s.len(),
        digits_wf(q),
        s.subrange(i, i + q.len()) == digit_chars(q),
    ensures
        digit_seq(s, i, i + q.len()) == q,
        forall|j: int| i <= j < i + q.len() ==> in_class(#[trigger] s[j], CharClass::Digit),
{
    assert forall|j: int| i <= j < i + q.len() implies in_class(#[trigger] s[j], CharClass::Digit)
        && digit_value(s[j]) == q[j - i] by {
        assert(s[j] == s.subrange(i, i + q.len())[j - i]);
        assert(q[j - i] < 10);
        lemma_digit_char(q[j - i] as nat);
    }
    assert(digit_seq(s, i, i + q.len()) =~= q);
}

// ---------------------------------------------------------------------------
// Significant digits

/// The first nonzero digit from `i` on: all digits before it are zero, and
/// it is nonzero or the end.
pub proof fn lemma_first_nonzero(d: Seq<u8>, i: int)
    requires
        0 <= i <= d.len(),
    ensures
        i <= first_nonzero(d, i) <= d.len(),
        forall|j: int| i <= j < first_nonzero(d, i) ==> d[j] == 0,
        first_nonzero(d, i) == d.len() || d[first_nonzero(d, i)] != 0,
    decreases d.len() - i,
{
    if i < d.len() && d[i] == 0 {
        lemma_first_nonzero(d, i + 1);
    }
}

/// Where zeros from `i` up to a nonzero digit or the end lead, the first
/// nonzero digit is.
pub proof fn lemma_first_nonzero_at(d: Seq<u8>, i: int, z: int)
    requires
        0 <= i <= z <= d.len(),
        forall|j: int| i <= j < z ==> d[j] == 0,
        z == d.len() || d[z] != 0,
    ensures
        first_nonzero(d, i) == z,
    decreases z - i,
{
    if i < z {
        lemma_first_nonzero_at(d, i + 1, z);
    }
}

/// The end of the digits once trailing zeros are dropped: all digits after it
/// are zero, and the one before it is nonzero unless it is `lo`.
pub proof fn lemma_nonzero_end(d: Seq<u8>, lo: int, hi: int)
    requires
        0 <= lo <= hi <= d.len(),
    ensures
        lo <= nonzero_end(d, lo, hi) <= hi,
        forall|j: int| nonzero_end(d, lo, hi) <= j < hi ==> d[j] == 0,
        nonzero_end(d, lo, hi) == lo || d[nonzero_end(d, lo, hi) - 1] != 0,
    decreases hi - lo,
{
    if lo < hi && d[hi - 1] == 0 {
        lemma_nonzero_end(d, lo, hi - 1);
    }
}

/// Where zeros from `b` to `hi` follow a nonzero digit, the digits end at `b`.
pub proof fn lemma_nonzero_end_at(d: Seq<u8>, lo: int, b: int, hi: int)
    requires
        0 <= lo < b <= hi <= d.len(),
        forall|j: int| b <= j < hi ==> d[j] == 0,
        d[b - 1] != 0,
    ensures
        nonzero_end(d, lo, hi) == b,
    decreases hi - b,
{
    if b < hi {
        lemma_nonzero_end_at(d, lo, b, hi - 1);
    }
}

/// The significant digits of a decimal that is not zero: they start and end
/// with a nonzero digit.
pub proof fn lemma_significant(d: DecimalView)
    requires
        digits_wf(d.digits),
        first_nonzero(d.digits, 0) < d.digits.len(),
    ensures
        ({
            let a = first_nonzero(d.digits, 0);
            let b = nonzero_end(d.digits, a, d.digits.len() as int);
            &&& 0 <= a < b <= d.digits.len()
            &&& d.digits[a] != 0
            &&& d.digits[b - 1] != 0
            &&& digits_wf(d.digits.subrange(a, b))
        }),
{
    let a = first_nonzero(d.digits, 0);
    lemma_first_nonzero(d.digits, 0);
    lemma_nonzero_end(d.digits, a, d.digits.len() as int);
}

// ---------------------------------------------------------------------------
// Numbers

/// `n` zero digits.
pub open spec fn zero_digits(n: int) -> Seq<u8> {
    Seq::new(n as nat, |k: int| 0u8)
}

/// The text `t` stands in `s` at `p`, followed by the end of the text, a
/// space or a line feed.
pub open spec fn placed(s: Seq<char>, p: int, t: Seq<char>) -> bool {
    &&& 0 <= p
    &&& p + t.len() <= s.len()
    &&& s.len() <= usize::MAX
    &&& s.subrange(p, p + t.len()) == t
    &&& (p + t.len() == s.len() || s[p + t.len()] == ' ' || s[p + t.len()] == '\n')
}

proof fn lemma_char_of_placed(s: Seq<char>, p: int, t: Seq<char>, j: int)
    requires
        placed(s, p, t),
        0 <= j < t.len(),
    ensures
        s[p + j] == t[j],
{
    assert(s[p + j] == s.subrange(p, p + t.len())[j]);
}

proof fn lemma_digit_chars_concat(a: Seq<u8>, b: Seq<u8>)
    ensures
        digit_chars(a + b) == digit_chars(a) + digit_chars(b),
{
    assert(digit_chars(a + b) =~= digit_chars(a) + digit_chars(b));
}

proof fn lemma_zero_digit_chars(n: int)
    requires
        n >= 0,
    ensures
        digit_chars(zero_digits(n)) == zero_chars(n),
        digits_wf(zero_digits(n)),
{
    assert(digit_chars(zero_digits(n)) =~= zero_chars(n));
}

/// Reading back the magnitude of zero.
#[verifier::spinoff_prover]
#[verifier::rlimit(60)]
proof fn lemma_read_zero(s: Seq<char>, p: int, d: DecimalView)
    requires
        digits_wf(d.digits),
        first_nonzero(d.digits, 0) >= d.digits.len(),
        placed(s, p, magnitude_text(d)),
    ensures
        spec_unsigned_float(s, p) matches Scan::Found(j, d2) && j == p + magnitude_text(d).len()
            && !d2.negative && magnitude_text(d2) == magnitude_text(d) && d2.exponent == 0
            && digits_wf(d2.digits),
{
    reveal(magnitude_text);
    let t = magnitude_text(d);
    assert(t == seq!['0']);
    lemma_char_of_placed(s, p, t, 0);
    lemma_digit_char(0);
    if p + 1 < s.len() {
        assert(s[p + 1] == ' ' || s[p + 1] == '\n');
    }
    lemma_scan_run(s, p, 1, CharClass::Digit);
    assert(!char_at(s, p + 1, '.') && !char_at(s, p + 1, 'e') && !char_at(s, p + 1, 'E'));
    assert(!sign_at(s, p) && !char_at(s, p, '-'));
    let r = spec_recognize_float(s, p);
    assert(spec_mantissa(s, p) == Some((p, p + 1, p + 1, p + 1)));
    assert(r matches Scan::Found(j, l) && j == p + 1);
    let l = r->Found_1;
    assert(s.subrange(p, p + 1) =~= digit_chars(seq![0u8]));
    lemma_digit_seq_of_chars(s, p, seq![0u8]);
    let d2 = lexeme_value(s, l);
    assert(digit_seq(s, p + 1, p + 1) =~= Seq::<u8>::empty());
    assert(d2.digits =~= seq![0u8]);
    lemma_first_nonzero_at(d2.digits, 0, 1);
}

/// Reading back the magnitude of a whole number.
#[verifier::spinoff_prover]
#[verifier::rlimit(60)]
proof fn lemma_read_whole(s: Seq<char>, p: int, d: DecimalView)
    requires
        digits_wf(d.digits),
        first_nonzero(d.digits, 0) < d.digits.len(),
        ({
            let a = first_nonzero(d.digits, 0);
            let b = nonzero_end(d.digits, a, d.digits.len() as int);
            d.exponent + (d.digits.len() - b) >= 0
        }),
        placed(s, p, magnitude_text(d)),
    ensures
        spec_unsigned_float(s, p) matches Scan::Found(j, d2) && j == p + magnitude_text(d).len()
            && !d2.negative && magnitude_text(d2) == magnitude_text(d) && d2.exponent == 0
            && digits_wf(d2.digits),
{
    reveal(magnitude_text);
    let t = magnitude_text(d);
    let a = first_nonzero(d.digits, 0);
    let b = nonzero_end(d.digits, a, d.digits.len() as int);
    lemma_significant(d);
    assert(a < b <= d.digits.len());
    let m = d.digits.subrange(a, b);
    assert(m.len() > 0);
    let e = d.exponent + (d.digits.len() - b);
    assert(e >= 0);
    let q = m + zero_digits(e);
    lemma_zero_digit_chars(e);
    lemma_digit_chars_concat(m, zero_digits(e));
    assert(t == digit_chars(q));
    assert(digits_wf(q));
    let n = q.len() as int;
    assert(s.subrange(p, p + n) == digit_chars(q));
    lemma_digit_seq_of_chars(s, p, q);
    if p + n < s.len() {
        assert(s[p + n] == ' ' || s[p + n] == '\n');
    }
    lemma_scan_run(s, p, n, CharClass::Digit);
    assert(q[0] == m[0]);
    assert(s[p] == t[0]) by {
        lemma_char_of_placed(s, p, t, 0);
    }
    lemma_digit_char(q[0] as nat);
    assert(!char_at(s, p + n, '.') && !char_at(s, p + n, 'e') && !char_at(s, p + n, 'E'));
    assert(!sign_at(s, p) && !char_at(s, p, '-'));
    assert(spec_mantissa(s, p) == Some((p, p + n, p + n, p + n)));
    let r = spec_recognize_float(s, p);
    assert(r matches Scan::Found(j, l) && j == p + n);
    let l = r->Found_1;
    let d2 = lexeme_value(s, l);
    assert(digit_seq(s, p + n, p + n) =~= Seq::<u8>::empty());
    assert(d2.digits =~= q);
    lemma_first_nonzero_at(q, 0, 0);
    assert(q[m.len() - 1] == m[m.len() - 1]);
    lemma_nonzero_end_at(q, 0, m.len() as int, n);
    assert(q.subrange(0, m.len() as int) =~= m);
}

/// Reading back the magnitude of a number with digits on both sides of the
/// point.
#[verifier::spinoff_prover]
#[verifier::rlimit(60)]
proof fn lemma_read_split(s: Seq<char>, p: int, d: DecimalView)
    requires
        digits_wf(d.digits),
        first_nonzero(d.digits, 0) < d.digits.len(),
        ({
            let a = first_nonzero(d.digits, 0);
            let b = nonzero_end(d.digits, a, d.digits.len() as int);
            let e = d.exponent + (d.digits.len() - b);
            e < 0 && b - a > -e
        }),
        placed(s, p, magnitude_text(d)),
    ensures
        spec_unsigned_float(s, p) matches Scan::Found(j, d2) && j == p + magnitude_text(d).len()
            && !d2.negative && magnitude_text(d2) == magnitude_text(d) && digits_wf(d2.digits)
            && d2.exponent == ({
                let a = first_nonzero(d.digits, 0);
                let b = nonzero_end(d.digits, a, d.digits.len() as int);
                d.exponent + (d.digits.len() - b)
            }),
{
    reveal(magnitude_text);
    let t = magnitude_text(d);
    let a = first_nonzero(d.digits, 0);
    let b = nonzero_end(d.digits, a, d.digits.len() as int);
    lemma_significant(d);
    let m = d.digits.subrange(a, b);
    let e = d.exponent + (d.digits.len() - b);
    let k = m.len() + e;
    let m1 = m.subrange(0, k);
    let m2 = m.subrange(k, m.len() as int);
    assert(m1 + m2 =~= m);
    assert(t == digit_chars(m1) + seq!['.'] + digit_chars(m2));
    let n1 = m1.len() as int;
    let n2 = m2.len() as int;
    assert(s.subrange(p, p + n1) =~= digit_chars(m1)) by {
        assert forall|j: int| 0 <= j < n1 implies s.subrange(p, p + n1)[j] == digit_chars(m1)[j] by {
            lemma_char_of_placed(s, p, t, j);
        }
    }
    assert(s.subrange(p + n1 + 1, p + n1 + 1 + n2) =~= digit_chars(m2)) by {
        assert forall|j: int| 0 <= j < n2 implies s.subrange(p + n1 + 1, p + n1 + 1 + n2)[j]
            == digit_chars(m2)[j] by {
            lemma_char_of_placed(s, p, t, n1 + 1 + j);
        }
    }
    lemma_char_of_placed(s, p, t, n1);
    assert(s[p + n1] == '.');
    lemma_digit_seq_of_chars(s, p, m1);
    lemma_digit_seq_of_chars(s, p + n1 + 1, m2);
    lemma_scan_run(s, p, n1, CharClass::Digit);
    let end = p + n1 + 1 + n2;
    assert(end == p + t.len());
    if end < s.len() {
        assert(s[end] == ' ' || s[end] == '\n');
    }
    lemma_scan_run(s, p + n1 + 1, n2, CharClass::Digit);
    lemma_char_of_placed(s, p, t, 0);
    lemma_digit_char(m1[0] as nat);
    assert(!char_at(s, end, 'e') && !char_at(s, end, 'E'));
    assert(!sign_at(s, p) && !char_at(s, p, '-'));
    assert(spec_mantissa(s, p) == Some((p, p + n1, p + n1 + 1, end)));
    let r = spec_recognize_float(s, p);
    assert(r matches Scan::Found(j, l) && j == end);
    let l = r->Found_1;
    let d2 = lexeme_value(s, l);
    assert(digit_seq(s, end, end) =~= Seq::<u8>::empty());
    assert(d2.digits =~= m);
    assert(d2.exponent == e);
    lemma_first_nonzero_at(m, 0, 0);
    lemma_nonzero_end_at(m, 0, m.len() as int, m.len() as int);
    assert(m.subrange(0, m.len() as int) =~= m);
}

/// Reading back the magnitude of a number below one.
#[verifier::spinoff_prover]
#[verifier::rlimit(60)]
proof fn lemma_read_small(s: Seq<char>, p: int, d: DecimalView)
    requires
        digits_wf(d.digits),
        first_nonzero(d.digits, 0) < d.digits.len(),
        ({
            let a = first_nonzero(d.digits, 0);
            let b = nonzero_end(d.digits, a, d.digits.len() as int);
            let e = d.exponent + (d.digits.len() - b);
            e < 0 && b - a <= -e
        }),
        placed(s, p, magnitude_text(d)),
    ensures
        spec_unsigned_float(s, p) matches Scan::Found(j, d2) && j == p + magnitude_text(d).len()
            && !d2.negative && magnitude_text(d2) == magnitude_text(d) && digits_wf(d2.digits)
            && d2.exponent == ({
                let a = first_nonzero(d.digits, 0);
                let b = nonzero_end(d.digits, a, d.digits.len() as int);
                d.exponent + (d.digits.len() - b)
            }),
{
    reveal(magnitude_text);
    let t = magnitude_text(d);
    let a = first_nonzero(d.digits, 0);
    let b = nonzero_end(d.digits, a, d.digits.len() as int);
    lemma_significant(d);
    let m = d.digits.subrange(a, b);
    let e = d.exponent + (d.digits.len() - b);
    let z = -e - m.len();
    let q = zero_digits(z) + m;
    lemma_zero_digit_chars(z);
    lemma_digit_chars_concat(zero_digits(z), m);
    assert(t == seq!['0', '.'] + digit_chars(q));
    let n = q.len() as int;
    assert(s.subrange(p + 2, p + 2 + n) =~= digit_chars(q)) by {
        assert forall|j: int| 0 <= j < n implies s.subrange(p + 2, p + 2 + n)[j] == digit_chars(q)[j] by {
            lemma_char_of_placed(s, p, t, 2 + j);
        }
    }
    lemma_char_of_placed(s, p, t, 0);
    lemma_char_of_placed(s, p, t, 1);
    assert(s[p] == '0' && s[p + 1] == '.');
    assert(digits_wf(q));
    lemma_digit_seq_of_chars(s, p + 2, q);
    lemma_digit_char(0);
    lemma_scan_run(s, p, 1, CharClass::Digit);
    let end = p + 2 + n;
    assert(end == p + t.len());
    if end < s.len() {
        assert(s[end] == ' ' || s[end] == '\n');
    }
    lemma_scan_run(s, p + 2, n, CharClass::Digit);
    assert(!char_at(s, end, 'e') && !char_at(s, end, 'E'));
    assert(!sign_at(s, p) && !char_at(s, p, '-'));
    assert(spec_mantissa(s, p) == Some((p, p + 1, p + 2, end)));
    let r = spec_recognize_float(s, p);
    assert(r matches Scan::Found(j, l) && j == end);
    let l = r->Found_1;
    let d2 = lexeme_value(s, l);
    assert(s.subrange(p, p + 1) =~= digit_chars(seq![0u8]));
    lemma_digit_seq_of_chars(s, p, seq![0u8]);
    let w = seq![0u8] + q;
    assert(d2.digits =~= w);
    assert(d2.exponent == e);
    lemma_first_nonzero_at(w, 0, 1 + z);
    assert(w[w.len() - 1] == m[m.len() - 1]);
    lemma_nonzero_end_at(w, 1 + z, w.len() as int, w.len() as int);
    assert(w.subrange(1 + z, w.len() as int) =~= m);
}

/// The magnitude of a decimal is not empty and starts with a digit.
proof fn lemma_magnitude_first(d: DecimalView)
    requires
        digits_wf(d.digits),
    ensures
        magnitude_text(d).len() > 0,
        in_class(magnitude_text(d)[0], CharClass::Digit),
{
    reveal(magnitude_text);
    let a = first_nonzero(d.digits, 0);
    if a < d.digits.len() {
        lemma_significant(d);
        let b = nonzero_end(d.digits, a, d.digits.len() as int);
        let m = d.digits.subrange(a, b);
        assert(m[0] < 10);
        lemma_digit_char(m[0] as nat);
        lemma_digit_char(0);
    } else {
        lemma_digit_char(0);
    }
}

/// Reading back the magnitude of a decimal gives a decimal of the same
/// magnitude text, without a sign.
#[verifier::spinoff_prover]
#[verifier::rlimit(60)]
proof fn lemma_read_magnitude(s: Seq<char>, p: int, d: DecimalView)
    requires
        decimal_wf(d),
        placed(s, p, magnitude_text(d)),
    ensures
        spec_unsigned_float(s, p) matches Scan::Found(j, d2) && j == p + magnitude_text(d).len()
            && !d2.negative && magnitude_text(d2) == magnitude_text(d) && decimal_wf(d2),
{
    let a = first_nonzero(d.digits, 0);
    lemma_first_nonzero(d.digits, 0);
    if a >= d.digits.len() {
        lemma_read_zero(s, p, d);
    } else {
        let b = nonzero_end(d.digits, a, d.digits.len() as int);
        lemma_nonzero_end(d.digits, a, d.digits.len() as int);
        let e = d.exponent + (d.digits.len() - b);
        if e >= 0 {
            lemma_read_whole(s, p, d);
        } else if b - a > -e {
            lemma_read_split(s, p, d);
        } else {
            lemma_read_small(s, p, d);
        }
    }
}

/// The magnitude does not depend on the sign.
proof fn lemma_magnitude_sign(d: DecimalView, negative: bool)
    ensures
        magnitude_text(DecimalView { negative, ..d }) == magnitude_text(d),
{
    reveal(magnitude_text);
}

/// Reading back the text of a decimal gives a decimal with the same text.
#[verifier::spinoff_prover]
#[verifier::rlimit(60)]
pub proof fn lemma_read_decimal(s: Seq<char>, i: int, d: DecimalView)
    requires
        decimal_wf(d),
        placed(s, i, decimal_text(d)),
    ensures
        spec_float(s, i) matches Scan::Found(j, d2) && j == i + decimal_text(d).len()
            && decimal_text(d2) == decimal_text(d) && decimal_wf(d2),
{
    let t = decimal_text(d);
    let mt = magnitude_text(d);
    lemma_magnitude_first(d);
    if d.negative {
        assert(t == seq!['-'] + mt);
        lemma_char_of_placed(s, i, t, 0);
        assert(s.subrange(i + 1, i + 1 + mt.len()) =~= mt) by {
            assert forall|j: int| 0 <= j < mt.len() implies s.subrange(i + 1, i + 1 + mt.len())[j]
                == mt[j] by {
                lemma_char_of_placed(s, i, t, 1 + j);
            }
        }
        assert(placed(s, i + 1, mt));
        lemma_read_magnitude(s, i + 1, d);
        let d1 = spec_unsigned_float(s, i + 1)->Found_1;
        lemma_magnitude_sign(d1, true);
        assert(sign_at(s, i) && char_at(s, i, '-'));
    } else {
        assert(t == mt);
        lemma_char_of_placed(s, i, t, 0);
        lemma_read_magnitude(s, i, d);
        let d1 = spec_unsigned_float(s, i)->Found_1;
        lemma_magnitude_sign(d1, false);
        assert(!sign_at(s, i));
    }
}

// ---------------------------------------------------------------------------
// Indices

/// The decimal text of a number is made of digits, and is not empty.
pub proof fn lemma_decimal_chars(n: nat)
    ensures
        decimal(n).len() > 0,
        forall|j: int| 0 <= j < decimal(n).len() ==> in_class(#[trigger] decimal(n)[j], CharClass::Digit),
    decreases n,
{
    if n < 10 {
        lemma_digit_char(n);
    } else {
        lemma_decimal_chars(n / 10);
        lemma_digit_char(n % 10);
        assert forall|j: int| 0 <= j < decimal(n).len() implies in_class(
            #[trigger] decimal(n)[j],
            CharClass::Digit,
        ) by {
            if j < decimal(n / 10).len() {
                assert(decimal(n)[j] == decimal(n / 10)[j]);
            }
        }
    }
}

/// The digits of the decimal text of `n` have the value `n`.
pub proof fn lemma_digits_value_decimal(s: Seq<char>, q: int, n: nat)
    requires
        0 <= q,
        q + decimal(n).len() <= s.len(),
        s.subrange(q, q + decimal(n).len()) == decimal(n),
    ensures
        digits_value(s, q, q + decimal(n).len()) == n,
    decreases n,
{
    let l = decimal(n).len() as int;
    if n < 10 {
        assert(s[q] == s.subrange(q, q + l)[0]);
        lemma_digit_char(n);
        assert(digits_value(s, q, q) == 0);
    } else {
        let h = decimal(n / 10);
        assert(s.subrange(q, q + h.len()) =~= h) by {
            assert forall|j: int| 0 <= j < h.len() implies s.subrange(q, q + h.len())[j] == h[j] by {
                assert(s.subrange(q, q + l)[j] == decimal(n)[j]);
            }
        }
        lemma_digits_value_decimal(s, q, n / 10);
        assert(s[q + l - 1] == s.subrange(q, q + l)[l - 1]);
        lemma_digit_char(n % 10);
    }
}

/// Reading back the decimal text of an index.
pub proof fn lemma_read_uint(s: Seq<char>, q: int, n: u32)
    requires
        0 <= q,
        q + decimal(n as nat).len() <= s.len(),
        s.len() <= usize::MAX,
        s.subrange(q, q + decimal(n as nat).len()) == decimal(n as nat),
        q + decimal(n as nat).len() == s.len() || !in_class(
            s[q + decimal(n as nat).len()],
            CharClass::Digit,
        ),
    ensures
        spec_uint(s, q) == Scan::Found((q + decimal(n as nat).len()) as usize, n),
{
    let t = decimal(n as nat);
    lemma_decimal_chars(n as nat);
    assert forall|j: int| q <= j < q + t.len() implies in_class(#[trigger] s[j], CharClass::Digit) by {
        assert(s[j] == s.subrange(q, q + t.len())[j - q]);
    }
    lemma_scan_run(s, q, t.len() as int, CharClass::Digit);
    lemma_digits_value_decimal(s, q, n as nat);
}

/// Nothing to read as an index at the end of the text or before a
/// character that is not a digit.
proof fn lemma_no_uint(s: Seq<char>, q: int)
    requires
        0 <= q <= s.len(),
        q == s.len() || !in_class(s[q], CharClass::Digit),
    ensures
        spec_uint(s, q) is Miss,
        spec_opt_uint(s, q) == (q, None::<u32>),
{
    lemma_scan_run(s, q, 0, CharClass::Digit);
}

/// A face corner whose text can be read back: one with a normal index has a
/// texture index too.
pub open spec fn corner_ok(f: FaceIndex) -> bool {
    f.vn is Some ==> f.vt is Some
}

/// Reading back the text of a face corner gives the corner.
#[verifier::spinoff_prover]
#[verifier::rlimit(60)]
pub proof fn lemma_read_corner(s: Seq<char>, q: int, f: FaceIndex)
    requires
        corner_ok(f),
        placed(s, q, face_index_text(f)),
    ensures
        spec_face_item(s, q) == Scan::Found(
            scan(s, q + face_index_text(f).len(), CharClass::Multispace) as usize,
            f,
        ),
{
    reveal(spec_face_item);
    let t = face_index_text(f);
    let dv = decimal(f.v as nat);
    let end = q + t.len();
    lemma_decimal_chars(f.v as nat);
    assert(s.subrange(q, q + dv.len()) =~= dv) by {
        assert forall|j: int| 0 <= j < dv.len() implies s.subrange(q, q + dv.len())[j] == dv[j] by {
            lemma_char_of_placed(s, q, t, j);
        }
    }
    lemma_char_of_placed(s, q, t, dv.len() as int);
    assert(s[q + dv.len()] == '/');
    lemma_read_uint(s, q, f.v);
    lemma_char_of_placed(s, q, t, 0);
    assert(!in_class(s[q], CharClass::Multispace)) by {
        assert(in_class(dv[0], CharClass::Digit));
    }
    lemma_scan_run(s, q, 0, CharClass::Multispace);
    let p1 = q + dv.len() + 1;
    if end < s.len() {
        assert(s[end] == ' ' || s[end] == '\n');
    }
    match f.vt {
        Some(vt) => {
            let dt = decimal(vt as nat);
            lemma_decimal_chars(vt as nat);
            assert(s.subrange(p1, p1 + dt.len()) =~= dt) by {
                assert forall|j: int| 0 <= j < dt.len() implies s.subrange(p1, p1 + dt.len())[j] == dt[j] by {
                    lemma_char_of_placed(s, q, t, dv.len() + 1 + j);
                }
            }
            let p2 = p1 + dt.len();
            lemma_char_of_placed(s, q, t, p2 - q);
            assert(s[p2] == '/');
            lemma_read_uint(s, p1, vt);
            match f.vn {
                Some(vn) => {
                    let du = decimal(vn as nat);
                    lemma_decimal_chars(vn as nat);
                    assert(s.subrange(p2 + 1, p2 + 1 + du.len()) =~= du) by {
                        assert forall|j: int| 0 <= j < du.len() implies s.subrange(p2 + 1, p2 + 1 + du.len())[j]
                            == du[j] by {
                            lemma_char_of_placed(s, q, t, p2 + 1 - q + j);
                        }
                    }
                    assert(p2 + 1 + du.len() == end);
                    lemma_read_uint(s, p2 + 1, vn);
                    assert(spec_face_triple(s, q) == Scan::Found(end as usize, f));
                },
                None => {
                    assert(p2 + 1 == end);
                    lemma_no_uint(s, end);
                    assert(spec_face_triple(s, q) == Scan::Found(end as usize, f));
                },
            }
        },
        None => {
            assert(p1 == end);
            lemma_no_uint(s, end);
            assert(!char_at(s, end, '/'));
            assert(spec_face_triple(s, q) is Miss);
            assert(spec_face_pair(s, q) == Scan::Found(end as usize, f));
        },
    }
}

// ---------------------------------------------------------------------------
// Runs of numbers

/// The text of a decimal is not empty and does not start with white space.
pub proof fn lemma_text_first(d: DecimalView)
    requires
        digits_wf(d.digits),
    ensures
        decimal_text(d).len() > 0,
        !in_class(decimal_text(d)[0], CharClass::Multispace),
{
    lemma_magnitude_first(d);
    if !d.negative {
        lemma_digit_char(0);
        assert(decimal_text(d)[0] == magnitude_text(d)[0]);
    }
}

/// What may follow a number in a line: the end of the text, a line feed
/// that ends the text, or a space and something that is not white space.
pub open spec fn number_follower(b: Seq<char>) -> bool {
    ||| b.len() == 0
    ||| b == seq!['\n']
    ||| (b[0] == ' ' && b.len() >= 2 && !in_class(b[1], CharClass::Multispace))
}

/// A line feed or nothing, as `nl` says.
pub open spec fn ending(nl: bool) -> Seq<char> {
    if nl {
        seq!['\n']
    } else {
        Seq::empty()
    }
}

/// Reading a spaced number that stands after a space, from the space or from
/// the number's first character: it ends at the end of the line or at the
/// start of what follows the space after it.
#[verifier::spinoff_prover]
#[verifier::rlimit(60)]
pub proof fn lemma_read_in_line(a: Seq<char>, d: DecimalView, b: Seq<char>, i: int)
    requires
        decimal_wf(d),
        a.len() >= 1,
        a[a.len() - 1] == ' ',
        i == a.len() - 1 || i == a.len(),
        number_follower(b),
        (a + decimal_text(d) + b).len() <= usize::MAX,
    ensures
        ({
            let s = a + decimal_text(d) + b;
            let end = if b.len() == 0 || b == seq!['\n'] {
                s.len() as int
            } else {
                (a.len() + decimal_text(d).len() + 1) as int
            };
            spec_spaced_float(s, i) matches Scan::Found(j, d2) && j == end && decimal_text(d2)
                == decimal_text(d) && decimal_wf(d2)
        }),
{
    reveal(spec_spaced_float);
    let t = decimal_text(d);
    let s = a + t + b;
    let q = a.len() as int;
    lemma_text_first(d);
    assert(s.subrange(q, q + t.len()) =~= t);
    assert(s[q] == t[0]);
    assert(s[q - 1] == ' ');
    if i == q - 1 {
        lemma_scan_run(s, i, 1, CharClass::Multispace);
    } else {
        lemma_scan_run(s, i, 0, CharClass::Multispace);
    }
    let e = q + t.len();
    if b == seq!['\n'] {
        assert(s[e] == '\n');
        lemma_scan_run(s, e, 1, CharClass::Multispace);
    } else if b.len() > 0 {
        assert(s[e] == b[0]);
        assert(s[e + 1] == b[1]);
        lemma_scan_run(s, e, 1, CharClass::Multispace);
    } else {
        lemma_scan_run(s, e, 0, CharClass::Multispace);
    }
    assert(placed(s, q, t));
    lemma_read_decimal(s, q, d);
}

/// No number at the end of the text.
pub proof fn lemma_no_number_at_end(s: Seq<char>)
    ensures
        spec_spaced_float(s, s.len() as int) is Miss,
{
    reveal(spec_spaced_float);
    lemma_scan_run(s, s.len() as int, 0, CharClass::Multispace);
    lemma_scan_run(s, s.len() as int, 0, CharClass::Digit);
}

// ---------------------------------------------------------------------------
// Lines

/// The first rule that does not miss decides the line.
proof fn lemma_first_rule_from(s: Seq<char>, i: int, n: u8, m: u8)
    requires
        n <= m < NUM_OBJ_RULES,
        forall|k: u8| n <= k < m ==> #[trigger] obj_rule(s, i, k) is Miss,
        !(obj_rule(s, i, m) is Miss),
    ensures
        first_obj_rule(s, i, n) == obj_rule(s, i, m),
    decreases m - n,
{
    if n < m {
        assert(obj_rule(s, i, n) is Miss);
        lemma_first_rule_from(s, i, (n + 1) as u8, m);
    }
}

/// The rule of number `m` decides the line when all rules before it miss.
proof fn lemma_rule_decides(s: Seq<char>, m: u8)
    requires
        m < NUM_OBJ_RULES,
        forall|k: u8| k < m ==> #[trigger] obj_rule(s, 0, k) is Miss,
        !(obj_rule(s, 0, m) is Miss),
    ensures
        spec_parse_obj_line(s, 0) == obj_rule(s, 0, m),
{
    reveal(spec_parse_obj_line);
    lemma_first_rule_from(s, 0, 0, m);
}

/// A text that a text line can carry and give back: not empty, without line
/// feeds, and without white space at either end.
pub open spec fn text_ok(x: Seq<char>) -> bool {
    &&& x.len() > 0
    &&& forall|j: int| 0 <= j < x.len() ==> #[trigger] x[j] != '\n'
    &&& !is_white_space(x[0])
    &&& !is_white_space(x[x.len() - 1])
}

/// A text rule whose keyword does not start the text misses.
proof fn lemma_text_rule_misses(s: Seq<char>, k: TextLine)
    requires
        s.len() > 0,
        s[0] != text_line_tag(k)[0],
    ensures
        spec_text_line(s, 0, k) is Miss,
{
    if starts_with_at(s, 0, text_line_tag(k)) {
        assert(s.subrange(0, text_line_tag(k).len() as int)[0] == s[0]);
    }
}

/// Reading back a text line, with or without a line feed after it.
#[verifier::spinoff_prover]
#[verifier::rlimit(60)]
proof fn lemma_read_text_line(k: TextLine, x: Seq<char>, nl: bool)
    requires
        text_ok(x),
        (text_line_tag(k) + seq![' '] + x + ending(nl)).len() <= usize::MAX,
    ensures
        ({
            let s = text_line_tag(k) + seq![' '] + x + ending(nl);
            spec_text_line(s, 0, k) == Scan::Found(s.len() as usize, text_line_view(k, x))
        }),
{
    let tag = text_line_tag(k);
    let s = tag + seq![' '] + x + ending(nl);
    let n = tag.len() as int;
    let e = n + 1 + x.len();
    assert(s.subrange(0, n) =~= tag);
    assert(s[n] == ' ');
    assert(s[n + 1] == x[0]);
    lemma_scan_run(s, n, 1, CharClass::Multispace);
    assert forall|j: int| n + 1 <= j < e implies in_class(#[trigger] s[j], CharClass::NotNewline) by {
        assert(s[j] == x[j - n - 1]);
    }
    if nl {
        assert(s[e] == '\n');
        lemma_scan_run(s, e, 1, CharClass::Multispace);
    } else {
        lemma_scan_run(s, e, 0, CharClass::Multispace);
    }
    lemma_scan_run(s, n + 1, x.len() as int, CharClass::NotNewline);
    lemma_scan_run(s, s.len() as int, 0, CharClass::Newline);
    assert(scan_white_to(s, n + 1, e) == n + 1);
    assert(s[e - 1] == x[x.len() - 1]);
    assert(rscan_white(s, n + 1, e) == e);
    assert(s.subrange(n + 1, e) =~= x);
}

/// No number starts at a character that is neither white space, a digit,
/// a point nor a sign.
proof fn lemma_no_number_at(s: Seq<char>, i: int)
    requires
        0 <= i < s.len(),
        !in_class(s[i], CharClass::Multispace),
        !in_class(s[i], CharClass::Digit),
        s[i] != '.' && s[i] != '+' && s[i] != '-',
    ensures
        spec_spaced_float(s, i) is Miss,
{
    reveal(spec_spaced_float);
    lemma_scan_run(s, i, 0, CharClass::Multispace);
    lemma_scan_run(s, i, 0, CharClass::Digit);
}

/// A spaced number followed by what may follow a number.
proof fn lemma_spaced_follower(d: DecimalView, rest: Seq<char>)
    requires
        digits_wf(d.digits),
    ensures
        number_follower(spaced_text(d) + rest),
{
    lemma_text_first(d);
    assert((spaced_text(d) + rest)[1] == decimal_text(d)[0]);
}

/// Reading back a vertex line, with or without a line feed after it.
#[verifier::spinoff_prover]
#[verifier::rlimit(60)]
proof fn lemma_read_vertex_line(x: DecimalView, y: DecimalView, z: DecimalView, w: Option<DecimalView>, nl: bool)
    requires
        line_wf(ObjLineView::Vertex(x, y, z, w)),
        (obj_line_text(ObjLineView::Vertex(x, y, z, w)) + ending(nl)).len() <= usize::MAX,
    ensures
        ({
            let t = obj_line_text(ObjLineView::Vertex(x, y, z, w));
            let s = t + ending(nl);
            spec_vertex_line(s, 0) matches Scan::Found(j, l2) && j == s.len() && obj_line_text(l2) == t
        }),
{
    let e = ending(nl);
    let s = obj_line_text(ObjLineView::Vertex(x, y, z, w)) + e;
    let v = seq!['v'];
    let ow = opt_spaced_text(w);
    let sx = spaced_text(x);
    let sy = spaced_text(y);
    let sz = spaced_text(z);
    lemma_spaced_follower(y, sz + ow + e);
    lemma_spaced_follower(z, ow + e);
    let a1 = v + seq![' '];
    assert(s =~= a1 + decimal_text(x) + (sy + sz + ow + e));
    lemma_read_in_line(a1, x, sy + sz + ow + e, 1);
    let a2 = v + sx + seq![' '];
    assert(s =~= a2 + decimal_text(y) + (sz + ow + e));
    lemma_read_in_line(a2, y, sz + ow + e, a2.len() as int);
    let a3 = v + sx + sy + seq![' '];
    assert(s =~= a3 + decimal_text(z) + (ow + e));
    match w {
        Some(wd) => {
            lemma_spaced_follower(wd, e);
            assert(ow + e =~= spaced_text(wd) + e);
            lemma_read_in_line(a3, z, ow + e, a3.len() as int);
            let a4 = v + sx + sy + sz + seq![' '];
            assert(s =~= a4 + decimal_text(wd) + e);
            lemma_read_in_line(a4, wd, e, a4.len() as int);
        },
        None => {
            assert(ow + e =~= e);
            lemma_read_in_line(a3, z, e, a3.len() as int);
            lemma_no_number_at_end(s);
        },
    }
    assert(s[0] == 'v');
    lemma_scan_run(s, s.len() as int, 0, CharClass::Newline);
}

/// A line of three numbers of the kind `kind` names whose numbers print as
/// `x`, `y` and `z` do.
pub open spec fn triple_texts_match(l: ObjLineView, kind: u8, x: DecimalView, y: DecimalView, z: DecimalView) -> bool {
    match l {
        ObjLineView::Normal(a, b, c) => kind == 0 && decimal_text(a) == decimal_text(x)
            && decimal_text(b) == decimal_text(y) && decimal_text(c) == decimal_text(z),
        ObjLineView::VertexParam(a, b, c) => kind != 0 && decimal_text(a) == decimal_text(x)
            && decimal_text(b) == decimal_text(y) && decimal_text(c) == decimal_text(z),
        _ => false,
    }
}

/// Reading back three spaced numbers that end a line after the two-letter
/// keyword `tag`, with or without a line feed after them.
#[verifier::spinoff_prover]
#[verifier::rlimit(60)]
proof fn lemma_read_triple_line(tag: Seq<char>, kind: u8, x: DecimalView, y: DecimalView, z: DecimalView, nl: bool)
    requires
        tag.len() == 2,
        decimal_wf(x) && decimal_wf(y) && decimal_wf(z),
        (tag + spaced_text(x) + spaced_text(y) + spaced_text(z) + ending(nl)).len() <= usize::MAX,
    ensures
        ({
            let s = tag + spaced_text(x) + spaced_text(y) + spaced_text(z) + ending(nl);
            spec_triple_line(s, 0, tag, kind) matches Scan::Found(j, l2) && j == s.len()
                && triple_texts_match(l2, kind, x, y, z)
        }),
{
    let e = ending(nl);
    let s = tag + spaced_text(x) + spaced_text(y) + spaced_text(z) + e;
    let sx = spaced_text(x);
    let sy = spaced_text(y);
    let sz = spaced_text(z);
    lemma_spaced_follower(y, sz + e);
    lemma_spaced_follower(z, e);
    assert(s.subrange(0, 2) =~= tag);
    let a1 = tag + seq![' '];
    assert(s =~= a1 + decimal_text(x) + (sy + sz + e));
    lemma_read_in_line(a1, x, sy + sz + e, 2);
    let a2 = tag + sx + seq![' '];
    assert(s =~= a2 + decimal_text(y) + (sz + e));
    lemma_read_in_line(a2, y, sz + e, a2.len() as int);
    let a3 = tag + sx + sy + seq![' '];
    assert(s =~= a3 + decimal_text(z) + e);
    lemma_read_in_line(a3, z, e, a3.len() as int);
    lemma_scan_run(s, s.len() as int, 0, CharClass::Newline);
}

/// Reading back a texture coordinate line, with or without a line feed
/// after it.
#[verifier::spinoff_prover]
#[verifier::rlimit(60)]
proof fn lemma_read_texcoord_line(u: DecimalView, v: DecimalView, w: Option<DecimalView>, nl: bool)
    requires
        line_wf(ObjLineView::TextureUVW(u, v, w)),
        (obj_line_text(ObjLineView::TextureUVW(u, v, w)) + ending(nl)).len() <= usize::MAX,
    ensures
        ({
            let t = obj_line_text(ObjLineView::TextureUVW(u, v, w));
            let s = t + ending(nl);
            spec_texcoord_line(s, 0) matches Scan::Found(j, l2) && j == s.len() && obj_line_text(l2) == t
        }),
{
    let e = ending(nl);
    let s = obj_line_text(ObjLineView::TextureUVW(u, v, w)) + e;
    let tag = seq!['v', 't'];
    let ow = opt_spaced_text(w);
    let su = spaced_text(u);
    let sv = spaced_text(v);
    lemma_spaced_follower(v, ow + e);
    let a1 = tag + seq![' '];
    assert(s =~= a1 + decimal_text(u) + (sv + ow + e));
    lemma_read_in_line(a1, u, sv + ow + e, 2);
    let a2 = tag + su + seq![' '];
    assert(s =~= a2 + decimal_text(v) + (ow + e));
    match w {
        Some(wd) => {
            lemma_spaced_follower(wd, e);
            assert(ow + e =~= spaced_text(wd) + e);
            lemma_read_in_line(a2, v, ow + e, a2.len() as int);
            let a3 = tag + su + sv + seq![' '];
            assert(s =~= a3 + decimal_text(wd) + e);
            lemma_read_in_line(a3, wd, e, a3.len() as int);
        },
        None => {
            assert(ow + e =~= e);
            lemma_read_in_line(a2, v, e, a2.len() as int);
            lemma_no_number_at_end(s);
        },
    }
    assert(s.subrange(0, 2) =~= tag);
    reveal_strlit("vt");
    assert("vt"@ =~= tag);
    lemma_scan_run(s, s.len() as int, 0, CharClass::Newline);
}

/// Reading back a face line, with or without a line feed after it.
#[verifier::spinoff_prover]
#[verifier::rlimit(60)]
proof fn lemma_read_face_line(a: FaceIndex, b: FaceIndex, c: FaceIndex, nl: bool)
    requires
        corner_ok(a) && corner_ok(b) && corner_ok(c),
        (obj_line_text(ObjLineView::Face(a, b, c)) + ending(nl)).len() <= usize::MAX,
    ensures
        ({
            let s = obj_line_text(ObjLineView::Face(a, b, c)) + ending(nl);
            spec_face_line(s, 0) == Scan::Found(s.len() as usize, ObjLineView::Face(a, b, c))
        }),
{
    let s = obj_line_text(ObjLineView::Face(a, b, c)) + ending(nl);
    let ta = face_index_text(a);
    let tb = face_index_text(b);
    let tc = face_index_text(c);
    lemma_decimal_chars(a.v as nat);
    lemma_decimal_chars(b.v as nat);
    lemma_decimal_chars(c.v as nat);
    assert(ta[0] == decimal(a.v as nat)[0]);
    assert(tb[0] == decimal(b.v as nat)[0]);
    assert(tc[0] == decimal(c.v as nat)[0]);
    lemma_digit_char(0);
    let pa = 2int;
    let pb = pa + ta.len() + 1;
    let pc = pb + tb.len() + 1;
    let end = pc + tc.len();
    assert(s[0] == 'f' && s[1] == ' ');
    assert(s[pa] == ta[0]);
    assert(s[pb - 1] == ' ' && s[pb] == tb[0]);
    assert(s[pc - 1] == ' ' && s[pc] == tc[0]);
    assert(s.subrange(pa, pa + ta.len()) =~= ta);
    assert(s.subrange(pb, pb + tb.len()) =~= tb);
    assert(s.subrange(pc, pc + tc.len()) =~= tc);
    lemma_scan_run(s, 0, 0, CharClass::Multispace);
    lemma_scan_run(s, 1, 1, CharClass::Space);
    lemma_scan_run(s, 2, 0, CharClass::Multispace);
    lemma_read_corner(s, pa, a);
    lemma_scan_run(s, pb - 1, 1, CharClass::Multispace);
    lemma_read_corner(s, pb, b);
    lemma_scan_run(s, pc - 1, 1, CharClass::Multispace);
    if nl {
        assert(s[end] == '\n');
        lemma_scan_run(s, end, 1, CharClass::Multispace);
    } else {
        lemma_scan_run(s, end, 0, CharClass::Multispace);
    }
    lemma_read_corner(s, pc, c);
    lemma_scan_run(s, s.len() as int, 0, CharClass::Multispace);
}

// ---------------------------------------------------------------------------
// The round trip

/// The text line kind that rule `n`, below six, reads.
pub open spec fn text_rule_kind(n: u8) -> TextLine {
    if n == 0 {
        TextLine::Comment
    } else if n == 1 {
        TextLine::ObjectName
    } else if n == 2 {
        TextLine::GroupName
    } else if n == 3 {
        TextLine::MtlLib
    } else if n == 4 {
        TextLine::UseMtl
    } else {
        TextLine::SmoothShading
    }
}

/// The text rules before rule `m` miss a text whose first character starts
/// none of their keywords.
proof fn lemma_text_rules_miss(s: Seq<char>, m: u8)
    requires
        m <= 6,
        s.len() > 0,
        forall|k: u8| k < m ==> s[0] != #[trigger] text_line_tag(text_rule_kind(k))[0],
    ensures
        forall|k: u8| k < m ==> #[trigger] obj_rule(s, 0, k) is Miss,
{
    assert forall|k: u8| k < m implies #[trigger] obj_rule(s, 0, k) is Miss by {
        assert(s[0] != text_line_tag(text_rule_kind(k))[0]);
        lemma_text_rule_misses(s, text_rule_kind(k));
        assert(obj_rule(s, 0, k) == spec_text_line(s, 0, text_rule_kind(k)));
    }
}

/// A line whose text reads back: texts of text lines are not empty, hold no
/// line feed and have no white space at either end; face corners with a
/// normal index have a texture index; numbers are well formed.
pub open spec fn line_ok(l: ObjLineView) -> bool {
    match l {
        ObjLineView::Comment(x) => text_ok(x),
        ObjLineView::ObjectName(x) => text_ok(x),
        ObjLineView::GroupName(x) => text_ok(x),
        ObjLineView::MtlLib(x) => text_ok(x),
        ObjLineView::UseMtl(x) => text_ok(x),
        ObjLineView::SmoothShading(x) => text_ok(x),
        ObjLineView::Face(a, b, c) => corner_ok(a) && corner_ok(b) && corner_ok(c),
        _ => line_wf(l),
    }
}

/// Whether a line carries numbers.
pub open spec fn has_numbers(l: ObjLineView) -> bool {
    ||| l is Vertex
    ||| l is VertexParam
    ||| l is Normal
    ||| l is TextureUVW
}

/// Reading back a text line of kind `k`, the rule of number `n`.
#[verifier::spinoff_prover]
#[verifier::rlimit(60)]
proof fn lemma_text_line_roundtrip(k: TextLine, n: u8, x: Seq<char>, nl: bool)
    requires
        n < 6,
        text_rule_kind(n) == k,
        text_ok(x),
        (obj_line_text(text_line_view(k, x)) + ending(nl)).len() <= usize::MAX,
        forall|j: u8| j < n ==> text_line_tag(k)[0] != #[trigger] text_line_tag(text_rule_kind(j))[0],
    ensures
        ({
            let s = obj_line_text(text_line_view(k, x)) + ending(nl);
            spec_parse_obj_line(s, 0) == Scan::Found(s.len() as usize, text_line_view(k, x))
        }),
{
    let s = obj_line_text(text_line_view(k, x)) + ending(nl);
    assert(s =~= text_line_tag(k) + seq![' '] + x + ending(nl));
    lemma_read_text_line(k, x, nl);
    assert(s[0] == text_line_tag(k)[0]);
    lemma_text_rules_miss(s, n);
    assert(obj_rule(s, 0, n) == spec_text_line(s, 0, k));
    lemma_rule_decides(s, n);
}

/// Reading the text of `l`, with or without a line feed after it, reads the
/// whole text and gives a line that prints the same; a line without numbers
/// comes back unchanged.
pub open spec fn reads_back(l: ObjLineView, nl: bool) -> bool {
    let s = obj_line_text(l) + ending(nl);
    &&& spec_parse_obj_line(s, 0) matches Scan::Found(j, l2) && j == s.len() && obj_line_text(l2)
        == obj_line_text(l)
    &&& !has_numbers(l) ==> spec_parse_obj_line(s, 0) == Scan::Found(s.len() as usize, l)
}

#[verifier::spinoff_prover]
#[verifier::rlimit(60)]
proof fn lemma_vertex_roundtrip(l: ObjLineView, nl: bool)
    requires
        l is Vertex,
        line_ok(l),
        (obj_line_text(l) + ending(nl)).len() <= usize::MAX,
    ensures
        reads_back(l, nl),
{
    let s = obj_line_text(l) + ending(nl);
    let t = obj_line_text(l);
    if let ObjLineView::Vertex(x, y, z, w) = l {
        lemma_read_vertex_line(x, y, z, w, nl);
        assert(s[0] == t[0]);
        lemma_text_rules_miss(s, 6);
        lemma_rule_decides(s, 6);
    }
}

#[verifier::spinoff_prover]
#[verifier::rlimit(60)]
proof fn lemma_normal_roundtrip(l: ObjLineView, nl: bool)
    requires
        l is Normal,
        line_ok(l),
        (obj_line_text(l) + ending(nl)).len() <= usize::MAX,
    ensures
        reads_back(l, nl),
{
    let s = obj_line_text(l) + ending(nl);
    if let ObjLineView::Normal(x, y, z) = l {
        let tag = seq!['v', 'n'];
        assert(s =~= tag + spaced_text(x) + spaced_text(y) + spaced_text(z) + ending(nl));
        lemma_read_triple_line(tag, 0, x, y, z, nl);
        lemma_text_rules_miss(s, 6);
        lemma_no_number_at(s, 1);
        assert(obj_rule(s, 0, 6) is Miss);
        assert(obj_rule(s, 0, 7) == spec_triple_line(s, 0, tag, 0));
        lemma_rule_decides(s, 7);
    }
}

#[verifier::spinoff_prover]
#[verifier::rlimit(60)]
proof fn lemma_texcoord_roundtrip(l: ObjLineView, nl: bool)
    requires
        l is TextureUVW,
        line_ok(l),
        (obj_line_text(l) + ending(nl)).len() <= usize::MAX,
    ensures
        reads_back(l, nl),
{
    let s = obj_line_text(l) + ending(nl);
    let t = obj_line_text(l);
    if let ObjLineView::TextureUVW(u, v, w) = l {
        lemma_read_texcoord_line(u, v, w, nl);
        assert(s[0] == t[0] && s[1] == t[1]);
        lemma_text_rules_miss(s, 6);
        lemma_no_number_at(s, 1);
        assert(obj_rule(s, 0, 6) is Miss);
        assert(!starts_with_at(s, 0, seq!['v', 'n'])) by {
            if starts_with_at(s, 0, seq!['v', 'n']) {
                assert(s.subrange(0, 2)[1] == s[1]);
            }
        }
        assert(obj_rule(s, 0, 7) is Miss);
        lemma_rule_decides(s, 8);
    }
}

#[verifier::spinoff_prover]
#[verifier::rlimit(60)]
proof fn lemma_vertex_param_roundtrip(l: ObjLineView, nl: bool)
    requires
        l is VertexParam,
        line_ok(l),
        (obj_line_text(l) + ending(nl)).len() <= usize::MAX,
    ensures
        reads_back(l, nl),
{
    let s = obj_line_text(l) + ending(nl);
    if let ObjLineView::VertexParam(x, y, z) = l {
        let tag = seq!['v', 'p'];
        assert(s =~= tag + spaced_text(x) + spaced_text(y) + spaced_text(z) + ending(nl));
        lemma_read_triple_line(tag, 1, x, y, z, nl);
        lemma_text_rules_miss(s, 6);
        lemma_no_number_at(s, 1);
        assert(obj_rule(s, 0, 6) is Miss);
        assert(!starts_with_at(s, 0, seq!['v', 'n'])) by {
            if starts_with_at(s, 0, seq!['v', 'n']) {
                assert(s.subrange(0, 2)[1] == s[1]);
            }
        }
        assert(obj_rule(s, 0, 7) is Miss);
        reveal_strlit("vt");
        assert(!starts_with_at(s, 0, "vt"@)) by {
            if starts_with_at(s, 0, "vt"@) {
                assert(s.subrange(0, 2)[1] == s[1]);
            }
        }
        assert(obj_rule(s, 0, 8) is Miss);
        assert(obj_rule(s, 0, 9) == spec_triple_line(s, 0, tag, 1));
        lemma_rule_decides(s, 9);
    }
}

#[verifier::spinoff_prover]
#[verifier::rlimit(60)]
proof fn lemma_face_roundtrip(l: ObjLineView, nl: bool)
    requires
        l is Face,
        line_ok(l),
        (obj_line_text(l) + ending(nl)).len() <= usize::MAX,
    ensures
        reads_back(l, nl),
{
    let s = obj_line_text(l) + ending(nl);
    let t = obj_line_text(l);
    if let ObjLineView::Face(a, b, c) = l {
        lemma_read_face_line(a, b, c, nl);
        assert(s[0] == t[0]);
        lemma_text_rules_miss(s, 6);
        assert(obj_rule(s, 0, 6) is Miss);
        assert(!starts_with_at(s, 0, seq!['v', 'n'])) by {
            if starts_with_at(s, 0, seq!['v', 'n']) {
                assert(s.subrange(0, 2)[0] == s[0]);
            }
        }
        reveal_strlit("vt");
        assert(!starts_with_at(s, 0, "vt"@)) by {
            if starts_with_at(s, 0, "vt"@) {
                assert(s.subrange(0, 2)[0] == s[0]);
            }
        }
        assert(!starts_with_at(s, 0, seq!['v', 'p'])) by {
            if starts_with_at(s, 0, seq!['v', 'p']) {
                assert(s.subrange(0, 2)[0] == s[0]);
            }
        }
        assert(obj_rule(s, 0, 7) is Miss);
        assert(obj_rule(s, 0, 8) is Miss);
        assert(obj_rule(s, 0, 9) is Miss);
        lemma_rule_decides(s, 10);
    }
}

/// Printing a line and reading the text back, with or without a line feed
/// after it, reads the whole text and gives a line that prints the same
/// text; a line without numbers comes back unchanged.
#[verifier::spinoff_prover]
#[verifier::rlimit(60)]
pub proof fn lemma_obj_line_roundtrip(l: ObjLineView, nl: bool)
    requires
        line_ok(l),
        (obj_line_text(l) + ending(nl)).len() <= usize::MAX,
    ensures
        reads_back(l, nl),
{
    match l {
        ObjLineView::Comment(x) => {
            lemma_text_line_roundtrip(TextLine::Comment, 0, x, nl);
        },
        ObjLineView::ObjectName(x) => {
            lemma_text_line_roundtrip(TextLine::ObjectName, 1, x, nl);
        },
        ObjLineView::GroupName(x) => {
            lemma_text_line_roundtrip(TextLine::GroupName, 2, x, nl);
        },
        ObjLineView::MtlLib(x) => {
            lemma_text_line_roundtrip(TextLine::MtlLib, 3, x, nl);
        },
        ObjLineView::UseMtl(x) => {
            lemma_text_line_roundtrip(TextLine::UseMtl, 4, x, nl);
        },
        ObjLineView::SmoothShading(x) => {
            lemma_text_line_roundtrip(TextLine::SmoothShading, 5, x, nl);
        },
        ObjLineView::Vertex(..) => lemma_vertex_roundtrip(l, nl),
        ObjLineView::Normal(..) => lemma_normal_roundtrip(l, nl),
        ObjLineView::TextureUVW(..) => lemma_texcoord_roundtrip(l, nl),
        ObjLineView::VertexParam(..) => lemma_vertex_param_roundtrip(l, nl),
        ObjLineView::Face(..) => lemma_face_roundtrip(l, nl),
    }
}

// ---------------------------------------------------------------------------
// Whole files

/// The characters of a decimal's text are never line feeds.
#[verifier::spinoff_prover]
#[verifier::rlimit(60)]
proof fn lemma_decimal_text_no_newline(d: DecimalView)
    requires
        digits_wf(d.digits),
    ensures
        forall|j: int| 0 <= j < decimal_text(d).len() ==> #[trigger] decimal_text(d)[j] != '\n',
{
    reveal(magnitude_text);
    let m = magnitude_text(d);
    assert forall|q: Seq<u8>, j: int| digits_wf(q) && 0 <= j < q.len() implies #[trigger] digit_chars(q)[j]
        != '\n' by {
        assert(q[j] < 10);
        lemma_digit_char(q[j] as nat);
    }
    assert forall|j: int| 0 <= j < m.len() implies #[trigger] m[j] != '\n' by {
        let a = first_nonzero(d.digits, 0);
        lemma_first_nonzero(d.digits, 0);
        if a < d.digits.len() {
            lemma_significant(d);
        }
    }
    assert forall|j: int| 0 <= j < decimal_text(d).len() implies #[trigger] decimal_text(d)[j] != '\n' by {
        if d.negative && j > 0 {
            assert(decimal_text(d)[j] == m[j - 1]);
        } else if !d.negative {
            assert(decimal_text(d)[j] == m[j]);
        }
    }
}

/// The characters of a decimal's text are never line feeds.
proof fn lemma_face_text_no_newline(f: FaceIndex)
    ensures
        forall|j: int| 0 <= j < face_index_text(f).len() ==> #[trigger] face_index_text(f)[j] != '\n',
{
    lemma_decimal_chars(f.v as nat);
    if let Some(x) = f.vt {
        lemma_decimal_chars(x as nat);
    }
    if let Some(x) = f.vn {
        lemma_decimal_chars(x as nat);
    }
    lemma_digit_char(0);
    assert forall|n: nat, j: int| 0 <= j < decimal(n).len() implies #[trigger] decimal(n)[j] != '\n' by {
        lemma_decimal_chars(n);
        assert(in_class(decimal(n)[j], CharClass::Digit));
    }
}

/// The text of a line that reads back holds no line feed.
#[verifier::spinoff_prover]
#[verifier::rlimit(60)]
proof fn lemma_line_text_no_newline(l: ObjLineView)
    requires
        line_ok(l),
    ensures
        forall|j: int| 0 <= j < obj_line_text(l).len() ==> #[trigger] obj_line_text(l)[j] != '\n',
{
    assert forall|d: DecimalView, j: int| decimal_wf(d) && 0 <= j < decimal_text(d).len() implies #[trigger] decimal_text(d)[j]
        != '\n' by {
        lemma_decimal_text_no_newline(d);
    }
    assert forall|f: FaceIndex, j: int| 0 <= j < face_index_text(f).len() implies #[trigger] face_index_text(f)[j]
        != '\n' by {
        lemma_face_text_no_newline(f);
    }
    let t = obj_line_text(l);
    assert forall|j: int| 0 <= j < t.len() implies #[trigger] t[j] != '\n' by {
        match l {
            ObjLineView::Vertex(x, y, z, w) => {
                let sx = spaced_text(x);
                let sy = spaced_text(y);
                let sz = spaced_text(z);
                if 1 <= j < 1 + sx.len() {
                    assert(t[j] == sx[j - 1]);
                } else if 1 + sx.len() <= j < 1 + sx.len() + sy.len() {
                    assert(t[j] == sy[j - 1 - sx.len()]);
                } else if 1 + sx.len() + sy.len() <= j < 1 + sx.len() + sy.len() + sz.len() {
                    assert(t[j] == sz[j - 1 - sx.len() - sy.len()]);
                } else if j >= 1 + sx.len() + sy.len() + sz.len() {
                    assert(t[j] == opt_spaced_text(w)[j - 1 - sx.len() - sy.len() - sz.len()]);
                }
            },
            ObjLineView::VertexParam(x, y, z) => {
                let sx = spaced_text(x);
                let sy = spaced_text(y);
                let sz = spaced_text(z);
                if 2 <= j < 2 + sx.len() {
                    assert(t[j] == sx[j - 2]);
                } else if 2 + sx.len() <= j < 2 + sx.len() + sy.len() {
                    assert(t[j] == sy[j - 2 - sx.len()]);
                } else if j >= 2 + sx.len() + sy.len() {
                    assert(t[j] == sz[j - 2 - sx.len() - sy.len()]);
                }
            },
            ObjLineView::Normal(x, y, z) => {
                let sx = spaced_text(x);
                let sy = spaced_text(y);
                let sz = spaced_text(z);
                if 2 <= j < 2 + sx.len() {
                    assert(t[j] == sx[j - 2]);
                } else if 2 + sx.len() <= j < 2 + sx.len() + sy.len() {
                    assert(t[j] == sy[j - 2 - sx.len()]);
                } else if j >= 2 + sx.len() + sy.len() {
                    assert(t[j] == sz[j - 2 - sx.len() - sy.len()]);
                }
            },
            ObjLineView::TextureUVW(u, v, w) => {
                let su = spaced_text(u);
                let sv = spaced_text(v);
                if 2 <= j < 2 + su.len() {
                    assert(t[j] == su[j - 2]);
                } else if 2 + su.len() <= j < 2 + su.len() + sv.len() {
                    assert(t[j] == sv[j - 2 - su.len()]);
                } else if j >= 2 + su.len() + sv.len() {
                    assert(t[j] == opt_spaced_text(w)[j - 2 - su.len() - sv.len()]);
                }
            },
            ObjLineView::Face(a, b, c) => {
                let ta = face_index_text(a);
                let tb = face_index_text(b);
                let tc = face_index_text(c);
                if 2 <= j < 2 + ta.len() {
                    assert(t[j] == ta[j - 2]);
                } else if 3 + ta.len() <= j < 3 + ta.len() + tb.len() {
                    assert(t[j] == tb[j - 3 - ta.len()]);
                } else if j >= 4 + ta.len() + tb.len() {
                    assert(t[j] == tc[j - 4 - ta.len() - tb.len()]);
                }
            },
            _ => {},
        }
    }
}

/// A scan run in the second part of a concatenation runs as in that part.
proof fn lemma_scan_shift(a: Seq<char>, b: Seq<char>, q: int, k: CharClass)
    requires
        0 <= q <= b.len(),
    ensures
        scan(a + b, a.len() + q, k) == a.len() + scan(b, q, k),
    decreases b.len() - q,
{
    if q < b.len() {
        assert((a + b)[a.len() + q] == b[q]);
        if in_class(b[q], k) {
            lemma_scan_shift(a, b, q + 1, k);
        }
    }
}

/// Reading lines in the second part of a concatenation reads as in that
/// part.
#[verifier::spinoff_prover]
#[verifier::rlimit(60)]
proof fn lemma_lines_shift(a: Seq<char>, b: Seq<char>, q: int)
    requires
        0 <= q,
    ensures
        obj_lines_from(a + b, a.len() + q) == obj_lines_from(b, q),
    decreases b.len() - q,
{
    let s = a + b;
    if q < b.len() {
        lemma_scan_shift(a, b, q, CharClass::NotNewline);
        crate::lexer::lemma_scan(b, q, CharClass::NotNewline);
        let e = line_end(b, q);
        assert(line_end(s, a.len() + q) == a.len() + e);
        assert(s.subrange(a.len() + q, a.len() + e) =~= b.subrange(q, e));
        assert(spec_next_obj_line(s, a.len() + q) == spec_next_obj_line(b, q));
        if spec_next_obj_line(b, q) is Some {
            lemma_lines_shift(a, b, e);
        }
    }
}

/// The text of a file made of lines, each followed by a line feed.
pub open spec fn obj_file_text(ls: Seq<ObjLineView>) -> Seq<char>
    decreases ls.len(),
{
    if ls.len() == 0 {
        Seq::empty()
    } else {
        obj_line_text(ls[0]) + seq!['\n'] + obj_file_text(ls.drop_first())
    }
}

/// Printing a parsed source line gives that source line back, for every line
/// already in printed form: a text that the printer writes for some line,
/// followed or not by a line feed, is read whole, and the line read prints as
/// that text.
pub proof fn lemma_parsed_line_reprints(t: Seq<char>, nl: bool)
    requires
        exists|l: ObjLineView| line_ok(l) && #[trigger] obj_line_text(l) == t,
        (t + ending(nl)).len() <= usize::MAX,
    ensures
        spec_parse_obj_line(t + ending(nl), 0) matches Scan::Found(j, l2) && j == (t + ending(
            nl,
        )).len() && obj_line_text(l2) == t,
{
    let l = choose|l: ObjLineView| line_ok(l) && #[trigger] obj_line_text(l) == t;
    lemma_obj_line_roundtrip(l, nl);
}

/// Printing lines into a file, each followed by a line feed, and reading the
/// file back gives as many lines, each printing as the line printed there;
/// lines without numbers come back unchanged.
#[verifier::spinoff_prover]
#[verifier::rlimit(60)]
pub proof fn lemma_obj_file_roundtrip(ls: Seq<ObjLineView>)
    requires
        forall|i: int| 0 <= i < ls.len() ==> line_ok(#[trigger] ls[i]),
        obj_file_text(ls).len() <= usize::MAX,
    ensures
        obj_lines_from(obj_file_text(ls), 0).len() == ls.len(),
        forall|i: int|
            0 <= i < ls.len() ==> obj_line_text(#[trigger] obj_lines_from(obj_file_text(ls), 0)[i])
                == obj_line_text(ls[i]),
        forall|i: int|
            0 <= i < ls.len() && !has_numbers(ls[i]) ==> #[trigger] obj_lines_from(
                obj_file_text(ls),
                0,
            )[i] == ls[i],
    decreases ls.len(),
{
    let s = obj_file_text(ls);
    if ls.len() > 0 {
        let l0 = ls[0];
        let t0 = obj_line_text(l0);
        let rest = ls.drop_first();
        let first = t0 + seq!['\n'];
        assert(s == first + obj_file_text(rest));
        assert forall|i: int| 0 <= i < rest.len() implies line_ok(#[trigger] rest[i]) by {
            assert(rest[i] == ls[i + 1]);
        }
        lemma_obj_file_roundtrip(rest);
        lemma_line_text_no_newline(l0);
        assert forall|j: int| 0 <= j < t0.len() implies in_class(#[trigger] s[j], CharClass::NotNewline) by {
            assert(s[j] == t0[j]);
        }
        assert(s[t0.len() as int] == '\n');
        lemma_scan_run(s, 0, t0.len() as int, CharClass::NotNewline);
        assert(line_end(s, 0) == t0.len() + 1);
        assert(s.subrange(0, (t0.len() + 1) as int) =~= t0 + ending(true));
        lemma_obj_line_roundtrip(l0, true);
        lemma_lines_shift(first, obj_file_text(rest), 0);
        assert(first.len() + 0 == t0.len() + 1);
        let r = spec_parse_obj_line(t0 + ending(true), 0);
        let l2 = r->Found_1;
        assert(obj_lines_from(s, 0) == seq![l2] + obj_lines_from(obj_file_text(rest), 0));
        assert forall|i: int| 0 <= i < ls.len() implies obj_line_text(#[trigger] obj_lines_from(s, 0)[i])
            == obj_line_text(ls[i]) && (!has_numbers(ls[i]) ==> obj_lines_from(s, 0)[i] == ls[i]) by {
            if i > 0 {
                assert(obj_lines_from(s, 0)[i] == obj_lines_from(obj_file_text(rest), 0)[i - 1]);
                assert(ls[i] == rest[i - 1]);
            }
        }
    }
}

} // verus!
