//! Character-level scanning shared by the OBJ and MTL line grammars, and the
//! exact decimal numbers that those grammars read.
use crate::text::{decimal, digit_char, digit_str, push_decimal};
use vstd::prelude::*;
use vstd::string::{StrSliceExecFns, StringExecFns};

verus! {

/// The result of running a grammar rule at a position: the rule matched and
/// ends at a position with a value; it did not match, so an alternative may
/// be tried; or it failed in a way that stops all alternatives.
#[derive(Debug, PartialEq, Eq, Clone, Copy)]
pub enum Scan<T> {
    Found(usize, T),
    Miss,
    Abort,
}

/// Classes of characters that rules skip over.
#[derive(Debug, PartialEq, Eq, Clone, Copy, Structural)]
pub enum CharClass {
    /// Spaces, tabs, carriage returns and line feeds.
    Multispace,
    /// Spaces and tabs.
    Space,
    /// ASCII decimal digits.
    Digit,
    /// Anything but a line feed.
    NotNewline,
    /// Line feeds.
    Newline,
    /// Anything but a carriage return or a line feed.
    NotLineBreak,
    /// Unicode white space, the characters that `str::trim` removes.
    WhiteSpace,
}

/// Whether `c` is Unicode white space (`char::is_whitespace`).
pub open spec fn is_white_space(c: char) -> bool {
    let u = c as u32;
    (9 <= u && u <= 13) || u == 32 || u == 0x85 || u == 0xA0 || u == 0x1680 || (0x2000 <= u && u
        <= 0x200A) || u == 0x2028 || u == 0x2029 || u == 0x202F || u == 0x205F || u == 0x3000
}

/// Whether `c` belongs to class `k`.
pub open spec fn in_class(c: char, k: CharClass) -> bool {
    match k {
        CharClass::Multispace => c == ' ' || c == '\t' || c == '\r' || c == '\n',
        CharClass::Space => c == ' ' || c == '\t',
        CharClass::Digit => '0' as u32 <= c as u32 && c as u32 <= '9' as u32,
        CharClass::NotNewline => c != '\n',
        CharClass::Newline => c == '\n',
        CharClass::NotLineBreak => c != '\r' && c != '\n',
        CharClass::WhiteSpace => is_white_space(c),
    }
}

/// Whether `c` belongs to class `k`.
pub fn class_contains(c: char, k: CharClass) -> (b: bool)
    ensures
        b == in_class(c, k),
{
    match k {
        CharClass::Multispace => c == ' ' || c == '\t' || c == '\r' || c == '\n',
        CharClass::Space => c == ' ' || c == '\t',
        CharClass::Digit => '0' as u32 <= c as u32 && c as u32 <= '9' as u32,
        CharClass::NotNewline => c != '\n',
        CharClass::Newline => c == '\n',
        CharClass::NotLineBreak => c != '\r' && c != '\n',
        CharClass::WhiteSpace => {
            let u = c as u32;
            (9 <= u && u <= 13) || u == 32 || u == 0x85 || u == 0xA0 || u == 0x1680 || (0x2000 <= u
                && u <= 0x200A) || u == 0x2028 || u == 0x2029 || u == 0x202F || u == 0x205F || u
                == 0x3000
        },
    }
}

/// The end of the run of class-`k` characters that starts at `i`.
pub open spec fn scan(s: Seq<char>, i: int, k: CharClass) -> int
    decreases s.len() - i,
{
    if 0 <= i < s.len() && in_class(s[i], k) {
        scan(s, i + 1, k)
    } else {
        i
    }
}

/// The start of the run of white space that ends at `hi`, not going below `lo`.
pub open spec fn rscan_white(s: Seq<char>, lo: int, hi: int) -> int
    decreases hi - lo,
{
    if lo < hi && is_white_space(s[hi - 1]) {
        rscan_white(s, lo, hi - 1)
    } else {
        hi
    }
}

/// The run ends within the sequence, covers only class-`k` characters, and
/// stops at the end or at a character outside the class.
pub proof fn lemma_scan(s: Seq<char>, i: int, k: CharClass)
    requires
        0 <= i <= s.len(),
    ensures
        i <= scan(s, i, k) <= s.len(),
        forall|j: int| i <= j < scan(s, i, k) ==> in_class(#[trigger] s[j], k),
        scan(s, i, k) == s.len() || !in_class(s[scan(s, i, k)], k),
    decreases s.len() - i,
{
    if i < s.len() && in_class(s[i], k) {
        lemma_scan(s, i + 1, k);
    }
}

/// The backward run stays within its bounds.
pub proof fn lemma_rscan_white(s: Seq<char>, lo: int, hi: int)
    requires
        0 <= lo <= hi <= s.len(),
    ensures
        lo <= rscan_white(s, lo, hi) <= hi,
    decreases hi - lo,
{
    if lo < hi && is_white_space(s[hi - 1]) {
        lemma_rscan_white(s, lo, hi - 1);
    }
}

/// The end of the run of class-`k` characters that starts at `i`.
pub fn scan_class(s: &[char], i: usize, k: CharClass) -> (j: usize)
    requires
        i <= s@.len(),
    ensures
        j == scan(s@, i as int, k),
        i <= j <= s@.len(),
        s@.len() <= usize::MAX,
{
    let _n = s.len();
    proof {
        lemma_scan(s@, i as int, k);
    }
    let mut j = i;
    while j < s.len() && class_contains(s[j], k)
        invariant
            i <= j <= s@.len(),
            scan(s@, i as int, k) == scan(s@, j as int, k),
        decreases s@.len() - j,
    {
        j = j + 1;
    }
    j
}

/// The start of the run of white space that ends at `hi`, not below `lo`.
pub fn rscan_white_exec(s: &[char], lo: usize, hi: usize) -> (j: usize)
    requires
        lo <= hi <= s@.len(),
    ensures
        j == rscan_white(s@, lo as int, hi as int),
        lo <= j <= hi,
{
    proof {
        lemma_rscan_white(s@, lo as int, hi as int);
    }
    let mut j = hi;
    while lo < j
        invariant
            lo <= j <= hi <= s@.len(),
            rscan_white(s@, lo as int, hi as int) == rscan_white(s@, lo as int, j as int),
        ensures
            rscan_white(s@, lo as int, j as int) == j,
        decreases j - lo,
    {
        if !class_contains(s[j - 1], CharClass::WhiteSpace) {
            break;
        }
        j = j - 1;
    }
    j
}

/// Whether `t` occurs in `s` at `i`.
pub open spec fn starts_with_at(s: Seq<char>, i: int, t: Seq<char>) -> bool {
    0 <= i && i + t.len() <= s.len() && s.subrange(i, i + t.len()) == t
}

/// Whether `t` occurs in `s` at `i`.
pub fn tag_at(s: &[char], i: usize, t: &str) -> (b: bool)
    requires
        i <= s@.len(),
    ensures
        b == starts_with_at(s@, i as int, t@),
        s@.len() <= usize::MAX,
{
    let n = t.unicode_len();
    let len = s.len();
    if n > len - i {
        return false;
    }
    let mut k: usize = 0;
    while k < n
        invariant
            0 <= k <= n,
            n == t@.len(),
            i + n <= s@.len(),
            s@.len() <= usize::MAX,
            s@.subrange(i as int, i + k) == t@.subrange(0, k as int),
        decreases n - k,
    {
        if s[i + k] != t.get_char(k) {
            assert(s@.subrange(i as int, i + n)[k as int] != t@[k as int]);
            return false;
        }
        k = k + 1;
        assert(s@.subrange(i as int, i + k) =~= t@.subrange(0, k as int)) by {
            assert forall|j: int| 0 <= j < k implies s@.subrange(i as int, i + k)[j] == t@.subrange(0, k as int)[j] by {
                if j < k - 1 {
                    assert(s@.subrange(i as int, i + k - 1)[j] == t@.subrange(0, k - 1)[j]);
                }
            }
        }
    }
    assert(t@.subrange(0, n as int) =~= t@);
    true
}

/// Whether the character at `i` is `c`.
pub open spec fn char_at(s: Seq<char>, i: int, c: char) -> bool {
    0 <= i < s.len() && s[i] == c
}

/// Whether the character at `i` is `c`.
pub fn char_is(s: &[char], i: usize, c: char) -> (b: bool)
    ensures
        b == char_at(s@, i as int, c),
        s@.len() <= usize::MAX,
{
    let _n = s.len();
    i < s.len() && s[i] == c
}

/// The value of an ASCII digit character.
pub open spec fn digit_value(c: char) -> nat {
    (c as u32 - '0' as u32) as nat
}

/// The number written by the digits `s[i..j]`.
pub open spec fn digits_value(s: Seq<char>, i: int, j: int) -> nat
    decreases j - i,
{
    if j <= i {
        0
    } else {
        digits_value(s, i, j - 1) * 10 + digit_value(s[j - 1])
    }
}

/// The digit values of the digit characters `s[i..j]`.
pub open spec fn digit_seq(s: Seq<char>, i: int, j: int) -> Seq<u8> {
    Seq::new((j - i) as nat, |k: int| digit_value(s[i + k]) as u8)
}

/// An unsigned integer: one or more digits whose value fits in a `u32`.
pub open spec fn spec_uint(s: Seq<char>, i: int) -> Scan<u32> {
    let j = scan(s, i, CharClass::Digit);
    if j == i || digits_value(s, i, j) > u32::MAX {
        Scan::Miss
    } else {
        Scan::Found(j as usize, digits_value(s, i, j) as u32)
    }
}

/// Appending a digit never makes a number smaller.
proof fn lemma_digits_value_grows(s: Seq<char>, i: int, j: int)
    requires
        i < j,
    ensures
        digits_value(s, i, j) >= digits_value(s, i, j - 1),
{
}

/// An unsigned integer at `i`.
pub fn uint_at(s: &[char], i: usize) -> (r: Scan<u32>)
    requires
        i <= s@.len(),
    ensures
        r == spec_uint(s@, i as int),
        r matches Scan::Found(j, _) ==> i < j <= s@.len(),
{
    let j = scan_class(s, i, CharClass::Digit);
    proof {
        lemma_scan(s@, i as int, CharClass::Digit);
    }
    if j == i {
        return Scan::Miss;
    }
    let mut acc: u64 = 0;
    let mut over = false;
    let mut k = i;
    while k < j
        invariant
            i <= k <= j <= s@.len(),
            j == scan(s@, i as int, CharClass::Digit),
            forall|m: int| i <= m < j ==> in_class(#[trigger] s@[m], CharClass::Digit),
            !over ==> acc == digits_value(s@, i as int, k as int) && acc <= u32::MAX,
            over ==> digits_value(s@, i as int, k as int) > u32::MAX,
        decreases j - k,
    {
        let d = (s[k] as u32 - '0' as u32) as u64;
        assert(in_class(s@[k as int], CharClass::Digit));
        proof {
            lemma_digits_value_grows(s@, i as int, k + 1);
        }
        if !over {
            acc = acc * 10 + d;
            if acc > 0xffff_ffff {
                over = true;
            }
        }
        k = k + 1;
    }
    if over {
        Scan::Miss
    } else {
        Scan::Found(j, acc as u32)
    }
}

/// The largest exponent magnitude that is kept; larger ones are clamped to it.
pub const EXPONENT_LIMIT: u64 = 1_000_000_000_000_000_000;

/// What an exact decimal number holds: its sign, its digits, most significant
/// first, and a power of ten. Its value is `(-1)^negative * digits * 10^exponent`.
#[verifier::ext_equal]
pub struct DecimalView {
    pub negative: bool,
    pub digits: Seq<u8>,
    pub exponent: int,
}

/// An exact decimal number as written in a text file.
#[derive(Debug, PartialEq, Eq)]
pub struct Decimal {
    negative: bool,
    digits: Vec<u8>,
    exponent: i128,
}

impl View for Decimal {
    type V = DecimalView;

    closed spec fn view(&self) -> DecimalView {
        DecimalView { negative: self.negative, digits: self.digits@, exponent: self.exponent as int }
    }
}

/// Every digit is below ten.
pub open spec fn digits_wf(d: Seq<u8>) -> bool {
    forall|k: int| 0 <= k < d.len() ==> #[trigger] d[k] < 10
}

/// The bound on the exponent of a well-formed decimal.
pub const DECIMAL_EXPONENT_BOUND: i128 = 1_000_000_000_000_000_000_000_000_000_000_000_000;

/// Every digit is below ten and the exponent is within its bound.
pub open spec fn decimal_wf(d: DecimalView) -> bool {
    &&& digits_wf(d.digits)
    &&& -DECIMAL_EXPONENT_BOUND <= d.exponent <= DECIMAL_EXPONENT_BOUND
}

/// The first index at or after `i` whose digit is not zero.
pub open spec fn first_nonzero(d: Seq<u8>, i: int) -> int
    decreases d.len() - i,
{
    if 0 <= i < d.len() && d[i] == 0 {
        first_nonzero(d, i + 1)
    } else {
        i
    }
}

/// The end of the digits `d[lo..hi]` once trailing zeros are dropped.
pub open spec fn nonzero_end(d: Seq<u8>, lo: int, hi: int) -> int
    decreases hi - lo,
{
    if lo < hi && d[hi - 1] == 0 {
        nonzero_end(d, lo, hi - 1)
    } else {
        hi
    }
}

/// The characters of a sequence of digits.
pub open spec fn digit_chars(d: Seq<u8>) -> Seq<char> {
    Seq::new(d.len(), |k: int| digit_char(d[k] as nat))
}

/// `n` zero characters.
pub open spec fn zero_chars(n: int) -> Seq<char> {
    Seq::new(n as nat, |k: int| '0')
}

/// The text of a decimal without its sign: its significant digits, padded
/// with zeros or split by a point as its exponent says, and no exponent
/// marker; `0` when it has no nonzero digit.
#[verifier::opaque]
pub open spec fn magnitude_text(d: DecimalView) -> Seq<char> {
    let a = first_nonzero(d.digits, 0);
    if a >= d.digits.len() {
        seq!['0']
    } else {
        let b = nonzero_end(d.digits, a, d.digits.len() as int);
        let m = d.digits.subrange(a, b);
        let e = d.exponent + (d.digits.len() - b);
        if e >= 0 {
            digit_chars(m) + zero_chars(e)
        } else if m.len() > -e {
            digit_chars(m.subrange(0, m.len() + e)) + seq!['.'] + digit_chars(
                m.subrange(m.len() + e, m.len() as int),
            )
        } else {
            seq!['0', '.'] + zero_chars(-e - m.len()) + digit_chars(m)
        }
    }
}

/// The shortest plain text of a decimal: a minus sign when it is negative
/// (zero included), then its magnitude.
pub open spec fn decimal_text(d: DecimalView) -> Seq<char> {
    if d.negative {
        seq!['-'] + magnitude_text(d)
    } else {
        magnitude_text(d)
    }
}

/// The scientific text of a decimal: sign, all digits (`0` when there are
/// none), `e`, and the exponent.
pub open spec fn scientific_text(d: DecimalView) -> Seq<char> {
    (if d.negative { seq!['-'] } else { Seq::empty() }) + (if d.digits.len() == 0 {
        seq!['0']
    } else {
        digit_chars(d.digits)
    }) + seq!['e'] + (if d.exponent < 0 { seq!['-'] } else { Seq::empty() }) + decimal(
        if d.exponent < 0 { -d.exponent } else { d.exponent } as nat,
    )
}

/// Append the characters of digits `d[lo..hi]`.
fn push_digit_chars(out: &mut String, d: &Vec<u8>, lo: usize, hi: usize)
    requires
        lo <= hi <= d@.len(),
        digits_wf(d@),
    ensures
        final(out)@ == old(out)@ + digit_chars(d@.subrange(lo as int, hi as int)),
{
    let mut k = lo;
    while k < hi
        invariant
            lo <= k <= hi <= d@.len(),
            digits_wf(d@),
            out@ == old(out)@ + digit_chars(d@.subrange(lo as int, k as int)),
        decreases hi - k,
    {
        assert(d@[k as int] < 10);
        out.append(digit_str(d[k]));
        k = k + 1;
        assert(out@ =~= old(out)@ + digit_chars(d@.subrange(lo as int, k as int)));
    }
}

/// Append `n` zero characters.
fn push_zeros(out: &mut String, n: i128)
    requires
        n >= 0,
    ensures
        final(out)@ == old(out)@ + zero_chars(n as int),
{
    let mut k: i128 = 0;
    while k < n
        invariant
            0 <= k <= n,
            out@ == old(out)@ + zero_chars(k as int),
        decreases n - k,
    {
        out.append("0");
        proof {
            reveal_strlit("0");
        }
        k = k + 1;
        assert(out@ =~= old(out)@ + zero_chars(k as int));
    }
}

impl Decimal {
    #[verifier::type_invariant]
    spec fn inv(self) -> bool {
        decimal_wf(self@)
    }

    /// A decimal from its sign, digits and exponent, when every digit is
    /// below ten and the exponent is within `DECIMAL_EXPONENT_BOUND`.
    pub fn new(negative: bool, digits: Vec<u8>, exponent: i128) -> (r: Option<Decimal>)
        ensures
            match r {
                Some(d) => d@ == (DecimalView { negative, digits: digits@, exponent: exponent as int })
                    && decimal_wf(d@),
                None => !decimal_wf(DecimalView { negative, digits: digits@, exponent: exponent as int }),
            },
    {
        if exponent < -DECIMAL_EXPONENT_BOUND || exponent > DECIMAL_EXPONENT_BOUND {
            return None;
        }
        let mut k: usize = 0;
        while k < digits.len()
            invariant
                0 <= k <= digits@.len(),
                forall|j: int| 0 <= j < k ==> #[trigger] digits@[j] < 10,
            decreases digits@.len() - k,
        {
            if digits[k] >= 10 {
                return None;
            }
            k = k + 1;
        }
        Some(Decimal { negative, digits, exponent })
    }

    /// The number one.
    pub fn one() -> (d: Decimal)
        ensures
            d@ == (DecimalView { negative: false, digits: seq![1u8], exponent: 0 }),
            decimal_wf(d@),
    {
        let mut digits: Vec<u8> = Vec::new();
        digits.push(1);
        Decimal { negative: false, digits, exponent: 0 }
    }

    /// The number zero.
    pub fn zero() -> (d: Decimal)
        ensures
            d@ == (DecimalView { negative: false, digits: seq![0u8], exponent: 0 }),
            decimal_wf(d@),
    {
        let mut digits: Vec<u8> = Vec::new();
        digits.push(0);
        Decimal { negative: false, digits, exponent: 0 }
    }

    /// A copy of the number.
    pub fn duplicate(&self) -> (d: Decimal)
        ensures
            d@ == self@,
    {
        proof {
            use_type_invariant(self);
        }
        Decimal {
            negative: self.negative,
            digits: vstd::slice::slice_to_vec(self.digits.as_slice()),
            exponent: self.exponent,
        }
    }

    /// Whether the decimal carries a minus sign.
    pub fn negative(&self) -> (b: bool)
        ensures
            b == self@.negative,
    {
        self.negative
    }

    /// The digits, most significant first.
    pub fn digits(&self) -> (d: &[u8])
        ensures
            d@ == self@.digits,
    {
        self.digits.as_slice()
    }

    /// The power of ten that scales the digits.
    pub fn exponent(&self) -> (e: i128)
        ensures
            e == self@.exponent,
    {
        self.exponent
    }

    /// The shortest plain text of the number.
    pub fn to_text(&self) -> (t: String)
        ensures
            t@ == decimal_text(self@),
    {
        proof {
            use_type_invariant(self);
        }
        let mut t = String::new();
        if self.negative {
            t.append("-");
            proof {
                reveal_strlit("-");
            }
        }
        let ghost head = t@;
        self.push_magnitude(&mut t);
        assert(t@ =~= decimal_text(self@));
        t
    }

    fn push_magnitude(&self, t: &mut String)
        requires
            decimal_wf(self@),
        ensures
            final(t)@ == old(t)@ + magnitude_text(self@),
    {
        reveal(magnitude_text);
        let d = &self.digits;
        let n = d.len();
        let mut a: usize = 0;
        while a < n && d[a] == 0
            invariant
                0 <= a <= n,
                n == d@.len(),
                first_nonzero(d@, 0) == first_nonzero(d@, a as int),
            decreases n - a,
        {
            a = a + 1;
        }
        if a >= n {
            t.append("0");
            proof {
                reveal_strlit("0");
                assert(t@ =~= old(t)@ + magnitude_text(self@));
            }
            return;
        }
        let mut b: usize = n;
        while a < b && d[b - 1] == 0
            invariant
                a < n,
                a <= b <= n,
                n == d@.len(),
                nonzero_end(d@, a as int, n as int) == nonzero_end(d@, a as int, b as int),
            decreases b - a,
        {
            b = b - 1;
        }
        let e: i128 = self.exponent + (n - b) as i128;
        let mlen: usize = b - a;
        let ghost m = d@.subrange(a as int, b as int);
        if e >= 0 {
            push_digit_chars(t, d, a, b);
            push_zeros(t, e);
            assert(t@ =~= old(t)@ + magnitude_text(self@));
        } else if (mlen as i128) > -e {
            let split: usize = (mlen as i128 + e) as usize;
            push_digit_chars(t, d, a, a + split);
            t.append(".");
            push_digit_chars(t, d, a + split, b);
            proof {
                reveal_strlit(".");
                assert(m.subrange(0, split as int) =~= d@.subrange(a as int, a + split));
                assert(m.subrange(split as int, m.len() as int) =~= d@.subrange(a + split, b as int));
                assert(t@ =~= old(t)@ + magnitude_text(self@));
            }
        } else {
            t.append("0.");
            push_zeros(t, -e - mlen as i128);
            push_digit_chars(t, d, a, b);
            proof {
                reveal_strlit("0.");
                assert(t@ =~= old(t)@ + magnitude_text(self@));
            }
        }
    }

    /// The number in scientific notation, for conversion to floating point.
    pub fn to_scientific(&self) -> (t: String)
        ensures
            t@ == scientific_text(self@),
    {
        proof {
            use_type_invariant(self);
        }
        proof {
            reveal_strlit("-");
            reveal_strlit("0");
            reveal_strlit("e");
        }
        let mut t = String::new();
        if self.negative {
            t.append("-");
        }
        if self.digits.len() == 0 {
            t.append("0");
        } else {
            push_digit_chars(&mut t, &self.digits, 0, self.digits.len());
            assert(self.digits@.subrange(0, self.digits@.len() as int) =~= self.digits@);
        }
        t.append("e");
        if self.exponent < 0 {
            t.append("-");
            push_decimal(&mut t, (-self.exponent) as u128);
        } else {
            push_decimal(&mut t, self.exponent as u128);
        }
        assert(t@ =~= scientific_text(self@));
        t
    }
}

/// The shape of a number as `recognize_float` reads it: optional sign, integer
/// digits, optional fraction digits after a point, optional exponent.
#[derive(Debug, PartialEq, Eq, Clone, Copy)]
pub struct FloatLexeme {
    pub negative: bool,
    pub int_start: usize,
    pub int_end: usize,
    pub frac_start: usize,
    pub frac_end: usize,
    pub exp_negative: bool,
    pub exp_start: usize,
    pub exp_end: usize,
}

/// The mantissa of a number: digits with an optional point, or a point and
/// digits. Gives the integer digit range and the fraction digit range.
pub open spec fn spec_mantissa(s: Seq<char>, p: int) -> Option<(int, int, int, int)> {
    let d1 = scan(s, p, CharClass::Digit);
    if d1 > p {
        if char_at(s, d1, '.') {
            let d2 = scan(s, d1 + 1, CharClass::Digit);
            Some((p, d1, d1 + 1, d2))
        } else {
            Some((p, d1, d1, d1))
        }
    } else if char_at(s, p, '.') && scan(s, p + 1, CharClass::Digit) > p + 1 {
        Some((p, p, p + 1, scan(s, p + 1, CharClass::Digit)))
    } else {
        None
    }
}

/// Whether the character at `i` is a sign.
pub open spec fn sign_at(s: Seq<char>, i: int) -> bool {
    char_at(s, i, '+') || char_at(s, i, '-')
}

/// A number as `recognize_float` reads it. After an exponent marker, digits
/// must follow, or the whole rule fails without alternatives.
pub open spec fn spec_recognize_float(s: Seq<char>, i: int) -> Scan<FloatLexeme> {
    let neg = char_at(s, i, '-');
    let p = if sign_at(s, i) { i + 1 } else { i };
    match spec_mantissa(s, p) {
        None => Scan::Miss,
        Some((a, b, c, d)) => {
            if char_at(s, d, 'e') || char_at(s, d, 'E') {
                let eneg = char_at(s, d + 1, '-');
                let r = if sign_at(s, d + 1) { d + 2 } else { d + 1 };
                let e = scan(s, r, CharClass::Digit);
                if e == r {
                    Scan::Abort
                } else {
                    Scan::Found(e as usize, FloatLexeme {
                        negative: neg,
                        int_start: a as usize,
                        int_end: b as usize,
                        frac_start: c as usize,
                        frac_end: d as usize,
                        exp_negative: eneg,
                        exp_start: r as usize,
                        exp_end: e as usize,
                    })
                }
            } else {
                Scan::Found(d as usize, FloatLexeme {
                    negative: neg,
                    int_start: a as usize,
                    int_end: b as usize,
                    frac_start: c as usize,
                    frac_end: d as usize,
                    exp_negative: false,
                    exp_start: d as usize,
                    exp_end: d as usize,
                })
            }
        },
    }
}

/// The clamped exponent written by a lexeme.
pub open spec fn lexeme_exponent(s: Seq<char>, l: FloatLexeme) -> int {
    let v = digits_value(s, l.exp_start as int, l.exp_end as int);
    let m = if v < EXPONENT_LIMIT { v as int } else { EXPONENT_LIMIT as int };
    if l.exp_negative { -m } else { m }
}

/// The exact decimal that a lexeme writes.
pub open spec fn lexeme_value(s: Seq<char>, l: FloatLexeme) -> DecimalView {
    DecimalView {
        negative: l.negative,
        digits: digit_seq(s, l.int_start as int, l.int_end as int) + digit_seq(
            s,
            l.frac_start as int,
            l.frac_end as int,
        ),
        exponent: lexeme_exponent(s, l) - (l.frac_end - l.frac_start),
    }
}

/// An unsigned float: a number read by `recognize_float` (which allows a sign
/// of its own).
pub open spec fn spec_unsigned_float(s: Seq<char>, i: int) -> Scan<DecimalView> {
    match spec_recognize_float(s, i) {
        Scan::Found(j, l) => Scan::Found(j, lexeme_value(s, l)),
        Scan::Miss => Scan::Miss,
        Scan::Abort => Scan::Abort,
    }
}

/// A float: an optional sign, then an unsigned float; a minus sign flips the
/// sign of the number that follows.
pub open spec fn spec_float(s: Seq<char>, i: int) -> Scan<DecimalView> {
    let flip = char_at(s, i, '-');
    let p = if sign_at(s, i) { i + 1 } else { i };
    match spec_unsigned_float(s, p) {
        Scan::Found(j, d) => Scan::Found(
            j,
            DecimalView { negative: d.negative != flip, ..d },
        ),
        Scan::Miss => Scan::Miss,
        Scan::Abort => Scan::Abort,
    }
}

/// A float surrounded by optional spaces, tabs and line breaks.
#[verifier::opaque]
pub open spec fn spec_spaced_float(s: Seq<char>, i: int) -> Scan<DecimalView> {
    match spec_float(s, scan(s, i, CharClass::Multispace)) {
        Scan::Found(j, d) => Scan::Found(scan(s, j as int, CharClass::Multispace) as usize, d),
        Scan::Miss => Scan::Miss,
        Scan::Abort => Scan::Abort,
    }
}

/// An unsigned integer surrounded by optional spaces, tabs and line breaks.
pub open spec fn spec_spaced_uint(s: Seq<char>, i: int) -> Scan<u32> {
    match spec_uint(s, scan(s, i, CharClass::Multispace)) {
        Scan::Found(j, v) => Scan::Found(scan(s, j as int, CharClass::Multispace) as usize, v),
        Scan::Miss => Scan::Miss,
        Scan::Abort => Scan::Abort,
    }
}

/// The view of a scan result that carries a decimal.
pub open spec fn dec_scan_view(r: Scan<Decimal>) -> Scan<DecimalView> {
    match r {
        Scan::Found(j, d) => Scan::Found(j, d@),
        Scan::Miss => Scan::Miss,
        Scan::Abort => Scan::Abort,
    }
}

/// The values of the digit characters `s[i..j]`, appended to `out`.
fn push_digit_values(out: &mut Vec<u8>, s: &[char], i: usize, j: usize)
    requires
        i <= j <= s@.len(),
        forall|m: int| i <= m < j ==> in_class(#[trigger] s@[m], CharClass::Digit),
    ensures
        final(out)@ == old(out)@ + digit_seq(s@, i as int, j as int),
{
    let mut k = i;
    while k < j
        invariant
            i <= k <= j <= s@.len(),
            forall|m: int| i <= m < j ==> in_class(#[trigger] s@[m], CharClass::Digit),
            out@ == old(out)@ + digit_seq(s@, i as int, k as int),
        decreases j - k,
    {
        assert(in_class(s@[k as int], CharClass::Digit));
        out.push((s[k] as u32 - '0' as u32) as u8);
        k = k + 1;
        assert(out@ =~= old(out)@ + digit_seq(s@, i as int, k as int));
    }
}

/// The value of the exponent digits `s[i..j]`, clamped to `EXPONENT_LIMIT`.
fn clamped_digits_value(s: &[char], i: usize, j: usize) -> (v: u64)
    requires
        i <= j <= s@.len(),
        forall|m: int| i <= m < j ==> in_class(#[trigger] s@[m], CharClass::Digit),
    ensures
        v == if digits_value(s@, i as int, j as int) < EXPONENT_LIMIT {
            digits_value(s@, i as int, j as int)
        } else {
            EXPONENT_LIMIT as nat
        },
{
    let mut acc: u64 = 0;
    let mut k = i;
    while k < j
        invariant
            i <= k <= j <= s@.len(),
            forall|m: int| i <= m < j ==> in_class(#[trigger] s@[m], CharClass::Digit),
            acc == if digits_value(s@, i as int, k as int) < EXPONENT_LIMIT {
                digits_value(s@, i as int, k as int)
            } else {
                EXPONENT_LIMIT as nat
            },
        decreases j - k,
    {
        assert(in_class(s@[k as int], CharClass::Digit));
        let d = (s[k] as u32 - '0' as u32) as u64;
        proof {
            lemma_digits_value_grows(s@, i as int, k + 1);
        }
        if acc < EXPONENT_LIMIT {
            acc = acc * 10 + d;
            if acc > EXPONENT_LIMIT {
                acc = EXPONENT_LIMIT;
            }
        }
        k = k + 1;
    }
    acc
}

/// A number at `i` as `recognize_float` reads it.
pub fn recognize_float_at(s: &[char], i: usize) -> (r: Scan<FloatLexeme>)
    requires
        i <= s@.len(),
    ensures
        r == spec_recognize_float(s@, i as int),
        r matches Scan::Found(j, l) ==> {
            &&& i <= l.int_start <= l.int_end <= l.frac_start <= l.frac_end <= l.exp_start
                <= l.exp_end == j <= s@.len()
            &&& forall|m: int| l.int_start <= m < l.int_end ==> in_class(#[trigger] s@[m], CharClass::Digit)
            &&& forall|m: int| l.frac_start <= m < l.frac_end ==> in_class(#[trigger] s@[m], CharClass::Digit)
            &&& forall|m: int| l.exp_start <= m < l.exp_end ==> in_class(#[trigger] s@[m], CharClass::Digit)
        },
{
    let neg = char_is(s, i, '-');
    let p = if char_is(s, i, '+') || char_is(s, i, '-') { i + 1 } else { i };
    let d1 = scan_class(s, p, CharClass::Digit);
    proof {
        lemma_scan(s@, p as int, CharClass::Digit);
    }
    let (a, b, c, d) = if d1 > p {
        if char_is(s, d1, '.') {
            let d2 = scan_class(s, d1 + 1, CharClass::Digit);
            proof {
                lemma_scan(s@, d1 + 1, CharClass::Digit);
            }
            (p, d1, d1 + 1, d2)
        } else {
            (p, d1, d1, d1)
        }
    } else if char_is(s, p, '.') {
        let d2 = scan_class(s, p + 1, CharClass::Digit);
        proof {
            lemma_scan(s@, p + 1, CharClass::Digit);
        }
        if d2 > p + 1 {
            (p, p, p + 1, d2)
        } else {
            return Scan::Miss;
        }
    } else {
        return Scan::Miss;
    };
    if char_is(s, d, 'e') || char_is(s, d, 'E') {
        let eneg = char_is(s, d + 1, '-');
        let r = if char_is(s, d + 1, '+') || char_is(s, d + 1, '-') { d + 2 } else { d + 1 };
        let e = scan_class(s, r, CharClass::Digit);
        proof {
            lemma_scan(s@, r as int, CharClass::Digit);
        }
        if e == r {
            Scan::Abort
        } else {
            Scan::Found(e, FloatLexeme {
                negative: neg,
                int_start: a,
                int_end: b,
                frac_start: c,
                frac_end: d,
                exp_negative: eneg,
                exp_start: r,
                exp_end: e,
            })
        }
    } else {
        Scan::Found(d, FloatLexeme {
            negative: neg,
            int_start: a,
            int_end: b,
            frac_start: c,
            frac_end: d,
            exp_negative: false,
            exp_start: d,
            exp_end: d,
        })
    }
}

/// An unsigned float at `i`.
pub fn unsigned_float_at(s: &[char], i: usize) -> (r: Scan<Decimal>)
    requires
        i <= s@.len(),
    ensures
        dec_scan_view(r) == spec_unsigned_float(s@, i as int),
        r matches Scan::Found(j, d) ==> i <= j <= s@.len() && decimal_wf(d@),
{
    match recognize_float_at(s, i) {
        Scan::Found(j, l) => {
            let mut digits: Vec<u8> = Vec::new();
            push_digit_values(&mut digits, s, l.int_start, l.int_end);
            push_digit_values(&mut digits, s, l.frac_start, l.frac_end);
            let e = clamped_digits_value(s, l.exp_start, l.exp_end) as i128;
            let e = if l.exp_negative { -e } else { e };
            let exponent = e - (l.frac_end - l.frac_start) as i128;
            let d = Decimal { negative: l.negative, digits, exponent };
            assert(d@ =~= lexeme_value(s@, l));
            Scan::Found(j, d)
        },
        Scan::Miss => Scan::Miss,
        Scan::Abort => Scan::Abort,
    }
}

/// A float at `i`.
pub fn float_at(s: &[char], i: usize) -> (r: Scan<Decimal>)
    requires
        i <= s@.len(),
    ensures
        dec_scan_view(r) == spec_float(s@, i as int),
        r matches Scan::Found(j, d) ==> i <= j <= s@.len() && decimal_wf(d@),
{
    let flip = char_is(s, i, '-');
    let p = if char_is(s, i, '+') || char_is(s, i, '-') { i + 1 } else { i };
    match unsigned_float_at(s, p) {
        Scan::Found(j, d) => {
            let d2 = Decimal { negative: d.negative != flip, digits: d.digits, exponent: d.exponent };
            Scan::Found(j, d2)
        },
        Scan::Miss => Scan::Miss,
        Scan::Abort => Scan::Abort,
    }
}

/// A float at `i`, surrounded by optional spaces, tabs and line breaks.
pub fn spaced_float_at(s: &[char], i: usize) -> (r: Scan<Decimal>)
    requires
        i <= s@.len(),
    ensures
        dec_scan_view(r) == spec_spaced_float(s@, i as int),
        r matches Scan::Found(j, d) ==> i <= j <= s@.len() && decimal_wf(d@),
{
    reveal(spec_spaced_float);
    let p = scan_class(s, i, CharClass::Multispace);
    match float_at(s, p) {
        Scan::Found(j, d) => Scan::Found(scan_class(s, j, CharClass::Multispace), d),
        Scan::Miss => Scan::Miss,
        Scan::Abort => Scan::Abort,
    }
}

/// An unsigned integer at `i`, surrounded by optional spaces, tabs and line
/// breaks.
pub fn spaced_uint_at(s: &[char], i: usize) -> (r: Scan<u32>)
    requires
        i <= s@.len(),
    ensures
        r == spec_spaced_uint(s@, i as int),
        r matches Scan::Found(j, _) ==> i <= j <= s@.len(),
{
    proof {
        lemma_scan(s@, i as int, CharClass::Multispace);
    }
    let p = scan_class(s, i, CharClass::Multispace);
    match uint_at(s, p) {
        Scan::Found(j, v) => {
            proof {
                lemma_scan(s@, p as int, CharClass::Digit);
            }
            Scan::Found(scan_class(s, j, CharClass::Multispace), v)
        },
        Scan::Miss => Scan::Miss,
        Scan::Abort => Scan::Abort,
    }
}

} // verus!
