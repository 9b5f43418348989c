//! Lines of Wavefront MTL material files: the grammar of each kind of line
//! and the value it denotes.
use crate::common::{
    ParseError, comment_at, end_of_line_maybe_comment_at, finish, float_triple_at, outcome,
    result_view, scan_white_to_exec, spec_comment, spec_end_of_line_maybe_comment, spec_float_triple, spec_string_line,
    string_line_at, trimmed,
};
use crate::lexer::{
    Decimal, DecimalView, Scan, decimal_wf, rscan_white_exec,
    spaced_float_at, spaced_uint_at, spec_spaced_float, spec_spaced_uint, starts_with_at, tag_at,
};
use crate::obj::{line_end, line_end_at};
use crate::text::{str_chars, string_of};
use vstd::prelude::*;
use vstd::string::StrSliceExecFns;

verus! {

/// One line of an MTL file.
#[derive(PartialEq, Debug)]
pub enum MtlLine {
    Comment(String),
    NewMtl(String),
    AmbientMap(String),
    DiffuseMap(String),
    SpecularMap(String),
    BumpMap(String),
    AmbientColor(Decimal, Decimal, Decimal),
    DiffuseColor(Decimal, Decimal, Decimal),
    SpecularColor(Decimal, Decimal, Decimal),
    KeColor(Decimal, Decimal, Decimal),
    TransmissionFilter(Decimal, Decimal, Decimal),
    OpticalDensity(Decimal),
    SpecularExponent(Decimal),
    TransparencyD(Decimal),
    TransparencyTr(Decimal),
    IlluminationModel(u32),
    Sharpness(u32),
    Blank,
}

/// What a line of an MTL file holds.
pub enum MtlLineView {
    Comment(Seq<char>),
    NewMtl(Seq<char>),
    AmbientMap(Seq<char>),
    DiffuseMap(Seq<char>),
    SpecularMap(Seq<char>),
    BumpMap(Seq<char>),
    AmbientColor(DecimalView, DecimalView, DecimalView),
    DiffuseColor(DecimalView, DecimalView, DecimalView),
    SpecularColor(DecimalView, DecimalView, DecimalView),
    KeColor(DecimalView, DecimalView, DecimalView),
    TransmissionFilter(DecimalView, DecimalView, DecimalView),
    OpticalDensity(DecimalView),
    SpecularExponent(DecimalView),
    TransparencyD(DecimalView),
    TransparencyTr(DecimalView),
    IlluminationModel(u32),
    Sharpness(u32),
    Blank,
}

impl View for MtlLine {
    type V = MtlLineView;

    open spec fn view(&self) -> MtlLineView {
        match self {
            MtlLine::Comment(s) => MtlLineView::Comment(s@),
            MtlLine::NewMtl(s) => MtlLineView::NewMtl(s@),
            MtlLine::AmbientMap(s) => MtlLineView::AmbientMap(s@),
            MtlLine::DiffuseMap(s) => MtlLineView::DiffuseMap(s@),
            MtlLine::SpecularMap(s) => MtlLineView::SpecularMap(s@),
            MtlLine::BumpMap(s) => MtlLineView::BumpMap(s@),
            MtlLine::AmbientColor(r, g, b) => MtlLineView::AmbientColor(r@, g@, b@),
            MtlLine::DiffuseColor(r, g, b) => MtlLineView::DiffuseColor(r@, g@, b@),
            MtlLine::SpecularColor(r, g, b) => MtlLineView::SpecularColor(r@, g@, b@),
            MtlLine::KeColor(r, g, b) => MtlLineView::KeColor(r@, g@, b@),
            MtlLine::TransmissionFilter(r, g, b) => MtlLineView::TransmissionFilter(r@, g@, b@),
            MtlLine::OpticalDensity(x) => MtlLineView::OpticalDensity(x@),
            MtlLine::SpecularExponent(x) => MtlLineView::SpecularExponent(x@),
            MtlLine::TransparencyD(x) => MtlLineView::TransparencyD(x@),
            MtlLine::TransparencyTr(x) => MtlLineView::TransparencyTr(x@),
            MtlLine::IlluminationModel(n) => MtlLineView::IlluminationModel(*n),
            MtlLine::Sharpness(n) => MtlLineView::Sharpness(*n),
            MtlLine::Blank => MtlLineView::Blank,
        }
    }
}

/// The decimals of a line are well formed.
pub open spec fn mtl_line_wf(l: MtlLineView) -> bool {
    match l {
        MtlLineView::AmbientColor(r, g, b) => decimal_wf(r) && decimal_wf(g) && decimal_wf(b),
        MtlLineView::DiffuseColor(r, g, b) => decimal_wf(r) && decimal_wf(g) && decimal_wf(b),
        MtlLineView::SpecularColor(r, g, b) => decimal_wf(r) && decimal_wf(g) && decimal_wf(b),
        MtlLineView::KeColor(r, g, b) => decimal_wf(r) && decimal_wf(g) && decimal_wf(b),
        MtlLineView::TransmissionFilter(r, g, b) => decimal_wf(r) && decimal_wf(g) && decimal_wf(b),
        MtlLineView::OpticalDensity(x) => decimal_wf(x),
        MtlLineView::SpecularExponent(x) => decimal_wf(x),
        MtlLineView::TransparencyD(x) => decimal_wf(x),
        MtlLineView::TransparencyTr(x) => decimal_wf(x),
        _ => true,
    }
}

/// The view of a scan result that carries a line.
pub open spec fn mtl_scan_view(r: Scan<MtlLine>) -> Scan<MtlLineView> {
    match r {
        Scan::Found(j, l) => Scan::Found(j, l@),
        Scan::Miss => Scan::Miss,
        Scan::Abort => Scan::Abort,
    }
}

/// A scan result that matched ends within the input and holds a well-formed
/// line.
pub open spec fn mtl_scan_ok(r: Scan<MtlLine>, i: int, n: int) -> bool {
    r matches Scan::Found(j, l) ==> i <= j <= n && mtl_line_wf(l@)
}

/// The kinds of line that carry a text after their keyword.
#[derive(Debug, Clone, Copy, PartialEq, Eq, Structural)]
pub enum MtlText {
    NewMtl,
    AmbientMap,
    DiffuseMap,
    SpecularMap,
    BumpMap,
}

/// The kinds of line that carry three numbers after their keyword.
#[derive(Debug, Clone, Copy, PartialEq, Eq, Structural)]
pub enum MtlColor {
    AmbientColor,
    DiffuseColor,
    SpecularColor,
    KeColor,
    TransmissionFilter,
}

/// The kinds of line that carry one number after their keyword.
#[derive(Debug, Clone, Copy, PartialEq, Eq, Structural)]
pub enum MtlScalar {
    TransparencyD,
    TransparencyTr,
    OpticalDensity,
    SpecularExponent,
}

/// The kinds of line that carry an unsigned integer after their keyword.
#[derive(Debug, Clone, Copy, PartialEq, Eq, Structural)]
pub enum MtlCount {
    IlluminationModel,
    Sharpness,
}

/// The keyword of a line kind.
pub open spec fn mtl_text_tag(k: MtlText) -> Seq<char> {
    match k {
        MtlText::NewMtl => seq!['n', 'e', 'w', 'm', 't', 'l'],
        MtlText::AmbientMap => seq!['m', 'a', 'p', '_', 'K', 'a'],
        MtlText::DiffuseMap => seq!['m', 'a', 'p', '_', 'K', 'd'],
        MtlText::SpecularMap => seq!['m', 'a', 'p', '_', 'K', 's'],
        MtlText::BumpMap => seq!['m', 'a', 'p', '_', 'b', 'u', 'm', 'p'],
    }
}

fn mtl_text_tag_str(k: MtlText) -> (t: &'static str)
    ensures
        t@ == mtl_text_tag(k),
{
    proof {
        reveal_strlit("newmtl");
        reveal_strlit("map_Ka");
        reveal_strlit("map_Kd");
        reveal_strlit("map_Ks");
        reveal_strlit("map_bump");
    }
    let t = match k {
        MtlText::NewMtl => "newmtl",
        MtlText::AmbientMap => "map_Ka",
        MtlText::DiffuseMap => "map_Kd",
        MtlText::SpecularMap => "map_Ks",
        MtlText::BumpMap => "map_bump",
    };
    assert(t@ =~= mtl_text_tag(k));
    t
}

/// The keyword of a line kind.
pub open spec fn mtl_color_tag(k: MtlColor) -> Seq<char> {
    match k {
        MtlColor::AmbientColor => seq!['K', 'a'],
        MtlColor::DiffuseColor => seq!['K', 'd'],
        MtlColor::SpecularColor => seq!['K', 's'],
        MtlColor::KeColor => seq!['K', 'e'],
        MtlColor::TransmissionFilter => seq!['T', 'f'],
    }
}

fn mtl_color_tag_str(k: MtlColor) -> (t: &'static str)
    ensures
        t@ == mtl_color_tag(k),
{
    proof {
        reveal_strlit("Ka");
        reveal_strlit("Kd");
        reveal_strlit("Ks");
        reveal_strlit("Ke");
        reveal_strlit("Tf");
    }
    let t = match k {
        MtlColor::AmbientColor => "Ka",
        MtlColor::DiffuseColor => "Kd",
        MtlColor::SpecularColor => "Ks",
        MtlColor::KeColor => "Ke",
        MtlColor::TransmissionFilter => "Tf",
    };
    assert(t@ =~= mtl_color_tag(k));
    t
}

/// The keyword of a line kind.
pub open spec fn mtl_scalar_tag(k: MtlScalar) -> Seq<char> {
    match k {
        MtlScalar::TransparencyD => seq!['d'],
        MtlScalar::TransparencyTr => seq!['T', 'r'],
        MtlScalar::OpticalDensity => seq!['N', 'i'],
        MtlScalar::SpecularExponent => seq!['N', 's'],
    }
}

fn mtl_scalar_tag_str(k: MtlScalar) -> (t: &'static str)
    ensures
        t@ == mtl_scalar_tag(k),
{
    proof {
        reveal_strlit("d");
        reveal_strlit("Tr");
        reveal_strlit("Ni");
        reveal_strlit("Ns");
    }
    let t = match k {
        MtlScalar::TransparencyD => "d",
        MtlScalar::TransparencyTr => "Tr",
        MtlScalar::OpticalDensity => "Ni",
        MtlScalar::SpecularExponent => "Ns",
    };
    assert(t@ =~= mtl_scalar_tag(k));
    t
}

/// The keyword of a line kind.
pub open spec fn mtl_count_tag(k: MtlCount) -> Seq<char> {
    match k {
        MtlCount::IlluminationModel => seq!['i', 'l', 'l', 'u', 'm'],
        MtlCount::Sharpness => seq!['s', 'h', 'a', 'r', 'p', 'n', 'e', 's', 's'],
    }
}

fn mtl_count_tag_str(k: MtlCount) -> (t: &'static str)
    ensures
        t@ == mtl_count_tag(k),
{
    proof {
        reveal_strlit("illum");
        reveal_strlit("sharpness");
    }
    let t = match k {
        MtlCount::IlluminationModel => "illum",
        MtlCount::Sharpness => "sharpness",
    };
    assert(t@ =~= mtl_count_tag(k));
    t
}

/// The text line of kind `k` with text `t`.
pub open spec fn mtl_text_view(k: MtlText, t: Seq<char>) -> MtlLineView {
    match k {
        MtlText::NewMtl => MtlLineView::NewMtl(t),
        MtlText::AmbientMap => MtlLineView::AmbientMap(t),
        MtlText::DiffuseMap => MtlLineView::DiffuseMap(t),
        MtlText::SpecularMap => MtlLineView::SpecularMap(t),
        MtlText::BumpMap => MtlLineView::BumpMap(t),
    }
}

/// The colour line of kind `k` with values `r`, `g`, `b`.
pub open spec fn mtl_color_view(k: MtlColor, r: DecimalView, g: DecimalView, b: DecimalView) -> MtlLineView {
    match k {
        MtlColor::AmbientColor => MtlLineView::AmbientColor(r, g, b),
        MtlColor::DiffuseColor => MtlLineView::DiffuseColor(r, g, b),
        MtlColor::SpecularColor => MtlLineView::SpecularColor(r, g, b),
        MtlColor::KeColor => MtlLineView::KeColor(r, g, b),
        MtlColor::TransmissionFilter => MtlLineView::TransmissionFilter(r, g, b),
    }
}

/// The number line of kind `k` with value `x`.
pub open spec fn mtl_scalar_view(k: MtlScalar, x: DecimalView) -> MtlLineView {
    match k {
        MtlScalar::TransparencyD => MtlLineView::TransparencyD(x),
        MtlScalar::TransparencyTr => MtlLineView::TransparencyTr(x),
        MtlScalar::OpticalDensity => MtlLineView::OpticalDensity(x),
        MtlScalar::SpecularExponent => MtlLineView::SpecularExponent(x),
    }
}

/// The integer line of kind `k` with value `n`.
pub open spec fn mtl_count_view(k: MtlCount, n: u32) -> MtlLineView {
    match k {
        MtlCount::IlluminationModel => MtlLineView::IlluminationModel(n),
        MtlCount::Sharpness => MtlLineView::Sharpness(n),
    }
}

/// A text line of kind `k` at `i`: the keyword, then a text up to the end of
/// the line, without surrounding white space.
pub open spec fn spec_mtl_text_line(s: Seq<char>, i: int, k: MtlText) -> Scan<MtlLineView> {
    match spec_string_line(s, i, mtl_text_tag(k)) {
        Scan::Found(j, t) => Scan::Found(j, mtl_text_view(k, t)),
        Scan::Miss => Scan::Miss,
        Scan::Abort => Scan::Abort,
    }
}

/// A colour line of kind `k` at `i`: the keyword, three spaced numbers and
/// the end of the line.
pub open spec fn spec_mtl_color_line(s: Seq<char>, i: int, k: MtlColor) -> Scan<MtlLineView> {
    let t = mtl_color_tag(k);
    if !starts_with_at(s, i, t) {
        Scan::Miss
    } else {
        match spec_float_triple(s, i + t.len()) {
            Scan::Found(j, (r, g, b)) => match spec_end_of_line_maybe_comment(s, j as int) {
                Scan::Found(e, _) => Scan::Found(e, mtl_color_view(k, r, g, b)),
                Scan::Miss => Scan::Miss,
                Scan::Abort => Scan::Abort,
            },
            Scan::Miss => Scan::Miss,
            Scan::Abort => Scan::Abort,
        }
    }
}

/// A number line of kind `k` at `i`: the keyword, a spaced number and the
/// end of the line.
pub open spec fn spec_mtl_scalar_line(s: Seq<char>, i: int, k: MtlScalar) -> Scan<MtlLineView> {
    let t = mtl_scalar_tag(k);
    if !starts_with_at(s, i, t) {
        Scan::Miss
    } else {
        match spec_spaced_float(s, i + t.len()) {
            Scan::Found(j, x) => match spec_end_of_line_maybe_comment(s, j as int) {
                Scan::Found(e, _) => Scan::Found(e, mtl_scalar_view(k, x)),
                Scan::Miss => Scan::Miss,
                Scan::Abort => Scan::Abort,
            },
            Scan::Miss => Scan::Miss,
            Scan::Abort => Scan::Abort,
        }
    }
}

/// An integer line of kind `k` at `i`: the keyword, a spaced unsigned integer
/// and the end of the line.
pub open spec fn spec_mtl_count_line(s: Seq<char>, i: int, k: MtlCount) -> Scan<MtlLineView> {
    let t = mtl_count_tag(k);
    if !starts_with_at(s, i, t) {
        Scan::Miss
    } else {
        match spec_spaced_uint(s, i + t.len()) {
            Scan::Found(j, n) => match spec_end_of_line_maybe_comment(s, j as int) {
                Scan::Found(e, _) => Scan::Found(e, mtl_count_view(k, n)),
                Scan::Miss => Scan::Miss,
                Scan::Abort => Scan::Abort,
            },
            Scan::Miss => Scan::Miss,
            Scan::Abort => Scan::Abort,
        }
    }
}

/// A comment line at `i`: a comment, whose text without surrounding white
/// space is the value.
pub open spec fn spec_mtl_comment_line(s: Seq<char>, i: int) -> Scan<MtlLineView> {
    match spec_comment(s, i) {
        Scan::Found(k, (a, b)) => {
            let (x, y) = trimmed(s, a as int, b as int);
            Scan::Found(k, MtlLineView::Comment(s.subrange(x, y)))
        },
        Scan::Miss => Scan::Miss,
        Scan::Abort => Scan::Abort,
    }
}

/// A blank line at `i`: the end of the text, a line ending, or a comment.
pub open spec fn spec_blank_line(s: Seq<char>, i: int) -> Scan<MtlLineView> {
    match spec_end_of_line_maybe_comment(s, i) {
        Scan::Found(e, _) => Scan::Found(e, MtlLineView::Blank),
        Scan::Miss => Scan::Miss,
        Scan::Abort => Scan::Abort,
    }
}

/// A text line of kind `k` at `i`.
pub fn mtl_text_line_at(s: &[char], i: usize, k: MtlText) -> (r: Scan<MtlLine>)
    requires
        i <= s@.len(),
    ensures
        mtl_scan_view(r) == spec_mtl_text_line(s@, i as int, k),
        mtl_scan_ok(r, i as int, s@.len() as int),
{
    match string_line_at(s, i, mtl_text_tag_str(k)) {
        Scan::Found(j, t) => Scan::Found(
            j,
            match k {
                MtlText::NewMtl => MtlLine::NewMtl(t),
                MtlText::AmbientMap => MtlLine::AmbientMap(t),
                MtlText::DiffuseMap => MtlLine::DiffuseMap(t),
                MtlText::SpecularMap => MtlLine::SpecularMap(t),
                MtlText::BumpMap => MtlLine::BumpMap(t),
            },
        ),
        Scan::Miss => Scan::Miss,
        Scan::Abort => Scan::Abort,
    }
}

/// A colour line of kind `k` at `i`.
pub fn mtl_color_line_at(s: &[char], i: usize, k: MtlColor) -> (r: Scan<MtlLine>)
    requires
        i <= s@.len(),
    ensures
        mtl_scan_view(r) == spec_mtl_color_line(s@, i as int, k),
        mtl_scan_ok(r, i as int, s@.len() as int),
{
    let t = mtl_color_tag_str(k);
    if !tag_at(s, i, t) {
        return Scan::Miss;
    }
    let tl = t.unicode_len();
    match float_triple_at(s, i + tl) {
        Scan::Found(j, (r, g, b)) => match end_of_line_maybe_comment_at(s, j) {
            Scan::Found(e, _) => Scan::Found(
                e,
                match k {
                    MtlColor::AmbientColor => MtlLine::AmbientColor(r, g, b),
                    MtlColor::DiffuseColor => MtlLine::DiffuseColor(r, g, b),
                    MtlColor::SpecularColor => MtlLine::SpecularColor(r, g, b),
                    MtlColor::KeColor => MtlLine::KeColor(r, g, b),
                    MtlColor::TransmissionFilter => MtlLine::TransmissionFilter(r, g, b),
                },
            ),
            Scan::Miss => Scan::Miss,
            Scan::Abort => Scan::Abort,
        },
        Scan::Miss => Scan::Miss,
        Scan::Abort => Scan::Abort,
    }
}

/// A number line of kind `k` at `i`.
pub fn mtl_scalar_line_at(s: &[char], i: usize, k: MtlScalar) -> (r: Scan<MtlLine>)
    requires
        i <= s@.len(),
    ensures
        mtl_scan_view(r) == spec_mtl_scalar_line(s@, i as int, k),
        mtl_scan_ok(r, i as int, s@.len() as int),
{
    let t = mtl_scalar_tag_str(k);
    if !tag_at(s, i, t) {
        return Scan::Miss;
    }
    let tl = t.unicode_len();
    match spaced_float_at(s, i + tl) {
        Scan::Found(j, x) => match end_of_line_maybe_comment_at(s, j) {
            Scan::Found(e, _) => Scan::Found(
                e,
                match k {
                    MtlScalar::TransparencyD => MtlLine::TransparencyD(x),
                    MtlScalar::TransparencyTr => MtlLine::TransparencyTr(x),
                    MtlScalar::OpticalDensity => MtlLine::OpticalDensity(x),
                    MtlScalar::SpecularExponent => MtlLine::SpecularExponent(x),
                },
            ),
            Scan::Miss => Scan::Miss,
            Scan::Abort => Scan::Abort,
        },
        Scan::Miss => Scan::Miss,
        Scan::Abort => Scan::Abort,
    }
}

/// An integer line of kind `k` at `i`.
pub fn mtl_count_line_at(s: &[char], i: usize, k: MtlCount) -> (r: Scan<MtlLine>)
    requires
        i <= s@.len(),
    ensures
        mtl_scan_view(r) == spec_mtl_count_line(s@, i as int, k),
        mtl_scan_ok(r, i as int, s@.len() as int),
{
    let t = mtl_count_tag_str(k);
    if !tag_at(s, i, t) {
        return Scan::Miss;
    }
    let tl = t.unicode_len();
    match spaced_uint_at(s, i + tl) {
        Scan::Found(j, n) => match end_of_line_maybe_comment_at(s, j) {
            Scan::Found(e, _) => Scan::Found(
                e,
                match k {
                    MtlCount::IlluminationModel => MtlLine::IlluminationModel(n),
                    MtlCount::Sharpness => MtlLine::Sharpness(n),
                },
            ),
            Scan::Miss => Scan::Miss,
            Scan::Abort => Scan::Abort,
        },
        Scan::Miss => Scan::Miss,
        Scan::Abort => Scan::Abort,
    }
}

/// A comment line at `i`.
pub fn mtl_comment_line_at(s: &[char], i: usize) -> (r: Scan<MtlLine>)
    requires
        i <= s@.len(),
    ensures
        mtl_scan_view(r) == spec_mtl_comment_line(s@, i as int),
        mtl_scan_ok(r, i as int, s@.len() as int),
{
    match comment_at(s, i) {
        Scan::Found(k, (a, b)) => {
            let x = scan_white_to_exec(s, a, b);
            let y = rscan_white_exec(s, x, b);
            Scan::Found(k, MtlLine::Comment(string_of(s, x, y)))
        },
        Scan::Miss => Scan::Miss,
        Scan::Abort => Scan::Abort,
    }
}

/// A blank line at `i`.
pub fn blank_line_at(s: &[char], i: usize) -> (r: Scan<MtlLine>)
    requires
        i <= s@.len(),
    ensures
        mtl_scan_view(r) == spec_blank_line(s@, i as int),
        mtl_scan_ok(r, i as int, s@.len() as int),
{
    match end_of_line_maybe_comment_at(s, i) {
        Scan::Found(e, _) => Scan::Found(e, MtlLine::Blank),
        Scan::Miss => Scan::Miss,
        Scan::Abort => Scan::Abort,
    }
}

/// The number of line rules, tried in order.
pub const NUM_MTL_RULES: u8 = 17;

/// The rule of the given number: the five text lines; the ambient, diffuse,
/// specular and emissive colour lines; the dissolve, transparency and
/// optical density lines; the illumination and sharpness lines; the specular
/// exponent line; the comment line; and the blank line.
pub open spec fn mtl_rule(s: Seq<char>, i: int, n: u8) -> Scan<MtlLineView> {
    if n == 0 {
        spec_mtl_text_line(s, i, MtlText::NewMtl)
    } else if n == 1 {
        spec_mtl_text_line(s, i, MtlText::AmbientMap)
    } else if n == 2 {
        spec_mtl_text_line(s, i, MtlText::DiffuseMap)
    } else if n == 3 {
        spec_mtl_text_line(s, i, MtlText::SpecularMap)
    } else if n == 4 {
        spec_mtl_text_line(s, i, MtlText::BumpMap)
    } else if n == 5 {
        spec_mtl_color_line(s, i, MtlColor::AmbientColor)
    } else if n == 6 {
        spec_mtl_color_line(s, i, MtlColor::DiffuseColor)
    } else if n == 7 {
        spec_mtl_color_line(s, i, MtlColor::SpecularColor)
    } else if n == 8 {
        spec_mtl_color_line(s, i, MtlColor::KeColor)
    } else if n == 9 {
        spec_mtl_scalar_line(s, i, MtlScalar::TransparencyD)
    } else if n == 10 {
        spec_mtl_scalar_line(s, i, MtlScalar::TransparencyTr)
    } else if n == 11 {
        spec_mtl_scalar_line(s, i, MtlScalar::OpticalDensity)
    } else if n == 12 {
        spec_mtl_count_line(s, i, MtlCount::IlluminationModel)
    } else if n == 13 {
        spec_mtl_count_line(s, i, MtlCount::Sharpness)
    } else if n == 14 {
        spec_mtl_scalar_line(s, i, MtlScalar::SpecularExponent)
    } else if n == 15 {
        spec_mtl_comment_line(s, i)
    } else {
        spec_blank_line(s, i)
    }
}

/// The result of the first rule from number `n` on that does not miss.
pub open spec fn first_mtl_rule(s: Seq<char>, i: int, n: u8) -> Scan<MtlLineView>
    decreases NUM_MTL_RULES - n,
{
    if n >= NUM_MTL_RULES {
        Scan::Miss
    } else if mtl_rule(s, i, n) is Miss {
        first_mtl_rule(s, i, (n + 1) as u8)
    } else {
        mtl_rule(s, i, n)
    }
}

/// Any line of an MTL file at `i`: the first rule that does not miss.
#[verifier::opaque]
pub open spec fn spec_parse_mtl_line(s: Seq<char>, i: int) -> Scan<MtlLineView> {
    first_mtl_rule(s, i, 0)
}

fn mtl_rule_at(s: &[char], i: usize, n: u8) -> (r: Scan<MtlLine>)
    requires
        i <= s@.len(),
    ensures
        mtl_scan_view(r) == mtl_rule(s@, i as int, n),
        mtl_scan_ok(r, i as int, s@.len() as int),
{
    if n == 0 {
        mtl_text_line_at(s, i, MtlText::NewMtl)
    } else if n == 1 {
        mtl_text_line_at(s, i, MtlText::AmbientMap)
    } else if n == 2 {
        mtl_text_line_at(s, i, MtlText::DiffuseMap)
    } else if n == 3 {
        mtl_text_line_at(s, i, MtlText::SpecularMap)
    } else if n == 4 {
        mtl_text_line_at(s, i, MtlText::BumpMap)
    } else if n == 5 {
        mtl_color_line_at(s, i, MtlColor::AmbientColor)
    } else if n == 6 {
        mtl_color_line_at(s, i, MtlColor::DiffuseColor)
    } else if n == 7 {
        mtl_color_line_at(s, i, MtlColor::SpecularColor)
    } else if n == 8 {
        mtl_color_line_at(s, i, MtlColor::KeColor)
    } else if n == 9 {
        mtl_scalar_line_at(s, i, MtlScalar::TransparencyD)
    } else if n == 10 {
        mtl_scalar_line_at(s, i, MtlScalar::TransparencyTr)
    } else if n == 11 {
        mtl_scalar_line_at(s, i, MtlScalar::OpticalDensity)
    } else if n == 12 {
        mtl_count_line_at(s, i, MtlCount::IlluminationModel)
    } else if n == 13 {
        mtl_count_line_at(s, i, MtlCount::Sharpness)
    } else if n == 14 {
        mtl_scalar_line_at(s, i, MtlScalar::SpecularExponent)
    } else if n == 15 {
        mtl_comment_line_at(s, i)
    } else {
        blank_line_at(s, i)
    }
}

/// Any line of an MTL file at `i`.
pub fn mtl_line_at(s: &[char], i: usize) -> (r: Scan<MtlLine>)
    requires
        i <= s@.len(),
    ensures
        mtl_scan_view(r) == spec_parse_mtl_line(s@, i as int),
        mtl_scan_ok(r, i as int, s@.len() as int),
{
    proof {
        reveal(spec_parse_mtl_line);
    }
    let mut n: u8 = 0;
    while n < NUM_MTL_RULES
        invariant
            n <= NUM_MTL_RULES,
            i <= s@.len(),
            spec_parse_mtl_line(s@, i as int) == first_mtl_rule(s@, i as int, n),
        decreases NUM_MTL_RULES - n,
    {
        let r = mtl_rule_at(s, i, n);
        if !matches!(r, Scan::Miss) {
            return r;
        }
        n = n + 1;
    }
    Scan::Miss
}

// ---------------------------------------------------------------------------
// Rules run on a whole text

/// A new material line at the start of `input`.
pub fn newmtl_line(input: &str) -> (out: Result<(String, MtlLine), ParseError>)
    ensures
        result_view(out) == outcome(input@, spec_mtl_text_line(input@, 0, MtlText::NewMtl)),
        out matches Ok((_, l)) ==> mtl_line_wf(l@),
{
    let s = str_chars(input);
    let r = mtl_text_line_at(s.as_slice(), 0, MtlText::NewMtl);
    finish(s.as_slice(), r)
}

/// An ambient texture map line at the start of `input`.
pub fn ambient_map_line(input: &str) -> (out: Result<(String, MtlLine), ParseError>)
    ensures
        result_view(out) == outcome(input@, spec_mtl_text_line(input@, 0, MtlText::AmbientMap)),
        out matches Ok((_, l)) ==> mtl_line_wf(l@),
{
    let s = str_chars(input);
    let r = mtl_text_line_at(s.as_slice(), 0, MtlText::AmbientMap);
    finish(s.as_slice(), r)
}

/// A diffuse texture map line at the start of `input`.
pub fn diffuse_map_line(input: &str) -> (out: Result<(String, MtlLine), ParseError>)
    ensures
        result_view(out) == outcome(input@, spec_mtl_text_line(input@, 0, MtlText::DiffuseMap)),
        out matches Ok((_, l)) ==> mtl_line_wf(l@),
{
    let s = str_chars(input);
    let r = mtl_text_line_at(s.as_slice(), 0, MtlText::DiffuseMap);
    finish(s.as_slice(), r)
}

/// A specular texture map line at the start of `input`.
pub fn specular_map_line(input: &str) -> (out: Result<(String, MtlLine), ParseError>)
    ensures
        result_view(out) == outcome(input@, spec_mtl_text_line(input@, 0, MtlText::SpecularMap)),
        out matches Ok((_, l)) ==> mtl_line_wf(l@),
{
    let s = str_chars(input);
    let r = mtl_text_line_at(s.as_slice(), 0, MtlText::SpecularMap);
    finish(s.as_slice(), r)
}

/// A bump map line at the start of `input`.
pub fn bump_map_line(input: &str) -> (out: Result<(String, MtlLine), ParseError>)
    ensures
        result_view(out) == outcome(input@, spec_mtl_text_line(input@, 0, MtlText::BumpMap)),
        out matches Ok((_, l)) ==> mtl_line_wf(l@),
{
    let s = str_chars(input);
    let r = mtl_text_line_at(s.as_slice(), 0, MtlText::BumpMap);
    finish(s.as_slice(), r)
}

/// An ambient colour line at the start of `input`.
pub fn ka_ambient_line(input: &str) -> (out: Result<(String, MtlLine), ParseError>)
    ensures
        result_view(out) == outcome(input@, spec_mtl_color_line(input@, 0, MtlColor::AmbientColor)),
        out matches Ok((_, l)) ==> mtl_line_wf(l@),
{
    let s = str_chars(input);
    let r = mtl_color_line_at(s.as_slice(), 0, MtlColor::AmbientColor);
    finish(s.as_slice(), r)
}

/// A diffuse colour line at the start of `input`.
pub fn kd_diffuse_line(input: &str) -> (out: Result<(String, MtlLine), ParseError>)
    ensures
        result_view(out) == outcome(input@, spec_mtl_color_line(input@, 0, MtlColor::DiffuseColor)),
        out matches Ok((_, l)) ==> mtl_line_wf(l@),
{
    let s = str_chars(input);
    let r = mtl_color_line_at(s.as_slice(), 0, MtlColor::DiffuseColor);
    finish(s.as_slice(), r)
}

/// A specular colour line at the start of `input`.
pub fn ks_specular_line(input: &str) -> (out: Result<(String, MtlLine), ParseError>)
    ensures
        result_view(out) == outcome(input@, spec_mtl_color_line(input@, 0, MtlColor::SpecularColor)),
        out matches Ok((_, l)) ==> mtl_line_wf(l@),
{
    let s = str_chars(input);
    let r = mtl_color_line_at(s.as_slice(), 0, MtlColor::SpecularColor);
    finish(s.as_slice(), r)
}

/// An emissive colour line at the start of `input`.
pub fn ke_line(input: &str) -> (out: Result<(String, MtlLine), ParseError>)
    ensures
        result_view(out) == outcome(input@, spec_mtl_color_line(input@, 0, MtlColor::KeColor)),
        out matches Ok((_, l)) ==> mtl_line_wf(l@),
{
    let s = str_chars(input);
    let r = mtl_color_line_at(s.as_slice(), 0, MtlColor::KeColor);
    finish(s.as_slice(), r)
}

/// A transmission filter line at the start of `input`.
pub fn transmission_filter_line(input: &str) -> (out: Result<(String, MtlLine), ParseError>)
    ensures
        result_view(out) == outcome(input@, spec_mtl_color_line(input@, 0, MtlColor::TransmissionFilter)),
        out matches Ok((_, l)) ==> mtl_line_wf(l@),
{
    let s = str_chars(input);
    let r = mtl_color_line_at(s.as_slice(), 0, MtlColor::TransmissionFilter);
    finish(s.as_slice(), r)
}

/// A dissolve line at the start of `input`.
pub fn transparency_line_d(input: &str) -> (out: Result<(String, MtlLine), ParseError>)
    ensures
        result_view(out) == outcome(input@, spec_mtl_scalar_line(input@, 0, MtlScalar::TransparencyD)),
        out matches Ok((_, l)) ==> mtl_line_wf(l@),
{
    let s = str_chars(input);
    let r = mtl_scalar_line_at(s.as_slice(), 0, MtlScalar::TransparencyD);
    finish(s.as_slice(), r)
}

/// A transparency line at the start of `input`.
pub fn transparency_line_tr(input: &str) -> (out: Result<(String, MtlLine), ParseError>)
    ensures
        result_view(out) == outcome(input@, spec_mtl_scalar_line(input@, 0, MtlScalar::TransparencyTr)),
        out matches Ok((_, l)) ==> mtl_line_wf(l@),
{
    let s = str_chars(input);
    let r = mtl_scalar_line_at(s.as_slice(), 0, MtlScalar::TransparencyTr);
    finish(s.as_slice(), r)
}

/// An optical density line at the start of `input`.
pub fn optical_density_line(input: &str) -> (out: Result<(String, MtlLine), ParseError>)
    ensures
        result_view(out) == outcome(input@, spec_mtl_scalar_line(input@, 0, MtlScalar::OpticalDensity)),
        out matches Ok((_, l)) ==> mtl_line_wf(l@),
{
    let s = str_chars(input);
    let r = mtl_scalar_line_at(s.as_slice(), 0, MtlScalar::OpticalDensity);
    finish(s.as_slice(), r)
}

/// A specular exponent line at the start of `input`.
pub fn specular_exponent_line(input: &str) -> (out: Result<(String, MtlLine), ParseError>)
    ensures
        result_view(out) == outcome(input@, spec_mtl_scalar_line(input@, 0, MtlScalar::SpecularExponent)),
        out matches Ok((_, l)) ==> mtl_line_wf(l@),
{
    let s = str_chars(input);
    let r = mtl_scalar_line_at(s.as_slice(), 0, MtlScalar::SpecularExponent);
    finish(s.as_slice(), r)
}

/// An illumination model line at the start of `input`.
pub fn illum_line(input: &str) -> (out: Result<(String, MtlLine), ParseError>)
    ensures
        result_view(out) == outcome(input@, spec_mtl_count_line(input@, 0, MtlCount::IlluminationModel)),
        out matches Ok((_, l)) ==> mtl_line_wf(l@),
{
    let s = str_chars(input);
    let r = mtl_count_line_at(s.as_slice(), 0, MtlCount::IlluminationModel);
    finish(s.as_slice(), r)
}

/// A sharpness line at the start of `input`.
pub fn sharpness_line(input: &str) -> (out: Result<(String, MtlLine), ParseError>)
    ensures
        result_view(out) == outcome(input@, spec_mtl_count_line(input@, 0, MtlCount::Sharpness)),
        out matches Ok((_, l)) ==> mtl_line_wf(l@),
{
    let s = str_chars(input);
    let r = mtl_count_line_at(s.as_slice(), 0, MtlCount::Sharpness);
    finish(s.as_slice(), r)
}

/// A comment line at the start of `input`.
pub fn comment_line(input: &str) -> (out: Result<(String, MtlLine), ParseError>)
    ensures
        result_view(out) == outcome(input@, spec_mtl_comment_line(input@, 0)),
        out matches Ok((_, l)) ==> mtl_line_wf(l@),
{
    let s = str_chars(input);
    let r = mtl_comment_line_at(s.as_slice(), 0);
    finish(s.as_slice(), r)
}

/// A blank line at the start of `input`.
pub fn blank_line(input: &str) -> (out: Result<(String, MtlLine), ParseError>)
    ensures
        result_view(out) == outcome(input@, spec_blank_line(input@, 0)),
        out matches Ok((_, l)) ==> mtl_line_wf(l@),
{
    let s = str_chars(input);
    let r = blank_line_at(s.as_slice(), 0);
    finish(s.as_slice(), r)
}

/// Any line of an MTL file: the first of the line rules that does not miss at the start of `input`.
pub fn parse_mtl_line(input: &str) -> (out: Result<(String, MtlLine), ParseError>)
    ensures
        result_view(out) == outcome(input@, spec_parse_mtl_line(input@, 0)),
        out matches Ok((_, l)) ==> mtl_line_wf(l@),
{
    let s = str_chars(input);
    let r = mtl_line_at(s.as_slice(), 0);
    finish(s.as_slice(), r)
}

// ---------------------------------------------------------------------------
// Reading a text line by line

/// What reading the line of `s` that starts at `p` gives: nothing at the end
/// of the text or when the line is none of the known lines, else the line.
pub open spec fn spec_next_mtl_line(s: Seq<char>, p: int) -> Option<MtlLineView> {
    if p >= s.len() {
        None
    } else {
        match spec_parse_mtl_line(s.subrange(p, line_end(s, p)), 0) {
            Scan::Found(_, l) => Some(l),
            _ => None,
        }
    }
}

/// The view of an optional line.
pub open spec fn opt_mtl_view(r: Option<MtlLine>) -> Option<MtlLineView> {
    match r {
        Some(l) => Some(l@),
        None => None,
    }
}

/// Reads the lines of an MTL text one at a time.
pub struct MtlParser {
    text: Vec<char>,
    pos: usize,
}

impl MtlParser {
    #[verifier::type_invariant]
    spec fn inv(self) -> bool {
        self.pos <= self.text@.len()
    }

    /// The text being read.
    pub closed spec fn text(&self) -> Seq<char> {
        self.text@
    }

    /// Where the next line starts.
    pub closed spec fn pos(&self) -> int {
        self.pos as int
    }

    /// A reader at the start of `text`.
    pub fn new(text: &str) -> (p: Self)
        ensures
            p.text() == text@,
            p.pos() == 0,
    {
        MtlParser { text: str_chars(text), pos: 0 }
    }

    /// Read the next line: `None` at the end of the text and when the line is
    /// none of the known lines. Either way the line is consumed.
    pub fn next(&mut self) -> (r: Option<MtlLine>)
        ensures
            final(self).text() == old(self).text(),
            final(self).pos() == if old(self).pos() < old(self).text().len() {
                line_end(old(self).text(), old(self).pos())
            } else {
                old(self).pos()
            },
            old(self).pos() <= final(self).pos() <= final(self).text().len(),
            old(self).pos() < old(self).text().len() ==> old(self).pos() < final(self).pos(),
            opt_mtl_view(r) == spec_next_mtl_line(old(self).text(), old(self).pos()),
            r matches Some(l) ==> mtl_line_wf(l@),
    {
        proof {
            use_type_invariant(&*self);
        }
        let p = self.pos;
        if p >= self.text.len() {
            return None;
        }
        let e = line_end_at(self.text.as_slice(), p);
        let r = {
            let line = &self.text.as_slice()[p..e];
            mtl_line_at(line, 0)
        };
        self.pos = e;
        match r {
            Scan::Found(_, l) => Some(l),
            _ => None,
        }
    }
}

/// The kind and the three values of a colour line, in field order.
pub open spec fn color_channels(l: MtlLineView) -> Option<(MtlColor, DecimalView, DecimalView, DecimalView)> {
    match l {
        MtlLineView::AmbientColor(r, g, b) => Some((MtlColor::AmbientColor, r, g, b)),
        MtlLineView::DiffuseColor(r, g, b) => Some((MtlColor::DiffuseColor, r, g, b)),
        MtlLineView::SpecularColor(r, g, b) => Some((MtlColor::SpecularColor, r, g, b)),
        MtlLineView::KeColor(r, g, b) => Some((MtlColor::KeColor, r, g, b)),
        MtlLineView::TransmissionFilter(r, g, b) => Some((MtlColor::TransmissionFilter, r, g, b)),
        _ => None,
    }
}

/// A colour line read with the keyword of kind `k` is a colour line of that
/// kind, and its three values are the three numbers after the keyword, in the
/// order written.
pub proof fn lemma_color_line_values_in_order(s: Seq<char>, i: int, k: MtlColor)
    ensures
        spec_mtl_color_line(s, i, k) matches Scan::Found(_, l) ==> (spec_float_triple(
            s,
            i + mtl_color_tag(k).len(),
        ) matches Scan::Found(_, (r, g, b)) && color_channels(l) == Some((k, r, g, b))),
{
}

/// The kind and the value of a line that carries one number.
pub open spec fn scalar_value(l: MtlLineView) -> Option<(MtlScalar, DecimalView)> {
    match l {
        MtlLineView::TransparencyD(x) => Some((MtlScalar::TransparencyD, x)),
        MtlLineView::TransparencyTr(x) => Some((MtlScalar::TransparencyTr, x)),
        MtlLineView::OpticalDensity(x) => Some((MtlScalar::OpticalDensity, x)),
        MtlLineView::SpecularExponent(x) => Some((MtlScalar::SpecularExponent, x)),
        _ => None,
    }
}

/// The kind and the value of a line that carries one integer.
pub open spec fn count_value(l: MtlLineView) -> Option<(MtlCount, u32)> {
    match l {
        MtlLineView::IlluminationModel(n) => Some((MtlCount::IlluminationModel, n)),
        MtlLineView::Sharpness(n) => Some((MtlCount::Sharpness, n)),
        _ => None,
    }
}

/// The kind and the text of a line that carries a name.
pub open spec fn text_value(l: MtlLineView) -> Option<(MtlText, Seq<char>)> {
    match l {
        MtlLineView::NewMtl(t) => Some((MtlText::NewMtl, t)),
        MtlLineView::AmbientMap(t) => Some((MtlText::AmbientMap, t)),
        MtlLineView::DiffuseMap(t) => Some((MtlText::DiffuseMap, t)),
        MtlLineView::SpecularMap(t) => Some((MtlText::SpecularMap, t)),
        MtlLineView::BumpMap(t) => Some((MtlText::BumpMap, t)),
        _ => None,
    }
}

/// A number line read with the keyword of kind `k` is a line of that kind
/// whose value is the number written after the keyword.
pub proof fn lemma_scalar_line_value(s: Seq<char>, i: int, k: MtlScalar)
    ensures
        spec_mtl_scalar_line(s, i, k) matches Scan::Found(_, l) ==> (spec_spaced_float(
            s,
            i + mtl_scalar_tag(k).len(),
        ) matches Scan::Found(_, x) && scalar_value(l) == Some((k, x))),
{
}

/// An integer line read with the keyword of kind `k` is a line of that kind
/// whose value is the integer written after the keyword.
pub proof fn lemma_count_line_value(s: Seq<char>, i: int, k: MtlCount)
    ensures
        spec_mtl_count_line(s, i, k) matches Scan::Found(_, l) ==> (spec_spaced_uint(
            s,
            i + mtl_count_tag(k).len(),
        ) matches Scan::Found(_, n) && count_value(l) == Some((k, n))),
{
}

/// A name line read with the keyword of kind `k` is a line of that kind whose
/// text is the text written after the keyword.
pub proof fn lemma_text_line_value(s: Seq<char>, i: int, k: MtlText)
    ensures
        spec_mtl_text_line(s, i, k) matches Scan::Found(_, l) ==> (spec_string_line(
            s,
            i,
            mtl_text_tag(k),
        ) matches Scan::Found(_, t) && text_value(l) == Some((k, t))),
{
}

} // verus!
