//! Lines of Wavefront OBJ files: the grammar of each kind of line, the value
//! it denotes, and the text that a value prints as.
use crate::common::{
    ParseError, finish, outcome, result_view, float_pair_at, float_triple_at, opt_dec_view, opt_spaced_float_at, spec_float_pair,
    spec_float_triple, spec_opt_spaced_float, spec_string_line, string_line_at,
};
use crate::lexer::{
    CharClass, Decimal, DecimalView, Scan, char_at, char_is, decimal_text, decimal_wf, lemma_scan,
    scan, scan_class, spec_uint, starts_with_at, tag_at, uint_at,
};
use crate::text::{decimal, push_decimal, str_chars};
use vstd::prelude::*;
use vstd::string::{StrSliceExecFns, StringExecFns};

verus! {

/// The vertex, texture coordinate and normal indices of one corner of a face.
#[derive(PartialEq, Eq, Debug, Hash, Clone, Copy)]
pub struct FaceIndex {
    pub v: u32,
    pub vt: Option<u32>,
    pub vn: Option<u32>,
}

impl FaceIndex {
    /// A face corner with the given indices.
    pub fn new(v: u32, vt: Option<u32>, vn: Option<u32>) -> (f: Self)
        ensures
            f == (FaceIndex { v, vt, vn }),
    {
        Self { v, vt, vn }
    }

    /// The text of the corner: the vertex index and a slash, then the
    /// texture index and a slash when there is one, then the normal index
    /// when there is one.
    pub fn to_text(&self) -> (t: String)
        ensures
            t@ == face_index_text(*self),
    {
        let mut t = String::new();
        push_face_index(&mut t, self);
        t
    }
}

/// The text of a face corner.
pub open spec fn face_index_text(f: FaceIndex) -> Seq<char> {
    decimal(f.v as nat) + seq!['/'] + (match f.vt {
        Some(x) => decimal(x as nat) + seq!['/'],
        None => Seq::empty(),
    }) + (match f.vn {
        Some(x) => decimal(x as nat),
        None => Seq::empty(),
    })
}

fn push_face_index(t: &mut String, f: &FaceIndex)
    ensures
        final(t)@ == old(t)@ + face_index_text(*f),
{
    proof {
        reveal_strlit("/");
    }
    push_decimal(t, f.v as u128);
    t.append("/");
    if let Some(x) = f.vt {
        push_decimal(t, x as u128);
        t.append("/");
    }
    if let Some(x) = f.vn {
        push_decimal(t, x as u128);
    }
    assert(t@ =~= old(t)@ + face_index_text(*f));
}

/// One line of an OBJ file.
#[derive(PartialEq, Debug)]
pub enum ObjLine {
    Comment(String),
    ObjectName(String),
    GroupName(String),
    MtlLib(String),
    UseMtl(String),
    SmoothShading(String),
    /// x, y, z and an optional w.
    Vertex(Decimal, Decimal, Decimal, Option<Decimal>),
    VertexParam(Decimal, Decimal, Decimal),
    Normal(Decimal, Decimal, Decimal),
    Face(FaceIndex, FaceIndex, FaceIndex),
    /// u, v and an optional w.
    TextureUVW(Decimal, Decimal, Option<Decimal>),
}

/// What a line of an OBJ file holds.
pub enum ObjLineView {
    Comment(Seq<char>),
    ObjectName(Seq<char>),
    GroupName(Seq<char>),
    MtlLib(Seq<char>),
    UseMtl(Seq<char>),
    SmoothShading(Seq<char>),
    Vertex(DecimalView, DecimalView, DecimalView, Option<DecimalView>),
    VertexParam(DecimalView, DecimalView, DecimalView),
    Normal(DecimalView, DecimalView, DecimalView),
    Face(FaceIndex, FaceIndex, FaceIndex),
    TextureUVW(DecimalView, DecimalView, Option<DecimalView>),
}


impl View for ObjLine {
    type V = ObjLineView;

    open spec fn view(&self) -> ObjLineView {
        match self {
            ObjLine::Comment(s) => ObjLineView::Comment(s@),
            ObjLine::ObjectName(s) => ObjLineView::ObjectName(s@),
            ObjLine::GroupName(s) => ObjLineView::GroupName(s@),
            ObjLine::MtlLib(s) => ObjLineView::MtlLib(s@),
            ObjLine::UseMtl(s) => ObjLineView::UseMtl(s@),
            ObjLine::SmoothShading(s) => ObjLineView::SmoothShading(s@),
            ObjLine::Vertex(x, y, z, w) => ObjLineView::Vertex(x@, y@, z@, opt_dec_view(*w)),
            ObjLine::VertexParam(x, y, z) => ObjLineView::VertexParam(x@, y@, z@),
            ObjLine::Normal(x, y, z) => ObjLineView::Normal(x@, y@, z@),
            ObjLine::Face(a, b, c) => ObjLineView::Face(*a, *b, *c),
            ObjLine::TextureUVW(u, v, w) => ObjLineView::TextureUVW(u@, v@, opt_dec_view(*w)),
        }
    }
}

/// The decimals of a line are well formed.
pub open spec fn line_wf(l: ObjLineView) -> bool {
    match l {
        ObjLineView::Vertex(x, y, z, w) => decimal_wf(x) && decimal_wf(y) && decimal_wf(z) && (
        w matches Some(d) ==> decimal_wf(d)),
        ObjLineView::VertexParam(x, y, z) => decimal_wf(x) && decimal_wf(y) && decimal_wf(z),
        ObjLineView::Normal(x, y, z) => decimal_wf(x) && decimal_wf(y) && decimal_wf(z),
        ObjLineView::TextureUVW(u, v, w) => decimal_wf(u) && decimal_wf(v) && (w matches Some(d)
            ==> decimal_wf(d)),
        _ => true,
    }
}

// ---------------------------------------------------------------------------
// Number lines

/// `v` followed by three spaced floats, an optional fourth, and line feeds.
pub open spec fn spec_vertex_line(s: Seq<char>, i: int) -> Scan<ObjLineView> {
    if !char_at(s, i, 'v') {
        Scan::Miss
    } else {
        match spec_float_triple(s, i + 1) {
            Scan::Found(j, (x, y, z)) => match spec_opt_spaced_float(s, j as int) {
                Scan::Found(k, w) => Scan::Found(
                    scan(s, k as int, CharClass::Newline) as usize,
                    ObjLineView::Vertex(x, y, z, w),
                ),
                Scan::Miss => Scan::Miss,
                Scan::Abort => Scan::Abort,
            },
            Scan::Miss => Scan::Miss,
            Scan::Abort => Scan::Abort,
        }
    }
}

/// `tag` followed by three spaced floats and line feeds; `kind` says which
/// line it makes: 0 for a normal, 1 for a vertex parameter.
pub open spec fn spec_triple_line(s: Seq<char>, i: int, tag: Seq<char>, kind: u8) -> Scan<ObjLineView> {
    if !starts_with_at(s, i, tag) {
        Scan::Miss
    } else {
        match spec_float_triple(s, i + tag.len()) {
            Scan::Found(j, (x, y, z)) => Scan::Found(
                scan(s, j as int, CharClass::Newline) as usize,
                if kind == 0 {
                    ObjLineView::Normal(x, y, z)
                } else {
                    ObjLineView::VertexParam(x, y, z)
                },
            ),
            Scan::Miss => Scan::Miss,
            Scan::Abort => Scan::Abort,
        }
    }
}

/// `vt` followed by two spaced floats, an optional third, and line feeds.
pub open spec fn spec_texcoord_line(s: Seq<char>, i: int) -> Scan<ObjLineView> {
    if !starts_with_at(s, i, "vt"@) {
        Scan::Miss
    } else {
        match spec_float_pair(s, i + 2) {
            Scan::Found(j, (u, v)) => match spec_opt_spaced_float(s, j as int) {
                Scan::Found(k, w) => Scan::Found(
                    scan(s, k as int, CharClass::Newline) as usize,
                    ObjLineView::TextureUVW(u, v, w),
                ),
                Scan::Miss => Scan::Miss,
                Scan::Abort => Scan::Abort,
            },
            Scan::Miss => Scan::Miss,
            Scan::Abort => Scan::Abort,
        }
    }
}

/// The view of a scan result that carries a line.
pub open spec fn line_scan_view(r: Scan<ObjLine>) -> Scan<ObjLineView> {
    match r {
        Scan::Found(j, l) => Scan::Found(j, l@),
        Scan::Miss => Scan::Miss,
        Scan::Abort => Scan::Abort,
    }
}

/// A scan result that matched ends within the input and holds a well-formed
/// line.
pub open spec fn line_scan_ok(r: Scan<ObjLine>, i: int, n: int) -> bool {
    r matches Scan::Found(j, l) ==> i <= j <= n && line_wf(l@)
}

/// A vertex line at `i`.
pub fn vertex_line_at(s: &[char], i: usize) -> (r: Scan<ObjLine>)
    requires
        i <= s@.len(),
    ensures
        line_scan_view(r) == spec_vertex_line(s@, i as int),
        line_scan_ok(r, i as int, s@.len() as int),
{
    if !char_is(s, i, 'v') {
        return Scan::Miss;
    }
    match float_triple_at(s, i + 1) {
        Scan::Found(j, (x, y, z)) => match opt_spaced_float_at(s, j) {
            Scan::Found(k, w) => {
                let e = scan_class(s, k, CharClass::Newline);
                Scan::Found(e, ObjLine::Vertex(x, y, z, w))
            },
            Scan::Miss => Scan::Miss,
            Scan::Abort => Scan::Abort,
        },
        Scan::Miss => Scan::Miss,
        Scan::Abort => Scan::Abort,
    }
}

/// A normal (`kind` 0) or vertex parameter (`kind` 1) line at `i`.
pub fn triple_line_at(s: &[char], i: usize, tag: &str, kind: u8) -> (r: Scan<ObjLine>)
    requires
        i <= s@.len(),
    ensures
        line_scan_view(r) == spec_triple_line(s@, i as int, tag@, kind),
        line_scan_ok(r, i as int, s@.len() as int),
{
    if !tag_at(s, i, tag) {
        return Scan::Miss;
    }
    let tl = tag.unicode_len();
    match float_triple_at(s, i + tl) {
        Scan::Found(j, (x, y, z)) => {
            let e = scan_class(s, j, CharClass::Newline);
            if kind == 0 {
                Scan::Found(e, ObjLine::Normal(x, y, z))
            } else {
                Scan::Found(e, ObjLine::VertexParam(x, y, z))
            }
        },
        Scan::Miss => Scan::Miss,
        Scan::Abort => Scan::Abort,
    }
}

/// A texture coordinate line at `i`.
pub fn texcoord_line_at(s: &[char], i: usize) -> (r: Scan<ObjLine>)
    requires
        i <= s@.len(),
    ensures
        line_scan_view(r) == spec_texcoord_line(s@, i as int),
        line_scan_ok(r, i as int, s@.len() as int),
{
    proof {
        reveal_strlit("vt");
    }
    if !tag_at(s, i, "vt") {
        return Scan::Miss;
    }
    match float_pair_at(s, i + 2) {
        Scan::Found(j, (u, v)) => match opt_spaced_float_at(s, j) {
            Scan::Found(k, w) => {
                let e = scan_class(s, k, CharClass::Newline);
                Scan::Found(e, ObjLine::TextureUVW(u, v, w))
            },
            Scan::Miss => Scan::Miss,
            Scan::Abort => Scan::Abort,
        },
        Scan::Miss => Scan::Miss,
        Scan::Abort => Scan::Abort,
    }
}

// ---------------------------------------------------------------------------
// Faces

/// An optional unsigned integer at `i`: its end and value, or `i` and nothing.
pub open spec fn spec_opt_uint(s: Seq<char>, i: int) -> (int, Option<u32>) {
    match spec_uint(s, i) {
        Scan::Found(j, v) => (j as int, Some(v)),
        _ => (i, None),
    }
}

/// `v/vt/vn` with both later indices optional but both slashes present.
pub open spec fn spec_face_triple(s: Seq<char>, i: int) -> Scan<FaceIndex> {
    match spec_uint(s, i) {
        Scan::Found(j, v) => if char_at(s, j as int, '/') {
            let (k, vt) = spec_opt_uint(s, j + 1);
            if char_at(s, k, '/') {
                let (m, vn) = spec_opt_uint(s, k + 1);
                Scan::Found(m as usize, FaceIndex { v, vt, vn })
            } else {
                Scan::Miss
            }
        } else {
            Scan::Miss
        },
        _ => Scan::Miss,
    }
}

/// `v/vt` with the texture index optional.
pub open spec fn spec_face_pair(s: Seq<char>, i: int) -> Scan<FaceIndex> {
    match spec_uint(s, i) {
        Scan::Found(j, v) => if char_at(s, j as int, '/') {
            let (k, vt) = spec_opt_uint(s, j + 1);
            Scan::Found(k as usize, FaceIndex { v, vt, vn: None })
        } else {
            Scan::Miss
        },
        _ => Scan::Miss,
    }
}

/// A slash and an index, when both are there.
pub open spec fn spec_opt_slash_uint(s: Seq<char>, i: int) -> (int, Option<u32>) {
    if char_at(s, i, '/') {
        match spec_uint(s, i + 1) {
            Scan::Found(j, v) => (j as int, Some(v)),
            _ => (i, None),
        }
    } else {
        (i, None)
    }
}

/// `v`, then optionally `/vt`, then optionally `/vn`.
pub open spec fn spec_face_index(s: Seq<char>, i: int) -> Scan<FaceIndex> {
    match spec_uint(s, i) {
        Scan::Found(j, v) => {
            let (k, vt) = spec_opt_slash_uint(s, j as int);
            let (m, vn) = spec_opt_slash_uint(s, k);
            Scan::Found(m as usize, FaceIndex { v, vt, vn })
        },
        _ => Scan::Miss,
    }
}

/// One face corner surrounded by optional white space: the first of the
/// triple, pair and single forms that matches.
#[verifier::opaque]
pub open spec fn spec_face_item(s: Seq<char>, i: int) -> Scan<FaceIndex> {
    let p = scan(s, i, CharClass::Multispace);
    let r = if spec_face_triple(s, p) is Found {
        spec_face_triple(s, p)
    } else if spec_face_pair(s, p) is Found {
        spec_face_pair(s, p)
    } else {
        spec_face_index(s, p)
    };
    match r {
        Scan::Found(j, f) => Scan::Found(scan(s, j as int, CharClass::Multispace) as usize, f),
        _ => Scan::Miss,
    }
}

/// Optional white space, `f`, at least one space or tab, then three face
/// corners.
pub open spec fn spec_face_line(s: Seq<char>, i: int) -> Scan<ObjLineView> {
    let p = scan(s, i, CharClass::Multispace);
    if !char_at(s, p, 'f') {
        Scan::Miss
    } else {
        let q = scan(s, p + 1, CharClass::Space);
        if q == p + 1 {
            Scan::Miss
        } else {
            let r = scan(s, q, CharClass::Multispace);
            match spec_face_item(s, r) {
                Scan::Found(j1, a) => match spec_face_item(s, j1 as int) {
                    Scan::Found(j2, b) => match spec_face_item(s, j2 as int) {
                        Scan::Found(j3, c) => Scan::Found(
                            scan(s, j3 as int, CharClass::Multispace) as usize,
                            ObjLineView::Face(a, b, c),
                        ),
                        _ => Scan::Miss,
                    },
                    _ => Scan::Miss,
                },
                _ => Scan::Miss,
            }
        }
    }
}

fn opt_uint_at(s: &[char], i: usize) -> (r: (usize, Option<u32>))
    requires
        i <= s@.len(),
    ensures
        (r.0 as int, r.1) == spec_opt_uint(s@, i as int),
        i <= r.0 <= s@.len(),
{
    proof {
        lemma_scan(s@, i as int, CharClass::Digit);
    }
    match uint_at(s, i) {
        Scan::Found(j, v) => (j, Some(v)),
        _ => (i, None),
    }
}

fn opt_slash_uint_at(s: &[char], i: usize) -> (r: (usize, Option<u32>))
    requires
        i <= s@.len(),
    ensures
        (r.0 as int, r.1) == spec_opt_slash_uint(s@, i as int),
        i <= r.0 <= s@.len(),
{
    if char_is(s, i, '/') {
        proof {
            lemma_scan(s@, i + 1, CharClass::Digit);
        }
        match uint_at(s, i + 1) {
            Scan::Found(j, v) => (j, Some(v)),
            _ => (i, None),
        }
    } else {
        (i, None)
    }
}

/// The triple form of a face corner at `i`.
pub fn face_triple_at(s: &[char], i: usize) -> (r: Scan<FaceIndex>)
    requires
        i <= s@.len(),
    ensures
        r == spec_face_triple(s@, i as int),
        r matches Scan::Found(j, _) ==> i <= j <= s@.len(),
{
    proof {
        lemma_scan(s@, i as int, CharClass::Digit);
    }
    match uint_at(s, i) {
        Scan::Found(j, v) => {
            if char_is(s, j, '/') {
                let (k, vt) = opt_uint_at(s, j + 1);
                if char_is(s, k, '/') {
                    let (m, vn) = opt_uint_at(s, k + 1);
                    Scan::Found(m, FaceIndex { v, vt, vn })
                } else {
                    Scan::Miss
                }
            } else {
                Scan::Miss
            }
        },
        _ => Scan::Miss,
    }
}

/// The pair form of a face corner at `i`.
pub fn face_pair_at(s: &[char], i: usize) -> (r: Scan<FaceIndex>)
    requires
        i <= s@.len(),
    ensures
        r == spec_face_pair(s@, i as int),
        r matches Scan::Found(j, _) ==> i <= j <= s@.len(),
{
    proof {
        lemma_scan(s@, i as int, CharClass::Digit);
    }
    match uint_at(s, i) {
        Scan::Found(j, v) => {
            if char_is(s, j, '/') {
                let (k, vt) = opt_uint_at(s, j + 1);
                Scan::Found(k, FaceIndex { v, vt, vn: None })
            } else {
                Scan::Miss
            }
        },
        _ => Scan::Miss,
    }
}

/// The single form of a face corner at `i`.
pub fn face_index_at(s: &[char], i: usize) -> (r: Scan<FaceIndex>)
    requires
        i <= s@.len(),
    ensures
        r == spec_face_index(s@, i as int),
        r matches Scan::Found(j, _) ==> i <= j <= s@.len(),
{
    proof {
        lemma_scan(s@, i as int, CharClass::Digit);
    }
    match uint_at(s, i) {
        Scan::Found(j, v) => {
            let (k, vt) = opt_slash_uint_at(s, j);
            let (m, vn) = opt_slash_uint_at(s, k);
            Scan::Found(m, FaceIndex { v, vt, vn })
        },
        _ => Scan::Miss,
    }
}

/// A face corner surrounded by optional white space at `i`.
pub fn face_item_at(s: &[char], i: usize) -> (r: Scan<FaceIndex>)
    requires
        i <= s@.len(),
    ensures
        r == spec_face_item(s@, i as int),
        r matches Scan::Found(j, _) ==> i <= j <= s@.len(),
{
    reveal(spec_face_item);
    let p = scan_class(s, i, CharClass::Multispace);
    let r = match face_triple_at(s, p) {
        Scan::Found(j, f) => Scan::Found(j, f),
        _ => match face_pair_at(s, p) {
            Scan::Found(j, f) => Scan::Found(j, f),
            _ => face_index_at(s, p),
        },
    };
    match r {
        Scan::Found(j, f) => Scan::Found(scan_class(s, j, CharClass::Multispace), f),
        _ => Scan::Miss,
    }
}

/// A face line at `i`.
pub fn face_line_at(s: &[char], i: usize) -> (r: Scan<ObjLine>)
    requires
        i <= s@.len(),
    ensures
        line_scan_view(r) == spec_face_line(s@, i as int),
        line_scan_ok(r, i as int, s@.len() as int),
{
    let p = scan_class(s, i, CharClass::Multispace);
    if !char_is(s, p, 'f') {
        return Scan::Miss;
    }
    let q = scan_class(s, p + 1, CharClass::Space);
    if q == p + 1 {
        return Scan::Miss;
    }
    let r = scan_class(s, q, CharClass::Multispace);
    match face_item_at(s, r) {
        Scan::Found(j1, a) => match face_item_at(s, j1) {
            Scan::Found(j2, b) => match face_item_at(s, j2) {
                Scan::Found(j3, c) => Scan::Found(
                    scan_class(s, j3, CharClass::Multispace),
                    ObjLine::Face(a, b, c),
                ),
                _ => Scan::Miss,
            },
            _ => Scan::Miss,
        },
        _ => Scan::Miss,
    }
}

// ---------------------------------------------------------------------------
// Text lines

/// The kinds of line that carry a text after their keyword.
#[derive(Debug, Clone, Copy, PartialEq, Eq, Structural)]
pub enum TextLine {
    Comment,
    ObjectName,
    GroupName,
    MtlLib,
    UseMtl,
    SmoothShading,
}

/// The keyword of a text line.
pub open spec fn text_line_tag(k: TextLine) -> Seq<char> {
    match k {
        TextLine::Comment => seq!['#'],
        TextLine::ObjectName => seq!['o'],
        TextLine::GroupName => seq!['g'],
        TextLine::MtlLib => seq!['m', 't', 'l', 'l', 'i', 'b'],
        TextLine::UseMtl => seq!['u', 's', 'e', 'm', 't', 'l'],
        TextLine::SmoothShading => seq!['s'],
    }
}

/// The line of kind `k` with text `t`.
pub open spec fn text_line_view(k: TextLine, t: Seq<char>) -> ObjLineView {
    match k {
        TextLine::Comment => ObjLineView::Comment(t),
        TextLine::ObjectName => ObjLineView::ObjectName(t),
        TextLine::GroupName => ObjLineView::GroupName(t),
        TextLine::MtlLib => ObjLineView::MtlLib(t),
        TextLine::UseMtl => ObjLineView::UseMtl(t),
        TextLine::SmoothShading => ObjLineView::SmoothShading(t),
    }
}

/// A text line of kind `k` at `i`.
pub open spec fn spec_text_line(s: Seq<char>, i: int, k: TextLine) -> Scan<ObjLineView> {
    match spec_string_line(s, i, text_line_tag(k)) {
        Scan::Found(j, t) => Scan::Found(j, text_line_view(k, t)),
        Scan::Miss => Scan::Miss,
        Scan::Abort => Scan::Abort,
    }
}

fn text_line_tag_str(k: TextLine) -> (t: &'static str)
    ensures
        t@ == text_line_tag(k),
{
    proof {
        reveal_strlit("#");
        reveal_strlit("o");
        reveal_strlit("g");
        reveal_strlit("mtllib");
        reveal_strlit("usemtl");
        reveal_strlit("s");
    }
    let t = match k {
        TextLine::Comment => "#",
        TextLine::ObjectName => "o",
        TextLine::GroupName => "g",
        TextLine::MtlLib => "mtllib",
        TextLine::UseMtl => "usemtl",
        TextLine::SmoothShading => "s",
    };
    assert(t@ =~= text_line_tag(k));
    t
}

/// A text line of kind `k` at `i`.
pub fn text_line_at(s: &[char], i: usize, k: TextLine) -> (r: Scan<ObjLine>)
    requires
        i <= s@.len(),
    ensures
        line_scan_view(r) == spec_text_line(s@, i as int, k),
        line_scan_ok(r, i as int, s@.len() as int),
{
    match string_line_at(s, i, text_line_tag_str(k)) {
        Scan::Found(j, t) => Scan::Found(
            j,
            match k {
                TextLine::Comment => ObjLine::Comment(t),
                TextLine::ObjectName => ObjLine::ObjectName(t),
                TextLine::GroupName => ObjLine::GroupName(t),
                TextLine::MtlLib => ObjLine::MtlLib(t),
                TextLine::UseMtl => ObjLine::UseMtl(t),
                TextLine::SmoothShading => ObjLine::SmoothShading(t),
            },
        ),
        Scan::Miss => Scan::Miss,
        Scan::Abort => Scan::Abort,
    }
}

// ---------------------------------------------------------------------------
// Any line

/// The number of line rules, tried in order.
pub const NUM_OBJ_RULES: u8 = 11;

/// The rule of the given number: the six text lines, then vertex, normal,
/// texture coordinate, vertex parameter and face lines.
pub open spec fn obj_rule(s: Seq<char>, i: int, n: u8) -> Scan<ObjLineView> {
    if n == 0 {
        spec_text_line(s, i, TextLine::Comment)
    } else if n == 1 {
        spec_text_line(s, i, TextLine::ObjectName)
    } else if n == 2 {
        spec_text_line(s, i, TextLine::GroupName)
    } else if n == 3 {
        spec_text_line(s, i, TextLine::MtlLib)
    } else if n == 4 {
        spec_text_line(s, i, TextLine::UseMtl)
    } else if n == 5 {
        spec_text_line(s, i, TextLine::SmoothShading)
    } else if n == 6 {
        spec_vertex_line(s, i)
    } else if n == 7 {
        spec_triple_line(s, i, seq!['v', 'n'], 0)
    } else if n == 8 {
        spec_texcoord_line(s, i)
    } else if n == 9 {
        spec_triple_line(s, i, seq!['v', 'p'], 1)
    } else {
        spec_face_line(s, i)
    }
}

/// The result of the first rule from number `n` on that does not miss.
pub open spec fn first_obj_rule(s: Seq<char>, i: int, n: u8) -> Scan<ObjLineView>
    decreases NUM_OBJ_RULES - n,
{
    if n >= NUM_OBJ_RULES {
        Scan::Miss
    } else if obj_rule(s, i, n) is Miss {
        first_obj_rule(s, i, (n + 1) as u8)
    } else {
        obj_rule(s, i, n)
    }
}

/// Any line of an OBJ file at `i`: the first rule that does not miss.
#[verifier::opaque]
pub open spec fn spec_parse_obj_line(s: Seq<char>, i: int) -> Scan<ObjLineView> {
    first_obj_rule(s, i, 0)
}

fn obj_rule_at(s: &[char], i: usize, n: u8) -> (r: Scan<ObjLine>)
    requires
        i <= s@.len(),
    ensures
        line_scan_view(r) == obj_rule(s@, i as int, n),
        line_scan_ok(r, i as int, s@.len() as int),
{
    proof {
        reveal_strlit("vn");
        reveal_strlit("vp");
        assert("vn"@ =~= seq!['v', 'n']);
        assert("vp"@ =~= seq!['v', 'p']);
    }
    if n == 0 {
        text_line_at(s, i, TextLine::Comment)
    } else if n == 1 {
        text_line_at(s, i, TextLine::ObjectName)
    } else if n == 2 {
        text_line_at(s, i, TextLine::GroupName)
    } else if n == 3 {
        text_line_at(s, i, TextLine::MtlLib)
    } else if n == 4 {
        text_line_at(s, i, TextLine::UseMtl)
    } else if n == 5 {
        text_line_at(s, i, TextLine::SmoothShading)
    } else if n == 6 {
        vertex_line_at(s, i)
    } else if n == 7 {
        triple_line_at(s, i, "vn", 0)
    } else if n == 8 {
        texcoord_line_at(s, i)
    } else if n == 9 {
        triple_line_at(s, i, "vp", 1)
    } else {
        face_line_at(s, i)
    }
}

/// Any line of an OBJ file at `i`.
pub fn obj_line_at(s: &[char], i: usize) -> (r: Scan<ObjLine>)
    requires
        i <= s@.len(),
    ensures
        line_scan_view(r) == spec_parse_obj_line(s@, i as int),
        line_scan_ok(r, i as int, s@.len() as int),
{
    proof {
        reveal(spec_parse_obj_line);
    }
    let mut n: u8 = 0;
    while n < NUM_OBJ_RULES
        invariant
            n <= NUM_OBJ_RULES,
            i <= s@.len(),
            spec_parse_obj_line(s@, i as int) == first_obj_rule(s@, i as int, n),
        decreases NUM_OBJ_RULES - n,
    {
        let r = obj_rule_at(s, i, n);
        if !matches!(r, Scan::Miss) {
            return r;
        }
        n = n + 1;
    }
    Scan::Miss
}

// ---------------------------------------------------------------------------
// Printing

/// A space and the text of a decimal.
pub open spec fn spaced_text(d: DecimalView) -> Seq<char> {
    seq![' '] + decimal_text(d)
}

/// The text of an optional decimal: nothing, or a space and its text.
pub open spec fn opt_spaced_text(d: Option<DecimalView>) -> Seq<char> {
    match d {
        Some(x) => spaced_text(x),
        None => Seq::empty(),
    }
}

/// The text that a line prints as: its keyword, a space, and its values
/// separated by single spaces.
pub open spec fn obj_line_text(l: ObjLineView) -> Seq<char> {
    match l {
        ObjLineView::Comment(s) => seq!['#', ' '] + s,
        ObjLineView::ObjectName(s) => seq!['o', ' '] + s,
        ObjLineView::GroupName(s) => seq!['g', ' '] + s,
        ObjLineView::MtlLib(s) => seq!['m', 't', 'l', 'l', 'i', 'b', ' '] + s,
        ObjLineView::UseMtl(s) => seq!['u', 's', 'e', 'm', 't', 'l', ' '] + s,
        ObjLineView::SmoothShading(s) => seq!['s', ' '] + s,
        ObjLineView::Vertex(x, y, z, w) => seq!['v'] + spaced_text(x) + spaced_text(y)
            + spaced_text(z) + opt_spaced_text(w),
        ObjLineView::VertexParam(x, y, z) => seq!['v', 'p'] + spaced_text(x) + spaced_text(y)
            + spaced_text(z),
        ObjLineView::Normal(x, y, z) => seq!['v', 'n'] + spaced_text(x) + spaced_text(y)
            + spaced_text(z),
        ObjLineView::Face(a, b, c) => seq!['f', ' '] + face_index_text(a) + seq![' ']
            + face_index_text(b) + seq![' '] + face_index_text(c),
        ObjLineView::TextureUVW(u, v, w) => seq!['v', 't'] + spaced_text(u) + spaced_text(v)
            + opt_spaced_text(w),
    }
}

fn push_spaced(t: &mut String, d: &Decimal)
    ensures
        final(t)@ == old(t)@ + spaced_text(d@),
{
    proof {
        reveal_strlit(" ");
    }
    t.append(" ");
    let x = d.to_text();
    t.append(x.as_str());
    assert(t@ =~= old(t)@ + spaced_text(d@));
}

fn push_opt_spaced(t: &mut String, d: &Option<Decimal>)
    ensures
        final(t)@ == old(t)@ + opt_spaced_text(opt_dec_view(*d)),
{
    match d {
        Some(x) => push_spaced(t, x),
        None => {
            assert(t@ =~= old(t)@ + opt_spaced_text(opt_dec_view(*d)));
        },
    }
}

impl ObjLine {
    /// The text of the line, as it is written in an OBJ file.
    pub fn to_text(&self) -> (t: String)
        ensures
            t@ == obj_line_text(self@),
    {
        proof {
            reveal_strlit("# ");
            reveal_strlit("o ");
            reveal_strlit("g ");
            reveal_strlit("mtllib ");
            reveal_strlit("usemtl ");
            reveal_strlit("s ");
            reveal_strlit("v");
            reveal_strlit("vp");
            reveal_strlit("vn");
            reveal_strlit("vt");
            reveal_strlit("f ");
            reveal_strlit(" ");
        }
        let mut t = String::new();
        match self {
            ObjLine::Comment(s) => {
                t.append("# ");
                t.append(s.as_str());
            },
            ObjLine::ObjectName(s) => {
                t.append("o ");
                t.append(s.as_str());
            },
            ObjLine::GroupName(s) => {
                t.append("g ");
                t.append(s.as_str());
            },
            ObjLine::MtlLib(s) => {
                t.append("mtllib ");
                t.append(s.as_str());
            },
            ObjLine::UseMtl(s) => {
                t.append("usemtl ");
                t.append(s.as_str());
            },
            ObjLine::SmoothShading(s) => {
                t.append("s ");
                t.append(s.as_str());
            },
            ObjLine::Vertex(x, y, z, w) => {
                t.append("v");
                push_spaced(&mut t, x);
                push_spaced(&mut t, y);
                push_spaced(&mut t, z);
                push_opt_spaced(&mut t, w);
            },
            ObjLine::VertexParam(x, y, z) => {
                t.append("vp");
                push_spaced(&mut t, x);
                push_spaced(&mut t, y);
                push_spaced(&mut t, z);
            },
            ObjLine::Normal(x, y, z) => {
                t.append("vn");
                push_spaced(&mut t, x);
                push_spaced(&mut t, y);
                push_spaced(&mut t, z);
            },
            ObjLine::Face(a, b, c) => {
                t.append("f ");
                push_face_index(&mut t, a);
                t.append(" ");
                push_face_index(&mut t, b);
                t.append(" ");
                push_face_index(&mut t, c);
            },
            ObjLine::TextureUVW(u, v, w) => {
                t.append("vt");
                push_spaced(&mut t, u);
                push_spaced(&mut t, v);
                push_opt_spaced(&mut t, w);
            },
        }
        assert(t@ =~= obj_line_text(self@));
        t
    }
}

// ---------------------------------------------------------------------------
// Rules run on a whole text

impl View for FaceIndex {
    type V = FaceIndex;

    open spec fn view(&self) -> FaceIndex {
        *self
    }
}

/// A face corner in the single form at the start of `input`.
pub fn face_index(input: &str) -> (out: Result<(String, FaceIndex), ParseError>)
    ensures
        result_view(out) == outcome(input@, spec_face_index(input@, 0)),
{
    let s = str_chars(input);
    let r = face_index_at(s.as_slice(), 0);
    finish(s.as_slice(), r)
}

/// A face corner in the triple form `v/vt/vn` (either index after `v` may be
/// left out, not the slashes) at the start of `input`.
pub fn face_triple(input: &str) -> (out: Result<(String, FaceIndex), ParseError>)
    ensures
        result_view(out) == outcome(input@, spec_face_triple(input@, 0)),
{
    let s = str_chars(input);
    let r = face_triple_at(s.as_slice(), 0);
    finish(s.as_slice(), r)
}

/// A face corner in the pair form `v/vt` (`vt` may be left out) at the start
/// of `input`.
pub fn face_pair(input: &str) -> (out: Result<(String, FaceIndex), ParseError>)
    ensures
        result_view(out) == outcome(input@, spec_face_pair(input@, 0)),
{
    let s = str_chars(input);
    let r = face_pair_at(s.as_slice(), 0);
    finish(s.as_slice(), r)
}

/// A face corner surrounded by optional white space at the start of `input`.
pub fn spaced_face_item(input: &str) -> (out: Result<(String, FaceIndex), ParseError>)
    ensures
        result_view(out) == outcome(input@, spec_face_item(input@, 0)),
{
    let s = str_chars(input);
    let r = face_item_at(s.as_slice(), 0);
    finish(s.as_slice(), r)
}

/// A comment line at the start of `input`.
pub fn comment_line(input: &str) -> (out: Result<(String, ObjLine), ParseError>)
    ensures
        result_view(out) == outcome(input@, spec_text_line(input@, 0, TextLine::Comment)),
        out matches Ok((_, l)) ==> line_wf(l@),
{
    let s = str_chars(input);
    let r = text_line_at(s.as_slice(), 0, TextLine::Comment);
    finish(s.as_slice(), r)
}

/// An object name line at the start of `input`.
pub fn object_line(input: &str) -> (out: Result<(String, ObjLine), ParseError>)
    ensures
        result_view(out) == outcome(input@, spec_text_line(input@, 0, TextLine::ObjectName)),
        out matches Ok((_, l)) ==> line_wf(l@),
{
    let s = str_chars(input);
    let r = text_line_at(s.as_slice(), 0, TextLine::ObjectName);
    finish(s.as_slice(), r)
}

/// A group name line at the start of `input`.
pub fn group_line(input: &str) -> (out: Result<(String, ObjLine), ParseError>)
    ensures
        result_view(out) == outcome(input@, spec_text_line(input@, 0, TextLine::GroupName)),
        out matches Ok((_, l)) ==> line_wf(l@),
{
    let s = str_chars(input);
    let r = text_line_at(s.as_slice(), 0, TextLine::GroupName);
    finish(s.as_slice(), r)
}

/// A material library line at the start of `input`.
pub fn mtllib_line(input: &str) -> (out: Result<(String, ObjLine), ParseError>)
    ensures
        result_view(out) == outcome(input@, spec_text_line(input@, 0, TextLine::MtlLib)),
        out matches Ok((_, l)) ==> line_wf(l@),
{
    let s = str_chars(input);
    let r = text_line_at(s.as_slice(), 0, TextLine::MtlLib);
    finish(s.as_slice(), r)
}

/// A material use line at the start of `input`.
pub fn usemtl_line(input: &str) -> (out: Result<(String, ObjLine), ParseError>)
    ensures
        result_view(out) == outcome(input@, spec_text_line(input@, 0, TextLine::UseMtl)),
        out matches Ok((_, l)) ==> line_wf(l@),
{
    let s = str_chars(input);
    let r = text_line_at(s.as_slice(), 0, TextLine::UseMtl);
    finish(s.as_slice(), r)
}

/// A smooth shading line at the start of `input`.
pub fn s_line(input: &str) -> (out: Result<(String, ObjLine), ParseError>)
    ensures
        result_view(out) == outcome(input@, spec_text_line(input@, 0, TextLine::SmoothShading)),
        out matches Ok((_, l)) ==> line_wf(l@),
{
    let s = str_chars(input);
    let r = text_line_at(s.as_slice(), 0, TextLine::SmoothShading);
    finish(s.as_slice(), r)
}

/// A vertex line at the start of `input`.
pub fn vertex_line(input: &str) -> (out: Result<(String, ObjLine), ParseError>)
    ensures
        result_view(out) == outcome(input@, spec_vertex_line(input@, 0)),
        out matches Ok((_, l)) ==> line_wf(l@),
{
    let s = str_chars(input);
    let r = vertex_line_at(s.as_slice(), 0);
    finish(s.as_slice(), r)
}

/// A vertex normal line at the start of `input`.
pub fn normal_line(input: &str) -> (out: Result<(String, ObjLine), ParseError>)
    ensures
        result_view(out) == outcome(input@, spec_triple_line(input@, 0, seq!['v', 'n'], 0)),
        out matches Ok((_, l)) ==> line_wf(l@),
{
    proof {
        reveal_strlit("vn");
        reveal_strlit("vp");
        assert("vn"@ =~= seq!['v', 'n']);
        assert("vp"@ =~= seq!['v', 'p']);
    }
    let s = str_chars(input);
    let r = triple_line_at(s.as_slice(), 0, "vn", 0);
    finish(s.as_slice(), r)
}

/// A texture coordinate line at the start of `input`.
pub fn texcoord_line(input: &str) -> (out: Result<(String, ObjLine), ParseError>)
    ensures
        result_view(out) == outcome(input@, spec_texcoord_line(input@, 0)),
        out matches Ok((_, l)) ==> line_wf(l@),
{
    let s = str_chars(input);
    let r = texcoord_line_at(s.as_slice(), 0);
    finish(s.as_slice(), r)
}

/// A vertex parameter line at the start of `input`.
pub fn vertex_param_line(input: &str) -> (out: Result<(String, ObjLine), ParseError>)
    ensures
        result_view(out) == outcome(input@, spec_triple_line(input@, 0, seq!['v', 'p'], 1)),
        out matches Ok((_, l)) ==> line_wf(l@),
{
    proof {
        reveal_strlit("vn");
        reveal_strlit("vp");
        assert("vn"@ =~= seq!['v', 'n']);
        assert("vp"@ =~= seq!['v', 'p']);
    }
    let s = str_chars(input);
    let r = triple_line_at(s.as_slice(), 0, "vp", 1);
    finish(s.as_slice(), r)
}

/// A face line at the start of `input`.
pub fn face_line(input: &str) -> (out: Result<(String, ObjLine), ParseError>)
    ensures
        result_view(out) == outcome(input@, spec_face_line(input@, 0)),
        out matches Ok((_, l)) ==> line_wf(l@),
{
    let s = str_chars(input);
    let r = face_line_at(s.as_slice(), 0);
    finish(s.as_slice(), r)
}

/// Any line of an OBJ file: the first of the line rules that does not miss at the start of `input`.
pub fn parse_obj_line(input: &str) -> (out: Result<(String, ObjLine), ParseError>)
    ensures
        result_view(out) == outcome(input@, spec_parse_obj_line(input@, 0)),
        out matches Ok((_, l)) ==> line_wf(l@),
{
    let s = str_chars(input);
    let r = obj_line_at(s.as_slice(), 0);
    finish(s.as_slice(), r)
}


// ---------------------------------------------------------------------------
// Reading a text line by line

/// The end of the line that starts at `p`: just past its line feed, or the
/// end of the text.
pub open spec fn line_end(s: Seq<char>, p: int) -> int {
    let k = scan(s, p, CharClass::NotNewline);
    if k < s.len() {
        k + 1
    } else {
        k
    }
}

/// What reading the line of `s` that starts at `p` gives: nothing at the end
/// of the text or when the line is none of the known lines, else the line.
pub open spec fn spec_next_obj_line(s: Seq<char>, p: int) -> Option<ObjLineView> {
    if p >= s.len() {
        None
    } else {
        match spec_parse_obj_line(s.subrange(p, line_end(s, p)), 0) {
            Scan::Found(_, l) => Some(l),
            _ => None,
        }
    }
}

/// The view of an optional line.
pub open spec fn opt_line_view(r: Option<ObjLine>) -> Option<ObjLineView> {
    match r {
        Some(l) => Some(l@),
        None => None,
    }
}

/// The end of the line that starts at `p`.
pub fn line_end_at(s: &[char], p: usize) -> (e: usize)
    requires
        p <= s@.len(),
    ensures
        e == line_end(s@, p as int),
        p <= e <= s@.len(),
        p < s@.len() ==> p < e,
{
    proof {
        lemma_scan(s@, p as int, CharClass::NotNewline);
    }
    let k = scan_class(s, p, CharClass::NotNewline);
    if k < s.len() {
        k + 1
    } else {
        k
    }
}

/// Reads the lines of an OBJ text one at a time.
pub struct ObjParser {
    text: Vec<char>,
    pos: usize,
}

impl ObjParser {
    #[verifier::type_invariant]
    spec fn inv(self) -> bool {
        self.pos <= self.text@.len()
    }

    /// The text being read.
    pub closed spec fn text(&self) -> Seq<char> {
        self.text@
    }

    /// Where the next line starts.
    pub closed spec fn pos(&self) -> int {
        self.pos as int
    }

    /// A reader at the start of `text`.
    pub fn new(text: &str) -> (p: Self)
        ensures
            p.text() == text@,
            p.pos() == 0,
    {
        ObjParser { text: str_chars(text), pos: 0 }
    }

    /// Read the next line: `None` at the end of the text and when the line is
    /// none of the known lines. Either way the line is consumed.
    pub fn next(&mut self) -> (r: Option<ObjLine>)
        ensures
            final(self).text() == old(self).text(),
            final(self).pos() == if old(self).pos() < old(self).text().len() {
                line_end(old(self).text(), old(self).pos())
            } else {
                old(self).pos()
            },
            old(self).pos() <= final(self).pos() <= final(self).text().len(),
            old(self).pos() < old(self).text().len() ==> old(self).pos() < final(self).pos(),
            opt_line_view(r) == spec_next_obj_line(old(self).text(), old(self).pos()),
            r matches Some(l) ==> line_wf(l@),
    {
        proof {
            use_type_invariant(&*self);
        }
        let p = self.pos;
        if p >= self.text.len() {
            return None;
        }
        let e = line_end_at(self.text.as_slice(), p);
        let r = {
            let line = &self.text.as_slice()[p..e];
            obj_line_at(line, 0)
        };
        self.pos = e;
        match r {
            Scan::Found(_, l) => Some(l),
            _ => None,
        }
    }
}

} // verus!
