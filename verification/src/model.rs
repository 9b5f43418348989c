//! Models built from OBJ and MTL texts: the objects of an OBJ file with their
//! vertex data, the interleaved vertex and index buffers of an object, and
//! the texture maps of a material.
use crate::lexer::{Decimal, DecimalView};
use crate::mtl::{MtlLine, MtlLineView, MtlParser, spec_next_mtl_line};
use crate::obj::{FaceIndex, ObjLine, ObjLineView, ObjParser, line_end, spec_next_obj_line};
use vstd::prelude::*;

verus! {

// ---------------------------------------------------------------------------
// Objects

/// The lines that reading `s` from `p` yields, up to the end of the text or
/// the first line that is none of the known lines.
pub open spec fn obj_lines_from(s: Seq<char>, p: int) -> Seq<ObjLineView>
    decreases s.len() - p,
{
    if p < 0 || p >= s.len() {
        Seq::empty()
    } else {
        match spec_next_obj_line(s, p) {
            Some(l) => {
                proof {
                    crate::lexer::lemma_scan(s, p, crate::lexer::CharClass::NotNewline);
                }
                seq![l] + obj_lines_from(s, line_end(s, p))
            },
            None => Seq::empty(),
        }
    }
}

/// What an object of an OBJ file holds.
#[verifier::ext_equal]
pub struct ObjObjectView {
    pub name: Option<Seq<char>>,
    pub material: Option<Seq<char>>,
    pub vertices: Seq<ObjLineView>,
    pub normals: Seq<ObjLineView>,
    pub texture_coords: Seq<ObjLineView>,
    pub vertex_params: Seq<ObjLineView>,
    pub face_lines: Seq<ObjLineView>,
}

/// An object with no name, no material and no lines.
pub open spec fn empty_object() -> ObjObjectView {
    ObjObjectView {
        name: None,
        material: None,
        vertices: Seq::empty(),
        normals: Seq::empty(),
        texture_coords: Seq::empty(),
        vertex_params: Seq::empty(),
        face_lines: Seq::empty(),
    }
}

/// The comments read so far, the objects completed so far, and the object
/// being filled.
#[verifier::ext_equal]
pub struct GroupState {
    pub comments: Seq<Seq<char>>,
    pub objects: Seq<ObjObjectView>,
    pub current: ObjObjectView,
}

/// What one line does to the grouping: an object name completes the current
/// object when it already has a name and names the next; a material library
/// names the material; vertex data goes to the current object; comments are
/// collected; other lines are skipped.
pub open spec fn group_step(st: GroupState, l: ObjLineView) -> GroupState {
    let o = st.current;
    match l {
        ObjLineView::ObjectName(name) => if o.name is Some {
            GroupState {
                objects: st.objects.push(o),
                current: ObjObjectView { name: Some(name), ..empty_object() },
                ..st
            }
        } else {
            GroupState { current: ObjObjectView { name: Some(name), ..o }, ..st }
        },
        ObjLineView::MtlLib(name) => GroupState {
            current: ObjObjectView { material: Some(name), ..o },
            ..st
        },
        ObjLineView::Vertex(..) => GroupState {
            current: ObjObjectView { vertices: o.vertices.push(l), ..o },
            ..st
        },
        ObjLineView::VertexParam(..) => GroupState {
            current: ObjObjectView { vertex_params: o.vertex_params.push(l), ..o },
            ..st
        },
        ObjLineView::Face(..) => GroupState {
            current: ObjObjectView { face_lines: o.face_lines.push(l), ..o },
            ..st
        },
        ObjLineView::Normal(..) => GroupState {
            current: ObjObjectView { normals: o.normals.push(l), ..o },
            ..st
        },
        ObjLineView::TextureUVW(..) => GroupState {
            current: ObjObjectView { texture_coords: o.texture_coords.push(l), ..o },
            ..st
        },
        ObjLineView::Comment(c) => GroupState { comments: st.comments.push(c), ..st },
        _ => st,
    }
}

/// The grouping after the lines `ls`, from no comments, no objects and an
/// empty current object.
pub open spec fn group_lines(ls: Seq<ObjLineView>) -> GroupState
    decreases ls.len(),
{
    if ls.len() == 0 {
        GroupState { comments: Seq::empty(), objects: Seq::empty(), current: empty_object() }
    } else {
        group_step(group_lines(ls.drop_last()), ls.last())
    }
}

/// What an OBJ file holds.
#[verifier::ext_equal]
pub struct ObjView {
    pub comments: Seq<Seq<char>>,
    pub objects: Seq<ObjObjectView>,
}

/// The model of an OBJ text: its comments, and its objects, the last one
/// included however few lines it has.
pub open spec fn spec_obj(s: Seq<char>) -> ObjView {
    let st = group_lines(obj_lines_from(s, 0));
    ObjView { comments: st.comments, objects: st.objects.push(st.current) }
}

/// The views of a sequence of lines.
pub open spec fn lines_view(v: Seq<ObjLine>) -> Seq<ObjLineView> {
    v.map_values(|l: ObjLine| l@)
}

/// The views of a sequence of strings.
pub open spec fn strings_view(v: Seq<String>) -> Seq<Seq<char>> {
    v.map_values(|s: String| s@)
}

/// The view of an optional string.
pub open spec fn opt_string_view(o: Option<String>) -> Option<Seq<char>> {
    match o {
        Some(s) => Some(s@),
        None => None,
    }
}

/// Errors of loading an OBJ file and of building vertex buffers from it.
#[derive(Debug)]
pub enum ObjError {
    UnableToLoad(std::io::Error),
    MissingVertexData(u32),
    MissingTexcoordData(u32),
    MissingNormalData(u32),
}

/// One object of an OBJ file: its name, material and vertex data lines.
#[derive(Debug)]
pub struct ObjObject {
    pub name: Option<String>,
    pub material: Option<String>,
    pub vertices: Vec<ObjLine>,
    pub normals: Vec<ObjLine>,
    pub texture_coords: Vec<ObjLine>,
    pub vertex_params: Vec<ObjLine>,
    pub face_lines: Vec<ObjLine>,
}

impl View for ObjObject {
    type V = ObjObjectView;

    open spec fn view(&self) -> ObjObjectView {
        ObjObjectView {
            name: opt_string_view(self.name),
            material: opt_string_view(self.material),
            vertices: lines_view(self.vertices@),
            normals: lines_view(self.normals@),
            texture_coords: lines_view(self.texture_coords@),
            vertex_params: lines_view(self.vertex_params@),
            face_lines: lines_view(self.face_lines@),
        }
    }
}

impl Default for ObjObject {
    /// An object with no name, no material and no lines.
    fn default() -> (o: Self)
        ensures
            o@ == empty_object(),
    {
        let o = ObjObject {
            name: None,
            material: None,
            vertices: Vec::new(),
            normals: Vec::new(),
            texture_coords: Vec::new(),
            vertex_params: Vec::new(),
            face_lines: Vec::new(),
        };
        assert(o@ =~= empty_object());
        o
    }
}

impl ObjObject {
    /// The vertex lines.
    pub fn vertices(&self) -> (v: &Vec<ObjLine>)
        ensures
            v@ == self.vertices@,
    {
        &self.vertices
    }

    /// The vertex parameter lines.
    pub fn vertex_params(&self) -> (v: &Vec<ObjLine>)
        ensures
            v@ == self.vertex_params@,
    {
        &self.vertex_params
    }

    /// The vertex normal lines.
    pub fn normals(&self) -> (v: &Vec<ObjLine>)
        ensures
            v@ == self.normals@,
    {
        &self.normals
    }

    /// The texture coordinate lines.
    pub fn texture_coords(&self) -> (v: &Vec<ObjLine>)
        ensures
            v@ == self.texture_coords@,
    {
        &self.texture_coords
    }
}

/// The comments and objects of an OBJ file.
#[derive(Debug)]
pub struct Obj {
    pub comments: Vec<String>,
    pub objects: Vec<ObjObject>,
}

impl View for Obj {
    type V = ObjView;

    open spec fn view(&self) -> ObjView {
        ObjView {
            comments: strings_view(self.comments@),
            objects: self.objects@.map_values(|o: ObjObject| o@),
        }
    }
}

/// The grouping that the comments, objects and current object hold.
pub open spec fn state_of(comments: Seq<String>, objects: Seq<ObjObject>, object: ObjObject) -> GroupState {
    GroupState {
        comments: strings_view(comments),
        objects: objects.map_values(|o: ObjObject| o@),
        current: object@,
    }
}

/// Reading a line that is known puts it in front of the lines read after it.
proof fn lemma_obj_lines_step(s: Seq<char>, p: int)
    requires
        0 <= p < s.len(),
    ensures
        obj_lines_from(s, p) == match spec_next_obj_line(s, p) {
            Some(l) => seq![l] + obj_lines_from(s, line_end(s, p)),
            None => Seq::empty(),
        },
{
}

/// Grouping one more line takes one more step.
proof fn lemma_group_push(ls: Seq<ObjLineView>, l: ObjLineView)
    ensures
        group_lines(ls.push(l)) == group_step(group_lines(ls), l),
{
    assert(ls.push(l).drop_last() =~= ls);
}

/// Apply one line to the grouping held by `comments`, `objects` and `object`.
fn apply_line(comments: &mut Vec<String>, objects: &mut Vec<ObjObject>, object: &mut ObjObject, line: ObjLine)
    ensures
        state_of(final(comments)@, final(objects)@, *final(object)) == group_step(
            state_of(old(comments)@, old(objects)@, *old(object)),
            line@,
        ),
{
    let ghost l = line@;
    match line {
        ObjLine::ObjectName(name) => {
            if object.name.is_some() {
                let mut done = ObjObject::default();
                std::mem::swap(&mut done, object);
                objects.push(done);
            }
            object.name = Some(name);
        },
        ObjLine::MtlLib(name) => {
            object.material = Some(name);
        },
        ObjLine::Vertex(..) => object.vertices.push(line),
        ObjLine::VertexParam(..) => object.vertex_params.push(line),
        ObjLine::Face(..) => object.face_lines.push(line),
        ObjLine::Normal(..) => object.normals.push(line),
        ObjLine::TextureUVW(..) => object.texture_coords.push(line),
        ObjLine::Comment(comment) => comments.push(comment),
        _ => {},
    }
}

impl Obj {
    /// The comments and objects of an OBJ text. Lines are read until the end
    /// of the text or the first line that is none of the known lines.
    pub fn from_text(text: &str) -> (r: Result<Obj, ObjError>)
        ensures
            r matches Ok(o) && o@ == spec_obj(text@),
    {
        let mut parser = ObjParser::new(text);
        let mut comments: Vec<String> = Vec::new();
        let mut objects: Vec<ObjObject> = Vec::new();
        let mut object = ObjObject::default();
        let ghost mut read: Seq<ObjLineView> = Seq::empty();
        loop
            invariant_except_break
                obj_lines_from(text@, 0) == read + obj_lines_from(text@, parser.pos()),
            invariant
                parser.text() == text@,
                0 <= parser.pos() <= text@.len(),
                group_lines(read) == state_of(comments@, objects@, object),
            ensures
                obj_lines_from(text@, 0) == read,
                group_lines(read) == state_of(comments@, objects@, object),
            decreases text@.len() - parser.pos(),
        {
            let ghost p = parser.pos();
            let next = parser.next();
            proof {
                if p < text@.len() {
                    lemma_obj_lines_step(text@, p);
                }
            }
            match next {
                Some(line) => {
                    proof {
                        lemma_group_push(read, line@);
                        assert(read + obj_lines_from(text@, p) =~= read.push(line@) + obj_lines_from(
                            text@,
                            parser.pos(),
                        ));
                    }
                    apply_line(&mut comments, &mut objects, &mut object, line);
                    proof {
                        read = read.push(line@);
                    }
                },
                None => {
                    proof {
                        assert(read + obj_lines_from(text@, p) =~= read);
                    }
                    break;
                },
            }
        }
        objects.push(object);
        let o = Obj { comments, objects };
        assert(o@ =~= spec_obj(text@));
        Ok(o)
    }
}

// ---------------------------------------------------------------------------
// Interleaved vertex data

/// The corners of the face lines, three per face, in order.
pub open spec fn face_corners(ls: Seq<ObjLineView>) -> Seq<FaceIndex>
    decreases ls.len(),
{
    if ls.len() == 0 {
        Seq::empty()
    } else {
        face_corners(ls.drop_last()) + match ls.last() {
            ObjLineView::Face(a, b, c) => seq![a, b, c],
            _ => Seq::empty(),
        }
    }
}

/// The decimal one.
pub open spec fn one_view() -> DecimalView {
    DecimalView { negative: false, digits: seq![1u8], exponent: 0 }
}

/// The decimal zero.
pub open spec fn zero_view() -> DecimalView {
    DecimalView { negative: false, digits: seq![0u8], exponent: 0 }
}

/// What one interleaved vertex holds: position with `w`, texture coordinate
/// with `w`, and normal.
#[verifier::ext_equal]
pub struct VertexView {
    pub position: (DecimalView, DecimalView, DecimalView, DecimalView),
    pub texcoord: (DecimalView, DecimalView, DecimalView),
    pub normal: (DecimalView, DecimalView, DecimalView),
}

/// The position of the vertex with the one-based index `v`, its `w` one when
/// the line has none; nothing when there is no vertex line there.
pub open spec fn vertex_lookup(o: ObjObjectView, v: u32) -> Option<
    (DecimalView, DecimalView, DecimalView, DecimalView),
> {
    let k = v - 1;
    if 0 <= k < o.vertices.len() {
        match o.vertices[k] {
            ObjLineView::Vertex(x, y, z, w) => Some(
                (
                    x,
                    y,
                    z,
                    match w {
                        Some(w) => w,
                        None => one_view(),
                    },
                ),
            ),
            _ => None,
        }
    } else {
        None
    }
}

/// The texture coordinate with the one-based index in `vt`, its `w` zero
/// when the line has none; zeros when there is no index; nothing when there
/// is no texture coordinate line there.
pub open spec fn texcoord_lookup(o: ObjObjectView, vt: Option<u32>) -> Option<
    (DecimalView, DecimalView, DecimalView),
> {
    match vt {
        None => Some((zero_view(), zero_view(), zero_view())),
        Some(t) => {
            let k = t - 1;
            if 0 <= k < o.texture_coords.len() {
                match o.texture_coords[k] {
                    ObjLineView::TextureUVW(u, v, w) => Some(
                        (
                            u,
                            v,
                            match w {
                                Some(w) => w,
                                None => zero_view(),
                            },
                        ),
                    ),
                    _ => None,
                }
            } else {
                None
            }
        },
    }
}

/// The normal with the one-based index in `vn`; zeros when there is no
/// index; nothing when there is no normal line there.
pub open spec fn normal_lookup(o: ObjObjectView, vn: Option<u32>) -> Option<
    (DecimalView, DecimalView, DecimalView),
> {
    match vn {
        None => Some((zero_view(), zero_view(), zero_view())),
        Some(n) => {
            let k = n - 1;
            if 0 <= k < o.normals.len() {
                match o.normals[k] {
                    ObjLineView::Normal(x, y, z) => Some((x, y, z)),
                    _ => None,
                }
            } else {
                None
            }
        },
    }
}

/// Where building interleaved data stands: the vertices, indices and
/// zero-based vertex indices seen so far; or the missing line that stopped
/// it; or an index of zero, which the data cannot refer to.
pub enum Interleaving {
    Done { vertices: Seq<VertexView>, indices: Seq<u32>, seen: Seq<u32> },
    MissingVertex(u32),
    MissingTexcoord(u32),
    MissingNormal(u32),
    ZeroIndex,
}

/// One face corner: its zero-based vertex index is always appended to the
/// indices; the first time that index is seen, the corner's position,
/// texture coordinate and normal are looked up, in that order, and appended
/// as a vertex.
pub open spec fn corner_step(o: ObjObjectView, st: Interleaving, f: FaceIndex) -> Interleaving {
    match st {
        Interleaving::Done { vertices, indices, seen } => if f.v == 0 {
            Interleaving::ZeroIndex
        } else {
            let index = (f.v - 1) as u32;
            if seen.contains(index) {
                Interleaving::Done { vertices, indices: indices.push(index), seen }
            } else {
                match vertex_lookup(o, f.v) {
                    None => Interleaving::MissingVertex(f.v),
                    Some(p) => if f.vt == Some(0u32) {
                        Interleaving::ZeroIndex
                    } else {
                        match texcoord_lookup(o, f.vt) {
                            None => Interleaving::MissingTexcoord(f.vt->0),
                            Some(t) => if f.vn == Some(0u32) {
                                Interleaving::ZeroIndex
                            } else {
                                match normal_lookup(o, f.vn) {
                                    None => Interleaving::MissingNormal(f.vn->0),
                                    Some(n) => Interleaving::Done {
                                        vertices: vertices.push(
                                            VertexView { position: p, texcoord: t, normal: n },
                                        ),
                                        indices: indices.push(index),
                                        seen: seen.push(index),
                                    },
                                }
                            }
                        }
                    },
                }
            }
        },
        _ => st,
    }
}

/// Building interleaved data over the corners `cs`.
pub open spec fn interleave_corners(o: ObjObjectView, cs: Seq<FaceIndex>) -> Interleaving
    decreases cs.len(),
{
    if cs.len() == 0 {
        Interleaving::Done { vertices: Seq::empty(), indices: Seq::empty(), seen: Seq::empty() }
    } else {
        corner_step(o, interleave_corners(o, cs.drop_last()), cs.last())
    }
}

/// Building interleaved data over all face corners of an object.
pub open spec fn spec_interleave(o: ObjObjectView) -> Interleaving {
    interleave_corners(o, face_corners(o.face_lines))
}

/// Once building stops, it stays stopped.
proof fn lemma_interleave_stops(o: ObjObjectView, cs: Seq<FaceIndex>, k: int)
    requires
        0 <= k <= cs.len(),
        !(interleave_corners(o, cs.take(k)) is Done),
    ensures
        interleave_corners(o, cs) == interleave_corners(o, cs.take(k)),
    decreases cs.len() - k,
{
    if k < cs.len() {
        assert(cs.take(k + 1).drop_last() =~= cs.take(k));
        lemma_interleave_stops(o, cs, k + 1);
    } else {
        assert(cs.take(k) =~= cs);
    }
}

/// No index of a corner is zero.
pub open spec fn corner_nonzero(f: FaceIndex) -> bool {
    f.v != 0 && f.vt != Some(0u32) && f.vn != Some(0u32)
}

/// Without zero indices, building interleaved data never meets one.
pub proof fn lemma_no_zero_index(o: ObjObjectView, cs: Seq<FaceIndex>)
    requires
        forall|k: int| 0 <= k < cs.len() ==> corner_nonzero(#[trigger] cs[k]),
    ensures
        !(interleave_corners(o, cs) is ZeroIndex),
    decreases cs.len(),
{
    if cs.len() > 0 {
        assert forall|k: int| 0 <= k < cs.drop_last().len() implies corner_nonzero(#[trigger] cs.drop_last()[k]) by {
            assert(cs.drop_last()[k] == cs[k]);
        }
        lemma_no_zero_index(o, cs.drop_last());
        assert(corner_nonzero(cs[cs.len() - 1]));
    }
}

/// Interleaved vertex data.
#[derive(Debug)]
pub struct InterleavedVertex {
    pub position: (Decimal, Decimal, Decimal, Decimal),
    pub texcoord: (Decimal, Decimal, Decimal),
    pub normal: (Decimal, Decimal, Decimal),
}

impl View for InterleavedVertex {
    type V = VertexView;

    open spec fn view(&self) -> VertexView {
        VertexView { position: self.position@, texcoord: self.texcoord@, normal: self.normal@ }
    }
}

/// The vertices of an object, each once, and the index of each face corner
/// into them.
#[derive(Debug)]
pub struct Interleaved {
    pub vertices: Vec<InterleavedVertex>,
    pub indices: Vec<u32>,
}

/// The views of a sequence of vertices.
pub open spec fn vertices_view(v: Seq<InterleavedVertex>) -> Seq<VertexView> {
    v.map_values(|x: InterleavedVertex| x@)
}

fn contains_u32(v: &Vec<u32>, x: u32) -> (b: bool)
    ensures
        b == v@.contains(x),
{
    let mut k: usize = 0;
    while k < v.len()
        invariant
            0 <= k <= v@.len(),
            forall|j: int| 0 <= j < k ==> v@[j] != x,
        decreases v@.len() - k,
    {
        if v[k] == x {
            assert(v@[k as int] == x);
            return true;
        }
        k = k + 1;
    }
    false
}

impl ObjObject {
    /// The face corners, three per face line, in order.
    fn corners(&self) -> (cs: Vec<FaceIndex>)
        ensures
            cs@ == face_corners(self@.face_lines),
    {
        let mut cs: Vec<FaceIndex> = Vec::new();
        let mut k: usize = 0;
        while k < self.face_lines.len()
            invariant
                0 <= k <= self.face_lines@.len(),
                cs@ == face_corners(lines_view(self.face_lines@).take(k as int)),
            decreases self.face_lines@.len() - k,
        {
            let ghost ls = lines_view(self.face_lines@);
            assert(ls.take(k + 1).drop_last() =~= ls.take(k as int));
            match &self.face_lines[k] {
                ObjLine::Face(a, b, c) => {
                    cs.push(*a);
                    cs.push(*b);
                    cs.push(*c);
                },
                _ => {},
            }
            k = k + 1;
            assert(cs@ =~= face_corners(ls.take(k as int)));
        }
        assert(lines_view(self.face_lines@).take(k as int) =~= lines_view(self.face_lines@));
        cs
    }

    fn get_vertex_by_index(&self, vertex_index: u32) -> (r: Result<(Decimal, Decimal, Decimal, Decimal), ObjError>)
        requires
            vertex_index >= 1,
        ensures
            match vertex_lookup(self@, vertex_index) {
                Some(p) => r matches Ok(q) && q@ == p,
                None => r matches Err(ObjError::MissingVertexData(v)) && v == vertex_index,
            },
    {
        let k = (vertex_index - 1) as usize;
        if k < self.vertices.len() {
            match &self.vertices[k] {
                ObjLine::Vertex(x, y, z, w) => {
                    let w = match w {
                        Some(w) => w.duplicate(),
                        None => Decimal::one(),
                    };
                    return Ok((x.duplicate(), y.duplicate(), z.duplicate(), w));
                },
                _ => {},
            }
        }
        Err(ObjError::MissingVertexData(vertex_index))
    }

    fn get_vt_by_index(&self, vt_index: Option<u32>) -> (r: Result<(Decimal, Decimal, Decimal), ObjError>)
        requires
            vt_index != Some(0u32),
        ensures
            match texcoord_lookup(self@, vt_index) {
                Some(t) => r matches Ok(q) && q@ == t,
                None => r matches Err(ObjError::MissingTexcoordData(v)) && vt_index == Some(v),
            },
    {
        match vt_index {
            None => Ok((Decimal::zero(), Decimal::zero(), Decimal::zero())),
            Some(vt) => {
                let k = (vt - 1) as usize;
                if k < self.texture_coords.len() {
                    match &self.texture_coords[k] {
                        ObjLine::TextureUVW(u, v, w) => {
                            let w = match w {
                                Some(w) => w.duplicate(),
                                None => Decimal::zero(),
                            };
                            return Ok((u.duplicate(), v.duplicate(), w));
                        },
                        _ => {},
                    }
                }
                Err(ObjError::MissingTexcoordData(vt))
            },
        }
    }

    fn get_vn_by_index(&self, vn_index: Option<u32>) -> (r: Result<(Decimal, Decimal, Decimal), ObjError>)
        requires
            vn_index != Some(0u32),
        ensures
            match normal_lookup(self@, vn_index) {
                Some(n) => r matches Ok(q) && q@ == n,
                None => r matches Err(ObjError::MissingNormalData(v)) && vn_index == Some(v),
            },
    {
        match vn_index {
            None => Ok((Decimal::zero(), Decimal::zero(), Decimal::zero())),
            Some(vn) => {
                let k = (vn - 1) as usize;
                if k < self.normals.len() {
                    match &self.normals[k] {
                        ObjLine::Normal(x, y, z) => {
                            return Ok((x.duplicate(), y.duplicate(), z.duplicate()));
                        },
                        _ => {},
                    }
                }
                Err(ObjError::MissingNormalData(vn))
            },
        }
    }

    /// Whether no face corner has an index of zero; then `interleaved` can
    /// be called.
    pub fn corners_nonzero(&self) -> (b: bool)
        ensures
            b ==> !(spec_interleave(self@) is ZeroIndex),
            b == (forall|k: int| 0 <= k < face_corners(self@.face_lines).len() ==> corner_nonzero(
                #[trigger] face_corners(self@.face_lines)[k],
            )),
    {
        let cs = self.corners();
        let mut k: usize = 0;
        while k < cs.len()
            invariant
                0 <= k <= cs@.len(),
                cs@ == face_corners(self@.face_lines),
                forall|j: int| 0 <= j < k ==> corner_nonzero(#[trigger] cs@[j]),
            decreases cs@.len() - k,
        {
            let f = cs[k];
            if f.v == 0 || f.vt == Some(0u32) || f.vn == Some(0u32) {
                assert(!corner_nonzero(cs@[k as int]));
                return false;
            }
            k = k + 1;
        }
        proof {
            lemma_no_zero_index(self@, cs@);
        }
        true
    }

    /// The vertices of the object, each once in the order in which faces
    /// first use them, and the zero-based vertex index of every face corner.
    /// A texture coordinate keeps the `v` of the file; renderers whose `v`
    /// axis points the other way use one minus it.
    pub fn interleaved(&self) -> (r: Result<Interleaved, ObjError>)
        requires
            !(spec_interleave(self@) is ZeroIndex),
        ensures
            match spec_interleave(self@) {
                Interleaving::Done { vertices, indices, .. } => r matches Ok(il)
                    && vertices_view(il.vertices@) == vertices && il.indices@ == indices,
                Interleaving::MissingVertex(v) => r matches Err(ObjError::MissingVertexData(x))
                    && x == v,
                Interleaving::MissingTexcoord(v) => r matches Err(ObjError::MissingTexcoordData(x))
                    && x == v,
                Interleaving::MissingNormal(v) => r matches Err(ObjError::MissingNormalData(x))
                    && x == v,
                Interleaving::ZeroIndex => false,
            },
    {
        let cs = self.corners();
        let ghost o = self@;
        let mut vertices: Vec<InterleavedVertex> = Vec::new();
        let mut indices: Vec<u32> = Vec::new();
        let mut seen: Vec<u32> = Vec::new();
        let mut k: usize = 0;
        assert(cs@.take(0) =~= Seq::<FaceIndex>::empty());
        assert(vertices_view(vertices@) =~= Seq::<VertexView>::empty());
        while k < cs.len()
            invariant
                0 <= k <= cs@.len(),
                cs@ == face_corners(o.face_lines),
                o == self@,
                !(interleave_corners(o, cs@) is ZeroIndex),
                interleave_corners(o, cs@.take(k as int)) == (Interleaving::Done {
                    vertices: vertices_view(vertices@),
                    indices: indices@,
                    seen: seen@,
                }),
            decreases cs@.len() - k,
        {
            let f = cs[k];
            let ghost before = interleave_corners(o, cs@.take(k as int));
            assert(cs@.take(k + 1).drop_last() =~= cs@.take(k as int));
            let ghost after = interleave_corners(o, cs@.take(k + 1));
            assert(after == corner_step(o, before, f));
            if f.v == 0 {
                proof {
                    lemma_interleave_stops(o, cs@, k + 1);
                }
                assert(false);
                return Err(ObjError::MissingVertexData(0));
            }
            let index = f.v - 1;
            if !contains_u32(&seen, index) {
                let vert = match self.get_vertex_by_index(f.v) {
                    Ok(p) => p,
                    Err(e) => {
                        proof {
                            lemma_interleave_stops(o, cs@, k + 1);
                        }
                        return Err(e);
                    },
                };
                if f.vt == Some(0u32) {
                    proof {
                        lemma_interleave_stops(o, cs@, k + 1);
                    }
                    assert(false);
                    return Err(ObjError::MissingTexcoordData(0));
                }
                let text = match self.get_vt_by_index(f.vt) {
                    Ok(t) => t,
                    Err(e) => {
                        proof {
                            lemma_interleave_stops(o, cs@, k + 1);
                        }
                        return Err(e);
                    },
                };
                if f.vn == Some(0u32) {
                    proof {
                        lemma_interleave_stops(o, cs@, k + 1);
                    }
                    assert(false);
                    return Err(ObjError::MissingNormalData(0));
                }
                let norm = match self.get_vn_by_index(f.vn) {
                    Ok(n) => n,
                    Err(e) => {
                        proof {
                            lemma_interleave_stops(o, cs@, k + 1);
                        }
                        return Err(e);
                    },
                };
                vertices.push(InterleavedVertex { position: vert, texcoord: text, normal: norm });
                seen.push(index);
            }
            indices.push(index);
            k = k + 1;
            assert(vertices_view(vertices@) =~= match after {
                Interleaving::Done { vertices, .. } => vertices,
                _ => Seq::empty(),
            });
        }
        assert(cs@.take(k as int) =~= cs@);
        Ok(Interleaved { vertices, indices })
    }
}

// ---------------------------------------------------------------------------
// Materials

/// The lines that reading `s` from `p` yields, up to the end of the text or
/// the first line that is none of the known lines.
pub open spec fn mtl_lines_from(s: Seq<char>, p: int) -> Seq<MtlLineView>
    decreases s.len() - p,
{
    if p < 0 || p >= s.len() {
        Seq::empty()
    } else {
        match spec_next_mtl_line(s, p) {
            Some(l) => {
                proof {
                    crate::lexer::lemma_scan(s, p, crate::lexer::CharClass::NotNewline);
                }
                seq![l] + mtl_lines_from(s, line_end(s, p))
            },
            None => Seq::empty(),
        }
    }
}

proof fn lemma_mtl_lines_step(s: Seq<char>, p: int)
    requires
        0 <= p < s.len(),
    ensures
        mtl_lines_from(s, p) == match spec_next_mtl_line(s, p) {
            Some(l) => seq![l] + mtl_lines_from(s, line_end(s, p)),
            None => Seq::empty(),
        },
{
}

/// The diffuse map and bump map that the lines `ls` name: the last of each.
pub open spec fn mtl_maps(ls: Seq<MtlLineView>) -> (Option<Seq<char>>, Option<Seq<char>>)
    decreases ls.len(),
{
    if ls.len() == 0 {
        (None, None)
    } else {
        let (d, b) = mtl_maps(ls.drop_last());
        match ls.last() {
            MtlLineView::DiffuseMap(m) => (Some(m), b),
            MtlLineView::BumpMap(m) => (d, Some(m)),
            _ => (d, b),
        }
    }
}

/// A specular map with its colour and exponent.
#[derive(Debug)]
pub struct SpecularMap {
    pub specular_map_path: String,
    pub specular_color: (Decimal, Decimal, Decimal),
    pub exponent: Decimal,
}

impl SpecularMap {
    /// A specular map from its path, colour and exponent.
    pub fn new(specular_map_path: String, specular_color: (Decimal, Decimal, Decimal), exponent: Decimal) -> (m: Self)
        ensures
            m.specular_map_path@ == specular_map_path@,
            m.specular_color@ == specular_color@,
            m.exponent@ == exponent@,
    {
        Self { specular_map_path, specular_color, exponent }
    }
}

/// Errors of loading a material.
#[derive(Debug)]
pub enum MtlError {
    UnableToLoad(std::io::Error),
    NotAllSpecularComponentsProvided {
        path: Option<String>,
        color: Option<(Decimal, Decimal, Decimal)>,
        exponent: Option<Decimal>,
    },
}

/// The texture maps of a material.
#[derive(Debug)]
pub struct Mtl {
    pub diffuse_map_filename: Option<String>,
    pub bump_map_path: Option<String>,
    pub specular_map: Option<SpecularMap>,
}

impl Mtl {
    /// The texture maps that an MTL text names: the last diffuse map and the
    /// last bump map. Specular maps are read but not kept, so the specular
    /// map is always absent. Lines are read until the end of the text or the
    /// first line that is none of the known lines.
    pub fn from_text(text: &str) -> (r: Result<Mtl, MtlError>)
        ensures
            r matches Ok(m) && (opt_string_view(m.diffuse_map_filename), opt_string_view(m.bump_map_path))
                == mtl_maps(mtl_lines_from(text@, 0)) && m.specular_map is None,
    {
        let mut parser = MtlParser::new(text);
        let mut diffuse_map_filename: Option<String> = None;
        let mut bump_map_path: Option<String> = None;
        let ghost mut read: Seq<MtlLineView> = Seq::empty();
        loop
            invariant_except_break
                mtl_lines_from(text@, 0) == read + mtl_lines_from(text@, parser.pos()),
            invariant
                parser.text() == text@,
                0 <= parser.pos() <= text@.len(),
                mtl_maps(read) == (opt_string_view(diffuse_map_filename), opt_string_view(bump_map_path)),
            ensures
                mtl_lines_from(text@, 0) == read,
                mtl_maps(read) == (opt_string_view(diffuse_map_filename), opt_string_view(bump_map_path)),
            decreases text@.len() - parser.pos(),
        {
            let ghost p = parser.pos();
            let next = parser.next();
            proof {
                if p < text@.len() {
                    lemma_mtl_lines_step(text@, p);
                }
            }
            match next {
                Some(line) => {
                    proof {
                        assert(read.push(line@).drop_last() =~= read);
                        assert(read + mtl_lines_from(text@, p) =~= read.push(line@) + mtl_lines_from(
                            text@,
                            parser.pos(),
                        ));
                        read = read.push(line@);
                    }
                    match line {
                        MtlLine::DiffuseMap(m) => {
                            diffuse_map_filename = Some(m);
                        },
                        MtlLine::BumpMap(m) => {
                            bump_map_path = Some(m);
                        },
                        _ => {},
                    }
                },
                None => {
                    proof {
                        assert(read + mtl_lines_from(text@, p) =~= read);
                    }
                    break;
                },
            }
        }
        Ok(Mtl { diffuse_map_filename, bump_map_path, specular_map: None })
    }
}

/// A `usemtl` line, a group line and a smoothing line leave the grouping as
/// it was: in particular they never set an object's material.
pub proof fn lemma_skipped_lines_keep_grouping(st: GroupState, x: Seq<char>)
    ensures
        group_step(st, ObjLineView::UseMtl(x)) == st,
        group_step(st, ObjLineView::GroupName(x)) == st,
        group_step(st, ObjLineView::SmoothShading(x)) == st,
{
}

/// Only a `mtllib` line names the current object's material, and then with
/// the library's name; an object name that starts a new object leaves it with
/// no material; every other line keeps the material, and keeps the objects
/// completed so far.
pub proof fn lemma_material_comes_from_mtllib(st: GroupState, l: ObjLineView)
    ensures
        ({
            let next = group_step(st, l);
            &&& l matches ObjLineView::MtlLib(n) ==> next.current.material == Some(n)
            &&& next.current.material != st.current.material ==> (l is MtlLib || (l is ObjectName
                && st.current.name is Some && next.current.material is None))
            &&& !(l is ObjectName) ==> next.objects == st.objects
        }),
{
}

/// Reading a `usemtl` line after any lines changes nothing that has been read.
pub proof fn lemma_usemtl_changes_nothing(ls: Seq<ObjLineView>, x: Seq<char>)
    ensures
        group_lines(ls.push(ObjLineView::UseMtl(x))) == group_lines(ls),
{
    assert(ls.push(ObjLineView::UseMtl(x)).drop_last() =~= ls);
}

/// Interleaving lists one index per face corner, the corner's vertex number
/// less one; it lists each vertex the first time a corner names it, with
/// that vertex's position, and never twice.
pub proof fn lemma_interleave_indices(o: ObjObjectView, cs: Seq<FaceIndex>)
    ensures
        interleave_corners(o, cs) matches Interleaving::Done { vertices, indices, seen } ==> {
            &&& indices.len() == cs.len()
            &&& forall|i: int| 0 <= i < cs.len() ==> #[trigger] indices[i] == cs[i].v - 1
            &&& vertices.len() == seen.len()
            &&& forall|k: int|
                0 <= k < seen.len() ==> vertex_lookup(o, (seen[k] + 1) as u32) == Some(
                    (#[trigger] vertices[k]).position,
                )
            &&& forall|k: int, m: int| 0 <= k < m < seen.len() ==> seen[k] != seen[m]
            &&& forall|k: int| 0 <= k < seen.len() ==> indices.contains(#[trigger] seen[k])
        },
    decreases cs.len(),
{
    if cs.len() > 0 {
        let prev = cs.drop_last();
        lemma_interleave_indices(o, prev);
        let f = cs.last();
        if let Interleaving::Done { vertices, indices, seen } = interleave_corners(o, prev) {
            if f.v != 0 {
                let index = (f.v - 1) as u32;
                if let Interleaving::Done { vertices: v2, indices: i2, seen: s2 } = interleave_corners(o, cs) {
                    assert(i2 == indices.push(index));
                    assert forall|i: int| 0 <= i < cs.len() implies #[trigger] i2[i] == cs[i].v - 1 by {
                        if i < prev.len() {
                            assert(cs[i] == prev[i]);
                        }
                    }
                    assert forall|k: int| 0 <= k < s2.len() implies i2.contains(#[trigger] s2[k]) by {
                        if k < seen.len() {
                            assert(s2[k] == seen[k]);
                            let w = choose|w: int| 0 <= w < indices.len() && indices[w] == seen[k];
                            assert(i2[w] == seen[k]);
                        } else {
                            assert(i2[i2.len() - 1] == s2[k]);
                        }
                    }
                    if !seen.contains(index) {
                        assert forall|k: int, m: int| 0 <= k < m < s2.len() implies s2[k] != s2[m] by {
                            if m == seen.len() {
                                assert(s2[m] == index);
                                assert(s2[k] == seen[k]);
                            }
                        }
                    }
                }
            }
        }
    }
}

/// The diffuse map read is that of the last `map_Kd` line, the bump map that
/// of the last `map_bump` line; no other line changes either.
pub proof fn lemma_mtl_maps_last(ls: Seq<MtlLineView>, l: MtlLineView)
    ensures
        l matches MtlLineView::DiffuseMap(m) ==> mtl_maps(ls.push(l)) == (Some(m), mtl_maps(ls).1),
        l matches MtlLineView::BumpMap(m) ==> mtl_maps(ls.push(l)) == (mtl_maps(ls).0, Some(m)),
        !(l is DiffuseMap) && !(l is BumpMap) ==> mtl_maps(ls.push(l)) == mtl_maps(ls),
{
    assert(ls.push(l).drop_last() =~= ls);
}

/// Each vertex-data line is appended to its own list of the current object,
/// and to no other; a comment is appended to the comments.
pub proof fn lemma_data_lines_go_to_their_list(st: GroupState, l: ObjLineView)
    ensures
        ({
            let next = group_step(st, l);
            let o = st.current;
            let n = next.current;
            &&& l is Vertex ==> n == ObjObjectView { vertices: o.vertices.push(l), ..o }
            &&& l is Normal ==> n == ObjObjectView { normals: o.normals.push(l), ..o }
            &&& l is TextureUVW ==> n == ObjObjectView { texture_coords: o.texture_coords.push(l), ..o }
            &&& l is VertexParam ==> n == ObjObjectView { vertex_params: o.vertex_params.push(l), ..o }
            &&& l is Face ==> n == ObjObjectView { face_lines: o.face_lines.push(l), ..o }
            &&& l matches ObjLineView::Comment(c) ==> next == GroupState {
                comments: st.comments.push(c),
                ..st
            }
        }),
{
}

} // verus!
