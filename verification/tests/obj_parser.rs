use nshell::common::{float, ParseError};
use nshell::lexer::Decimal;
use nshell::obj::{
    face_index, face_line, face_pair, face_triple, mtllib_line, normal_line, object_line, parse_obj_line, s_line,
    spaced_face_item, texcoord_line, usemtl_line, vertex_line, vertex_param_line, FaceIndex,
    ObjLine, ObjParser,
};

fn f(d: &Decimal) -> f32 {
    d.to_scientific().parse::<f32>().unwrap()
}

fn dec(text: &str) -> Decimal {
    float(text).unwrap().1
}

fn xyz(line: &ObjLine) -> (f32, f32, f32) {
    match line {
        ObjLine::Normal(x, y, z) | ObjLine::VertexParam(x, y, z) => (f(x), f(y), f(z)),
        _ => panic!("not a triple line: {:?}", line),
    }
}

#[test]
fn obj_test_face_index() {
    assert_eq!(
        face_index("1/2/3"),
        Ok((String::new(), FaceIndex::new(1, Some(2), Some(3))))
    );
    assert_eq!(
        face_index("4/5"),
        Ok((String::new(), FaceIndex::new(4, Some(5), None)))
    );
    assert_eq!(
        face_index("6"),
        Ok((String::new(), FaceIndex::new(6, None, None)))
    );
}

#[test]
fn test_face_triple() {
    assert_eq!(
        face_triple("1/2/3"),
        Ok((String::new(), FaceIndex::new(1, Some(2), Some(3))))
    );
    assert_eq!(face_triple("4/5"), Err(ParseError::Error));
    assert_eq!(face_triple("6"), Err(ParseError::Error));
}

#[test]
fn face_pair_needs_a_slash() {
    assert_eq!(
        face_pair("1/2"),
        Ok((String::new(), FaceIndex::new(1, Some(2), None)))
    );
    assert_eq!(
        face_pair("7/ x"),
        Ok((" x".to_string(), FaceIndex::new(7, None, None)))
    );
    assert_eq!(face_pair("3"), Err(ParseError::Error));
}

#[test]
fn obj_test_face_pair() {
    assert_eq!(
        spaced_face_item("1/2"),
        Ok((String::new(), FaceIndex::new(1, Some(2), None)))
    );
    assert_eq!(
        spaced_face_item("3"),
        Ok((String::new(), FaceIndex::new(3, None, None)))
    );
}

#[test]
fn obj_can_parse_any_line() {
    let result = parse_obj_line("f 1/11/4 1/3/4 1/11/4  #this is an important face \n");
    let (_, line) = result.unwrap();
    assert_eq!(
        line,
        ObjLine::Face(
            FaceIndex::new(1, Some(11), Some(4)),
            FaceIndex::new(1, Some(3), Some(4)),
            FaceIndex::new(1, Some(11), Some(4))
        )
    );
}

#[test]
fn obj_can_ignore_comment_at_eol() {
    let ff = face_line("f 1/11/4 1/3/4 1/11/4  #this is an important face \n");
    let (_, b) = ff.unwrap();
    assert_eq!(
        b,
        ObjLine::Face(
            FaceIndex::new(1, Some(11), Some(4)),
            FaceIndex::new(1, Some(3), Some(4)),
            FaceIndex::new(1, Some(11), Some(4))
        )
    );
}

#[test]
fn obj_can_parse_face_line_1() {
    let ff = face_line("f 1/11/4 1/3/4 1/11/4  \n");
    let (_, b) = ff.unwrap();
    assert_eq!(
        b,
        ObjLine::Face(
            FaceIndex::new(1, Some(11), Some(4)),
            FaceIndex::new(1, Some(3), Some(4)),
            FaceIndex::new(1, Some(11), Some(4))
        )
    );
}

#[test]
fn obj_can_parse_face_line_2() {
    let ff = face_line("f 1/3 2/62 4/3\n");
    let (_, b) = ff.unwrap();
    assert_eq!(
        b,
        ObjLine::Face(
            FaceIndex::new(1, Some(3), None),
            FaceIndex::new(2, Some(62), None),
            FaceIndex::new(4, Some(3), None),
        )
    );
}

#[test]
fn obj_can_parse_face_line_3() {
    let ff = face_line("f 1//4 1//4 1//11  \n");
    let (_, b) = ff.unwrap();
    assert_eq!(
        b,
        ObjLine::Face(
            FaceIndex::new(1, None, Some(4)),
            FaceIndex::new(1, None, Some(4)),
            FaceIndex::new(1, None, Some(11))
        )
    );
}

#[test]
fn obj_can_parse_face_line_4() {
    let ff = face_line("f 42 1 11  \n");
    let (_, b) = ff.unwrap();
    assert_eq!(
        b,
        ObjLine::Face(
            FaceIndex::new(42, None, None),
            FaceIndex::new(1, None, None),
            FaceIndex::new(11, None, None)
        )
    );
}

#[test]
fn obj_can_parse_face_line_5() {
    let ff = face_line("f 42/ 1/ 11/  \n");
    let (_, b) = ff.unwrap();
    assert_eq!(
        b,
        ObjLine::Face(
            FaceIndex::new(42, None, None),
            FaceIndex::new(1, None, None),
            FaceIndex::new(11, None, None)
        )
    );
}

#[test]
fn obj_can_parse_face_line_6() {
    let ff = face_line("f 42// 1// 11// \t \n");
    let (_, b) = ff.unwrap();
    assert_eq!(
        b,
        ObjLine::Face(
            FaceIndex::new(42, None, None),
            FaceIndex::new(1, None, None),
            FaceIndex::new(11, None, None)
        )
    );
}

#[test]
fn obj_can_parse_texcoord_line() {
    let vline = "vt -1.000000 -1.000000 \r\n";
    let v = texcoord_line(vline);
    let (_a, b) = v.unwrap();
    match b {
        ObjLine::TextureUVW(u, v, w) => {
            assert_eq!((f(&u), f(&v)), (-1.0, -1.0));
            assert!(w.is_none());
        }
        other => panic!("unexpected line {:?}", other),
    }
}

#[test]
fn obj_can_parse_normal_line() {
    let vline = "vn -1.000000 -1.000000 1.000000  \r\n";
    let v = normal_line(vline);
    let (_, b) = v.unwrap();
    assert!(matches!(b, ObjLine::Normal(..)));
    assert_eq!(xyz(&b), (-1.0, -1.0, 1.0));
}

#[test]
fn obj_can_parse_vertex_parameter_line() {
    let vline = "vp -1.000000 -1.000000 1.000000 \r\n";
    let v = vertex_param_line(vline);
    let (_, b) = v.unwrap();
    assert!(matches!(b, ObjLine::VertexParam(..)));
    assert_eq!(xyz(&b), (-1.0, -1.0, 1.0));
}

#[test]
#[should_panic]
fn invalid_vertex_line_fails() {
    let vline = "vZZ -1.000000 -1.000000 1.000000 \r\n";
    let v = vertex_line(vline);
    let (_, b) = v.unwrap();
    assert!(matches!(b, ObjLine::Vertex(..)));
}

#[test]
fn obj_can_parse_vertex_line_with_optional_w_value() {
    let vline = "v -1.000000 -1.000000 1.000000 42.000\r\n";
    let v = vertex_line(vline);
    let (_, b) = v.unwrap();
    match b {
        ObjLine::Vertex(x, y, z, Some(w)) => {
            assert_eq!((f(&x), f(&y), f(&z), f(&w)), (-1.0, -1.0, 1.0, 42.0))
        }
        other => panic!("unexpected line {:?}", other),
    }
}

#[test]
fn obj_can_parse_vertex_line() {
    let vline = "v -1.000000 -1.000000 1.000000 \r\n";
    let v = vertex_line(vline);
    let (_, b) = v.unwrap();
    match b {
        ObjLine::Vertex(x, y, z, None) => assert_eq!((f(&x), f(&y), f(&z)), (-1.0, -1.0, 1.0)),
        other => panic!("unexpected line {:?}", other),
    }
}

#[test]
fn obj_can_parse_object_line() {
    let cmt = object_line("o someobject.999asdf.7 \n");
    let (_, b) = cmt.unwrap();
    assert_eq!(b, ObjLine::ObjectName("someobject.999asdf.7".to_string()));
}

#[test]
fn obj_can_parse_mtllib_line() {
    let cmt = mtllib_line("mtllib somelib \n");
    let (_, b) = cmt.unwrap();
    assert_eq!(b, ObjLine::MtlLib("somelib".to_string()));
}

#[test]
fn obj_can_parse_usemtl_line() {
    let cmt = usemtl_line("usemtl SomeMaterial\n");
    let (_, b) = cmt.unwrap();
    assert_eq!(b, ObjLine::UseMtl("SomeMaterial".to_string()));
}

#[test]
fn obj_can_parse_s_line() {
    let cmt = s_line("s off\n");
    let (_, b) = cmt.unwrap();
    assert_eq!(b, ObjLine::SmoothShading("off".to_string()));
}

#[test]
fn test_obj_line_display() {
    let cases = vec![
        (
            ObjLine::Comment("This is a comment".to_string()),
            "# This is a comment",
        ),
        (ObjLine::ObjectName("Cube".to_string()), "o Cube"),
        (ObjLine::GroupName("Group1".to_string()), "g Group1"),
        (
            ObjLine::MtlLib("material.mtl".to_string()),
            "mtllib material.mtl",
        ),
        (ObjLine::UseMtl("Material".to_string()), "usemtl Material"),
        (ObjLine::SmoothShading("1".to_string()), "s 1"),
        (
            ObjLine::Vertex(dec("1.0"), dec("2.0"), dec("3.0"), Some(dec("1.0"))),
            "v 1 2 3 1",
        ),
        (
            ObjLine::VertexParam(dec("0.0"), dec("0.5"), dec("1.0")),
            "vp 0 0.5 1",
        ),
        (ObjLine::Normal(dec("1.0"), dec("0.0"), dec("0.0")), "vn 1 0 0"),
        (
            ObjLine::Face(
                FaceIndex::new(1, Some(2), Some(3)),
                FaceIndex::new(4, Some(5), Some(6)),
                FaceIndex::new(7, Some(8), Some(9)),
            ),
            "f 1/2/3 4/5/6 7/8/9",
        ),
        (
            ObjLine::TextureUVW(dec("0.0"), dec("1.0"), Some(dec("0.5"))),
            "vt 0 1 0.5",
        ),
    ];

    for (obj_line, expected_output) in cases {
        assert_eq!(obj_line.to_text(), expected_output);
    }
}

const CUBE_OBJ_TEXT: &str = "# Blender 3.4.1
mtllib cube.mtl
o Cube
v 1 -1 -1
v 1 1 -1
v 1 -1 1
v 1 1 1
v -1 -1 -1
v -1 1 -1
v -1 -1 1
v -1 1 1
vn 1 -0 -0
vn -0 -0 1
vn -1 -0 -0
vn -0 -0 -1
vn -0 -1 -0
vn -0 1 -0
vt 0.375 0
vt 0.375 1
vt 0.125 0.75
vt 0.625 0
vt 0.625 1
vt 0.875 0.75
vt 0.125 0.5
vt 0.375 0.25
vt 0.625 0.25
vt 0.875 0.5
vt 0.375 0.75
vt 0.625 0.75
vt 0.375 0.5
vt 0.625 0.5
s 0
usemtl Material.001
f 2/4/1 3/8/1 1/1/1
f 4/9/2 7/13/2 3/8/2
f 8/14/3 5/11/3 7/13/3
f 6/12/4 1/2/4 5/11/4
f 7/13/5 1/3/5 3/7/5
f 4/10/6 6/12/6 8/14/6
f 2/4/1 4/9/1 3/8/1
f 4/9/2 8/14/2 7/13/2
f 8/14/3 6/12/3 5/11/3
f 6/12/4 2/5/4 1/2/4
f 7/13/5 5/11/5 1/3/5
f 4/10/6 2/6/6 6/12/6
";

#[test]
fn obj_parse_roundtrip() {
    let mut obj = ObjParser::new(CUBE_OBJ_TEXT);
    for line in CUBE_OBJ_TEXT.lines() {
        if let Some(obj_line) = obj.next() {
            let obj_text_line = obj_line.to_text();
            assert_eq!(obj_text_line.trim(), line.trim());
        }
    }
}

#[test]
fn parser_reads_every_cube_line() {
    let mut obj = ObjParser::new(CUBE_OBJ_TEXT);
    let mut count = 0;
    while obj.next().is_some() {
        count += 1;
    }
    assert_eq!(count, CUBE_OBJ_TEXT.lines().count());
    assert!(obj.next().is_none());
}

#[test]
fn parser_stops_at_an_unknown_line() {
    let mut obj = ObjParser::new("o A\n\nv 1 2 3\n");
    assert_eq!(obj.next(), Some(ObjLine::ObjectName("A".to_string())));
    assert_eq!(obj.next(), None);
}

#[test]
fn face_line_rejects_missing_space() {
    assert!(face_line("f1 2 3\n").is_err());
}

#[test]
fn exponent_without_digits_fails_for_good() {
    assert_eq!(
        vertex_line("v 1e 2 3\n"),
        Err(nshell::common::ParseError::Failure)
    );
}

#[test]
fn text_line_value_is_trimmed() {
    assert_eq!(
        parse_obj_line("#   spaced out \t\n"),
        Ok((String::new(), ObjLine::Comment("spaced out".to_string())))
    );
}

#[test]
fn face_to_text_omits_absent_indices() {
    assert_eq!(FaceIndex::new(4, None, Some(2)).to_text(), "4/2");
    assert_eq!(FaceIndex::new(4, Some(3), None).to_text(), "4/3/");
    assert_eq!(FaceIndex::new(4, None, None).to_text(), "4/");
}

#[test]
fn printed_lines_read_back() {
    let lines = vec![
        ObjLine::Comment("made by hand".to_string()),
        ObjLine::ObjectName("Thing".to_string()),
        ObjLine::Vertex(dec("-0.5"), dec("1e2"), dec("0.000"), None),
        ObjLine::Vertex(dec("1"), dec("2"), dec("3"), Some(dec("4"))),
        ObjLine::TextureUVW(dec("0.25"), dec("-0"), None),
        ObjLine::Normal(dec("0"), dec("1.50"), dec("-2.25e-1")),
        ObjLine::Face(
            FaceIndex::new(1, Some(2), Some(3)),
            FaceIndex::new(4, Some(5), None),
            FaceIndex::new(6, None, None),
        ),
    ];
    let text: String = lines.iter().map(|l| l.to_text() + "\n").collect();
    let mut p = ObjParser::new(&text);
    for l in &lines {
        let back = p.next().unwrap();
        assert_eq!(back.to_text(), l.to_text());
    }
    assert!(p.next().is_none());
    assert_eq!(
        lines[2].to_text(),
        "v -0.5 100 0"
    );
}
