use nshell::lexer::Decimal;
use nshell::mtl::{
    ambient_map_line, diffuse_map_line, illum_line, ka_ambient_line, kd_diffuse_line,
    ks_specular_line, newmtl_line, parse_mtl_line, specular_exponent_line, specular_map_line,
    transparency_line_d, transparency_line_tr, MtlLine, MtlParser,
};

fn f(d: &Decimal) -> f32 {
    d.to_scientific().parse::<f32>().unwrap()
}

fn scalar(l: &MtlLine) -> f32 {
    match l {
        MtlLine::TransparencyD(x)
        | MtlLine::TransparencyTr(x)
        | MtlLine::SpecularExponent(x)
        | MtlLine::OpticalDensity(x) => f(x),
        other => panic!("not a number line: {:?}", other),
    }
}

fn color(l: &MtlLine) -> (f32, f32, f32) {
    match l {
        MtlLine::AmbientColor(r, g, b)
        | MtlLine::DiffuseColor(r, g, b)
        | MtlLine::SpecularColor(r, g, b)
        | MtlLine::KeColor(r, g, b)
        | MtlLine::TransmissionFilter(r, g, b) => (f(r), f(g), f(b)),
        other => panic!("not a colour line: {:?}", other),
    }
}

#[test]
fn can_parse_newmtl_line() {
    let (_, b) = newmtl_line("newmtl material/name\n").unwrap();
    assert_eq!(b, MtlLine::NewMtl("material/name".to_string()));
}

#[test]
fn can_parse_ambient_map_line() {
    let (_, b) = ambient_map_line("map_Ka sometexture.png\n").unwrap();
    assert_eq!(b, MtlLine::AmbientMap("sometexture.png".to_string()));
}

#[test]
fn can_parse_diffuse_map_line() {
    let (_, b) = diffuse_map_line("map_Kd sometexture.png\n").unwrap();
    assert_eq!(b, MtlLine::DiffuseMap("sometexture.png".to_string()));
}

#[test]
fn can_parse_specular_map_line() {
    let (_, b) = specular_map_line("map_Ks sometexture.png\n").unwrap();
    assert_eq!(b, MtlLine::SpecularMap("sometexture.png".to_string()));
}

#[test]
fn can_parse_transparency_d_line() {
    let (_, b) = transparency_line_d("d 0.5\n").unwrap();
    assert!(matches!(b, MtlLine::TransparencyD(_)));
    assert_eq!(scalar(&b), 0.5);
}

#[test]
fn can_parse_transparency_tr_line() {
    let (_, b) = transparency_line_tr("Tr 0.5\n").unwrap();
    assert!(matches!(b, MtlLine::TransparencyTr(_)));
    assert_eq!(scalar(&b), 0.5);
}

#[test]
fn can_parse_illumination_model_line() {
    let (_, b) = illum_line("illum 2\n").unwrap();
    assert_eq!(b, MtlLine::IlluminationModel(2));
}

#[test]
fn can_parse_specular_exponent_line() {
    let (_, b) = specular_exponent_line("Ns 2\n").unwrap();
    assert!(matches!(b, MtlLine::SpecularExponent(_)));
    assert_eq!(scalar(&b), 2.0);
}

#[test]
fn can_parse_ka_ambient_line() {
    let vline = "Ka 1.000 1.000 1.000  \r\n";
    let v = ka_ambient_line(vline);
    let (_, b) = v.unwrap();
    assert!(matches!(b, MtlLine::AmbientColor(..)));
    assert_eq!(color(&b), (1.0, 1.0, 1.0));
}

#[test]
fn can_parse_ka_diffuse_line() {
    let vline = "Kd 1.000 1.000 1.000  \r\n";
    let v = kd_diffuse_line(vline);
    let (_, b) = v.unwrap();
    assert!(matches!(b, MtlLine::DiffuseColor(..)));
    assert_eq!(color(&b), (1.0, 1.0, 1.0));
}

#[test]
fn can_parse_ka_specular_line() {
    let vline = "Ks 1.000 1.000 1.000  \r\n";
    let v = ks_specular_line(vline);
    let (_, b) = v.unwrap();
    assert!(matches!(b, MtlLine::SpecularColor(..)));
    assert_eq!(color(&b), (1.0, 1.0, 1.0));
}

#[test]
fn any_mtl_line_tries_rules_in_order() {
    assert_eq!(
        parse_mtl_line("# just a note \n").unwrap().1,
        MtlLine::Comment("just a note".to_string())
    );
    assert_eq!(parse_mtl_line("\n").unwrap().1, MtlLine::Blank);
    assert_eq!(parse_mtl_line("sharpness 60\n").unwrap().1, MtlLine::Sharpness(60));
    assert!(parse_mtl_line("Tf 1 1 1\n").is_err());
}

#[test]
fn number_line_takes_a_trailing_comment() {
    let (_, b) = parse_mtl_line("Ni 1.45 # glass\n").unwrap();
    assert!(matches!(b, MtlLine::OpticalDensity(_)));
    assert_eq!(scalar(&b), 1.45);
}

#[test]
fn mtl_parser_reads_lines_in_order() {
    let mut p = MtlParser::new("newmtl a\nillum 2\n");
    assert_eq!(p.next(), Some(MtlLine::NewMtl("a".to_string())));
    assert_eq!(p.next(), Some(MtlLine::IlluminationModel(2)));
    assert_eq!(p.next(), None);
}
