use nshell::common::{
    comment, end_of_line_maybe_comment, float, float_pair, float_triple, unsigned_float,
    ParseError,
};
use nshell::lexer::Decimal;

fn f(d: &Decimal) -> f32 {
    d.to_scientific().parse::<f32>().unwrap()
}

fn rest_and_value(r: Result<(String, Decimal), ParseError>) -> (String, f32) {
    let (rest, d) = r.unwrap();
    (rest, f(&d))
}

#[test]
fn test_unsigned_float() {
    assert_eq!(rest_and_value(unsigned_float("3.14")), (String::new(), 3.14));
    assert_eq!(rest_and_value(unsigned_float(".5")), (String::new(), 0.5));
    assert_eq!(rest_and_value(unsigned_float("123")), (String::new(), 123.0));
    assert_eq!(rest_and_value(unsigned_float("0")), (String::new(), 0.0));
    assert_eq!(rest_and_value(unsigned_float("10.")), (String::new(), 10.0));
    assert_eq!(rest_and_value(unsigned_float("2.5e-2")), (String::new(), 0.025));
    assert_eq!(rest_and_value(unsigned_float("1.e3")), (String::new(), 1000.0));
    assert!(unsigned_float("abc").is_err());
}

#[test]
fn test_float() {
    assert_eq!(rest_and_value(float("3.14")), (String::new(), 3.14));
    assert_eq!(rest_and_value(float("+3.14")), (String::new(), 3.14));
    assert_eq!(rest_and_value(float("-3.14")), (String::new(), -3.14));
    assert_eq!(rest_and_value(float("+123")), (String::new(), 123.0));
    assert_eq!(rest_and_value(float("-.5")), (String::new(), -0.5));
    assert_eq!(rest_and_value(float("-10.")), (String::new(), -10.0));
    assert_eq!(rest_and_value(float("-2.5e-2")), (String::new(), -0.025));
    assert_eq!(rest_and_value(float("+1.e3")), (String::new(), 1000.0));
    assert!(float("abc").is_err());
}

#[test]
fn common_can_parse_float_pair() {
    let (rest, (a, b)) = float_pair("     -1.000001 7742.9 ").unwrap();
    assert_eq!((rest, (f(&a), f(&b))), (String::new(), (-1.000001, 7742.9)));
}

#[test]
fn common_can_parse_float_triple() {
    let (rest, (a, b, c)) = float_triple("    0.95  -1.000001 42.9 ").unwrap();
    assert_eq!(
        (rest, (f(&a), f(&b), f(&c))),
        (String::new(), (0.95, -1.000001, 42.9))
    );
}

#[test]
fn common_can_parse_comments() {
    let cmt = comment("# a comment exists here \n");
    assert_eq!(
        cmt,
        Ok((String::new(), " a comment exists here ".to_string()))
    );
}

#[test]
fn common_can_parse_comments_2() {
    let cmt = comment("# Blender v2.78 (sub 0) OBJ File: 'untitled.blend'\n");
    assert_eq!(
        cmt,
        Ok((
            String::new(),
            " Blender v2.78 (sub 0) OBJ File: 'untitled.blend'".to_string()
        ))
    );
}

#[test]
fn test_end_of_line_maybe_comment_eof() {
    assert_eq!(end_of_line_maybe_comment(""), Ok((String::new(), ())));
}

#[test]
fn test_end_of_line_maybe_comment_eol() {
    assert_eq!(end_of_line_maybe_comment("\n"), Ok((String::new(), ())));
}

#[test]
fn test_end_of_line_maybe_comment_comment() {
    assert_eq!(
        end_of_line_maybe_comment("# This is a comment\n"),
        Ok((String::new(), ()))
    );
}

#[test]
fn test_end_of_line_maybe_comment_comment_no_newline() {
    // still an error, becase there's no newline
    assert_eq!(
        end_of_line_maybe_comment("# This is a comment"),
        Err(ParseError::Error)
    );
}

#[test]
fn test_end_of_line_maybe_comment_comment_newline() {
    assert_eq!(
        end_of_line_maybe_comment("# This is a comment\n"),
        Ok((String::new(), ()))
    );
}

#[test]
fn test_end_of_line_maybe_comment_text() {
    assert_eq!(
        end_of_line_maybe_comment("This is not a comment"),
        Err(ParseError::Error)
    );
}

#[test]
fn float_keeps_what_follows() {
    let (rest, d) = float("-0.25x").unwrap();
    assert_eq!(rest, "x");
    assert_eq!(d.to_text(), "-0.25");
}

#[test]
fn doubled_sign_flips_twice() {
    assert_eq!(rest_and_value(float("--5")), (String::new(), 5.0));
}

#[test]
fn crlf_line_ending_is_read() {
    assert_eq!(
        end_of_line_maybe_comment("\r\nnext"),
        Ok(("next".to_string(), ()))
    );
}

#[test]
fn decimal_text_is_plain() {
    assert_eq!(float("1.50e2").unwrap().1.to_text(), "150");
    assert_eq!(float("0.0025").unwrap().1.to_text(), "0.0025");
    assert_eq!(float("-0").unwrap().1.to_text(), "-0");
    assert_eq!(float("120.00").unwrap().1.to_text(), "120");
}
