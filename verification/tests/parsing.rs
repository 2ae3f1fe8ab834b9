use scop::parse::{parse_line, Face, Line};
use scop::GeometryError;

fn line_of(s: &str) -> Vec<u8> {
    s.as_bytes().to_vec()
}

#[test]
fn blank_line_is_ignored() {
    assert!(matches!(parse_line(&line_of("")), Ok(Line::Ignored)));
    assert!(matches!(parse_line(&line_of("   \t ")), Ok(Line::Ignored)));
}

#[test]
fn unknown_leading_token_is_ignored() {
    assert!(matches!(parse_line(&line_of("# a comment")), Ok(Line::Ignored)));
    assert!(matches!(parse_line(&line_of("usemtl stone")), Ok(Line::Ignored)));
    assert!(matches!(parse_line(&line_of("vp 1 2 3")), Ok(Line::Ignored)));
}

#[test]
fn position_line_keeps_fields() {
    match parse_line(&line_of("v 1.5 -2 0.25")) {
        Ok(Line::Position(p)) => {
            assert_eq!(p.x.text, b"1.5".to_vec());
            assert_eq!(p.y.text, b"-2".to_vec());
            assert_eq!(p.z.text, b"0.25".to_vec());
        },
        other => panic!("expected a position, got {:?}", other),
    }
}

#[test]
fn position_line_with_extra_blanks() {
    match parse_line(&line_of("v   0  \t 1   2  ")) {
        Ok(Line::Position(p)) => {
            assert_eq!(p.x.text, b"0".to_vec());
            assert_eq!(p.y.text, b"1".to_vec());
            assert_eq!(p.z.text, b"2".to_vec());
        },
        other => panic!("expected a position, got {:?}", other),
    }
}

#[test]
fn texcoord_and_normal_lines() {
    match parse_line(&line_of("vt 0.5 1")) {
        Ok(Line::TexCoord(t)) => {
            assert_eq!(t.u.text, b"0.5".to_vec());
            assert_eq!(t.v.text, b"1".to_vec());
        },
        other => panic!("expected a texture coordinate, got {:?}", other),
    }
    match parse_line(&line_of("vn 0 0 1")) {
        Ok(Line::Normal(n)) => {
            assert_eq!(n.x.text, b"0".to_vec());
            assert_eq!(n.y.text, b"0".to_vec());
            assert_eq!(n.z.text, b"1".to_vec());
        },
        other => panic!("expected a normal, got {:?}", other),
    }
}

#[test]
fn position_line_with_missing_field_fails() {
    assert_eq!(
        parse_line(&line_of("v 1 2")).unwrap_err(),
        GeometryError::MalformedNumber
    );
}

#[test]
fn position_line_with_bad_numeral_fails() {
    assert_eq!(
        parse_line(&line_of("v 1 two 3")).unwrap_err(),
        GeometryError::MalformedNumber
    );
    assert_eq!(
        parse_line(&line_of("v 1 2 3.4.5")).unwrap_err(),
        GeometryError::MalformedNumber
    );
}

#[test]
fn scientific_notation_is_accepted() {
    assert!(matches!(parse_line(&line_of("v 1e3 -2.5E-2 +.5")), Ok(Line::Position(_))));
    assert!(matches!(parse_line(&line_of("v 3. 0.0 -0")), Ok(Line::Position(_))));
}

#[test]
fn triangle_face_emits_lowered_indices_in_order() {
    match parse_line(&line_of("f 1 2 3")) {
        Ok(Line::FaceRef(f)) => assert_eq!(f, Face::Tri(0, 1, 2)),
        other => panic!("expected a face, got {:?}", other),
    }
    match parse_line(&line_of("f 7 9 8")) {
        Ok(Line::FaceRef(f)) => assert_eq!(f, Face::Tri(6, 8, 7)),
        other => panic!("expected a face, got {:?}", other),
    }
}

#[test]
fn quad_face_keeps_corner_order() {
    match parse_line(&line_of("f 1 2 3 4")) {
        Ok(Line::FaceRef(f)) => assert_eq!(f, Face::Quad(0, 1, 2, 3)),
        other => panic!("expected a face, got {:?}", other),
    }
}

#[test]
fn composite_corners_use_only_the_position_part() {
    match parse_line(&line_of("f 1/10/20 2/11/21 3/12/22")) {
        Ok(Line::FaceRef(f)) => assert_eq!(f, Face::Tri(0, 1, 2)),
        other => panic!("expected a face, got {:?}", other),
    }
    match parse_line(&line_of("f 5//1 6//1 7//1 8//1")) {
        Ok(Line::FaceRef(f)) => assert_eq!(f, Face::Quad(4, 5, 6, 7)),
        other => panic!("expected a face, got {:?}", other),
    }
}

#[test]
fn the_first_corner_decides_the_face_syntax() {
    // A bare first corner commits the face to bare indices, so a
    // slash-delimited corner later in the face is a malformed numeral.
    assert_eq!(
        parse_line(&line_of("f 1 2/3 4")).unwrap_err(),
        GeometryError::MalformedNumber
    );
    // A slash-delimited first corner reads every corner's position part.
    match parse_line(&line_of("f 1/5 2 3")) {
        Ok(Line::FaceRef(f)) => assert_eq!(f, Face::Tri(0, 1, 2)),
        other => panic!("expected a face, got {:?}", other),
    }
}

#[test]
fn face_with_two_corners_is_rejected() {
    assert_eq!(
        parse_line(&line_of("f 1 2")).unwrap_err(),
        GeometryError::MalformedFace
    );
}

#[test]
fn face_with_five_or_more_corners_is_rejected() {
    assert_eq!(
        parse_line(&line_of("f 1 2 3 4 5")).unwrap_err(),
        GeometryError::MalformedFace
    );
    assert_eq!(
        parse_line(&line_of("f 1 2 3 4 5 6 7")).unwrap_err(),
        GeometryError::MalformedFace
    );
}

#[test]
fn face_index_zero_is_out_of_range() {
    assert_eq!(
        parse_line(&line_of("f 0 1 2")).unwrap_err(),
        GeometryError::IndexOutOfRange
    );
}

#[test]
fn face_with_negative_or_garbled_index_is_malformed() {
    assert_eq!(
        parse_line(&line_of("f -1 2 3")).unwrap_err(),
        GeometryError::MalformedNumber
    );
    assert_eq!(
        parse_line(&line_of("f a 2 3")).unwrap_err(),
        GeometryError::MalformedNumber
    );
    assert_eq!(
        parse_line(&line_of("f /1 2 3")).unwrap_err(),
        GeometryError::MalformedNumber
    );
}

#[test]
fn face_index_beyond_the_index_type_is_malformed() {
    assert_eq!(
        parse_line(&line_of("f 4294967296 1 2")).unwrap_err(),
        GeometryError::MalformedNumber
    );
    match parse_line(&line_of("f 4294967295 1 2")) {
        Ok(Line::FaceRef(f)) => assert_eq!(f, Face::Tri(4294967294, 0, 1)),
        other => panic!("expected a face, got {:?}", other),
    }
}
