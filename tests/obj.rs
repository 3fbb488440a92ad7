use crucible::obj::{parse_face, parse_index, Face};

#[test]
fn indices_parse_like_usize() {
    assert_eq!(parse_index("12"), Some(12));
    assert_eq!(parse_index("+7"), Some(7));
    assert_eq!(parse_index("007"), Some(7));
    assert_eq!(parse_index("18446744073709551615"), Some(18446744073709551615));
    assert_eq!(parse_index("18446744073709551616"), None);
    assert_eq!(parse_index(""), None);
    assert_eq!(parse_index("+"), None);
    assert_eq!(parse_index("-1"), None);
    assert_eq!(parse_index("1/2/3"), None);
    assert_eq!(parse_index("\u{663}"), None);
}

#[test]
fn face_line_parses() {
    let f = parse_face(vec!["3", "1", "+2"]);
    assert_eq!(f, Face::new(3, 1, 2));
    assert_eq!(f.a_index, 3);
    assert_eq!(f.b_index, 1);
    assert_eq!(f.c_index, 2);
}

#[test]
fn face_slots_are_zero_based() {
    let f = Face::new(1, 3, 2);
    assert_eq!(f.vertex_slots(3), Some((0, 2, 1)));
    assert_eq!(f.vertex_slots(2), None);
    assert_eq!(Face::new(0, 1, 1).vertex_slots(5), None);
}
