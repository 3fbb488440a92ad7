use crucible::ppm::{digit_count, ppm_bytes, push_decimal, zero_padded_number};

#[test]
fn decimal_digits_of_numbers() {
    let mut out = Vec::new();
    push_decimal(&mut out, 0);
    out.push(b' ');
    push_decimal(&mut out, 255);
    out.push(b' ');
    push_decimal(&mut out, 18446744073709551615);
    assert_eq!(out, b"0 255 18446744073709551615".to_vec());
}

#[test]
fn digit_counts() {
    assert_eq!(digit_count(0), 1);
    assert_eq!(digit_count(9), 1);
    assert_eq!(digit_count(10), 2);
    assert_eq!(digit_count(120), 3);
}

#[test]
fn frame_numbers_are_zero_padded() {
    assert_eq!(zero_padded_number(7, 3), b"007".to_vec());
    assert_eq!(zero_padded_number(42, 2), b"42".to_vec());
    assert_eq!(zero_padded_number(1234, 2), b"1234".to_vec());
    assert_eq!(zero_padded_number(0, 0), b"0".to_vec());
    let frames = 120u64;
    let width = digit_count(frames);
    assert_eq!(zero_padded_number(5, width), b"005".to_vec());
}

#[test]
fn ppm_header_of_wide_image() {
    let pixels = vec![(0u8, 0u8, 0u8); 400 * 225];
    let bytes = ppm_bytes(400, 225, &pixels);
    let text = String::from_utf8(bytes).unwrap();
    assert!(text.starts_with("P3\n400 225\n255\n"));
    let lines: Vec<&str> = text.lines().collect();
    assert_eq!(lines[0], "P3");
    assert_eq!(lines[1], "400 225");
    assert_eq!(lines[2], "255");
    assert_eq!(lines.len() - 3, 400 * 225);
}

#[test]
fn ppm_pixels_in_order() {
    let pixels = vec![(134u8, 157u8, 186u8), (0, 9, 255)];
    let bytes = ppm_bytes(2, 1, &pixels);
    assert_eq!(bytes, b"P3\n2 1\n255\n134 157 186\n0 9 255\n".to_vec());
}

#[test]
fn ppm_of_empty_image() {
    let bytes = ppm_bytes(0, 5, &Vec::new());
    assert_eq!(bytes, b"P3\n0 5\n255\n".to_vec());
}
