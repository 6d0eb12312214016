use rusty_raytracing::color::{encode_ppm, ppm_header, write_color, write_decimal};

#[test]
fn header_of_wide_image() {
    assert_eq!(ppm_header(400, 225), b"P3\n400 225\n255\n".to_vec());
}

#[test]
fn header_of_single_pixel() {
    assert_eq!(ppm_header(1, 1), b"P3\n1 1\n255\n".to_vec());
}

#[test]
fn decimal_digits() {
    for (n, text) in [(0u32, "0"), (7, "7"), (10, "10"), (255, "255"), (1000, "1000"), (u32::MAX, "4294967295")] {
        let mut out = b"x".to_vec();
        write_decimal(&mut out, n);
        assert_eq!(out, format!("x{}", text).into_bytes());
    }
}

#[test]
fn pixel_line() {
    let mut out = Vec::new();
    write_color(&mut out, (0, 128, 255));
    assert_eq!(out, b"0 128 255\n".to_vec());
    write_color(&mut out, (9, 10, 99));
    assert_eq!(out, b"0 128 255\n9 10 99\n".to_vec());
}

#[test]
fn whole_raster_in_row_order() {
    let pixels = vec![(255, 0, 0), (0, 255, 0), (0, 0, 255), (1, 2, 3), (4, 5, 6), (7, 8, 9)];
    let text = encode_ppm(3, 2, &pixels).unwrap();
    assert_eq!(
        String::from_utf8(text).unwrap(),
        "P3\n3 2\n255\n255 0 0\n0 255 0\n0 0 255\n1 2 3\n4 5 6\n7 8 9\n"
    );
}

#[test]
fn raster_with_wrong_pixel_count() {
    let pixels = vec![(0, 0, 0); 5];
    assert_eq!(encode_ppm(3, 2, &pixels), None);
    assert_eq!(encode_ppm(0, 0, &Vec::new()), Some(b"P3\n0 0\n255\n".to_vec()));
}
