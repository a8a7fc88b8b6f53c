use gitflow::image::{
    build_image_data, format_name_for_extension, get_format_name, get_mime_type, has_image_extension,
    image_diff_result, is_image_file, mime_type_for_extension, parse_gif_dimensions,
    parse_image_dimensions, parse_jpeg_dimensions, parse_png_dimensions, parse_webp_dimensions,
    svg_size_texts,
};

fn png_header(w: u32, h: u32) -> Vec<u8> {
    let mut d = vec![0x89, b'P', b'N', b'G', 0x0d, 0x0a, 0x1a, 0x0a, 0, 0, 0, 13];
    d.extend_from_slice(b"IHDR");
    d.extend_from_slice(&w.to_be_bytes());
    d.extend_from_slice(&h.to_be_bytes());
    d
}

#[test]
fn image_files_are_recognised_by_extension() {
    assert!(is_image_file("assets/logo.PNG"));
    assert!(is_image_file("photo.jpeg"));
    assert!(is_image_file("scan.Tif"));
    assert!(!is_image_file("notes.txt"));
    assert!(!is_image_file("png"));
    assert!(has_image_extension("a.webp"));
    assert!(!has_image_extension("a.WEBP"));
}

#[test]
fn mime_types_follow_the_extension() {
    assert_eq!(get_mime_type("a/b/pic.JPG"), "image/jpeg");
    assert_eq!(get_mime_type("icon.svg"), "image/svg+xml");
    assert_eq!(get_mime_type("favicon.ico"), "image/x-icon");
    assert_eq!(get_mime_type("x.tif"), "image/tiff");
    assert_eq!(get_mime_type("README"), "application/octet-stream");
    assert_eq!(get_mime_type(".png"), "application/octet-stream");
    assert_eq!(get_mime_type("dir.png/"), "image/png");
    assert_eq!(mime_type_for_extension(&"webp".to_string()), "image/webp");
}

#[test]
fn format_names_follow_the_extension() {
    assert_eq!(get_format_name("a.png"), "PNG");
    assert_eq!(get_format_name("a.JPEG"), "JPEG");
    assert_eq!(get_format_name("a.webp"), "WebP");
    assert_eq!(get_format_name("archive.tar.gz"), "GZ");
    assert_eq!(get_format_name("noext"), "");
    assert_eq!(get_format_name("a/.."), "");
    assert_eq!(get_format_name("Makefile"), "");
    assert_eq!(get_format_name(".png"), "");
    assert_eq!(get_format_name("trailing."), "");
    assert_eq!(get_mime_type("trailing."), "application/octet-stream");
    assert_eq!(format_name_for_extension(&"bmp".to_string()), "BMP");
    assert_eq!(format_name_for_extension(&"heic".to_string()), "HEIC");
}

#[test]
fn png_dimensions_come_from_ihdr() {
    assert_eq!(parse_png_dimensions(&png_header(640, 480)), (640, 480));
    assert_eq!(parse_png_dimensions(&png_header(70000, 1)), (70000, 1));
    let mut bad = png_header(1, 1);
    bad[1] = b'X';
    assert_eq!(parse_png_dimensions(&bad), (0, 0));
    assert_eq!(parse_png_dimensions(&[0x89, b'P']), (0, 0));
}

#[test]
fn jpeg_dimensions_come_from_the_frame_header() {
    // SOI, an APP0 segment of length 4, then SOF0 with height 200, width 300.
    let data = vec![
        0xff, 0xd8, 0xff, 0xe0, 0x00, 0x04, 0x00, 0x00, 0xff, 0xc0, 0x00, 0x11, 0x08, 0x00, 0xc8,
        0x01, 0x2c, 0x03,
    ];
    assert_eq!(parse_jpeg_dimensions(&data), (300, 200));
    assert_eq!(parse_jpeg_dimensions(&[0xff, 0xd8, 0xff, 0xd9]), (0, 0));
    assert_eq!(parse_jpeg_dimensions(&[0x00, 0xd8, 0xff, 0xc0, 0, 0, 0, 0, 0, 0, 0, 0]), (0, 0));
}

#[test]
fn gif_dimensions_are_little_endian() {
    let mut d = b"GIF89a".to_vec();
    d.extend_from_slice(&[0x2c, 0x01, 0xc8, 0x00]);
    assert_eq!(parse_gif_dimensions(&d), (300, 200));
    let mut old = b"GIF87a".to_vec();
    old.extend_from_slice(&[1, 0, 2, 0]);
    assert_eq!(parse_gif_dimensions(&old), (1, 2));
    assert_eq!(parse_gif_dimensions(b"GIF90a\x01\x00\x02\x00"), (0, 0));
}

#[test]
fn webp_dimensions_for_lossy_and_lossless() {
    let mut lossy = b"RIFF\0\0\0\0WEBPVP8 ".to_vec();
    lossy.extend_from_slice(&[0; 7]);
    lossy.extend_from_slice(&[0x9d, 0x01, 0x2a]);
    lossy.extend_from_slice(&[0x80, 0x02, 0xe0, 0xc1]);
    assert_eq!(lossy.len(), 30);
    assert_eq!(parse_webp_dimensions(&lossy), (640, 480));

    let mut lossless = b"RIFF\0\0\0\0WEBPVP8L".to_vec();
    lossless.extend_from_slice(&[0; 5]);
    let bits: u32 = 99 | (49 << 14);
    lossless.extend_from_slice(&bits.to_le_bytes());
    lossless.extend_from_slice(&[0; 5]);
    assert_eq!(parse_webp_dimensions(&lossless), (100, 50));
    assert_eq!(parse_webp_dimensions(b"RIFF"), (0, 0));
}

#[test]
fn image_dimensions_by_format_name() {
    let png = png_header(3, 4);
    assert_eq!(parse_image_dimensions(&png, &"PNG".to_string()), (3, 4));
    assert_eq!(parse_image_dimensions(&png, &"SVG".to_string()), (0, 0));
    assert_eq!(parse_image_dimensions(&png, &"png".to_string()), (0, 0));
}

#[test]
fn svg_size_texts_read_the_svg_tag() {
    let svg = r#"<?xml version="1.0"?><svg xmlns="http://www.w3.org/2000/svg" width="120.5px" height="80">"#;
    assert_eq!(svg_size_texts(svg), (Some("120.5".to_string()), Some("80".to_string())));
    assert_eq!(svg_size_texts("<svg viewBox=\"0 0 1 1\">"), (None, None));
    assert_eq!(svg_size_texts("<html width=\"5\">"), (None, None));
    assert_eq!(svg_size_texts("<svg width=\"auto\" height=\"9"), (Some(String::new()), None));
}

#[test]
fn image_data_is_base64_with_metadata() {
    let png = png_header(16, 8);
    let d = build_image_data(&png, "pics/Icon.PNG", (0, 0));
    assert_eq!(d.mime_type, "image/png");
    assert_eq!(d.format, "PNG");
    assert_eq!((d.width, d.height), (16, 8));
    assert_eq!(d.size, 24);
    assert_eq!(d.data.len(), 32);

    let s = build_image_data(b"abc", "x.svg", (7, 9));
    assert_eq!(s.data, "YWJj");
    assert_eq!(s.format, "SVG");
    assert_eq!((s.width, s.height), (7, 9));

    let e = build_image_data(b"", "x.bmp", (7, 9));
    assert_eq!(e.data, "");
    assert_eq!((e.width, e.height), (0, 0));
}

#[test]
fn image_diff_result_marks_non_images() {
    let r = image_diff_result("a.txt".to_string(), None);
    assert!(!r.is_image);
    assert!(r.old_image.is_none() && r.new_image.is_none());
    let img = build_image_data(b"ab", "a.gif", (0, 0));
    let r2 = image_diff_result("a.gif".to_string(), Some((None, Some(img))));
    assert!(r2.is_image);
    assert!(r2.old_image.is_none());
    assert_eq!(r2.new_image.unwrap().data, "YWI=");
}
