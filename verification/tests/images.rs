use geoproof::images::{data_uri_for_image, image_bytes_from_data, mime_for_path};

#[test]
fn mime_follows_the_extension() {
    assert_eq!(mime_for_path("a.png"), "image/png");
    assert_eq!(mime_for_path("a.jpg"), "image/jpeg");
    assert_eq!(mime_for_path("a.jpeg"), "image/jpeg");
    assert_eq!(mime_for_path("a.gif"), "image/gif");
    assert_eq!(mime_for_path("a.svg"), "image/svg+xml");
    assert_eq!(mime_for_path("a.bmp"), "image/png");
    assert_eq!(mime_for_path(""), "image/png");
}

#[test]
fn data_uri_encodes_the_bytes() {
    let bytes = vec![1u8, 2, 3];
    assert_eq!(data_uri_for_image("x.png", &bytes), "data:image/png;base64,AQID");
    let empty: Vec<u8> = vec![];
    assert_eq!(data_uri_for_image("x.gif", &empty), "data:image/gif;base64,");
}

#[test]
fn image_bytes_strip_the_header() {
    let r = image_bytes_from_data("data:image/png;base64,AQID").expect("decodes");
    assert_eq!(r, vec![1u8, 2, 3]);
}

#[test]
fn image_bytes_without_header_decode_too() {
    let r = image_bytes_from_data("AQID").expect("decodes");
    assert_eq!(r, vec![1u8, 2, 3]);
}

#[test]
fn bad_base64_reports_a_decode_error() {
    let e = image_bytes_from_data("data:image/png;base64,!!!").expect_err("must fail");
    assert!(e.starts_with("Failed to decode base64: "));
}

#[test]
fn data_uri_round_trips_through_decode() {
    let bytes = vec![0u8, 255, 16, 32, 7];
    let uri = data_uri_for_image("p.jpeg", &bytes);
    assert!(uri.starts_with("data:image/jpeg;base64,"));
    let back = image_bytes_from_data(&uri).expect("decodes");
    assert_eq!(back, bytes);
}
