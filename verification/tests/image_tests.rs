use rab::tui::image::{
    bytes_to_data_url, extract_mime_from_data_url, is_data_url, is_image_extension,
    is_image_path, kitty_image_sequence, kitty_place_image, mime_type,
};

#[test]
fn test_is_image_extension() {
    assert!(is_image_extension("png"));
    assert!(is_image_extension("jpg"));
    assert!(is_image_extension("jpeg"));
    assert!(is_image_extension("gif"));
    assert!(is_image_extension("webp"));
    assert!(!is_image_extension("txt"));
    assert!(!is_image_extension("rs"));
    assert!(!is_image_extension("md"));
}

#[test]
fn test_is_image_extension_with_dot() {
    assert!(is_image_extension(".png"));
    assert!(is_image_extension(".jpg"));
}

#[test]
fn test_is_image_extension_case_insensitive() {
    assert!(is_image_extension("PNG"));
    assert!(is_image_extension("JPG"));
    assert!(is_image_extension("WebP"));
}

#[test]
fn test_mime_type() {
    assert_eq!(mime_type("png"), "image/png");
    assert_eq!(mime_type("jpg"), "image/jpeg");
    assert_eq!(mime_type("jpeg"), "image/jpeg");
    assert_eq!(mime_type("gif"), "image/gif");
    assert_eq!(mime_type("webp"), "image/webp");
}

#[test]
fn test_bytes_to_data_url() {
    let bytes = [0x89, 0x50, 0x4E, 0x47];
    let url = bytes_to_data_url(&bytes, "png");
    assert!(url.starts_with("data:image/png;base64,"));
    assert!(!url.ends_with(","));
    assert!(url.contains("iVBOR"));
}

#[test]
fn test_is_data_url() {
    assert!(is_data_url("data:image/png;base64,iVBORw0KGgo="));
    assert!(!is_data_url("data:text/plain;base64,hello"));
    assert!(!is_data_url("hello world"));
}

#[test]
fn test_extract_mime_from_data_url() {
    assert_eq!(extract_mime_from_data_url("data:image/png;base64,iVBOR"), Some("image/png"));
    assert_eq!(extract_mime_from_data_url("data:image/jpeg;base64,/9j/4"), Some("image/jpeg"));
}

#[test]
fn test_kitty_image_sequence_format() {
    let url = "data:image/png;base64,iVBORw0KGgo=";
    let seq = kitty_image_sequence(url);
    assert!(seq.starts_with("\x1b_Ga=T"));
    assert!(seq.contains("f=100"));
    assert!(seq.contains("m=0"));
    assert!(seq.contains("iVBORw0KGgo"));
    assert!(seq.ends_with("\x1b\\\\"));
}

#[test]
fn test_kitty_image_sequence_jpeg() {
    let url = "data:image/jpeg;base64,/9j/4AAQ";
    let seq = kitty_image_sequence(url);
    assert!(seq.contains("f=101"));
}

#[test]
fn test_kitty_image_sequence_invalid() {
    assert_eq!(kitty_image_sequence("not a data url"), "");
}

#[test]
fn base64_exact_encoding() {
    assert_eq!(bytes_to_data_url(&[0x89, 0x50, 0x4E, 0x47], "png"), "data:image/png;base64,iVBORw==");
    assert_eq!(bytes_to_data_url(b"abc", "ico"), "data:image/x-icon;base64,YWJj");
    assert_eq!(bytes_to_data_url(b"", "zzz"), "data:application/octet-stream;base64,");
}

#[test]
fn image_paths() {
    assert!(is_image_path("photos/cat.PNG"));
    assert!(!is_image_path("notes.txt"));
    assert!(!is_image_path(".png"));
    assert!(!is_image_path("README"));
}

#[test]
fn kitty_sequences_exact() {
    assert_eq!(kitty_image_sequence(" data:image/gif;base64, R0lG "), "\x1b_Ga=T,f=102,m=0\x1b\\R0lG\x1b\\\\");
    assert_eq!(kitty_place_image("7"), "\x1b_Ga=p,i=7,m=0\x1b\\\\");
}

#[test]
fn mime_missing_semicolon() {
    assert_eq!(extract_mime_from_data_url("data:image/png"), None);
    assert_eq!(extract_mime_from_data_url("  data:x;"), Some("x"));
}
