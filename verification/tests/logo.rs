use wiresmart::front_end::WireSmartApp;
use wiresmart::logo::{load_logo, picture};

const RGBA: [u8; 74] = [
    0x89, 0x50, 0x4e, 0x47, 0x0d, 0x0a, 0x1a, 0x0a, 0x00, 0x00, 0x00, 0x0d, 0x49, 0x48, 0x44, 0x52,
    0x00, 0x00, 0x00, 0x02, 0x00, 0x00, 0x00, 0x01, 0x08, 0x06, 0x00, 0x00, 0x00, 0xf4, 0x22, 0x7f,
    0x8a, 0x00, 0x00, 0x00, 0x11, 0x49, 0x44, 0x41, 0x54, 0x78, 0x9c, 0x63, 0xf8, 0xcf, 0xc0, 0xf0,
    0x9f, 0x91, 0x89, 0xb9, 0x01, 0x00, 0x0d, 0x8c, 0x02, 0x85, 0x6e, 0x34, 0x01, 0x48, 0x00, 0x00,
    0x00, 0x00, 0x49, 0x45, 0x4e, 0x44, 0xae, 0x42, 0x60, 0x82,
];

const GRAY: [u8; 69] = [
    0x89, 0x50, 0x4e, 0x47, 0x0d, 0x0a, 0x1a, 0x0a, 0x00, 0x00, 0x00, 0x0d, 0x49, 0x48, 0x44, 0x52,
    0x00, 0x00, 0x00, 0x01, 0x00, 0x00, 0x00, 0x02, 0x08, 0x00, 0x00, 0x00, 0x00, 0xbc, 0xea, 0xe9,
    0xfb, 0x00, 0x00, 0x00, 0x0c, 0x49, 0x44, 0x41, 0x54, 0x78, 0x9c, 0x63, 0x60, 0x67, 0x38, 0x01,
    0x00, 0x00, 0xe1, 0x00, 0xd0, 0x79, 0x49, 0xb5, 0x30, 0x00, 0x00, 0x00, 0x00, 0x49, 0x45, 0x4e,
    0x44, 0xae, 0x42, 0x60, 0x82,
];

#[test]
fn logo_keeps_rgba_pixels() {
    let logo = load_logo(&RGBA).unwrap();
    assert_eq!(logo.size, [2, 1]);
    assert_eq!(logo.pixels, vec![255, 0, 0, 255, 1, 2, 3, 128]);
}

#[test]
fn logo_expands_gray_pixels() {
    let logo = load_logo(&GRAY).unwrap();
    assert_eq!(logo.size, [1, 2]);
    assert_eq!(logo.pixels, vec![7, 7, 7, 255, 200, 200, 200, 255]);
}

#[test]
fn logo_that_is_no_image() {
    assert!(load_logo(b"").is_none());
    assert!(load_logo(b"not an image at all").is_none());
    assert!(load_logo(&RGBA[..40]).is_none());
}

#[test]
fn picture_of_decoded_pixels() {
    let p = picture(3, 1, vec![0; 12]);
    assert_eq!(p.size, [3, 1]);
    assert_eq!(p.pixels.len(), 12);
}

#[test]
fn logo_is_loaded_once() {
    let mut app = WireSmartApp::new(true, true);
    assert!(app.wants_logo());
    assert!(app.load_logo_once(b"no image").is_none());
    assert!(app.wants_logo());
    assert_eq!(app.error_message, None);
    let logo = app.load_logo_once(&RGBA).unwrap();
    assert_eq!(logo.size, [2, 1]);
    assert_eq!(logo.pixels, vec![255, 0, 0, 255, 1, 2, 3, 128]);
    assert!(!app.wants_logo());
    assert!(app.load_logo_once(&GRAY).is_none());
    assert!(app.load_logo_once(b"no image").is_none());
    assert!(!app.wants_logo());
}

#[test]
fn logo_that_was_found_is_taken_once() {
    let mut app = WireSmartApp::new(true, true);
    assert!(app.take_logo(None).is_none());
    assert!(!app.logo_loaded);
    assert_eq!(app.take_logo(Some(picture(1, 1, vec![9; 4]))).unwrap().pixels, vec![9; 4]);
    assert!(app.logo_loaded);
    assert!(app.take_logo(Some(picture(1, 1, vec![8; 4]))).is_none());
}
