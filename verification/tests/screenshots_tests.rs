use nix_software_center::screenshots::{cached_file, download_file, normalize_screenshot, screenshot_digest, screenshot_path, ScreenshotError};

#[test]
fn digest_names_the_file() {
    let d = screenshot_digest(&"hello".to_string());
    assert_eq!(d, "2cf24dba5fb0a30e26e83b2ac5b9e29e1b161e5c1fa7425e73043362938b9824");
    assert_eq!(
        screenshot_path("/cache", &"hello".to_string()),
        "/cache/2cf24dba5fb0a30e26e83b2ac5b9e29e1b161e5c1fa7425e73043362938b9824.png"
    );
}

#[test]
fn file_names() {
    assert_eq!(cached_file("/c", "ab"), "/c/ab.png");
    assert_eq!(download_file("/c", "ab"), "/c/ab");
}

#[test]
fn garbage_is_not_an_image() {
    assert_eq!(normalize_screenshot(b"not an image"), Err(ScreenshotError::Undecodable));
    assert_eq!(normalize_screenshot(&[]), Err(ScreenshotError::Undecodable));
}

#[test]
fn png_is_scaled_to_fit() {
    let img = image::RgbImage::from_pixel(32, 16, image::Rgb([10, 20, 30]));
    let mut bytes = std::io::Cursor::new(Vec::new());
    img.write_to(&mut bytes, image::ImageFormat::Png).unwrap();
    let out = normalize_screenshot(bytes.get_ref()).unwrap();
    let back = image::load_from_memory(&out).unwrap();
    assert_eq!((back.width(), back.height()), (640, 320));
}

#[test]
fn jpeg_is_accepted() {
    let img = image::RgbImage::from_pixel(64, 36, image::Rgb([200, 100, 50]));
    let mut bytes = std::io::Cursor::new(Vec::new());
    img.write_to(&mut bytes, image::ImageFormat::Jpeg).unwrap();
    let out = normalize_screenshot(bytes.get_ref()).unwrap();
    let back = image::load_from_memory(&out).unwrap();
    assert_eq!((back.width(), back.height()), (640, 360));
}
