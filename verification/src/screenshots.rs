//! Screenshots of the package page: where a downloaded screenshot is cached,
//! and how it is turned into a small PNG.

use vstd::prelude::*;
use vstd::string::StringExecFns;

verus! {

/// The SHA-256 digest of a text's UTF-8 bytes, in lowercase hexadecimal.
pub uninterp spec fn sha256_hex(s: Seq<char>) -> Seq<char>;

/// A lowercase hexadecimal digit.
pub open spec fn is_lower_hex(c: char) -> bool {
    ('0' <= c && c <= '9') || ('a' <= c && c <= 'f')
}

/// `sha256::digest` of a string: the hexadecimal form of the SHA-256 digest
/// of its bytes, which `hex::encode` writes as 64 lowercase digits.
#[verifier::external_body]
fn sha256_digest(input: &String) -> (r: String)
    ensures
        r@ == sha256_hex(input@),
        r@.len() == 64,
        forall|i: int| 0 <= i < r@.len() ==> is_lower_hex(#[trigger] r@[i]),
{
    sha256::digest(input)
}

/// The file a screenshot is cached in: named by its digest, in the cache
/// directory.
pub open spec fn spec_cached_file(cache_dir: Seq<char>, sha: Seq<char>) -> Seq<char> {
    cache_dir + "/"@ + sha + ".png"@
}

/// The file a screenshot is downloaded to before it is converted.
pub open spec fn spec_download_file(cache_dir: Seq<char>, sha: Seq<char>) -> Seq<char> {
    cache_dir + "/"@ + sha
}

/// The cached file of a screenshot with digest `sha`.
pub fn cached_file(cache_dir: &str, sha: &str) -> (r: String)
    ensures
        r@ == spec_cached_file(cache_dir@, sha@),
{
    let mut s = String::from_str(cache_dir);
    s.append("/");
    s.append(sha);
    s.append(".png");
    s
}

/// The download file of a screenshot with digest `sha`.
pub fn download_file(cache_dir: &str, sha: &str) -> (r: String)
    ensures
        r@ == spec_download_file(cache_dir@, sha@),
{
    let mut s = String::from_str(cache_dir);
    s.append("/");
    s.append(sha);
    s
}

/// The digest that names the cached file of a screenshot URL.
pub fn screenshot_digest(url: &String) -> (r: String)
    ensures
        r@ == sha256_hex(url@),
        r@.len() == 64,
        !r@.contains('/'),
{
    let r = sha256_digest(url);
    assert(!r@.contains('/')) by {
        if r@.contains('/') {
            let i = choose|i: int| 0 <= i < r@.len() && r@[i] == '/';
            assert(is_lower_hex(r@[i]));
        }
    }
    r
}

/// The cached file of a screenshot URL. It lies right in the cache
/// directory: its name holds no `/`.
pub fn screenshot_path(cache_dir: &str, url: &String) -> (r: String)
    ensures
        r@ == spec_cached_file(cache_dir@, sha256_hex(url@)),
        !sha256_hex(url@).contains('/'),
{
    let sha = screenshot_digest(url);
    cached_file(cache_dir, sha.as_str())
}

/// The image formats a screenshot is tried in, in this order.
#[derive(Debug, Clone, Copy, PartialEq, Eq, Structural)]
pub enum ScreenshotFormat {
    Png,
    Jpeg,
    WebP,
}

#[verifier::external_type_specification]
#[verifier::external_body]
pub struct ExDynamicImage(image::DynamicImage);

/// The image that `image::load` decodes from the bytes in the format, if
/// they are an image of that format.
pub uninterp spec fn decoded_image(data: Seq<u8>, format: ScreenshotFormat) -> Option<image::DynamicImage>;

/// The bytes decode as an image of the format.
pub open spec fn decodes_as(data: Seq<u8>, format: ScreenshotFormat) -> bool {
    decoded_image(data, format) is Some
}

/// The image that `DynamicImage::resize` with the Lanczos filter makes of an
/// image within the given bounds.
pub uninterp spec fn resized_image(img: image::DynamicImage, width: u32, height: u32) -> image::DynamicImage;

/// The PNG file that `DynamicImage::write_to` writes of an image, if the
/// encoder takes it.
pub uninterp spec fn png_encoding(img: image::DynamicImage) -> Option<Seq<u8>>;

#[verifier::external_type_specification]
#[verifier::external_body]
pub struct ExImageError(image::ImageError);

/// `image::load` of the bytes in a given format: the image decoded from
/// them, a function of the bytes and the format alone, or an error exactly
/// when they do not decode in that format. The PNG, JPEG and WebP decoders
/// are taken to report malformed bytes as an error and not to panic on
/// them; neither the crate's source read here nor its documentation
/// promises that.
#[verifier::external_body]
fn load_image(data: &[u8], format: ScreenshotFormat) -> (r: Result<image::DynamicImage, image::ImageError>)
    ensures
        match r {
            Ok(img) => decoded_image(data@, format) == Some(img),
            Err(_) => decoded_image(data@, format) is None,
        },
{
    let f = match format {
        ScreenshotFormat::Png => image::ImageFormat::Png,
        ScreenshotFormat::Jpeg => image::ImageFormat::Jpeg,
        ScreenshotFormat::WebP => image::ImageFormat::WebP,
    };
    image::load(std::io::Cursor::new(data), f)
}

/// `DynamicImage::resize` with the Lanczos filter: the image scaled, its
/// aspect ratio kept, to the largest size within the bounds. The result is
/// named as a function of the image and the bounds; nothing is stated of its
/// pixels.
#[verifier::external_body]
fn resize_lanczos3(img: &image::DynamicImage, width: u32, height: u32) -> (r: image::DynamicImage)
    ensures
        r == resized_image(*img, width, height),
{
    img.resize(width, height, image::imageops::FilterType::Lanczos3)
}

/// `DynamicImage::write_to` in PNG into memory: the encoded bytes, a function
/// of the image alone, or the encoder's error exactly when it refuses the
/// image. Nothing is stated of what the bytes hold.
#[verifier::external_body]
fn encode_png(img: &image::DynamicImage) -> (r: Result<Vec<u8>, image::ImageError>)
    ensures
        match r {
            Ok(b) => png_encoding(*img) == Some(b@),
            Err(_) => png_encoding(*img) is None,
        },
{
    let mut out = std::io::Cursor::new(Vec::new());
    match img.write_to(&mut out, image::ImageFormat::Png) {
        Ok(()) => Ok(out.into_inner()),
        Err(e) => Err(e),
    }
}

/// Why a screenshot could not be converted.
#[derive(Debug, Clone, Copy, PartialEq, Eq, Structural)]
pub enum ScreenshotError {
    /// The bytes are no PNG, JPEG or WebP image.
    Undecodable,
    /// The scaled image could not be written as PNG.
    Unencodable,
}

/// The first format, of PNG, JPEG and WebP, that the bytes decode in.
pub open spec fn first_format(data: Seq<u8>) -> Option<ScreenshotFormat> {
    if decodes_as(data, ScreenshotFormat::Png) {
        Some(ScreenshotFormat::Png)
    } else if decodes_as(data, ScreenshotFormat::Jpeg) {
        Some(ScreenshotFormat::Jpeg)
    } else if decodes_as(data, ScreenshotFormat::WebP) {
        Some(ScreenshotFormat::WebP)
    } else {
        None
    }
}

/// The PNG of a screenshot decoded in a format: the decoded image scaled to
/// fit in 640 by 360, then encoded.
pub open spec fn png_screenshot(data: Seq<u8>, format: ScreenshotFormat) -> Option<Seq<u8>> {
    match decoded_image(data, format) {
        Some(img) => png_encoding(resized_image(img, 640, 360)),
        None => None,
    }
}

/// Decodes a screenshot in the first format that fits.
fn decode_screenshot(data: &[u8]) -> (r: Option<(image::DynamicImage, ScreenshotFormat)>)
    ensures
        match r {
            Some((img, f)) => first_format(data@) == Some(f) && decoded_image(data@, f) == Some(img),
            None => first_format(data@) is None,
        },
{
    match load_image(data, ScreenshotFormat::Png) {
        Ok(img) => return Some((img, ScreenshotFormat::Png)),
        Err(_) => {},
    }
    match load_image(data, ScreenshotFormat::Jpeg) {
        Ok(img) => return Some((img, ScreenshotFormat::Jpeg)),
        Err(_) => {},
    }
    match load_image(data, ScreenshotFormat::WebP) {
        Ok(img) => Some((img, ScreenshotFormat::WebP)),
        Err(_) => None,
    }
}

/// Turns a downloaded screenshot into a PNG that fits in 640 by 360: decoded
/// as PNG, JPEG or WebP, whichever fits first, then scaled. Fails exactly
/// when no format fits, or when writing the PNG fails.
pub fn normalize_screenshot(data: &[u8]) -> (r: Result<Vec<u8>, ScreenshotError>)
    ensures
        match first_format(data@) {
            None => r == Err::<Vec<u8>, ScreenshotError>(ScreenshotError::Undecodable),
            Some(f) => match png_screenshot(data@, f) {
                Some(b) => r matches Ok(x) && x@ == b,
                None => r == Err::<Vec<u8>, ScreenshotError>(ScreenshotError::Unencodable),
            },
        },
{
    match decode_screenshot(data) {
        Some((img, _)) => {
            let scaled = resize_lanczos3(&img, 640, 360);
            match encode_png(&scaled) {
                Ok(bytes) => Ok(bytes),
                Err(_) => Err(ScreenshotError::Unencodable),
            }
        },
        None => Err(ScreenshotError::Undecodable),
    }
}

/// A screenshot of the package page: the file it was cached in, once
/// there, and whether loading it failed.
#[derive(Debug)]
pub struct ScreenshotSlot {
    pub path: Option<String>,
    pub error: bool,
}

/// Screenshot answers from the background: where a screenshot of a package
/// was cached, or that it failed.
pub enum PackageAsyncMessage {
    LoadScreenshot(String, usize, String),
    SetError(String, usize),
}

} // verus!
