//! Decoded-image facts: format, dimensions, and the semantic pixel hash.
use vstd::prelude::*;

use crate::digest::{file_sha256, sha256, sha256_hex, sha256_of};
use crate::error::AppError;
use crate::paths::{extension, spec_extension};
use crate::text::{lower, concat3, decimal, decimal_string, hex_string, hex_text, push_decimal, push_str, text_is};

verus! {

/// What is known about one decoded PNG or JPEG image.
#[derive(Debug)]
pub struct ImageInfo {
    pub path: String,
    pub format: String,
    pub width: u32,
    pub height: u32,
    pub file_sha256: String,
    pub pixel_sha256: String,
}

impl ImageInfo {
    /// "WIDTH x HEIGHT".
    pub fn dimensions(&self) -> (s: String)
        ensures
            s@ == decimal(self.width as nat) + " x "@ + decimal(self.height as nat),
    {
        let mut s = decimal_string(self.width as u64);
        push_str(&mut s, " x ");
        push_decimal(&mut s, self.height as u64);
        s
    }
}

/// Two decoded images have the same pixels when their dimensions and
/// canonical pixel hashes agree.
pub open spec fn spec_pixels_equal(left: ImageInfo, right: ImageInfo) -> bool {
    left.width == right.width && left.height == right.height && left.pixel_sha256@ == right.pixel_sha256@
}

/// Whether two inspected images have identical decoded pixels.
pub fn pixels_equal(left: &ImageInfo, right: &ImageInfo) -> (b: bool)
    ensures
        b == spec_pixels_equal(*left, *right),
{
    left.width == right.width && left.height == right.height
        && text_is(left.pixel_sha256.as_str(), right.pixel_sha256.as_str())
}

/// The decoded formats that the image decoder can report.
#[derive(Debug)]
pub enum ImageKind {
    Png,
    Jpeg,
    /// Any other format, by its debug name.
    Other(String),
}

/// The MIME type of a supported format; other formats are a runtime error.
pub fn mime_for_format(kind: &ImageKind) -> (r: Result<&'static str, AppError>)
    ensures
        match kind {
            ImageKind::Png => r matches Ok(m) && m@ == "image/png"@,
            ImageKind::Jpeg => r matches Ok(m) && m@ == "image/jpeg"@,
            ImageKind::Other(name) => r matches Err(e) && e.exit_code == 1
                && e.message@ == "unsupported image format "@ + name@ + "; version 1 supports PNG and JPEG"@,
        },
{
    match kind {
        ImageKind::Png => Ok("image/png"),
        ImageKind::Jpeg => Ok("image/jpeg"),
        ImageKind::Other(name) => Err(AppError::runtime(
            concat3("unsupported image format ", name.as_str(), "; version 1 supports PNG and JPEG"),
        )),
    }
}

/// The file extension used for a MIME type.
pub open spec fn spec_extension_for_mime(mime: Seq<char>) -> Seq<char> {
    if mime == "image/png"@ { "png"@ } else if mime == "image/jpeg"@ { "jpg"@ } else { "bin"@ }
}

/// The file extension used for a MIME type: `png`, `jpg`, or `bin`.
pub fn extension_for_mime(mime: &str) -> (r: &'static str)
    ensures
        r@ == spec_extension_for_mime(mime@),
{
    if text_is(mime, "image/png") {
        "png"
    } else if text_is(mime, "image/jpeg") {
        "jpg"
    } else {
        "bin"
    }
}

/// The four big-endian bytes of a 32-bit value.
pub open spec fn be32_bytes(v: u32) -> Seq<u8> {
    seq![(v / 16777216) as u8, ((v / 65536) % 256) as u8, ((v / 256) % 256) as u8, (v % 256) as u8]
}

/// The big-endian bytes of a sequence of 16-bit samples.
pub open spec fn be16_stream(px: Seq<u16>) -> Seq<u8>
    decreases px.len(),
{
    if px.len() == 0 {
        seq![]
    } else {
        be16_stream(px.drop_last()) + seq![(px.last() / 256) as u8, (px.last() % 256) as u8]
    }
}

/// The domain-separation prefix of the canonical pixel stream.
pub open spec fn pixel_prefix() -> Seq<u8> {
    "banksy-c2pa:canonical-rgba16:v1\0"@.map_values(|c: char| c as u8)
}

/// The canonical byte stream whose SHA-256 identifies decoded pixels: a
/// prefix, the width, height, and channel count (4), then every RGBA16 sample,
/// all big-endian.
pub open spec fn canonical_pixel_stream(width: u32, height: u32, rgba16: Seq<u16>) -> Seq<u8> {
    pixel_prefix() + be32_bytes(width) + be32_bytes(height) + be32_bytes(4) + be16_stream(rgba16)
}

fn push_be32(v: &mut Vec<u8>, x: u32)
    ensures
        final(v)@ == old(v)@ + be32_bytes(x),
{
    v.push((x / 16777216) as u8);
    v.push(((x / 65536) % 256) as u8);
    v.push(((x / 256) % 256) as u8);
    v.push((x % 256) as u8);
    assert(final(v)@ =~= old(v)@ + be32_bytes(x));
}

/// The lowercase hexadecimal SHA-256 of the canonical pixel stream of a
/// decoded RGBA16 image.
pub fn canonical_pixel_sha256(width: u32, height: u32, rgba16: &[u16]) -> (r: String)
    ensures
        r@ == sha256_hex(canonical_pixel_stream(width, height, rgba16@)),
{
    let text = "banksy-c2pa:canonical-rgba16:v1\0";
    let cs = crate::text::chars_of(text);
    let mut stream: Vec<u8> = Vec::new();
    let mut i: usize = 0;
    while i < cs.len()
        invariant
            i <= cs@.len(),
            cs@ == text@,
            stream@ == cs@.subrange(0, i as int).map_values(|c: char| c as u8),
        decreases cs@.len() - i,
    {
        stream.push(cs[i] as u8);
        i = i + 1;
        assert(stream@ =~= cs@.subrange(0, i as int).map_values(|c: char| c as u8));
    }
    assert(cs@.subrange(0, cs@.len() as int) =~= cs@);
    assert(stream@ == pixel_prefix());
    push_be32(&mut stream, width);
    push_be32(&mut stream, height);
    push_be32(&mut stream, 4);
    let ghost head = stream@;
    let mut j: usize = 0;
    while j < rgba16.len()
        invariant
            j <= rgba16@.len(),
            stream@ == head + be16_stream(rgba16@.subrange(0, j as int)),
        decreases rgba16@.len() - j,
    {
        let v = rgba16[j];
        stream.push((v / 256) as u8);
        stream.push((v % 256) as u8);
        proof {
            let pre = rgba16@.subrange(0, j + 1);
            assert(pre.drop_last() =~= rgba16@.subrange(0, j as int));
        }
        j = j + 1;
        assert(stream@ =~= head + be16_stream(rgba16@.subrange(0, j as int)));
    }
    assert(rgba16@.subrange(0, rgba16@.len() as int) =~= rgba16@);
    assert(stream@ =~= canonical_pixel_stream(width, height, rgba16@));
    file_sha256(stream.as_slice())
}

/// The format that the image crate recognizes from the leading bytes of a
/// file, if any.
pub uninterp spec fn guessed_image_kind(header: Seq<u8>) -> Option<ImageKind>;

/// The format that the image crate associates with a file extension, if any.
pub uninterp spec fn extension_image_kind(ext: Seq<char>) -> Option<ImageKind>;

/// The width, height, and RGBA16 samples of an image decoded by the image
/// crate in the given format (JPEG when `jpeg`, else PNG), when it decodes.
pub uninterp spec fn decoded_rgba16(bytes: Seq<u8>, jpeg: bool) -> Option<(u32, u32, Seq<u16>)>;

/// The PNG file signature.
pub open spec fn png_magic() -> Seq<u8> {
    seq![0x89u8, 0x50, 0x4e, 0x47, 0x0d, 0x0a, 0x1a, 0x0a]
}

/// Guesses a format from leading bytes with `image::guess_format`. Trusted:
/// the result is the one named by `guessed_image_kind`; PNG and JPEG come
/// back as their own variants, every other format under its debug name. As
/// the crate's magic-byte table shows (it is tried in order, PNG first, then
/// JPEG), bytes that start with the PNG signature are PNG, and bytes that
/// start with `FF D8 FF` are JPEG.
#[verifier::external_body]
fn guess_image_kind(header: &[u8]) -> (r: Option<ImageKind>)
    ensures
        r == guessed_image_kind(header@),
        header@.len() >= 8 && header@.subrange(0, 8) == png_magic() ==> r == Some(ImageKind::Png),
        header@.len() >= 3 && header@[0] == 0xffu8 && header@[1] == 0xd8u8 && header@[2] == 0xffu8
            ==> r == Some(ImageKind::Jpeg),
{
    match image::guess_format(header) {
        Ok(image::ImageFormat::Png) => Some(ImageKind::Png),
        Ok(image::ImageFormat::Jpeg) => Some(ImageKind::Jpeg),
        Ok(other) => Some(ImageKind::Other(format!("{other:?}"))),
        Err(_) => None,
    }
}

/// Maps an extension to a format with `image::ImageFormat::from_extension`.
/// Trusted: the result is the one named by `extension_image_kind`; as that
/// function's source shows, `png` and `apng` give PNG and `jpg`, `jpeg`, and
/// `jfif` give JPEG, in any ASCII letter case.
#[verifier::external_body]
fn extension_kind(ext: &str) -> (r: Option<ImageKind>)
    ensures
        r == extension_image_kind(ext@),
        lower(ext@) == "png"@ || lower(ext@) == "apng"@ ==> r == Some(ImageKind::Png),
        lower(ext@) == "jpg"@ || lower(ext@) == "jpeg"@ || lower(ext@) == "jfif"@ ==> r == Some(ImageKind::Jpeg),
{
    match image::ImageFormat::from_extension(ext) {
        Some(image::ImageFormat::Png) => Some(ImageKind::Png),
        Some(image::ImageFormat::Jpeg) => Some(ImageKind::Jpeg),
        Some(other) => Some(ImageKind::Other(format!("{other:?}"))),
        None => None,
    }
}

/// Decodes an image with `image::load_from_memory_with_format` and takes its
/// dimensions and RGBA16 samples (`to_rgba16().into_raw()`). Trusted: the
/// result is the one named by `decoded_rgba16`; the decoder's error text is
/// not stated.
#[verifier::external_body]
fn decode_rgba16(bytes: &[u8], jpeg: bool) -> (r: Result<(u32, u32, Vec<u16>), String>)
    ensures
        match r {
            Ok((w, h, px)) => decoded_rgba16(bytes@, jpeg) == Some((w, h, px@)),
            Err(_) => decoded_rgba16(bytes@, jpeg).is_none(),
        },
{
    let format = if jpeg { image::ImageFormat::Jpeg } else { image::ImageFormat::Png };
    match image::load_from_memory_with_format(bytes, format) {
        Ok(decoded) => Ok((decoded.width(), decoded.height(), decoded.to_rgba16().into_raw())),
        Err(error) => Err(format!("{error}")),
    }
}

/// The first sixteen bytes of a file (all of it when shorter), which the
/// format guess reads.
pub open spec fn file_header(bytes: Seq<u8>) -> Seq<u8> {
    if bytes.len() <= 16 { bytes } else { bytes.subrange(0, 16) }
}

/// The detected format of a file: from its leading bytes, else from a
/// non-empty extension of its path.
pub open spec fn detected_kind(path: Seq<char>, bytes: Seq<u8>) -> Option<ImageKind> {
    match guessed_image_kind(file_header(bytes)) {
        Some(k) => Some(k),
        None => match spec_extension(path) {
            Some(e) => if e.len() == 0 { None } else { extension_image_kind(e) },
            None => None,
        },
    }
}

/// The MIME type of a supported format.
pub open spec fn kind_mime(k: ImageKind) -> Result<Seq<char>, Seq<char>> {
    match k {
        ImageKind::Png => Ok("image/png"@),
        ImageKind::Jpeg => Ok("image/jpeg"@),
        ImageKind::Other(name) => Err("unsupported image format "@ + name@ + "; version 1 supports PNG and JPEG"@),
    }
}

fn detect_kind(path: &str, bytes: &[u8]) -> (r: Option<ImageKind>)
    ensures
        r == detected_kind(path@, bytes@),
{
    let n = if bytes.len() <= 16 { bytes.len() } else { 16 };
    let header = vstd::slice::slice_subrange(bytes, 0, n);
    assert(header@ =~= file_header(bytes@));
    match guess_image_kind(header) {
        Some(k) => Some(k),
        None => match extension(path) {
            Some(e) => {
                let cs = crate::text::chars_of(e.as_str());
                if cs.len() == 0 {
                    None
                } else {
                    extension_kind(e.as_str())
                }
            },
            None => None,
        },
    }
}

/// The MIME type of an image file, detected from its bytes and path.
pub fn mime_for_path(path: &str, bytes: &[u8]) -> (r: Result<&'static str, AppError>)
    ensures
        match detected_kind(path@, bytes@) {
            None => r matches Err(e) && e.exit_code == 1 && e.message@ == "cannot detect image format for "@ + path@,
            Some(k) => match kind_mime(k) {
                Ok(m) => r matches Ok(s) && s@ == m,
                Err(m) => r matches Err(e) && e.exit_code == 1 && e.message@ == m,
            },
        },
{
    match detect_kind(path, bytes) {
        None => Err(AppError::runtime(crate::text::concat2("cannot detect image format for ", path))),
        Some(k) => mime_for_format(&k),
    }
}

/// The facts of an image file held in memory: its format, dimensions, file
/// hash, and canonical pixel hash. A path that is not a regular file, an
/// undetected or unsupported format, and an undecodable image are errors.
pub fn inspect_image(path: &str, bytes: &[u8], is_file: bool) -> (r: Result<ImageInfo, AppError>)
    ensures
        !is_file ==> (r matches Err(e) && e.exit_code == 1 && e.message@ == "input is not a regular file: "@ + path@),
        is_file ==> match detected_kind(path@, bytes@) {
            None => r matches Err(e) && e.exit_code == 1 && e.message@ == "cannot detect image format for "@ + path@,
            Some(k) => match kind_mime(k) {
                Err(m) => r matches Err(e) && e.exit_code == 1 && e.message@ == m,
                Ok(m) => match decoded_rgba16(bytes@, k == ImageKind::Jpeg) {
                    None => r matches Err(e) && e.exit_code == 1
                        && crate::text::starts_with(e.message@, "cannot decode "@ + path@ + ": "@),
                    Some((w, h, px)) => r matches Ok(info) && {
                        &&& info.path@ == path@
                        &&& info.format@ == m
                        &&& info.width == w
                        &&& info.height == h
                        &&& info.file_sha256@ == sha256_hex(bytes@)
                        &&& info.pixel_sha256@ == sha256_hex(canonical_pixel_stream(w, h, px))
                    },
                },
            },
        },
{
    if !is_file {
        return Err(AppError::runtime(crate::text::concat2("input is not a regular file: ", path)));
    }
    let kind = match detect_kind(path, bytes) {
        None => return Err(AppError::runtime(crate::text::concat2("cannot detect image format for ", path))),
        Some(k) => k,
    };
    let mime = mime_for_format(&kind)?;
    let jpeg = match kind {
        ImageKind::Jpeg => true,
        _ => false,
    };
    let (width, height, px) = match decode_rgba16(bytes, jpeg) {
        Ok(d) => d,
        Err(detail) => {
            let m = concat3("cannot decode ", path, ": ");
            let full = crate::text::concat2(m.as_str(), detail.as_str());
            proof {
                let pre = m@;
                assert(full@.subrange(0, pre.len() as int) =~= pre);
            }
            return Err(AppError::runtime(full));
        },
    };
    let pixel_sha256 = canonical_pixel_sha256(width, height, px.as_slice());
    Ok(ImageInfo {
        path: crate::text::owned(path),
        format: crate::text::owned(mime),
        width,
        height,
        file_sha256: file_sha256(bytes),
        pixel_sha256,
    })
}

} // verus!
