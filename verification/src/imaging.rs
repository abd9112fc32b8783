//! Images on their way in: what is accepted, and what is converted to AVIF.
//!
//! The blog serves images straight from the bucket, so what is uploaded is what
//! readers download. JPG and PNG are re-encoded on the way; everything else is
//! kept byte for byte, because re-encoding would lose animation or sharpness.

use crate::cloudflare::CloudflareConfig;
use crate::error::{AppError, AppResult};
use crate::ids::{is_id_char, new_id};
use crate::media_keys::{is_safe_slug, rendered, safe_slug, thumbnail_key};
use crate::text::{lower, plus, same, to_lower};
use vstd::prelude::*;
use vstd::string::StringExecFns;

verus! {

// ─── Extensions ─────────────────────────────────────────────────────────────

/// The extensions that are converted on the way in.
pub const CONVERTIBLE: [&'static str; 3] = ["jpg", "jpeg", "png"];

/// Encoder speed, from 1 (slowest, smallest) to 10.
pub const SPEED: u8 = 6;

/// Quality, from 1 to 100.
pub const QUALITY: u8 = 80;

/// The extensions that are converted on the way in.
pub open spec fn convertible(ext: Seq<char>) -> bool {
    ext == "jpg"@ || ext == "jpeg"@ || ext == "png"@
}

/// Whether an extension is one that is converted.
pub fn is_convertible(ext: &str) -> (r: bool)
    ensures
        r == convertible(ext@),
{
    same(ext, "jpg") || same(ext, "jpeg") || same(ext, "png")
}

/// The extension that a file of this one is stored under.
pub open spec fn stored_extension(ext: Seq<char>) -> Seq<char> {
    if convertible(ext) {
        "avif"@
    } else {
        ext
    }
}

/// The extension that a file of this one is stored under: `avif` for what is
/// converted, otherwise its own.
pub fn stored_ext(ext: &str) -> (out: &str)
    ensures
        out@ == stored_extension(ext@),
{
    if is_convertible(ext) {
        "avif"
    } else {
        ext
    }
}

/// The extensions of images that can be put into a post.
pub open spec fn image_extension(ext: Seq<char>) -> bool {
    ext == "png"@ || ext == "jpg"@ || ext == "jpeg"@ || ext == "gif"@ || ext == "webp"@ || ext
        == "avif"@ || ext == "svg"@ || ext == "bmp"@ || ext == "ico"@
}

fn is_image_ext(ext: &str) -> (r: bool)
    ensures
        r == image_extension(ext@),
{
    same(ext, "png") || same(ext, "jpg") || same(ext, "jpeg") || same(ext, "gif") || same(
        ext,
        "webp",
    ) || same(ext, "avif") || same(ext, "svg") || same(ext, "bmp") || same(ext, "ico")
}

/// The extensions of images that can be a thumbnail: those that can be converted,
/// and what they are converted to.
pub open spec fn thumbnail_extension(ext: Seq<char>) -> bool {
    convertible(ext) || ext == "avif"@
}

/// The extensions of files that can go into the media library: images and video.
pub open spec fn media_extension(ext: Seq<char>) -> bool {
    image_extension(ext) || ext == "mp4"@ || ext == "webm"@ || ext == "mov"@
}

/// An extension in small letters, where the file has one.
pub open spec fn lower_ext(ext: Option<&str>) -> Option<Seq<char>> {
    match ext {
        Some(e) => Some(lower(e@)),
        None => None,
    }
}

/// The extension of an image that is dropped into a post, in small letters.
/// `src_path` is where it comes from.
pub fn image_ext(src_path: &str, ext: Option<&str>) -> (r: AppResult<String>)
    ensures
        match r {
            Ok(e) => lower_ext(ext) == Some(e@) && image_extension(e@),
            Err(e) => (lower_ext(ext) matches Some(x) ==> !image_extension(x)) && (
            e matches AppError::UnsupportedImage(p) && p@ == src_path@),
        },
{
    match ext {
        Some(e) => {
            let small: String = to_lower(e);
            if is_image_ext(small.as_str()) {
                return Ok(small);
            }
        },
        None => {},
    }
    Err(AppError::UnsupportedImage(src_path.to_owned()))
}

/// The extension of an image that is picked as a thumbnail, in small letters.
pub fn thumbnail_ext(ext: Option<&str>) -> (r: AppResult<String>)
    ensures
        match r {
            Ok(e) => lower_ext(ext) == Some(e@) && thumbnail_extension(e@),
            Err(e) => (lower_ext(ext) matches Some(x) ==> !thumbnail_extension(x)) && e
                is UnsupportedThumbnail,
        },
{
    match ext {
        Some(e) => {
            let small: String = to_lower(e);
            if is_convertible(small.as_str()) || same(small.as_str(), "avif") {
                return Ok(small);
            }
        },
        None => {},
    }
    Err(AppError::UnsupportedThumbnail)
}

/// The extension of a file that is picked for the media library, in small letters.
pub fn media_ext(ext: Option<&str>) -> (r: AppResult<String>)
    ensures
        match r {
            Ok(e) => lower_ext(ext) == Some(e@) && media_extension(e@),
            Err(e) => (lower_ext(ext) matches Some(x) ==> !media_extension(x)) && e
                is UnsupportedMedia,
        },
{
    match ext {
        Some(e) => {
            let small: String = to_lower(e);
            let s: &str = small.as_str();
            if is_image_ext(s) || same(s, "mp4") || same(s, "webm") || same(s, "mov") {
                return Ok(small);
            }
        },
        None => {},
    }
    Err(AppError::UnsupportedMedia)
}

// ─── Conversion ─────────────────────────────────────────────────────────────

/// An image that was decoded.
#[verifier::external_type_specification]
#[verifier::external_body]
pub struct ExDynamicImage(image::DynamicImage);

/// The image that `image::load_from_memory` finds in these bytes, where it finds one.
pub uninterp spec fn decoded(bytes: Seq<u8>) -> Option<image::DynamicImage>;

/// These bytes are an outcome of encoding the image as AVIF at this speed and
/// quality.
pub uninterp spec fn encodes(
    image: image::DynamicImage,
    speed: u8,
    quality: u8,
    out: Seq<u8>,
) -> bool;

/// Whether the bytes hold an image.
pub open spec fn decodable(bytes: Seq<u8>) -> bool {
    decoded(bytes) is Some
}

/// The bytes start as an AVIF file does: with a box of the type `ftyp` and of the
/// brand `avif`.
pub open spec fn starts_as_avif(bytes: Seq<u8>) -> bool {
    &&& bytes.len() >= 12
    &&& bytes.subrange(4, 8) == seq![0x66u8, 0x74u8, 0x79u8, 0x70u8]
    &&& bytes.subrange(8, 12) == seq![0x61u8, 0x76u8, 0x69u8, 0x66u8]
}

/// The bytes are an AVIF file of the image that the source holds.
pub open spec fn avif_of(source: Seq<u8>, out: Seq<u8>) -> bool {
    &&& decoded(source) matches Some(image) && encodes(image, SPEED, QUALITY, out)
    &&& starts_as_avif(out)
}

/// `image::load_from_memory`: the image that the bytes hold, or a description of
/// what is wrong with them. The same bytes give the same image. Nothing is said of
/// what the description says.
#[verifier::external_body]
fn decode(bytes: &[u8]) -> (r: Result<image::DynamicImage, String>)
    ensures
        match r {
            Ok(image) => decoded(bytes@) == Some(image),
            Err(_) => decoded(bytes@) is None,
        },
{
    image::load_from_memory(bytes).map_err(|e| e.to_string())
}

/// `image::DynamicImage::write_with_encoder` with `AvifEncoder`: the image as an
/// AVIF file, or a description of what went wrong. The encoder divides its work by
/// the processors there are, so that machines differ in the bytes and there can be
/// several outcomes; each starts with the box that names the file type. Nothing is
/// said of when it fails, nor of what the description says. The image has to be one
/// that was decoded: the encoder panics on some images without a pixel, which no
/// decoder gives.
#[verifier::external_body]
fn encode(image: &image::DynamicImage, speed: u8, quality: u8) -> (r: Result<Vec<u8>, String>)
    requires
        1 <= speed <= 10,
        1 <= quality <= 100,
        exists|b: Seq<u8>| #[trigger] decoded(b) == Some(*image),
    ensures
        r matches Ok(out) ==> encodes(*image, speed, quality, out@) && starts_as_avif(out@),
{
    let mut out = Vec::new();
    let encoder =
        image::codecs::avif::AvifEncoder::new_with_speed_quality(&mut out, speed, quality);
    match image.write_with_encoder(encoder) {
        Ok(()) => Ok(out),
        Err(e) => Err(e.to_string()),
    }
}

/// What encoding gave, as the result of the conversion.
pub fn encoded(r: Result<Vec<u8>, String>) -> (out: AppResult<Vec<u8>>)
    ensures
        match r {
            Ok(bytes) => out == Ok::<Vec<u8>, AppError>(bytes),
            Err(why) => out matches Err(AppError::Image { context, source }) && context@
                == "AVIF encoding failed"@ && source == why,
        },
{
    match r {
        Ok(bytes) => Ok(bytes),
        Err(why) => Err(AppError::Image { context: "AVIF encoding failed", source: why }),
    }
}

/// Decodes `bytes` and re-encodes them as AVIF. Slow: not for a thread that has
/// other work.
pub fn to_avif(bytes: &[u8]) -> (r: AppResult<Vec<u8>>)
    ensures
        match r {
            Ok(out) => avif_of(bytes@, out@),
            Err(e) => e matches AppError::Image { context, source } && context@ == if decodable(
                bytes@,
            ) {
                "AVIF encoding failed"@
            } else {
                "Cannot decode image"@
            },
        },
{
    let image: image::DynamicImage = match decode(bytes) {
        Ok(i) => i,
        Err(why) => {
            return Err(AppError::Image { context: "Cannot decode image", source: why });
        },
    };
    encoded(encode(&image, SPEED, QUALITY))
}

/// The bytes that are stored for a file with this extension: converted, or as they
/// are.
pub fn stored_bytes(ext: &str, bytes: Vec<u8>) -> (r: AppResult<Vec<u8>>)
    ensures
        match r {
            Ok(out) => if convertible(ext@) {
                avif_of(bytes@, out@)
            } else {
                out == bytes
            },
            Err(e) => convertible(ext@) && (e matches AppError::Image { context, source }
                && context@ == if decodable(bytes@) {
                "AVIF encoding failed"@
            } else {
                "Cannot decode image"@
            }),
        },
{
    if is_convertible(ext) {
        to_avif(bytes.as_slice())
    } else {
        Ok(bytes)
    }
}

// ─── Staging ────────────────────────────────────────────────────────────────

/// A file that was copied into the local assets.
#[derive(Debug, PartialEq, Eq)]
pub struct StagedImage {
    /// How Markdown refers to it.
    pub rel: String,
    /// The name that it had, for the alternative text.
    pub name: String,
}

/// A name made of an id and an extension.
pub open spec fn file_name_of(id: Seq<char>, ext: Seq<char>) -> Seq<char> {
    id + "."@ + ext
}

/// A name made of an id and an extension.
pub fn file_name(id: &str, ext: &str) -> (out: String)
    ensures
        out@ == file_name_of(id@, ext@),
{
    let mut out: String = id.to_owned();
    out.append(".");
    out.append(ext);
    out
}

/// An id for a file.
pub open spec fn is_id(id: Seq<char>) -> bool {
    id.len() == 36 && forall|i: int| 0 <= i < id.len() ==> is_id_char(#[trigger] id[i])
}

/// The name is made of an id and this extension.
pub open spec fn is_new_name(name: Seq<char>, ext: Seq<char>) -> bool {
    exists|id: Seq<char>| #[trigger] is_id(id) && name == file_name_of(id, ext)
}

/// A new name for a file with this extension.
pub fn new_file_name(ext: &str) -> (out: String)
    ensures
        is_new_name(out@, ext@),
{
    let id: String = new_id();
    assert(is_id(id@));
    file_name(id.as_str(), ext)
}

/// The alternative text of a staged file: its name. A file without a name that is
/// text is called an image.
pub open spec fn alt_text_of(name: Option<&str>) -> Seq<char> {
    match name {
        Some(n) => n@,
        None => "image"@,
    }
}

/// What the editor inserts for a file that was staged under `stored_name`.
pub fn staged(stored_name: &str, name: Option<&str>) -> (s: StagedImage)
    ensures
        s.rel@ == "assets/"@ + stored_name@,
        s.name@ == alt_text_of(name),
{
    StagedImage {
        rel: plus("assets/", stored_name),
        name: match name {
            Some(n) => n.to_owned(),
            None => "image".to_owned(),
        },
    }
}

/// How an image is to be copied into the local assets.
pub struct Copying {
    /// The name it gets there.
    pub file_name: String,
    /// Whether it is converted on the way. The preview then shows the bytes that
    /// readers will get.
    pub convert: bool,
    /// What the editor inserts for it.
    pub image: StagedImage,
}

/// How an image that was dropped into a post is to be copied. `ext` and `name` are
/// those of its path, where they are text.
pub fn stage_image(src_path: &str, ext: Option<&str>, name: Option<&str>) -> (r: AppResult<Copying>)
    ensures
        match r {
            Ok(c) => lower_ext(ext) matches Some(e) && {
                &&& image_extension(e)
                &&& is_new_name(c.file_name@, stored_extension(e))
                &&& c.convert == convertible(e)
                &&& c.image.rel@ == "assets/"@ + c.file_name@
                &&& c.image.name@ == alt_text_of(name)
            },
            Err(e) => (lower_ext(ext) matches Some(x) ==> !image_extension(x)) && (
            e matches AppError::UnsupportedImage(p) && p@ == src_path@),
        },
{
    let ext: String = match image_ext(src_path, ext) {
        Ok(e) => e,
        Err(e) => {
            return Err(e);
        },
    };
    let file_name: String = new_file_name(stored_ext(ext.as_str()));
    let convert: bool = is_convertible(ext.as_str());
    let image: StagedImage = staged(file_name.as_str(), name);
    Ok(Copying { file_name, convert, image })
}

/// A thumbnail to upload.
pub struct Thumbnail {
    pub key: String,
    pub bytes: Vec<u8>,
}

/// The thumbnail that an image makes. `ext` is that of its path, where it is text.
/// It is stored as AVIF whatever it was, under the key that the blog makes from the
/// slug alone.
pub fn set_post_thumbnail(
    slug: &str,
    ext: Option<&str>,
    bytes: Vec<u8>,
    config: Option<&CloudflareConfig>,
) -> (r: AppResult<Thumbnail>)
    ensures
        match r {
            Ok(t) => {
                &&& safe_slug(slug@)
                &&& lower_ext(ext) matches Some(e) && thumbnail_extension(e) && if convertible(e) {
                    avif_of(bytes@, t.bytes@)
                } else {
                    t.bytes == bytes
                }
                &&& config matches Some(c) && t.key@ == rendered(
                    c.thumbnail_key_pattern@,
                    slug@,
                    Seq::empty(),
                    "avif"@,
                )
            },
            Err(e) => if !safe_slug(slug@) {
                e matches AppError::InvalidSlug(s) && s@ == slug@
            } else if lower_ext(ext) matches Some(x) && thumbnail_extension(x) {
                ||| convertible(lower_ext(ext)->0) && (e matches AppError::Image {
                    context,
                    source,
                } && context@ == if decodable(bytes@) {
                    "AVIF encoding failed"@
                } else {
                    "Cannot decode image"@
                })
                ||| {
                    &&& config is None && e is NotConfigured
                    &&& !convertible(lower_ext(ext)->0) || decodable(bytes@)
                }
            } else {
                e is UnsupportedThumbnail
            },
        },
{
    if !is_safe_slug(slug) {
        return Err(AppError::InvalidSlug(slug.to_owned()));
    }
    let ext: String = match thumbnail_ext(ext) {
        Ok(e) => e,
        Err(e) => {
            return Err(e);
        },
    };
    let stored: Vec<u8> = match stored_bytes(ext.as_str(), bytes) {
        Ok(b) => b,
        Err(e) => {
            return Err(e);
        },
    };
    match config {
        Some(c) => Ok(
            Thumbnail {
                key: thumbnail_key(c.thumbnail_key_pattern.as_str(), slug, "avif"),
                bytes: stored,
            },
        ),
        None => Err(AppError::NotConfigured),
    }
}

// ─── Laws ───────────────────────────────────────────────────────────────────

/// A converted file is stored as AVIF, and what is stored as AVIF is not converted
/// again.
pub proof fn conversion_happens_once(ext: Seq<char>)
    ensures
        stored_extension(stored_extension(ext)) == stored_extension(ext),
        !convertible(stored_extension(ext)),
{
    reveal_strlit("avif");
    reveal_strlit("jpg");
    reveal_strlit("jpeg");
    reveal_strlit("png");
    assert("avif"@[0] == 'a');
    assert("jpeg"@[0] == 'j');
}

/// What may be a thumbnail may stand in a post, and what may stand in a post may be in
/// the library; what is converted may be all three.
pub proof fn extensions_nest(ext: Seq<char>)
    ensures
        convertible(ext) ==> thumbnail_extension(ext) && image_extension(ext),
        thumbnail_extension(ext) ==> image_extension(ext),
        image_extension(ext) ==> media_extension(ext),
        thumbnail_extension(ext) <==> convertible(ext) || ext == "avif"@,
        !convertible(ext) ==> stored_extension(ext) == ext,
{
}

/// Which files are accepted where, by their extension in small letters, and which of
/// them are converted.
pub proof fn which_extensions_are_accepted(ext: Seq<char>)
    ensures
        convertible(ext) <==> ext == "jpg"@ || ext == "jpeg"@ || ext == "png"@,
        image_extension(ext) <==> convertible(ext) || ext == "gif"@ || ext == "webp"@ || ext
            == "avif"@ || ext == "svg"@ || ext == "bmp"@ || ext == "ico"@,
        media_extension(ext) <==> image_extension(ext) || ext == "mp4"@ || ext == "webm"@ || ext
            == "mov"@,
        convertible(ext) ==> stored_extension(ext) == "avif"@,
{
}

/// The extension counts in small letters, however it is written.
pub proof fn extensions_count_in_small_letters(ext: &str, name: &str)
    ensures
        lower_ext(Some(ext)) == Some(lower(ext@)),
        lower_ext(None) is None,
        alt_text_of(Some(name)) == name@,
        alt_text_of(None) == "image"@,
{
}

}
