//! Base64 text, encoded image bytes and decoded rasters, and the EXIF
//! orientation of a photo.

use vstd::prelude::*;
use base64::Engine;
use crate::raster::{Raster, Rgba};

verus! {

#[verifier::external_type_specification]
#[verifier::external_body]
pub struct ExBase64DecodeError(base64::DecodeError);

#[verifier::external_type_specification]
#[verifier::external_body]
pub struct ExImageError(image::ImageError);

/// The encodings a photo can be written in.
#[derive(Clone, Copy, Debug, PartialEq, Eq, Structural)]
pub enum OutputFormat {
    Png,
    WebP,
    Jpeg,
}

/// Why an image could not be read or written.
#[derive(Clone, Copy, Debug, PartialEq, Eq, Structural)]
pub enum CodecError {
    /// The text is not valid standard base64.
    Base64,
    /// The bytes are not an image of a known encoding.
    ImageDecode,
    /// The raster could not be encoded.
    ImageEncode,
}

/// A pixel as its four channel values.
pub open spec fn channels(p: Rgba) -> (u8, u8, u8, u8) {
    (p.r, p.g, p.b, p.a)
}

/// Channel values as a pixel.
pub open spec fn pixel_of(c: (u8, u8, u8, u8)) -> Rgba {
    Rgba { r: c.0, g: c.1, b: c.2, a: c.3 }
}

/// Rows of channel values as a grid of pixels.
pub open spec fn rgba_grid(c: Seq<Seq<(u8, u8, u8, u8)>>) -> Seq<Seq<Rgba>> {
    c.map_values(|row: Seq<(u8, u8, u8, u8)>| row.map_values(|t: (u8, u8, u8, u8)| pixel_of(t)))
}

/// Width of a grid: the length of its first row.
pub open spec fn grid_width(g: Seq<Seq<Rgba>>) -> nat {
    if g.len() > 0 { g[0].len() } else { 0 }
}

/// A grid of pixels as channel values.
pub open spec fn channel_grid(g: Seq<Seq<Rgba>>) -> Seq<Seq<(u8, u8, u8, u8)>> {
    g.map_values(|row: Seq<Rgba>| row.map_values(|p: Rgba| channels(p)))
}

/// The bytes standard padded base64 text stands for, or `None` where it is
/// not valid.
pub uninterp spec fn base64_decoded(text: Seq<char>) -> Option<Seq<u8>>;

/// The standard padded base64 text of some bytes.
pub uninterp spec fn base64_text(bytes: Seq<u8>) -> Seq<char>;

/// Width, height and RGBA rows of the image that some bytes encode, or
/// `None` where they are no image of a known encoding.
pub uninterp spec fn decoded_rgba(bytes: Seq<u8>) -> Option<(u32, u32, Seq<Seq<(u8, u8, u8, u8)>>)>;

/// The encoding of RGBA rows of the given width in the given format (JPEG
/// drops alpha), or `None` where the encoder fails.
pub uninterp spec fn encoded_bytes(rows: Seq<Seq<(u8, u8, u8, u8)>>, width: nat, format: OutputFormat) -> Option<Seq<u8>>;

/// The EXIF orientation tag of the primary image in some bytes, where the
/// bytes hold EXIF data with that tag.
pub uninterp spec fn orientation_tag(bytes: Seq<u8>) -> Option<u32>;

/// The encoding of a grid in the given format, where its RGBA bytes can be
/// addressed, the encoder succeeds and its base64 text fits in memory.
pub open spec fn encoding_of(g: Seq<Seq<Rgba>>, width: nat, format: OutputFormat) -> Option<Seq<u8>> {
    let want = if width * g.len() > usize::MAX / 4 { None } else { encoded_bytes(channel_grid(g), width, format) };
    match want {
        Some(b) => if b.len() <= usize::MAX / 4 { Some(b) } else { None },
        None => None,
    }
}

/// The format named by a MIME type: PNG and WebP by their types, JPEG for
/// any other.
pub open spec fn format_for(mime: Seq<char>) -> OutputFormat {
    if mime == "image/png"@ {
        OutputFormat::Png
    } else if mime == "image/webp"@ {
        OutputFormat::WebP
    } else {
        OutputFormat::Jpeg
    }
}

/// The format named by a MIME type.
pub fn output_format(mime: &String) -> (r: OutputFormat)
    ensures
        r == format_for(mime@),
{
    if *mime == "image/png".to_owned() {
        OutputFormat::Png
    } else if *mime == "image/webp".to_owned() {
        OutputFormat::WebP
    } else {
        OutputFormat::Jpeg
    }
}

pub(crate) proof fn lemma_rgba_grid_inverts(g: Seq<Seq<Rgba>>)
    ensures
        rgba_grid(channel_grid(g)) == g,
{
    let back = rgba_grid(channel_grid(g));
    assert forall|y: int| 0 <= y < g.len() implies #[trigger] back[y] =~= g[y] by {}
    assert(back =~= g);
}

/// The bytes that base64 text stands for.
pub fn decode_base64_bytes(text: &String) -> (r: Result<Vec<u8>, CodecError>)
    ensures
        match base64_decoded(text@) {
            None => r == Err::<Vec<u8>, CodecError>(CodecError::Base64),
            Some(bytes) => r matches Ok(b) && b@ == bytes,
        },
{
    match base64_decode(text) {
        Ok(b) => Ok(b),
        Err(_) => Err(CodecError::Base64),
    }
}

/// The raster that base64 text of an encoded image stands for.
pub fn decode_base64_image(text: &String) -> (r: Result<Raster, CodecError>)
    ensures
        match base64_decoded(text@) {
            None => r == Err::<Raster, CodecError>(CodecError::Base64),
            Some(bytes) => match decoded_rgba(bytes) {
                None => r == Err::<Raster, CodecError>(CodecError::ImageDecode),
                Some((w, h, rows)) => r matches Ok(img) && img.wf() && img.width == w && img.height == h
                    && img.pixels() == rgba_grid(rows),
            },
        },
{
    let bytes = match base64_decode(text) {
        Ok(b) => b,
        Err(_) => return Err(CodecError::Base64),
    };
    match decode_image(&bytes) {
        Ok(img) => {
            proof {
                lemma_rgba_grid_inverts(img.pixels());
            }
            Ok(img)
        },
        Err(_) => Err(CodecError::ImageDecode),
    }
}

/// Base64 text of the raster encoded in the given format.
pub fn encode_base64_image(img: &Raster, format: OutputFormat) -> (r: Result<String, CodecError>)
    requires
        img.wf(),
    ensures
        match encoding_of(img.pixels(), img.width as nat, format) {
            Some(b) => r matches Ok(s) && s@ == base64_text(b),
            None => r == Err::<String, CodecError>(CodecError::ImageEncode),
        },
{
    assert(img.width as u64 * img.height as u64 <= u64::MAX) by (nonlinear_arith)
        requires img.width <= u32::MAX, img.height <= u32::MAX;
    if img.width as u64 * img.height as u64 > (usize::MAX / 4) as u64 {
        return Err(CodecError::ImageEncode);
    }
    let bytes = match encode_image(img, format) {
        Ok(b) => b,
        Err(_) => return Err(CodecError::ImageEncode),
    };
    if bytes.len() > usize::MAX / 4 {
        return Err(CodecError::ImageEncode);
    }
    Ok(base64_encode(&bytes))
}

/// Relies on base64's `STANDARD.decode`: the bytes a padded standard base64
/// text stands for, or its error.
#[verifier::external_body]
pub(crate) fn base64_decode(text: &String) -> (r: Result<Vec<u8>, base64::DecodeError>)
    ensures
        match r {
            Ok(b) => base64_decoded(text@) == Some(b@),
            Err(_) => base64_decoded(text@) is None,
        },
{
    base64::engine::general_purpose::STANDARD.decode(text.as_bytes())
}

/// Relies on base64's `STANDARD.encode`: padded standard base64 text; it
/// panics only where the output length overflows `usize`.
#[verifier::external_body]
fn base64_encode(bytes: &Vec<u8>) -> (r: String)
    requires
        bytes@.len() <= usize::MAX / 4,
    ensures
        r@ == base64_text(bytes@),
{
    base64::engine::general_purpose::STANDARD.encode(bytes)
}

/// Relies on image's `load_from_memory` and `to_rgba8`: the decoded image
/// as RGBA rows.
#[verifier::external_body]
pub(crate) fn decode_image(bytes: &Vec<u8>) -> (r: Result<Raster, image::ImageError>)
    ensures
        match r {
            Ok(img) => img.wf() && decoded_rgba(bytes@) == Some((img.width, img.height, channel_grid(img.pixels()))),
            Err(_) => decoded_rgba(bytes@) is None,
        },
{
    let rgba = image::load_from_memory(bytes)?.to_rgba8();
    let (width, height) = rgba.dimensions();
    let rows = rgba.rows()
        .map(|row| row.map(|p| Rgba { r: p.0[0], g: p.0[1], b: p.0[2], a: p.0[3] }).collect())
        .collect();
    Ok(Raster { width, height, rows })
}

/// Relies on image's `RgbaImage::from_raw`, which takes a buffer of
/// exactly `4 * width * height` bytes, and `DynamicImage::write_to`: the
/// raster encoded in the given format, converted to what the encoder takes
/// (JPEG drops alpha).
#[verifier::external_body]
fn encode_image(img: &Raster, format: OutputFormat) -> (r: Result<Vec<u8>, image::ImageError>)
    requires
        img.wf(),
        img.width * img.height <= usize::MAX / 4,
    ensures
        match r {
            Ok(b) => encoded_bytes(channel_grid(img.pixels()), img.width as nat, format) == Some(b@),
            Err(_) => encoded_bytes(channel_grid(img.pixels()), img.width as nat, format) is None,
        },
{
    let raw: Vec<u8> = img.rows.iter().flatten().flat_map(|p| [p.r, p.g, p.b, p.a]).collect();
    let buf = image::RgbaImage::from_raw(img.width, img.height, raw).unwrap();
    let fmt = match format {
        OutputFormat::Png => image::ImageFormat::Png,
        OutputFormat::WebP => image::ImageFormat::WebP,
        OutputFormat::Jpeg => image::ImageFormat::Jpeg,
    };
    let mut out = std::io::Cursor::new(Vec::new());
    image::DynamicImage::ImageRgba8(buf).write_to(&mut out, fmt)?;
    Ok(out.into_inner())
}

/// Relies on kamadak-exif's `Reader::read_from_container`, `get_field` and
/// `Value::get_uint`: the orientation tag of the primary image, where the
/// bytes hold EXIF data with one.
#[verifier::external_body]
pub(crate) fn read_orientation(bytes: &Vec<u8>) -> (r: Option<u32>)
    ensures
        r == orientation_tag(bytes@),
{
    let exif = exif::Reader::new().read_from_container(&mut std::io::Cursor::new(bytes)).ok()?;
    exif.get_field(exif::Tag::Orientation, exif::In::PRIMARY)?.value.get_uint(0)
}

} // verus!
