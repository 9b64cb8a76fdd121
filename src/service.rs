//! The operations on base64-encoded images: cutting the photos out of a
//! scan, turning an image, and applying its EXIF orientation.

use vstd::prelude::*;
use crate::raster::{Raster, Rgba};
use crate::geometry::{BoundingBox, all_wf, rects_of, reconciled};
use crate::rotation::{QuarterTurn, mirror, mirrored, requested_turn, rotate, rotate_by_degrees, rotated_cw, turned_dims};
use crate::pipeline::{CutPhoto, crop_all, kept_indices, photo_pixels};
use crate::codec::{
    CodecError, OutputFormat, base64_decoded, base64_text, decode_base64_image, decoded_rgba, encode_base64_image,
    encoding_of, format_for, grid_width, orientation_tag, output_format, read_orientation, rgba_grid,
    base64_decode, decode_image,
};

verus! {

/// One photo cut out of a scan, encoded.
#[derive(Debug)]
pub struct CroppedPhoto {
    /// Unique identifier.
    pub id: String,
    /// Position of the originating box in the input list.
    pub index: usize,
    pub image_base64: String,
    pub mime_type: String,
    pub width: u32,
    pub height: u32,
    /// The originating box, after reconciliation.
    pub source_box: BoundingBox,
}

/// The photos cut out of a scan, and how many boxes had no pixel area.
#[derive(Debug)]
pub struct CropResult {
    /// Unique identifier.
    pub id: String,
    pub photos: Vec<CroppedPhoto>,
    pub skipped: usize,
}

/// Relies on uuid's `Uuid::new_v4` and its hyphenated text form, which is
/// 36 characters long; `new_v4` panics where the system's random source
/// fails.
#[verifier::external_body]
pub(crate) fn new_id() -> (r: String)
    ensures
        r@.len() == 36,
{
    uuid::Uuid::new_v4().to_string()
}

/// Every box lies inside the normalized space.
pub fn boxes_in_bounds(boxes: &Vec<BoundingBox>) -> (r: bool)
    ensures
        r == all_wf(rects_of(boxes@)),
{
    let mut i: usize = 0;
    while i < boxes.len()
        invariant
            i <= boxes@.len(),
            forall|k: int| 0 <= k < i ==> (#[trigger] rects_of(boxes@)[k]).wf(),
        decreases boxes@.len() - i,
    {
        let b = &boxes[i];
        if b.x as u64 + b.width as u64 > 1000 || b.y as u64 + b.height as u64 > 1000 {
            assert(!rects_of(boxes@)[i as int].wf());
            return false;
        }
        i += 1;
    }
    true
}

/// The positions below `n` of the grids that can be encoded in `fmt`.
pub open spec fn encodable_positions(pics: Seq<Seq<Seq<Rgba>>>, fmt: OutputFormat, n: int) -> Seq<int>
    decreases n,
{
    if n <= 0 {
        Seq::empty()
    } else {
        let rest = encodable_positions(pics, fmt, n - 1);
        if encoding_of(pics[n - 1], grid_width(pics[n - 1]), fmt) is Some { rest.push(n - 1) } else { rest }
    }
}

proof fn lemma_encodable_bounds(pics: Seq<Seq<Seq<Rgba>>>, fmt: OutputFormat, n: int)
    ensures
        encodable_positions(pics, fmt, n).len() <= if n >= 0 { n } else { 0 },
        forall|j: int| 0 <= j < encodable_positions(pics, fmt, n).len()
            ==> 0 <= #[trigger] encodable_positions(pics, fmt, n)[j] < n,
    decreases n,
{
    if n > 0 {
        lemma_encodable_bounds(pics, fmt, n - 1);
    }
}

/// The pixels of each cut photo.
pub open spec fn cut_pixels(cut: Seq<CutPhoto>) -> Seq<Seq<Seq<Rgba>>> {
    cut.map_values(|c: CutPhoto| c.raster.pixels())
}

/// Encodes each photo; a photo that cannot be encoded is left out.
fn encode_photos(cut: Vec<CutPhoto>, mime_type: &String, fmt: OutputFormat) -> (r: Vec<CroppedPhoto>)
    requires
        forall|i: int| 0 <= i < cut@.len() ==> (#[trigger] cut@[i]).raster.wf() && cut@[i].raster.height > 0,
    ensures
        ({
            let enc = encodable_positions(cut_pixels(cut@), fmt, cut@.len() as int);
            &&& r@.len() == enc.len()
            &&& forall|j: int| 0 <= j < enc.len() ==> {
                let ph = #[trigger] r@[j];
                let c = cut@[enc[j]];
                &&& ph.index == c.index
                &&& ph.mime_type@ == mime_type@
                &&& ph.width == c.raster.width
                &&& ph.height == c.raster.height
                &&& ph.source_box == c.source_box
                &&& encoding_of(c.raster.pixels(), c.raster.width as nat, fmt) matches Some(b)
                &&& ph.image_base64@ == base64_text(b)
            }
        }),
{
    let ghost cut_seq = cut@;
    let ghost pics = cut_pixels(cut_seq);
    let n = cut.len();
    let mut rest = cut;
    let mut photos: Vec<CroppedPhoto> = Vec::new();
    let mut k: usize = 0;
    while k < n
        invariant
            n == cut_seq.len(),
            cut_seq == cut@,
            pics == cut_pixels(cut_seq),
            k <= n,
            rest@ == cut_seq.subrange(k as int, n as int),
            forall|i: int| 0 <= i < n ==> (#[trigger] cut_seq[i]).raster.wf() && cut_seq[i].raster.height > 0,
            photos@.len() == encodable_positions(pics, fmt, k as int).len(),
            forall|j: int| 0 <= j < photos@.len() ==> {
                let ph = #[trigger] photos@[j];
                let c = cut_seq[encodable_positions(pics, fmt, k as int)[j]];
                &&& ph.index == c.index
                &&& ph.mime_type@ == mime_type@
                &&& ph.width == c.raster.width
                &&& ph.height == c.raster.height
                &&& ph.source_box == c.source_box
                &&& encoding_of(c.raster.pixels(), c.raster.width as nat, fmt) matches Some(b)
                &&& ph.image_base64@ == base64_text(b)
            },
        decreases n - k,
    {
        let c = rest.remove(0);
        assert(c == cut_seq[k as int]);
        assert(c.raster.pixels()[0].len() == c.raster.width);
        assert(pics[k as int] == c.raster.pixels());
        proof {
            lemma_encodable_bounds(pics, fmt, k as int);
        }
        match encode_base64_image(&c.raster, fmt) {
            Ok(text) => {
                let id = new_id();
                photos.push(CroppedPhoto {
                    id,
                    index: c.index,
                    image_base64: text,
                    mime_type: mime_type.clone(),
                    width: c.raster.width,
                    height: c.raster.height,
                    source_box: c.source_box,
                });
            },
            Err(_) => {},
        }
        k += 1;
        assert(rest@ =~= cut_seq.subrange(k as int, n as int));
    }
    photos
}

/// The pixels of the `i`-th photo cut out of a `w` x `h` scan with the
/// given rows of channel values.
pub open spec fn nth_photo(rows: Seq<Seq<(u8, u8, u8, u8)>>, w: int, h: int, boxes: Seq<BoundingBox>, i: int) -> Seq<Seq<Rgba>> {
    let rects = reconciled(rects_of(boxes));
    let kept = kept_indices(rects, w, h, boxes.len() as int);
    photo_pixels(rgba_grid(rows), w, h, rects[kept[i]], boxes[kept[i]].rotation)
}

/// What cutting the photos out of base64 text `text` for boxes `boxes`
/// gives with MIME type `mime`.
pub open spec fn crop_outcome(text: Seq<char>, mime: Seq<char>, boxes: Seq<BoundingBox>, r: Result<CropResult, CodecError>) -> bool {
    match base64_decoded(text) {
        None => r == Err::<CropResult, CodecError>(CodecError::Base64),
        Some(bytes) => match decoded_rgba(bytes) {
            None => r == Err::<CropResult, CodecError>(CodecError::ImageDecode),
            Some((w, h, rows)) => {
                let rects = reconciled(rects_of(boxes));
                let kept = kept_indices(rects, w as int, h as int, boxes.len() as int);
                let fmt = format_for(mime);
                let pics = Seq::new(kept.len(), |i: int| nth_photo(rows, w as int, h as int, boxes, i));
                let enc = encodable_positions(pics, fmt, kept.len() as int);
                r matches Ok(res) && {
                    &&& res.photos@.len() == enc.len()
                    &&& res.skipped + enc.len() == boxes.len()
                    &&& forall|j: int| 0 <= j < enc.len() ==> {
                        let ph = #[trigger] res.photos@[j];
                        let i = enc[j];
                        &&& ph.index == kept[i]
                        &&& ph.mime_type@ == mime
                        &&& ph.width as nat == grid_width(pics[i])
                        &&& ph.height as nat == pics[i].len()
                        &&& ph.source_box.rect() == rects[kept[i]]
                        &&& ph.source_box.same_details(&boxes[kept[i]])
                        &&& encoding_of(pics[i], grid_width(pics[i]), fmt) matches Some(b)
                        &&& ph.image_base64@ == base64_text(b)
                    }
                }
            },
        },
    }
}

/// Cuts the photos out of a base64-encoded scan and encodes each in the
/// scan's format: the boxes are reconciled, a box without pixel area or
/// whose photo cannot be encoded is skipped and counted, and the photos
/// come in box order.
pub fn crop_photos(image_base64: &String, mime_type: &String, boxes: Vec<BoundingBox>) -> (r: Result<CropResult, CodecError>)
    requires
        all_wf(rects_of(boxes@)),
    ensures
        crop_outcome(image_base64@, mime_type@, boxes@, r),
{
    let scan = decode_base64_image(image_base64)?;
    let ghost orig = boxes@;
    let ghost dec = decoded_rgba(base64_decoded(image_base64@).unwrap()).unwrap();
    let ghost rows = dec.2;
    assert(scan.width == dec.0 && scan.height == dec.1);
    assert(scan.pixels() == rgba_grid(rows));
    let fmt = output_format(mime_type);
    let n_boxes = boxes.len();
    let outcome = crop_all(&scan, boxes);
    let cut_len = outcome.photos.len();
    let ghost rects = reconciled(rects_of(orig));
    let ghost kept = kept_indices(rects, scan.width as int, scan.height as int, orig.len() as int);
    let ghost cut_seq = outcome.photos@;
    let ghost w = dec.0 as int;
    let ghost h = dec.1 as int;
    let ghost pics = Seq::new(kept.len(), |i: int| nth_photo(rows, w, h, orig, i));
    assert forall|i: int| 0 <= i < cut_seq.len() implies pics[i] == (#[trigger] cut_seq[i]).raster.pixels()
        && cut_seq[i].raster.width == grid_width(cut_seq[i].raster.pixels()) by {
        assert(cut_seq[i].raster.pixels()[0].len() == cut_seq[i].raster.width);
    }
    assert(cut_pixels(cut_seq) =~= pics);
    let photos = encode_photos(outcome.photos, mime_type, fmt);
    let ghost enc = encodable_positions(pics, fmt, kept.len() as int);
    proof {
        lemma_encodable_bounds(pics, fmt, kept.len() as int);
    }
    let n_encoded = photos.len();
    assert(cut_seq.len() == kept.len());
    assert(cut_pixels(cut_seq) == pics);
    assert(n_encoded <= cut_len);
    let skipped = n_boxes - n_encoded;
    let id = new_id();
    let res = CropResult { id, photos, skipped };
    assert forall|j: int| 0 <= j < enc.len() implies {
        let ph = #[trigger] res.photos@[j];
        let i = enc[j];
        &&& ph.width as nat == grid_width(pics[i])
        &&& ph.height as nat == pics[i].len()
    } by {
        let i = enc[j];
        assert(cut_seq[i].raster.pixels().len() == cut_seq[i].raster.height);
    }
    Ok(res)
}

/// The encoded result of turning a decoded image, or of failing to.
pub open spec fn encoded_outcome(g: Seq<Seq<Rgba>>, width: nat, fmt: OutputFormat, r: Result<String, CodecError>) -> bool {
    match encoding_of(g, width, fmt) {
        Some(b) => r matches Ok(s) && s@ == base64_text(b),
        None => r == Err::<String, CodecError>(CodecError::ImageEncode),
    }
}

/// What turning the image in base64 text `text` by `degrees` gives with
/// MIME type `mime`.
pub open spec fn rotate_outcome(text: Seq<char>, mime: Seq<char>, degrees: int, r: Result<String, CodecError>) -> bool {
    match base64_decoded(text) {
        None => r == Err::<String, CodecError>(CodecError::Base64),
        Some(bytes) => match decoded_rgba(bytes) {
            None => r == Err::<String, CodecError>(CodecError::ImageDecode),
            Some((w, h, rows)) => {
                let q = requested_turn(degrees);
                encoded_outcome(rotated_cw(rgba_grid(rows), w as int, h as int, q),
                    turned_dims(w as int, h as int, q).0 as nat, format_for(mime), r)
            },
        },
    }
}

/// Turns a base64-encoded image clockwise by `degrees`, snapped to the
/// nearest quarter turn, and encodes it in the format of `mime_type`.
pub fn rotate_image(image_base64: &String, mime_type: &String, degrees: i32) -> (r: Result<String, CodecError>)
    ensures
        rotate_outcome(image_base64@, mime_type@, degrees as int, r),
{
    let img = decode_base64_image(image_base64)?;
    let turned = rotate_by_degrees(&img, degrees);
    let fmt = output_format(mime_type);
    encode_base64_image(&turned, fmt)
}

/// The turn and the mirroring, after the turn, that an EXIF orientation
/// tag asks for; an unknown tag asks for neither.
pub open spec fn exif_fix(o: u32) -> (QuarterTurn, bool) {
    if o == 2 {
        (QuarterTurn::Zero, true)
    } else if o == 3 {
        (QuarterTurn::Half, false)
    } else if o == 4 {
        (QuarterTurn::Half, true)
    } else if o == 5 {
        (QuarterTurn::Quarter, true)
    } else if o == 6 {
        (QuarterTurn::Quarter, false)
    } else if o == 7 {
        (QuarterTurn::ThreeQuarters, true)
    } else if o == 8 {
        (QuarterTurn::ThreeQuarters, false)
    } else {
        (QuarterTurn::Zero, false)
    }
}

/// The grid as the EXIF orientation tag `o` asks it to be shown.
pub open spec fn oriented(g: Seq<Seq<Rgba>>, w: int, h: int, o: u32) -> Seq<Seq<Rgba>> {
    let (q, flip) = exif_fix(o);
    let (w1, h1) = turned_dims(w, h, q);
    let t = rotated_cw(g, w, h, q);
    if flip { mirrored(t, w1, h1) } else { t }
}

/// The turn and mirroring for an EXIF orientation tag.
pub fn exif_correction(o: u32) -> (r: (QuarterTurn, bool))
    ensures
        r == exif_fix(o),
{
    if o == 2 {
        (QuarterTurn::Zero, true)
    } else if o == 3 {
        (QuarterTurn::Half, false)
    } else if o == 4 {
        (QuarterTurn::Half, true)
    } else if o == 5 {
        (QuarterTurn::Quarter, true)
    } else if o == 6 {
        (QuarterTurn::Quarter, false)
    } else if o == 7 {
        (QuarterTurn::ThreeQuarters, true)
    } else if o == 8 {
        (QuarterTurn::ThreeQuarters, false)
    } else {
        (QuarterTurn::Zero, false)
    }
}

/// Shows a raster as the EXIF orientation tag `o` asks.
pub fn orient(img: &Raster, o: u32) -> (r: Raster)
    requires
        img.wf(),
    ensures
        r.wf(),
        r.width as int == turned_dims(img.width as int, img.height as int, exif_fix(o).0).0,
        r.pixels() == oriented(img.pixels(), img.width as int, img.height as int, o),
{
    let (q, flip) = exif_correction(o);
    let t = rotate(img, q);
    if flip { mirror(&t) } else { t }
}

/// Applies the EXIF orientation of a base64-encoded image: an image without
/// the tag, or with the upright tag 1, comes back as it was given;
/// otherwise it is turned and mirrored as the tag asks and encoded in the
/// format of `mime_type`.
pub fn apply_exif_rotation(image_base64: &String, mime_type: &String) -> (r: Result<String, CodecError>)
    ensures
        match base64_decoded(image_base64@) {
            None => r == Err::<String, CodecError>(CodecError::Base64),
            Some(bytes) => {
                let o = match orientation_tag(bytes) { Some(v) => v, None => 1u32 };
                if o == 1 {
                    r matches Ok(s) && s@ == image_base64@
                } else {
                    match decoded_rgba(bytes) {
                        None => r == Err::<String, CodecError>(CodecError::ImageDecode),
                        Some((w, h, rows)) => encoded_outcome(oriented(rgba_grid(rows), w as int, h as int, o),
                            turned_dims(w as int, h as int, exif_fix(o).0).0 as nat, format_for(mime_type@), r),
                    }
                }
            },
        },
{
    let bytes = match base64_decode(image_base64) {
        Ok(b) => b,
        Err(_) => return Err(CodecError::Base64),
    };
    let o = match read_orientation(&bytes) {
        Some(v) => v,
        None => 1,
    };
    if o == 1 {
        return Ok(image_base64.clone());
    }
    let img = match decode_image(&bytes) {
        Ok(img) => img,
        Err(_) => return Err(CodecError::ImageDecode),
    };
    proof {
        crate::codec::lemma_rgba_grid_inverts(img.pixels());
    }
    let fixed = orient(&img, o);
    let fmt = output_format(mime_type);
    encode_base64_image(&fixed, fmt)
}

/// Whether image processing is built into this service.
#[derive(Clone, Copy, Debug, PartialEq, Eq, Structural)]
pub enum ImageBackend {
    Enabled,
    Disabled,
}

/// Why an image operation failed.
#[derive(Clone, Copy, Debug, PartialEq, Eq, Structural)]
pub enum ServiceError {
    /// Image processing is not available in this service.
    CapabilityUnavailable,
    Codec(CodecError),
}

impl ImageBackend {
    /// [`crop_photos`] where image processing is enabled.
    pub fn crop_photos(&self, image_base64: &String, mime_type: &String, boxes: Vec<BoundingBox>) -> (r: Result<CropResult, ServiceError>)
        requires
            all_wf(rects_of(boxes@)),
        ensures
            *self == ImageBackend::Disabled ==> r == Err::<CropResult, ServiceError>(ServiceError::CapabilityUnavailable),
            *self == ImageBackend::Enabled ==> match r {
                Ok(res) => crop_outcome(image_base64@, mime_type@, boxes@, Ok(res)),
                Err(ServiceError::Codec(e)) => crop_outcome(image_base64@, mime_type@, boxes@, Err(e)),
                Err(ServiceError::CapabilityUnavailable) => false,
            },
    {
        match self {
            ImageBackend::Disabled => Err(ServiceError::CapabilityUnavailable),
            ImageBackend::Enabled => match crop_photos(image_base64, mime_type, boxes) {
                Ok(res) => Ok(res),
                Err(e) => Err(ServiceError::Codec(e)),
            },
        }
    }

    /// [`rotate_image`] where image processing is enabled.
    pub fn rotate_image(&self, image_base64: &String, mime_type: &String, degrees: i32) -> (r: Result<String, ServiceError>)
        ensures
            *self == ImageBackend::Disabled ==> r == Err::<String, ServiceError>(ServiceError::CapabilityUnavailable),
            *self == ImageBackend::Enabled ==> match r {
                Ok(v) => rotate_outcome(image_base64@, mime_type@, degrees as int, Ok(v)),
                Err(ServiceError::Codec(e)) => rotate_outcome(image_base64@, mime_type@, degrees as int, Err(e)),
                Err(ServiceError::CapabilityUnavailable) => false,
            },
    {
        match self {
            ImageBackend::Disabled => Err(ServiceError::CapabilityUnavailable),
            ImageBackend::Enabled => {
                match rotate_image(image_base64, mime_type, degrees) {
                    Ok(v) => Ok(v),
                    Err(e) => Err(ServiceError::Codec(e)),
                }
            },
        }
    }
}

} // verus!
