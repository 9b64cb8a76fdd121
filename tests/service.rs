use base64::Engine;
use photo_separation::codec::{decode_base64_bytes, decode_base64_image, encode_base64_image, output_format, CodecError, OutputFormat};
use photo_separation::geometry::BoundingBox;
use photo_separation::pipeline::crop_all;
use photo_separation::raster::{Raster, Rgba};
use photo_separation::rotation::{rotate, QuarterTurn};
use photo_separation::service::{
    apply_exif_rotation, boxes_in_bounds, crop_photos, exif_correction, rotate_image, ImageBackend, ServiceError,
};

fn bright(x: u32, y: u32) -> Rgba {
    Rgba { r: 200, g: (100 + x % 50) as u8, b: (120 + y % 50) as u8, a: 255 }
}

fn scan(w: u32, h: u32) -> Raster {
    let rows: Vec<Vec<Rgba>> = (0..h).map(|y| (0..w).map(|x| bright(x, y)).collect()).collect();
    Raster::from_rows(rows).unwrap()
}

fn bx(x: u32, y: u32, width: u32, height: u32) -> BoundingBox {
    BoundingBox {
        x,
        y,
        width,
        height,
        confidence_permille: 950,
        label: None,
        rotation: QuarterTurn::Zero,
        contour: Vec::new(),
        needs_outpaint: false,
    }
}

fn png_base64(img: &Raster) -> String {
    encode_base64_image(img, OutputFormat::Png).unwrap()
}

#[test]
fn two_boxes_give_two_photos() {
    let s = scan(1000, 500);
    let out = crop_all(&s, vec![bx(20, 20, 450, 450), bx(530, 20, 450, 450)]);
    assert_eq!(out.photos.len(), 2);
    assert_eq!(out.skipped, 0);
    let dims: Vec<(u32, u32)> = out.photos.iter().map(|p| (p.raster.width, p.raster.height)).collect();
    assert_eq!(dims, vec![(454, 227), (454, 227)]);
    assert_eq!(out.photos[1].index, 1);
    assert_eq!(out.photos[1].raster.rows[0][0], bright(528, 9));
}

#[test]
fn box_without_pixel_area_is_skipped() {
    let s = scan(100, 100);
    let out = crop_all(&s, vec![bx(0, 0, 5, 500), bx(500, 500, 400, 400)]);
    assert_eq!(out.photos.len(), 1);
    assert_eq!(out.skipped, 1);
    assert_eq!(out.photos[0].index, 1);
}

#[test]
fn rotated_box_is_set_upright() {
    let s = scan(200, 100);
    let mut b = bx(0, 0, 1000, 1000);
    b.rotation = QuarterTurn::Quarter;
    let out = crop_all(&s, vec![b]);
    assert_eq!((out.photos[0].raster.width, out.photos[0].raster.height), (100, 200));
}

#[test]
fn crop_photos_end_to_end() {
    let text = png_base64(&scan(1000, 500));
    let res = crop_photos(&text, &"image/png".to_string(), vec![bx(20, 20, 450, 450), bx(530, 20, 450, 450)]).unwrap();
    assert_eq!(res.photos.len(), 2);
    assert_eq!(res.skipped, 0);
    for (i, p) in res.photos.iter().enumerate() {
        assert_eq!(p.index, i);
        assert_eq!((p.width, p.height), (454, 227));
        assert_eq!(p.mime_type, "image/png");
        assert_eq!(p.id.len(), 36);
        let back = decode_base64_image(&p.image_base64).unwrap();
        assert_eq!((back.width, back.height), (454, 227));
    }
    assert_ne!(res.photos[0].id, res.photos[1].id);
}

#[test]
fn decode_errors_are_told_apart() {
    assert_eq!(decode_base64_image(&"not base64 !!".to_string()).err(), Some(CodecError::Base64));
    let junk = base64::engine::general_purpose::STANDARD.encode(b"plain text, no image");
    assert_eq!(decode_base64_image(&junk).err(), Some(CodecError::ImageDecode));
    assert_eq!(crop_photos(&"%%%".to_string(), &"image/png".to_string(), vec![]).err(), Some(CodecError::Base64));
}

#[test]
fn encode_round_trip_keeps_pixels() {
    let img = scan(7, 5);
    let text = png_base64(&img);
    assert!(!text.is_empty());
    let back = decode_base64_image(&text).unwrap();
    assert_eq!(back.rows, img.rows);
}

#[test]
fn mime_types_choose_formats() {
    assert_eq!(output_format(&"image/png".to_string()), OutputFormat::Png);
    assert_eq!(output_format(&"image/webp".to_string()), OutputFormat::WebP);
    assert_eq!(output_format(&"image/jpeg".to_string()), OutputFormat::Jpeg);
    assert_eq!(output_format(&"whatever".to_string()), OutputFormat::Jpeg);
}

#[test]
fn rotate_image_turns_encoded_image() {
    let img = scan(6, 4);
    let text = png_base64(&img);
    let turned = rotate_image(&text, &"image/png".to_string(), -270).unwrap();
    let back = decode_base64_image(&turned).unwrap();
    assert_eq!((back.width, back.height), (4, 6));
    assert_eq!(back.rows[0][0], img.rows[3][0]);
    let same = decode_base64_image(&rotate_image(&text, &"image/png".to_string(), 10).unwrap()).unwrap();
    assert_eq!(same.rows, img.rows);
}

#[test]
fn image_without_exif_is_returned_as_given() {
    let text = png_base64(&scan(5, 5));
    assert_eq!(apply_exif_rotation(&text, &"image/png".to_string()).unwrap(), text);
    assert_eq!(apply_exif_rotation(&"@@".to_string(), &"image/png".to_string()).err(), Some(CodecError::Base64));
}

#[test]
fn exif_orientations_map_to_turns() {
    assert_eq!(exif_correction(1), (QuarterTurn::Zero, false));
    assert_eq!(exif_correction(3), (QuarterTurn::Half, false));
    assert_eq!(exif_correction(6), (QuarterTurn::Quarter, false));
    assert_eq!(exif_correction(8), (QuarterTurn::ThreeQuarters, false));
    assert_eq!(exif_correction(2), (QuarterTurn::Zero, true));
    assert_eq!(exif_correction(4), (QuarterTurn::Half, true));
    assert_eq!(exif_correction(5), (QuarterTurn::Quarter, true));
    assert_eq!(exif_correction(7), (QuarterTurn::ThreeQuarters, true));
    assert_eq!(exif_correction(9), (QuarterTurn::Zero, false));
}

#[test]
fn boxes_outside_space_are_reported() {
    assert!(boxes_in_bounds(&vec![bx(0, 0, 1000, 1000)]));
    assert!(!boxes_in_bounds(&vec![bx(1, 0, 1000, 10)]));
}

fn with_orientation(jpeg: &[u8], orientation: u8) -> Vec<u8> {
    let mut payload: Vec<u8> = b"Exif\0\0".to_vec();
    payload.extend_from_slice(&[0x49, 0x49, 0x2A, 0x00, 0x08, 0, 0, 0, 0x01, 0x00]);
    payload.extend_from_slice(&[0x12, 0x01, 0x03, 0x00, 0x01, 0, 0, 0, orientation, 0x00, 0x00, 0x00]);
    payload.extend_from_slice(&[0, 0, 0, 0]);
    let len = (payload.len() + 2) as u16;
    let mut out = jpeg[..2].to_vec();
    out.extend_from_slice(&[0xFF, 0xE1, (len >> 8) as u8, (len & 0xFF) as u8]);
    out.extend_from_slice(&payload);
    out.extend_from_slice(&jpeg[2..]);
    out
}

#[test]
fn exif_orientation_is_applied() {
    let jpeg_text = encode_base64_image(&scan(6, 4), OutputFormat::Jpeg).unwrap();
    let jpeg = base64::engine::general_purpose::STANDARD.decode(&jpeg_text).unwrap();
    let tagged = base64::engine::general_purpose::STANDARD.encode(with_orientation(&jpeg, 6));
    let fixed = apply_exif_rotation(&tagged, &"image/png".to_string()).unwrap();
    assert_ne!(fixed, tagged);
    let back = decode_base64_image(&fixed).unwrap();
    assert_eq!((back.width, back.height), (4, 6));
    let upright = base64::engine::general_purpose::STANDARD.encode(with_orientation(&jpeg, 1));
    assert_eq!(apply_exif_rotation(&upright, &"image/png".to_string()).unwrap(), upright);
}

#[test]
fn base64_bytes_are_decoded() {
    assert_eq!(decode_base64_bytes(&"aGVsbG8=".to_string()).unwrap(), b"hello".to_vec());
    assert_eq!(decode_base64_bytes(&"a".to_string()).err(), Some(CodecError::Base64));
}

#[test]
fn disabled_backend_reports_missing_capability() {
    let text = png_base64(&scan(4, 4));
    let png = "image/png".to_string();
    assert_eq!(
        ImageBackend::Disabled.rotate_image(&text, &png, 90).err(),
        Some(ServiceError::CapabilityUnavailable)
    );
    assert!(matches!(
        ImageBackend::Disabled.crop_photos(&text, &png, vec![bx(0, 0, 500, 500)]),
        Err(ServiceError::CapabilityUnavailable)
    ));
    let turned = ImageBackend::Enabled.rotate_image(&text, &png, 90).unwrap();
    assert_eq!(turned, rotate_image(&text, &png, 90).unwrap());
    assert_eq!(
        ImageBackend::Enabled.rotate_image(&"?".to_string(), &png, 90).err(),
        Some(ServiceError::Codec(CodecError::Base64))
    );
    assert_eq!(ImageBackend::Enabled.crop_photos(&text, &png, vec![bx(0, 0, 500, 500)]).unwrap().photos.len(), 1);
}

#[test]
fn oversized_webp_fails_to_encode() {
    let wide = Raster::filled(16385, 1, Rgba { r: 1, g: 2, b: 3, a: 255 });
    assert_eq!(encode_base64_image(&wide, OutputFormat::WebP).err(), Some(CodecError::ImageEncode));
}

#[test]
fn photo_that_cannot_be_encoded_is_skipped() {
    let text = png_base64(&Raster::filled(34000, 1, Rgba { r: 200, g: 200, b: 200, a: 255 }));
    let res = crop_photos(&text, &"image/webp".to_string(), vec![bx(0, 0, 500, 1000), bx(600, 0, 100, 1000)]).unwrap();
    assert_eq!(res.photos.len(), 1);
    assert_eq!(res.skipped, 1);
    assert_eq!(res.photos[0].index, 1);
    assert_eq!(res.photos[0].width, 3434);
}

#[test]
fn crop_undoes_detected_quarter_turn() {
    let img = scan(6, 4);
    let on_scan = rotate(&img, QuarterTurn::Quarter);
    let text = png_base64(&on_scan);
    let mut b = bx(0, 0, 1000, 1000);
    b.rotation = QuarterTurn::Quarter;
    let res = crop_photos(&text, &"image/png".to_string(), vec![b]).unwrap();
    assert_eq!(res.photos.len(), 1);
    let back = decode_base64_image(&res.photos[0].image_base64).unwrap();
    assert_eq!(back.rows, img.rows);
    let upright = crop_photos(&png_base64(&img), &"image/png".to_string(), vec![bx(0, 0, 1000, 1000)]).unwrap();
    assert_eq!(decode_base64_image(&upright.photos[0].image_base64).unwrap().rows, img.rows);
}
