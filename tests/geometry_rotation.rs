use photo_separation::geometry::{
    ingest_rect, pixel_rect, reconcile_boxes, reconcile_rects, BoundingBox, NormRect, PixelRect, Point2D,
};
use photo_separation::outpaint::{contour_allows_outpaint, ingest_point, outpaint_decision, OutpaintDecision};
use photo_separation::raster::{Raster, Rgba};
use photo_separation::rotation::{
    bucket_detected_angle, correct_rotation, correction_turn, mirror, normalize_degrees, rotate, rotate_by_degrees,
    turn_degrees, turn_for_request, QuarterTurn,
};

fn px(v: u8) -> Rgba {
    Rgba { r: v, g: v.wrapping_mul(3), b: v.wrapping_add(7), a: 255 }
}

fn numbered(w: u32, h: u32) -> Raster {
    let rows: Vec<Vec<Rgba>> = (0..h).map(|y| (0..w).map(|x| px((y * w + x) as u8)).collect()).collect();
    Raster::from_rows(rows).unwrap()
}

fn rect(x: u32, y: u32, width: u32, height: u32) -> NormRect {
    NormRect { x, y, width, height }
}

fn h_overlap(a: &NormRect, b: &NormRect) -> i64 {
    (a.x + a.width).min(b.x + b.width) as i64 - a.x.max(b.x) as i64
}

fn v_overlap(a: &NormRect, b: &NormRect) -> i64 {
    (a.y + a.height).min(b.y + b.height) as i64 - a.y.max(b.y) as i64
}

fn bx(x: u32, y: u32, width: u32, height: u32) -> BoundingBox {
    BoundingBox {
        x,
        y,
        width,
        height,
        confidence_permille: 900,
        label: Some("photo".to_string()),
        rotation: QuarterTurn::Zero,
        contour: Vec::new(),
        needs_outpaint: false,
    }
}

#[test]
fn overlapping_boxes_are_separated() {
    let mut rects = vec![rect(0, 0, 500, 500), rect(400, 0, 500, 500)];
    reconcile_rects(&mut rects);
    let (a, b) = (&rects[0], &rects[1]);
    assert!(h_overlap(a, b) <= 0 || v_overlap(a, b) <= 0);
    assert!(a.width > 0 && b.width > 0);
    assert_eq!(*a, rect(0, 0, 449, 500));
    assert_eq!(*b, rect(451, 0, 449, 500));
}

#[test]
fn vertical_overlap_shrinks_heights() {
    let mut rects = vec![rect(0, 300, 1000, 400), rect(0, 0, 1000, 340)];
    reconcile_rects(&mut rects);
    // v_overlap 40 < h_overlap 1000: the upper box (index 1) loses 21 at its
    // bottom, the lower one advances by 21.
    assert_eq!(rects[1], rect(0, 0, 1000, 319));
    assert_eq!(rects[0], rect(0, 321, 1000, 379));
}

#[test]
fn disjoint_boxes_are_untouched() {
    let mut rects = vec![rect(20, 20, 450, 450), rect(530, 20, 450, 450)];
    reconcile_rects(&mut rects);
    assert_eq!(rects, vec![rect(20, 20, 450, 450), rect(530, 20, 450, 450)]);
}

#[test]
fn reconcile_boxes_keeps_order_and_details() {
    let mut a = bx(0, 0, 500, 500);
    a.label = Some("left".to_string());
    let mut b = bx(400, 0, 500, 500);
    b.rotation = QuarterTurn::Half;
    b.contour = vec![Point2D { x: 1, y: 2 }];
    let out = reconcile_boxes(vec![a, b]);
    assert_eq!(out.len(), 2);
    assert_eq!(out[0].label.as_deref(), Some("left"));
    assert_eq!((out[0].x, out[0].width), (0, 449));
    assert_eq!((out[1].x, out[1].width), (451, 449));
    assert_eq!(out[1].rotation, QuarterTurn::Half);
    assert_eq!(out[1].contour, vec![Point2D { x: 1, y: 2 }]);
}

#[test]
fn pixel_rect_pads_and_clips() {
    assert_eq!(pixel_rect(rect(20, 20, 450, 450), 1000, 500), Some(PixelRect { x: 18, y: 9, width: 454, height: 227 }));
    assert_eq!(pixel_rect(rect(0, 0, 1000, 1000), 400, 400), Some(PixelRect { x: 0, y: 0, width: 400, height: 400 }));
    assert_eq!(pixel_rect(rect(10, 10, 0, 100), 400, 400), None);
    assert_eq!(pixel_rect(rect(10, 10, 1, 100), 400, 400), None);
}

#[test]
fn ingest_clips_into_normalized_space() {
    assert_eq!(ingest_rect(990, 5, 50, 0), rect(990, 5, 10, 1));
    assert_eq!(ingest_rect(2000, 1000, 3, 3), rect(999, 999, 1, 1));
    assert_eq!(ingest_rect(1000, 0, 5, 5), rect(999, 0, 1, 5));
    assert_eq!(ingest_rect(10, 20, 30, 40), rect(10, 20, 30, 40));
    assert_eq!(ingest_point(1200, 7), Point2D { x: 1000, y: 7 });
}

#[test]
fn rotation_round_trip() {
    let img = numbered(5, 3);
    let turned = rotate(&img, QuarterTurn::Quarter);
    assert_eq!((turned.width, turned.height), (3, 5));
    let back = correct_rotation(&turned, bucket_detected_angle(9000));
    assert_eq!((back.width, back.height), (5, 3));
    assert_eq!(back.rows, img.rows);
    for detected in [QuarterTurn::Zero, QuarterTurn::Quarter, QuarterTurn::Half, QuarterTurn::ThreeQuarters] {
        let t = rotate(&img, detected);
        assert_eq!(correct_rotation(&t, detected).rows, img.rows);
    }
}

#[test]
fn rotate_quarter_maps_pixels_clockwise() {
    let img = numbered(2, 2);
    let t = rotate(&img, QuarterTurn::Quarter);
    // top-left of the result is the bottom-left of the input
    assert_eq!(t.rows[0][0], img.rows[1][0]);
    assert_eq!(t.rows[0][1], img.rows[0][0]);
    assert_eq!(t.rows[1][1], img.rows[0][1]);
    let m = mirror(&img);
    assert_eq!(m.rows[0][0], img.rows[0][1]);
}

#[test]
fn upright_angles_leave_image_identical() {
    let img = numbered(4, 6);
    for centi in [0i64, 3000, -4000, 4499, 31600, 36000, -36000, 72000 + 100] {
        let q = bucket_detected_angle(centi);
        assert_eq!(q, QuarterTurn::Zero);
        let r = correct_rotation(&img, q);
        assert_eq!((r.width, r.height), (4, 6));
        assert_eq!(r.rows, img.rows);
    }
}

#[test]
fn angle_buckets_and_corrections() {
    assert_eq!(bucket_detected_angle(4500), QuarterTurn::Quarter);
    assert_eq!(bucket_detected_angle(13499), QuarterTurn::Quarter);
    assert_eq!(bucket_detected_angle(13500), QuarterTurn::Half);
    assert_eq!(bucket_detected_angle(18000), QuarterTurn::Half);
    assert_eq!(bucket_detected_angle(22500), QuarterTurn::ThreeQuarters);
    assert_eq!(bucket_detected_angle(27000), QuarterTurn::ThreeQuarters);
    assert_eq!(bucket_detected_angle(31500), QuarterTurn::Zero);
    assert_eq!(bucket_detected_angle(-9000), QuarterTurn::ThreeQuarters);
    assert_eq!(bucket_detected_angle(45000), QuarterTurn::Quarter);
    assert_eq!(bucket_detected_angle(i64::MIN), QuarterTurn::Half);
    assert_eq!(correction_turn(QuarterTurn::Quarter), QuarterTurn::ThreeQuarters);
    assert_eq!(correction_turn(QuarterTurn::ThreeQuarters), QuarterTurn::Quarter);
    assert_eq!(correction_turn(QuarterTurn::Half), QuarterTurn::Half);
}

#[test]
fn rotation_requests_are_normalized_and_snapped() {
    assert_eq!(normalize_degrees(-90), 270);
    assert_eq!(normalize_degrees(450), 90);
    assert_eq!(normalize_degrees(-720), 0);
    assert_eq!(turn_for_request(-90), QuarterTurn::ThreeQuarters);
    assert_eq!(turn_for_request(44), QuarterTurn::Zero);
    assert_eq!(turn_for_request(45), QuarterTurn::Quarter);
    assert_eq!(turn_for_request(350), QuarterTurn::Zero);
    assert_eq!(turn_for_request(i32::MIN), QuarterTurn::ThreeQuarters);
    let img = numbered(3, 2);
    let r = rotate_by_degrees(&img, 180);
    assert_eq!(r.rows[0][0], img.rows[1][2]);
}

#[test]
fn short_contours_are_never_forwarded() {
    let mut b = bx(0, 0, 10, 10);
    b.needs_outpaint = true;
    b.contour = vec![Point2D { x: 0, y: 0 }, Point2D { x: 5, y: 5 }];
    assert!(!contour_allows_outpaint(&b.contour));
    assert_eq!(outpaint_decision(&b), OutpaintDecision::KeepAsIs);
    b.contour.push(Point2D { x: 0, y: 5 });
    assert_eq!(outpaint_decision(&b), OutpaintDecision::Forward);
    b.needs_outpaint = false;
    assert_eq!(outpaint_decision(&b), OutpaintDecision::KeepAsIs);
}

#[test]
fn from_rows_rejects_ragged_rows() {
    let rows = vec![vec![px(1), px(2)], vec![px(3)]];
    assert!(Raster::from_rows(rows).is_none());
    let f = Raster::filled(3, 2, px(9));
    assert_eq!((f.width(), f.height()), (3, 2));
    assert_eq!(f.get_pixel(2, 1), px(9));
}

#[test]
fn quarter_turns_in_degrees() {
    assert_eq!(turn_degrees(QuarterTurn::Zero), 0);
    assert_eq!(turn_degrees(QuarterTurn::ThreeQuarters), 270);
}
