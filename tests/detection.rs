use photo_separation::detection::{decimal_text, has_failed_completeness, merge_missing_boxes, DetectionResult};
use photo_separation::geometry::BoundingBox;
use photo_separation::model::{default_true, AppError, AppSettings, VerificationCheck};
use photo_separation::codec::CodecError;
use photo_separation::rotation::QuarterTurn;

fn bx(x: u32, confidence_permille: u32) -> BoundingBox {
    BoundingBox {
        x,
        y: 0,
        width: 10,
        height: 10,
        confidence_permille,
        label: None,
        rotation: QuarterTurn::Zero,
        contour: Vec::new(),
        needs_outpaint: false,
    }
}

fn detection(n: u32) -> DetectionResult {
    DetectionResult {
        photo_count: n as usize,
        bounding_boxes: (0..n).map(|i| bx(i * 20, 900)).collect(),
        provider_used: "google".to_string(),
        scan_width: 0,
        scan_height: 0,
    }
}

fn check(name: &str, passed: bool) -> VerificationCheck {
    VerificationCheck { name: name.to_string(), passed, detail: None }
}

#[test]
fn missing_boxes_are_merged_when_completeness_fails() {
    let checks = vec![check("bounds", true), check("completeness", false)];
    assert!(has_failed_completeness(&checks));
    let r = merge_missing_boxes(detection(2), &checks, vec![bx(500, 950), bx(700, 600)]);
    assert_eq!(r.photo_count, 4);
    assert_eq!(r.bounding_boxes.len(), 4);
    assert_eq!(r.bounding_boxes[2].label.as_deref(), Some("photo 3"));
    assert_eq!(r.bounding_boxes[2].confidence_permille, 800);
    assert_eq!(r.bounding_boxes[2].x, 500);
    assert_eq!(r.bounding_boxes[3].label.as_deref(), Some("photo 4"));
    assert_eq!(r.bounding_boxes[3].confidence_permille, 600);
    assert_eq!(r.bounding_boxes[0].x, 0);
}

#[test]
fn labels_count_past_nine() {
    let checks = vec![check("completeness", false)];
    let r = merge_missing_boxes(detection(11), &checks, vec![bx(1, 100)]);
    assert_eq!(r.bounding_boxes[11].label.as_deref(), Some("photo 12"));
}

#[test]
fn detection_is_kept_when_complete_or_nothing_missing() {
    let passing = vec![check("completeness", true)];
    assert!(!has_failed_completeness(&passing));
    let r = merge_missing_boxes(detection(2), &passing, vec![bx(500, 950)]);
    assert_eq!(r.photo_count, 2);
    assert_eq!(r.bounding_boxes.len(), 2);
    let failing = vec![check("completeness", false)];
    let r = merge_missing_boxes(detection(2), &failing, vec![]);
    assert_eq!(r.bounding_boxes.len(), 2);
}

#[test]
fn settings_defaults() {
    let s = AppSettings::default();
    assert_eq!(s.language, "pl");
    assert_eq!(s.theme, "dark");
    assert!(s.auto_save);
    assert_eq!(s.output_quality, 90);
    assert!(s.preferred_provider.is_none());
    assert!(s.verification_enabled);
    assert!(default_true());
}

#[test]
fn codec_errors_have_messages() {
    assert_eq!(AppError::from_codec(CodecError::Base64).message, "Base64 decode error");
    assert_eq!(AppError::from_codec(CodecError::ImageEncode).message, "Image encode error");
    assert_eq!(AppError::new("x".to_string()).message, "x");
}

#[test]
fn decimal_text_writes_digits() {
    assert_eq!(decimal_text(0), "0");
    assert_eq!(decimal_text(7), "7");
    assert_eq!(decimal_text(1205), "1205");
    assert_eq!(decimal_text(usize::MAX), usize::MAX.to_string());
}
