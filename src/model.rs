//! The records exchanged with callers of the photo service: requests,
//! settings, provider status and verification reports.

use vstd::prelude::*;
use crate::geometry::{BoundingBox, Point2D};
use crate::codec::CodecError;
use crate::service::new_id;

verus! {

/// An error reported to a caller, as a message.
#[derive(Clone, Debug)]
pub struct AppError {
    pub message: String,
}

impl AppError {
    /// An error with the given message.
    pub fn new(message: String) -> (r: AppError)
        ensures
            r.message@ == message@,
    {
        AppError { message }
    }

    /// The error a codec failure is reported as.
    pub fn from_codec(e: CodecError) -> (r: AppError)
        ensures
            r.message@ == match e {
                CodecError::Base64 => "Base64 decode error"@,
                CodecError::ImageDecode => "Image decode error"@,
                CodecError::ImageEncode => "Image encode error"@,
            },
    {
        let text = match e {
            CodecError::Base64 => "Base64 decode error",
            CodecError::ImageDecode => "Image decode error",
            CodecError::ImageEncode => "Image encode error",
        };
        AppError { message: text.to_owned() }
    }
}

/// A request to restore a photo.
pub struct RestoreRequest {
    pub image_base64: String,
    pub mime_type: String,
}

/// A request to find the photos on a scan.
pub struct DetectRequest {
    pub image_base64: String,
    pub mime_type: String,
}

/// A request to cut the detected photos out of a scan.
pub struct CropRequest {
    pub image_base64: String,
    pub mime_type: String,
    pub bounding_boxes: Vec<BoundingBox>,
    pub original_filename: String,
}

/// A request to fill the gap between a photo's outline and its rectangle.
pub struct OutpaintRequest {
    pub cropped_base64: String,
    pub mime_type: String,
    pub contour: Vec<Point2D>,
    pub bbox_width: u32,
    pub bbox_height: u32,
}

/// A request to turn an image by a number of degrees clockwise.
pub struct RotateRequest {
    pub image_base64: String,
    pub mime_type: String,
    pub degrees: i32,
}

/// A request to run a chain of local filters on an image.
pub struct FiltersRequest {
    pub image_base64: String,
    pub mime_type: String,
    /// The filter names; where absent, the default chain.
    pub filters: Option<Vec<String>>,
}

/// A request for an image's size, encoding and EXIF fields.
pub struct MetadataRequest {
    pub image_base64: String,
    pub mime_type: String,
}

/// A request to write an image to a file.
pub struct SaveRequest {
    pub image_base64: String,
    pub file_path: String,
}

/// A request to check a restoration against its original.
pub struct VerifyRestorationRequest {
    pub original_base64: String,
    pub restored_base64: String,
    pub mime_type: String,
}

/// A request to check detected boxes against their scan.
pub struct VerifyDetectionRequest {
    pub image_base64: String,
    pub mime_type: String,
    pub bounding_boxes: Vec<BoundingBox>,
}

/// A request to check one cut-out photo.
pub struct VerifyCropRequest {
    pub cropped_base64: String,
    pub mime_type: String,
    pub crop_index: usize,
}

/// A request to store a provider's API key.
pub struct SetApiKeyRequest {
    pub provider: String,
    pub key: String,
}

/// A record of one piece of work, newest first in the history.
#[derive(Clone, Debug)]
pub struct HistoryEntry {
    pub id: String,
    /// Milliseconds since the Unix epoch, UTC.
    pub timestamp_ms: i64,
    pub operation: OperationType,
    pub input_preview: String,
    pub result_preview: Option<String>,
    pub provider: String,
    pub success: bool,
    pub error_message: Option<String>,
}

impl HistoryEntry {
    /// A fresh entry, not yet successful, with a new identifier.
    pub fn new(operation: OperationType, input: String, provider: &String, timestamp_ms: i64) -> (r: HistoryEntry)
        ensures
            r.id@.len() == 36,
            r.timestamp_ms == timestamp_ms,
            r.operation == operation,
            r.input_preview@ == input@,
            r.result_preview is None,
            r.provider@ == provider@,
            !r.success,
            r.error_message is None,
    {
        HistoryEntry {
            id: new_id(),
            timestamp_ms,
            operation,
            input_preview: input,
            result_preview: None,
            provider: provider.clone(),
            success: false,
            error_message: None,
        }
    }
}

/// The kind of work a history entry records.
#[derive(Clone, Copy, Debug, PartialEq, Eq, Structural)]
pub enum OperationType {
    Restoration,
    PhotoSeparation,
    Verification,
}

#[derive(Clone, Debug)]
pub struct ProviderStatus {
    pub name: String,
    pub enabled: bool,
    pub available: bool,
    pub priority: u8,
    pub last_error: Option<String>,
}

#[derive(Clone, Debug)]
pub struct AppSettings {
    pub language: String,
    pub theme: String,
    pub auto_save: bool,
    pub output_quality: u8,
    pub preferred_provider: Option<String>,
    pub verification_enabled: bool,
}

/// The value a missing `verification_enabled` setting takes.
pub fn default_true() -> (r: bool)
    ensures
        r,
{
    true
}

impl Default for AppSettings {
    /// Polish, dark theme, saving automatically at quality 90, no preferred
    /// provider, verification on.
    fn default() -> (r: AppSettings)
        ensures
            r.language@ == "pl"@,
            r.theme@ == "dark"@,
            r.auto_save,
            r.output_quality == 90,
            r.preferred_provider is None,
            r.verification_enabled,
    {
        AppSettings {
            language: "pl".to_owned(),
            theme: "dark".to_owned(),
            auto_save: true,
            output_quality: 90,
            preferred_provider: None,
            verification_enabled: default_true(),
        }
    }
}

#[derive(Clone, Debug)]
pub struct HealthResponse {
    pub status: String,
    pub version: String,
    pub providers: Vec<ProviderStatus>,
    pub uptime_seconds: u64,
}

#[derive(Clone, Debug)]
pub struct AiModel {
    pub id: String,
    pub name: String,
    pub provider: String,
}

/// The verdict of a verification.
#[derive(Clone, Copy, Debug, PartialEq, Eq, Structural)]
pub enum VerificationStatus {
    Pass,
    Warning,
    Fail,
}

/// The stage of the work a verification looked at.
#[derive(Clone, Copy, Debug, PartialEq, Eq, Structural)]
pub enum VerificationStage {
    Restoration,
    Detection,
    Crop,
}

#[derive(Clone, Debug)]
pub struct VerificationCheck {
    pub name: String,
    pub passed: bool,
    pub detail: Option<String>,
}

#[derive(Clone, Debug)]
pub struct VerificationIssue {
    pub severity: String,
    pub description: String,
    pub suggestion: Option<String>,
}

/// The outcome of a verification by a vision model.
#[derive(Debug)]
pub struct VerificationResult {
    pub id: String,
    /// Milliseconds since the Unix epoch, UTC.
    pub timestamp_ms: i64,
    pub stage: VerificationStage,
    pub status: VerificationStatus,
    pub confidence: u8,
    pub checks: Vec<VerificationCheck>,
    pub issues: Vec<VerificationIssue>,
    pub recommendations: Vec<String>,
    pub processing_time_ms: u64,
    pub model_used: String,
    /// Boxes of photos the verifier found missing from a detection.
    pub missing_boxes: Vec<BoundingBox>,
}

impl VerificationResult {
    /// A passing result with nothing checked yet, for the given stage.
    pub fn new(stage: VerificationStage, timestamp_ms: i64) -> (r: VerificationResult)
        ensures
            r.id@.len() == 36,
            r.timestamp_ms == timestamp_ms,
            r.stage == stage,
            r.status == VerificationStatus::Pass,
            r.confidence == 0,
            r.checks@.len() == 0,
            r.issues@.len() == 0,
            r.recommendations@.len() == 0,
            r.processing_time_ms == 0,
            r.model_used@ == "gemini-3-flash-preview"@,
            r.missing_boxes@.len() == 0,
    {
        VerificationResult {
            id: new_id(),
            timestamp_ms,
            stage,
            status: VerificationStatus::Pass,
            confidence: 0,
            checks: Vec::new(),
            issues: Vec::new(),
            recommendations: Vec::new(),
            processing_time_ms: 0,
            model_used: "gemini-3-flash-preview".to_owned(),
            missing_boxes: Vec::new(),
        }
    }
}

/// The outcome of a restoration by a provider.
#[derive(Clone, Debug)]
pub struct RestorationResult {
    pub id: String,
    /// Milliseconds since the Unix epoch, UTC.
    pub timestamp_ms: i64,
    pub original_image: String,
    pub restored_image: String,
    pub improvements: Vec<String>,
    pub provider_used: String,
    pub processing_time_ms: u64,
}

impl RestorationResult {
    /// An empty result for a restoration of `original` by `provider`.
    pub fn new(provider: &String, original: String, timestamp_ms: i64) -> (r: RestorationResult)
        ensures
            r.id@.len() == 36,
            r.timestamp_ms == timestamp_ms,
            r.original_image@ == original@,
            r.restored_image@.len() == 0,
            r.improvements@.len() == 0,
            r.provider_used@ == provider@,
            r.processing_time_ms == 0,
    {
        RestorationResult {
            id: new_id(),
            timestamp_ms,
            original_image: original,
            restored_image: String::new(),
            improvements: Vec::new(),
            provider_used: provider.clone(),
            processing_time_ms: 0,
        }
    }
}

} // verus!
