//! Whether the gap between a photo's true outline and its rectangle is to
//! be handed to an outpainting service, and the outline it is given.

use vstd::prelude::*;
use vstd::math::min;
use crate::geometry::{BoundingBox, Point2D, NORM_EXTENT};

verus! {

/// An outline needs at least this many points to enclose an area.
pub const MIN_CONTOUR_POINTS: usize = 3;

/// What becomes of a crop with respect to its outline.
#[derive(Clone, Copy, Debug, PartialEq, Eq, Structural)]
pub enum OutpaintDecision {
    /// The crop is used as it is.
    KeepAsIs,
    /// The crop and its outline go to the outpainting service.
    Forward,
}

/// An outline of `n` points encloses an area.
pub open spec fn encloses_area(n: int) -> bool {
    n >= MIN_CONTOUR_POINTS
}

/// The decision for an outline of `n` points and the detector's hint.
pub open spec fn decision_for(n: int, needs_outpaint: bool) -> OutpaintDecision {
    if encloses_area(n) && needs_outpaint {
        OutpaintDecision::Forward
    } else {
        OutpaintDecision::KeepAsIs
    }
}

/// An outline can be sent for outpainting: it has at least three points.
pub fn contour_allows_outpaint(contour: &Vec<Point2D>) -> (r: bool)
    ensures
        r == encloses_area(contour@.len() as int),
{
    contour.len() >= MIN_CONTOUR_POINTS
}

/// Decides for one detected box: its crop is forwarded only where its
/// outline encloses an area and the detector asked for outpainting.
pub fn outpaint_decision(b: &BoundingBox) -> (r: OutpaintDecision)
    ensures
        r == decision_for(b.contour@.len() as int, b.needs_outpaint),
{
    if contour_allows_outpaint(&b.contour) && b.needs_outpaint {
        OutpaintDecision::Forward
    } else {
        OutpaintDecision::KeepAsIs
    }
}

/// A raw outline point clipped into the normalized space.
pub open spec fn clipped_point(x: int, y: int) -> Point2D {
    Point2D { x: min(x, NORM_EXTENT as int) as u32, y: min(y, NORM_EXTENT as int) as u32 }
}

/// Clips a raw outline point into the normalized space.
pub fn ingest_point(x: u64, y: u64) -> (r: Point2D)
    ensures
        r == clipped_point(x as int, y as int),
{
    let cx: u64 = if x < 1000 { x } else { 1000 };
    let cy: u64 = if y < 1000 { y } else { 1000 };
    Point2D { x: cx as u32, y: cy as u32 }
}

/// An outline with too few points is never forwarded, whatever the hint.
pub proof fn lemma_short_contour_is_kept(n: int, needs_outpaint: bool)
    requires
        0 <= n < MIN_CONTOUR_POINTS,
    ensures
        decision_for(n, needs_outpaint) == OutpaintDecision::KeepAsIs,
{
}

} // verus!
