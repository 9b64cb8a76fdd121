//! Detected boxes in the normalized 0..1000 space, their reconciliation
//! and their mapping to pixel rectangles.

use vstd::prelude::*;
use vstd::math::{max, min};
use crate::rotation::QuarterTurn;

verus! {

/// The side of the normalized coordinate space.
pub const NORM_EXTENT: u32 = 1000;

/// Axis-aligned rectangle in normalized coordinates, origin top-left.
#[derive(Clone, Copy, Debug, PartialEq, Eq, Structural)]
pub struct NormRect {
    pub x: u32,
    pub y: u32,
    pub width: u32,
    pub height: u32,
}

/// Axis-aligned rectangle in pixels, origin top-left.
#[derive(Clone, Copy, Debug, PartialEq, Eq, Structural)]
pub struct PixelRect {
    pub x: u32,
    pub y: u32,
    pub width: u32,
    pub height: u32,
}

/// A point of a contour in normalized coordinates.
#[derive(Clone, Copy, Debug, PartialEq, Eq, Structural)]
pub struct Point2D {
    pub x: u32,
    pub y: u32,
}

/// A photo found on the scan by the detector.
#[derive(Debug)]
pub struct BoundingBox {
    pub x: u32,
    pub y: u32,
    pub width: u32,
    pub height: u32,
    /// Detector confidence in thousandths, 0..=1000.
    pub confidence_permille: u32,
    pub label: Option<String>,
    /// The clockwise rotation found in the scan.
    pub rotation: QuarterTurn,
    /// The photo's true outline, empty where unknown.
    pub contour: Vec<Point2D>,
    pub needs_outpaint: bool,
}

impl NormRect {
    /// Lies inside the normalized space.
    pub open spec fn wf(self) -> bool {
        self.x + self.width <= NORM_EXTENT && self.y + self.height <= NORM_EXTENT
    }
}

/// Extent of the horizontal overlap of two rectangles, non-positive where
/// they do not overlap horizontally.
pub open spec fn h_overlap(a: NormRect, b: NormRect) -> int {
    min(a.x + a.width, b.x + b.width) - max(a.x as int, b.x as int)
}

/// Extent of the vertical overlap of two rectangles.
pub open spec fn v_overlap(a: NormRect, b: NormRect) -> int {
    min(a.y + a.height, b.y + b.height) - max(a.y as int, b.y as int)
}

/// The two rectangles share an area.
pub open spec fn overlapping(a: NormRect, b: NormRect) -> bool {
    h_overlap(a, b) > 0 && v_overlap(a, b) > 0
}

/// `a - s`, or 0 where `s` exceeds `a`.
pub open spec fn sat_sub(a: u32, s: int) -> u32 {
    if a >= s { (a - s) as u32 } else { 0 }
}

/// `a` and `b` after one reconciliation step: where they overlap, the
/// thinner overlap is closed by `overlap / 2 + 1`, taken from the far edge
/// of the box that comes first along that axis and from the near edge of
/// the other.
pub open spec fn resolve_pair(a: NormRect, b: NormRect) -> (NormRect, NormRect) {
    let h = h_overlap(a, b);
    let v = v_overlap(a, b);
    if h > 0 && v > 0 {
        let s = min(h, v) / 2 + 1;
        if h <= v {
            if a.x < b.x {
                (NormRect { width: sat_sub(a.width, s), ..a },
                 NormRect { x: (b.x + s) as u32, width: sat_sub(b.width, s), ..b })
            } else {
                (NormRect { x: (a.x + s) as u32, width: sat_sub(a.width, s), ..a },
                 NormRect { width: sat_sub(b.width, s), ..b })
            }
        } else {
            if a.y < b.y {
                (NormRect { height: sat_sub(a.height, s), ..a },
                 NormRect { y: (b.y + s) as u32, height: sat_sub(b.height, s), ..b })
            } else {
                (NormRect { y: (a.y + s) as u32, height: sat_sub(a.height, s), ..a },
                 NormRect { height: sat_sub(b.height, s), ..b })
            }
        }
    } else {
        (a, b)
    }
}

/// `s` with the pair `(i, j)` resolved.
pub open spec fn resolve_at(s: Seq<NormRect>, i: int, j: int) -> Seq<NormRect> {
    let (a, b) = resolve_pair(s[i], s[j]);
    Seq::new(s.len(), |k: int| if k == i { a } else if k == j { b } else { s[k] })
}

/// Resolves the pairs `(i, j)`, `(i, j + 1)`, ... in turn.
pub open spec fn sweep_partners(s: Seq<NormRect>, i: int, j: int) -> Seq<NormRect>
    decreases s.len() - j,
{
    if j < 0 || j >= s.len() {
        s
    } else {
        sweep_partners(resolve_at(s, i, j), i, j + 1)
    }
}

/// Resolves, for `i`, `i + 1`, ... in turn, every pair `(i, j)` with `j > i`.
pub open spec fn sweep_from(s: Seq<NormRect>, i: int) -> Seq<NormRect>
    decreases s.len() - i
    via sweep_from_decreases
{
    if i < 0 || i >= s.len() {
        s
    } else {
        sweep_from(sweep_partners(s, i, i + 1), i + 1)
    }
}

/// The single greedy pass over all unordered pairs, in index order.
pub open spec fn reconciled(s: Seq<NormRect>) -> Seq<NormRect> {
    sweep_from(s, 0)
}

proof fn lemma_sweep_partners_keeps_len(s: Seq<NormRect>, i: int, j: int)
    ensures
        sweep_partners(s, i, j).len() == s.len(),
    decreases s.len() - j,
{
    if !(j < 0 || j >= s.len()) {
        lemma_sweep_partners_keeps_len(resolve_at(s, i, j), i, j + 1);
    }
}

#[via_fn]
proof fn sweep_from_decreases(s: Seq<NormRect>, i: int) {
    lemma_sweep_partners_keeps_len(s, i, i + 1);
}

/// Every rectangle lies inside the normalized space.
pub open spec fn all_wf(s: Seq<NormRect>) -> bool {
    forall|k: int| 0 <= k < s.len() ==> (#[trigger] s[k]).wf()
}

proof fn lemma_resolve_pair_wf(a: NormRect, b: NormRect)
    requires
        a.wf(),
        b.wf(),
    ensures
        resolve_pair(a, b).0.wf(),
        resolve_pair(a, b).1.wf(),
{
}

proof fn lemma_sweep_partners_len(s: Seq<NormRect>, i: int, j: int)
    requires
        0 <= i < s.len(),
        all_wf(s),
    ensures
        sweep_partners(s, i, j).len() == s.len(),
        all_wf(sweep_partners(s, i, j)),
    decreases s.len() - j,
{
    if !(j < 0 || j >= s.len()) {
        lemma_resolve_pair_wf(s[i], s[j]);
        lemma_sweep_partners_len(resolve_at(s, i, j), i, j + 1);
    }
}

proof fn lemma_sweep_from_len(s: Seq<NormRect>, i: int)
    requires
        all_wf(s),
    ensures
        sweep_from(s, i).len() == s.len(),
        all_wf(sweep_from(s, i)),
    decreases s.len() - i,
{
    if !(i < 0 || i >= s.len()) {
        lemma_sweep_partners_len(s, i, i + 1);
        lemma_sweep_from_len(sweep_partners(s, i, i + 1), i + 1);
    }
}

fn resolve_rects(a: NormRect, b: NormRect) -> (r: (NormRect, NormRect))
    requires
        a.wf(),
        b.wf(),
    ensures
        r == resolve_pair(a, b),
{
    let a_right = a.x + a.width;
    let b_right = b.x + b.width;
    let a_bottom = a.y + a.height;
    let b_bottom = b.y + b.height;
    let h: i64 = (if a_right < b_right { a_right } else { b_right }) as i64
        - (if a.x > b.x { a.x } else { b.x }) as i64;
    let v: i64 = (if a_bottom < b_bottom { a_bottom } else { b_bottom }) as i64
        - (if a.y > b.y { a.y } else { b.y }) as i64;
    if h > 0 && v > 0 {
        let overlap = if h < v { h } else { v };
        let s = (overlap / 2 + 1) as u32;
        if h <= v {
            if a.x < b.x {
                (NormRect { width: a.width.saturating_sub(s), ..a },
                 NormRect { x: b.x + s, width: b.width.saturating_sub(s), ..b })
            } else {
                (NormRect { x: a.x + s, width: a.width.saturating_sub(s), ..a },
                 NormRect { width: b.width.saturating_sub(s), ..b })
            }
        } else {
            if a.y < b.y {
                (NormRect { height: a.height.saturating_sub(s), ..a },
                 NormRect { y: b.y + s, height: b.height.saturating_sub(s), ..b })
            } else {
                (NormRect { y: a.y + s, height: a.height.saturating_sub(s), ..a },
                 NormRect { height: b.height.saturating_sub(s), ..b })
            }
        }
    } else {
        (a, b)
    }
}

/// Removes the positive-area overlaps among `rects` by one greedy pass
/// over the unordered pairs in index order; order and count are kept.
pub fn reconcile_rects(rects: &mut Vec<NormRect>)
    requires
        all_wf(old(rects)@),
    ensures
        final(rects)@ == reconciled(old(rects)@),
        final(rects)@.len() == old(rects)@.len(),
        all_wf(final(rects)@),
{
    let ghost target = reconciled(rects@);
    proof {
        lemma_sweep_from_len(rects@, 0);
    }
    let n = rects.len();
    let mut i: usize = 0;
    while i < n
        invariant
            n == rects@.len(),
            i <= n,
            all_wf(rects@),
            sweep_from(rects@, i as int) == target,
        decreases n - i,
    {
        let mut j: usize = i + 1;
        while j < n
            invariant
                n == rects@.len(),
                i < n,
                i + 1 <= j <= n,
                all_wf(rects@),
                sweep_from(sweep_partners(rects@, i as int, j as int), i + 1) == target,
            decreases n - j,
        {
            let ghost before = rects@;
            let (a, b) = resolve_rects(rects[i], rects[j]);
            proof {
                lemma_resolve_pair_wf(before[i as int], before[j as int]);
            }
            rects.set(i, a);
            rects.set(j, b);
            assert(rects@ =~= resolve_at(before, i as int, j as int));
            j += 1;
        }
        i += 1;
    }
}

impl BoundingBox {
    /// The box's rectangle.
    pub open spec fn rect(&self) -> NormRect {
        NormRect { x: self.x, y: self.y, width: self.width, height: self.height }
    }

    /// Everything but the rectangle agrees.
    pub open spec fn same_details(&self, o: &BoundingBox) -> bool {
        &&& self.confidence_permille == o.confidence_permille
        &&& self.label == o.label
        &&& self.rotation == o.rotation
        &&& self.contour@ == o.contour@
        &&& self.needs_outpaint == o.needs_outpaint
    }

    /// The box's rectangle.
    pub fn get_rect(&self) -> (r: NormRect)
        ensures
            r == self.rect(),
    {
        NormRect { x: self.x, y: self.y, width: self.width, height: self.height }
    }
}

/// The rectangles of a list of boxes.
pub open spec fn rects_of(s: Seq<BoundingBox>) -> Seq<NormRect> {
    s.map_values(|b: BoundingBox| b.rect())
}

/// Reconciles the rectangles of `boxes` (see [`reconcile_rects`]); every box
/// keeps its place and all but its rectangle.
pub fn reconcile_boxes(boxes: Vec<BoundingBox>) -> (r: Vec<BoundingBox>)
    requires
        all_wf(rects_of(boxes@)),
    ensures
        r@.len() == boxes@.len(),
        rects_of(r@) == reconciled(rects_of(boxes@)),
        all_wf(rects_of(r@)),
        forall|k: int| 0 <= k < r@.len() ==> (#[trigger] r@[k]).same_details(&boxes@[k]),
{
    let mut rects: Vec<NormRect> = Vec::new();
    let mut k: usize = 0;
    while k < boxes.len()
        invariant
            k <= boxes@.len(),
            rects@ == rects_of(boxes@).subrange(0, k as int),
        decreases boxes@.len() - k,
    {
        rects.push(boxes[k].get_rect());
        k += 1;
        assert(rects@ =~= rects_of(boxes@).subrange(0, k as int));
    }
    assert(rects@ =~= rects_of(boxes@));
    reconcile_rects(&mut rects);
    let ghost orig = boxes@;
    let mut rest = boxes;
    let mut out: Vec<BoundingBox> = Vec::new();
    let n = rects.len();
    let mut k: usize = 0;
    while k < n
        invariant
            n == rects@.len(),
            n == orig.len(),
            k <= n,
            rest@ == orig.subrange(k as int, n as int),
            out@.len() == k,
            all_wf(rects@),
            forall|i: int| 0 <= i < k ==> (#[trigger] out@[i]).rect() == rects@[i],
            forall|i: int| 0 <= i < k ==> (#[trigger] out@[i]).same_details(&orig[i]),
        decreases n - k,
    {
        let b = rest.remove(0);
        let rc = rects[k];
        out.push(BoundingBox {
            x: rc.x,
            y: rc.y,
            width: rc.width,
            height: rc.height,
            confidence_permille: b.confidence_permille,
            label: b.label,
            rotation: b.rotation,
            contour: b.contour,
            needs_outpaint: b.needs_outpaint,
        });
        k += 1;
        assert(rest@ =~= orig.subrange(k as int, n as int));
    }
    assert(rects_of(out@) =~= rects@);
    out
}

/// Where two boxes overlap, the box that comes first along the axis the
/// reconciler shrinks reaches past the far edge of the other.
pub open spec fn nested_on_shrink_axis(a: NormRect, b: NormRect) -> bool {
    let h = h_overlap(a, b);
    let v = v_overlap(a, b);
    &&& overlapping(a, b)
    &&& if h <= v {
        if a.x < b.x { a.x + a.width > b.x + b.width } else { b.x + b.width > a.x + a.width }
    } else {
        if a.y < b.y { a.y + a.height > b.y + b.height } else { b.y + b.height > a.y + a.height }
    }
}

/// Two boxes no longer overlap after reconciliation, unless, along the axis
/// of the shrink, the first of them reaches past the far edge of the other.
pub proof fn lemma_two_boxes_disjoint_after_reconcile(a: NormRect, b: NormRect)
    requires
        a.wf(),
        b.wf(),
        !nested_on_shrink_axis(a, b),
    ensures
        reconciled(seq![a, b]).len() == 2,
        !overlapping(reconciled(seq![a, b])[0], reconciled(seq![a, b])[1]),
{
    let s = seq![a, b];
    let t = resolve_at(s, 0, 1);
    assert(sweep_partners(t, 0, 2) == t);
    assert(sweep_partners(s, 0, 1) == t);
    assert(sweep_partners(t, 1, 2) == t);
    assert(sweep_from(t, 2) == t);
    assert(sweep_from(t, 1) == t);
    assert(reconciled(s) == t);
    assert(t[0] == resolve_pair(a, b).0);
    assert(t[1] == resolve_pair(a, b).1);
}

/// Converts a start and length along one axis from normalized units to
/// pixels of a scan `scan` pixels long, widened by half a percent of the
/// length on each side and clipped to the scan.
pub open spec fn pixel_span(start: int, len: int, scan: int) -> (int, int) {
    let p = start * scan / 1000;
    let l = len * scan / 1000;
    let pad = l / 200;
    let p0 = max(p - pad, 0);
    (p0, min(l + 2 * pad, scan - p0))
}

/// The pixel rectangle of `r` on a scan of `scan_w` x `scan_h` pixels, or
/// `None` where it has no area.
pub open spec fn pixel_rect_of(r: NormRect, scan_w: int, scan_h: int) -> Option<PixelRect> {
    let (x0, cw) = pixel_span(r.x as int, r.width as int, scan_w);
    let (y0, ch) = pixel_span(r.y as int, r.height as int, scan_h);
    if cw > 0 && ch > 0 {
        Some(PixelRect { x: x0 as u32, y: y0 as u32, width: cw as u32, height: ch as u32 })
    } else {
        None
    }
}

fn to_pixel_span(start: u32, len: u32, scan: u32) -> (r: (u32, i64))
    requires
        start + len <= NORM_EXTENT,
    ensures
        r.0 as int == pixel_span(start as int, len as int, scan as int).0,
        r.1 as int == pixel_span(start as int, len as int, scan as int).1,
        r.0 <= scan,
        r.1 <= scan - r.0,
{
    assert(start as u64 * scan as u64 <= 1000 * u32::MAX) by (nonlinear_arith)
        requires start <= 1000;
    assert(len as u64 * scan as u64 <= 1000 * u32::MAX) by (nonlinear_arith)
        requires len <= 1000;
    let p: u64 = start as u64 * scan as u64 / 1000;
    let l: u64 = len as u64 * scan as u64 / 1000;
    assert(p <= scan) by (nonlinear_arith)
        requires p == start as u64 * scan as u64 / 1000, start <= 1000;
    assert(l <= scan) by (nonlinear_arith)
        requires l == len as u64 * scan as u64 / 1000, len <= 1000;
    let pad: u64 = l / 200;
    let p0: u64 = if p >= pad { p - pad } else { 0 };
    let want: i64 = (l + 2 * pad) as i64;
    let room: i64 = scan as i64 - p0 as i64;
    (p0 as u32, if want < room { want } else { room })
}

/// The pixel rectangle of `r` on a scan of `scan_w` x `scan_h` pixels, or
/// `None` where it has no area; a rectangle returned lies on the scan.
pub fn pixel_rect(r: NormRect, scan_w: u32, scan_h: u32) -> (o: Option<PixelRect>)
    requires
        r.wf(),
    ensures
        o == pixel_rect_of(r, scan_w as int, scan_h as int),
        o matches Some(p) ==> p.x + p.width <= scan_w && p.y + p.height <= scan_h,
{
    let (x0, cw) = to_pixel_span(r.x, r.width, scan_w);
    let (y0, ch) = to_pixel_span(r.y, r.height, scan_h);
    if cw > 0 && ch > 0 {
        Some(PixelRect { x: x0, y: y0, width: cw as u32, height: ch as u32 })
    } else {
        None
    }
}

/// The rectangle kept of raw detector coordinates: the origin is clipped so
/// that one unit of room is left, each extent to at least 1 and then to the
/// room left.
pub open spec fn ingested(x: int, y: int, w: int, h: int) -> NormRect {
    let x0 = min(x, NORM_EXTENT - 1);
    let y0 = min(y, NORM_EXTENT - 1);
    NormRect {
        x: x0 as u32,
        y: y0 as u32,
        width: min(max(w, 1), NORM_EXTENT - x0) as u32,
        height: min(max(h, 1), NORM_EXTENT - y0) as u32,
    }
}

/// Clips raw detector coordinates into the normalized space; the box keeps
/// at least one unit in each direction.
pub fn ingest_rect(x: u64, y: u64, w: u64, h: u64) -> (r: NormRect)
    ensures
        r == ingested(x as int, y as int, w as int, h as int),
        r.wf(),
        r.width >= 1,
        r.height >= 1,
{
    let x0: u64 = if x < 999 { x } else { 999 };
    let y0: u64 = if y < 999 { y } else { 999 };
    let w1: u64 = if w < 1 { 1 } else { w };
    let h1: u64 = if h < 1 { 1 } else { h };
    let cw: u64 = if w1 < 1000 - x0 { w1 } else { 1000 - x0 };
    let ch: u64 = if h1 < 1000 - y0 { h1 } else { 1000 - y0 };
    NormRect { x: x0 as u32, y: y0 as u32, width: cw as u32, height: ch as u32 }
}

} // verus!
