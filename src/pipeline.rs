//! Cutting the photos out of a decoded scan: reconcile the boxes, map each
//! to pixels, crop, set upright and trim.

use vstd::prelude::*;
use crate::raster::{Raster, cropped, Rgba};
use crate::geometry::{
    BoundingBox, NormRect, all_wf, rects_of, reconciled, pixel_rect, pixel_rect_of, reconcile_boxes,
};
use crate::rotation::{correct_rotation, correction_for, rotated_cw, turned_dims, QuarterTurn};
use crate::trim::{auto_trim_dark_edges, trimmed, lemma_trim_bound, lemma_bright_is_kept, all_bright, MAX_TRIM_PERCENT};
use crate::raster::grid_shape;
use crate::rotation::{detected_bucket, lemma_correction_undoes_rotation, BUCKET_HALF_WIDTH};
use crate::geometry::{pixel_span, PixelRect};

verus! {

/// One photo cut out of a scan.
#[derive(Debug)]
pub struct CutPhoto {
    /// Position of the originating box in the input list.
    pub index: usize,
    pub raster: Raster,
    /// The originating box, after reconciliation.
    pub source_box: BoundingBox,
}

/// The photos cut out of a scan, and how many boxes had no pixel area.
#[derive(Debug)]
pub struct CropOutcome {
    pub photos: Vec<CutPhoto>,
    pub skipped: usize,
}

/// The pixels of the photo in `r` on a `w` x `h` scan `g`, found turned by
/// `rotation`: cropped, set upright and trimmed.
pub open spec fn photo_pixels(g: Seq<Seq<Rgba>>, w: int, h: int, r: NormRect, rotation: QuarterTurn) -> Seq<Seq<Rgba>> {
    let p = pixel_rect_of(r, w, h).unwrap();
    let c = cropped(g, p.x as int, p.y as int, p.width as int, p.height as int);
    let q = correction_for(rotation);
    let (w1, h1) = turned_dims(p.width as int, p.height as int, q);
    trimmed(rotated_cw(c, p.width as int, p.height as int, q), w1, h1, MAX_TRIM_PERCENT as int)
}

/// The indices below `n` of the rectangles with a pixel area, in order.
pub open spec fn kept_indices(rects: Seq<NormRect>, w: int, h: int, n: int) -> Seq<int>
    decreases n,
{
    if n <= 0 {
        Seq::empty()
    } else {
        let rest = kept_indices(rects, w, h, n - 1);
        if pixel_rect_of(rects[n - 1], w, h) is Some { rest.push(n - 1) } else { rest }
    }
}

proof fn lemma_kept_bounds(rects: Seq<NormRect>, w: int, h: int, n: int)
    ensures
        kept_indices(rects, w, h, n).len() <= if n >= 0 { n } else { 0 },
        forall|i: int| 0 <= i < kept_indices(rects, w, h, n).len()
            ==> 0 <= #[trigger] kept_indices(rects, w, h, n)[i] < n,
    decreases n,
{
    if n > 0 {
        lemma_kept_bounds(rects, w, h, n - 1);
    }
}

/// Cuts one photo out of the scan; `None` where its box has no pixel area.
pub fn crop_one(scan: &Raster, r: NormRect, rotation: QuarterTurn) -> (o: Option<Raster>)
    requires
        scan.wf(),
        r.wf(),
    ensures
        pixel_rect_of(r, scan.width as int, scan.height as int) is None ==> o is None,
        pixel_rect_of(r, scan.width as int, scan.height as int) is Some ==> (o matches Some(img)
            && img.wf()
            && img.width > 0
            && img.height > 0
            && img.pixels() == photo_pixels(scan.pixels(), scan.width as int, scan.height as int, r, rotation)),
{
    match pixel_rect(r, scan.width, scan.height) {
        None => None,
        Some(p) => {
            let c = scan.crop(p.x, p.y, p.width, p.height);
            let upright = correct_rotation(&c, rotation);
            proof {
                lemma_trim_bound(upright.pixels(), upright.width as int, upright.height as int, MAX_TRIM_PERCENT as int);
            }
            Some(auto_trim_dark_edges(&upright))
        },
    }
}

/// Cuts every photo out of a decoded scan: the boxes are reconciled, each
/// is mapped to pixels, and a box without pixel area is skipped and
/// counted; the others give a photo each, in box order.
pub fn crop_all(scan: &Raster, boxes: Vec<BoundingBox>) -> (out: CropOutcome)
    requires
        scan.wf(),
        all_wf(rects_of(boxes@)),
    ensures
        ({
            let rects = reconciled(rects_of(boxes@));
            let kept = kept_indices(rects, scan.width as int, scan.height as int, boxes@.len() as int);
            &&& out.photos@.len() == kept.len()
            &&& out.skipped + out.photos@.len() == boxes@.len()
            &&& forall|i: int| 0 <= i < kept.len() ==> {
                let ph = #[trigger] out.photos@[i];
                &&& ph.index == kept[i]
                &&& ph.raster.wf()
                &&& ph.raster.width > 0
                &&& ph.raster.height > 0
                &&& ph.source_box.rect() == rects[kept[i]]
                &&& ph.source_box.same_details(&boxes@[kept[i]])
                &&& ph.raster.pixels() == photo_pixels(scan.pixels(), scan.width as int, scan.height as int,
                        rects[kept[i]], boxes@[kept[i]].rotation)
            }
        }),
{
    let ghost orig = boxes@;
    let fixed = reconcile_boxes(boxes);
    let ghost rects = reconciled(rects_of(orig));
    let ghost w = scan.width as int;
    let ghost h = scan.height as int;
    let n = fixed.len();
    let mut rest = fixed;
    let ghost fixed_seq = rest@;
    let mut photos: Vec<CutPhoto> = Vec::new();
    let mut skipped: usize = 0;
    let mut k: usize = 0;
    while k < n
        invariant
            scan.wf(),
            w == scan.width,
            h == scan.height,
            n == orig.len(),
            n == fixed_seq.len(),
            rects_of(fixed_seq) == rects,
            all_wf(rects),
            forall|j: int| 0 <= j < n ==> (#[trigger] fixed_seq[j]).same_details(&orig[j]),
            k <= n,
            rest@ == fixed_seq.subrange(k as int, n as int),
            photos@.len() == kept_indices(rects, w, h, k as int).len(),
            skipped + photos@.len() == k,
            forall|i: int| 0 <= i < photos@.len() ==> {
                let ph = #[trigger] photos@[i];
                let kept = kept_indices(rects, w, h, k as int);
                &&& ph.index == kept[i]
                &&& ph.raster.wf()
                &&& ph.raster.width > 0
                &&& ph.raster.height > 0
                &&& ph.source_box.rect() == rects[kept[i]]
                &&& ph.source_box.same_details(&orig[kept[i]])
                &&& ph.raster.pixels() == photo_pixels(scan.pixels(), w, h, rects[kept[i]], orig[kept[i]].rotation)
            },
        decreases n - k,
    {
        let b = rest.remove(0);
        assert(b == fixed_seq[k as int]);
        assert(rects[k as int] == b.rect());
        let r = b.get_rect();
        proof {
            lemma_kept_bounds(rects, w, h, k as int);
        }
        match crop_one(scan, r, b.rotation) {
            None => {
                skipped += 1;
            },
            Some(img) => {
                photos.push(CutPhoto { index: k, raster: img, source_box: b });
            },
        }
        k += 1;
        assert(rest@ =~= fixed_seq.subrange(k as int, n as int));
    }
    CropOutcome { photos, skipped }
}

proof fn lemma_pixel_span_bounds(start: int, len: int, scan: int)
    requires
        0 <= start,
        0 <= len,
        start + len <= 1000,
        0 <= scan,
    ensures
        ({
            let (p0, cw) = pixel_span(start, len, scan);
            let l = len * scan / 1000;
            &&& 0 <= p0
            &&& p0 + cw <= scan
            &&& l <= cw <= l + 2 * (l / 200)
        }),
{
    let a = start * scan;
    let b = len * scan;
    assert(a + b == (start + len) * scan) by (nonlinear_arith)
        requires a == start * scan, b == len * scan;
    assert((start + len) * scan <= 1000 * scan) by (nonlinear_arith)
        requires start + len <= 1000, scan >= 0;
    assert(0 <= a && 0 <= b) by (nonlinear_arith)
        requires a == start * scan, b == len * scan, start >= 0, len >= 0, scan >= 0;
    assert((a + b) / 1000 >= a / 1000 + b / 1000);
    assert(a / 1000 + b / 1000 <= scan);
}

/// The whole-scan rectangle.
pub open spec fn full_rect() -> NormRect {
    NormRect { x: 0, y: 0, width: 1000, height: 1000 }
}

proof fn lemma_full_rect_is_whole_scan(g: Seq<Seq<Rgba>>, w: int, h: int)
    requires
        grid_shape(g, w, h),
        0 < w <= u32::MAX,
        0 < h <= u32::MAX,
    ensures
        pixel_rect_of(full_rect(), w, h) == Some(PixelRect { x: 0, y: 0, width: w as u32, height: h as u32 }),
        cropped(g, 0, 0, w, h) == g,
{
    assert(pixel_span(0, 1000, w) == (0int, w));
    assert(pixel_span(0, 1000, h) == (0int, h));
    let c = cropped(g, 0, 0, w, h);
    assert forall|y: int| 0 <= y < h implies #[trigger] c[y] =~= g[y] by {
        assert(g[y].len() == w);
    }
    assert(c =~= g);
}

/// With no dark pixel to trim and no turn, a photo's size follows its box:
/// each side is the box's extent scaled to the scan, widened by at most
/// half a percent on each side, and the photo is that rectangle of the scan.
pub proof fn lemma_photo_size_is_proportional(g: Seq<Seq<Rgba>>, w: int, h: int, r: NormRect)
    requires
        grid_shape(g, w, h),
        0 <= w <= u32::MAX,
        0 <= h <= u32::MAX,
        all_bright(g, w, h),
        r.wf(),
        pixel_rect_of(r, w, h) is Some,
    ensures
        ({
            let p = pixel_rect_of(r, w, h).unwrap();
            let lw = r.width * w / 1000;
            let lh = r.height * h / 1000;
            &&& lw <= p.width <= lw + 2 * (lw / 200)
            &&& lh <= p.height <= lh + 2 * (lh / 200)
            &&& photo_pixels(g, w, h, r, QuarterTurn::Zero) == cropped(g, p.x as int, p.y as int, p.width as int, p.height as int)
        }),
{
    lemma_pixel_span_bounds(r.x as int, r.width as int, w);
    lemma_pixel_span_bounds(r.y as int, r.height as int, h);
    let p = pixel_rect_of(r, w, h).unwrap();
    let c = cropped(g, p.x as int, p.y as int, p.width as int, p.height as int);
    assert forall|yy: int| 0 <= yy < p.height implies (#[trigger] c[yy]).len() == p.width by {
        assert(g[p.y + yy].len() == w);
    }
    assert forall|xx: int, yy: int| 0 <= xx < p.width && 0 <= yy < p.height implies !crate::trim::dark(#[trigger] c[yy][xx]) by {
        assert(g[p.y + yy].len() == w);
        assert(c[yy][xx] == g[p.y + yy][p.x + xx]);
    }
    lemma_bright_is_kept(c, p.width as int, p.height as int, MAX_TRIM_PERCENT as int);
}

/// A whole-scan box found upright, or within 45 degrees of upright, on a
/// scan with no dark pixel gives the scan itself.
pub proof fn lemma_upright_full_box_keeps_scan(g: Seq<Seq<Rgba>>, w: int, h: int, centi: int)
    requires
        grid_shape(g, w, h),
        0 < w <= u32::MAX,
        0 < h <= u32::MAX,
        all_bright(g, w, h),
        -BUCKET_HALF_WIDTH < centi < BUCKET_HALF_WIDTH,
    ensures
        pixel_rect_of(full_rect(), w, h) is Some,
        photo_pixels(g, w, h, full_rect(), detected_bucket(centi)) == g,
{
    crate::rotation::lemma_upright_angle_is_identity(centi, g, w, h);
    lemma_full_rect_is_whole_scan(g, w, h);
    lemma_bright_is_kept(g, w, h, MAX_TRIM_PERCENT as int);
}

/// A photo turned a quarter clockwise on the scan, boxed whole and found at
/// 90 degrees, comes out as it was before the turn, where it has no dark
/// pixel.
pub proof fn lemma_quarter_turned_scan_is_undone(img: Seq<Seq<Rgba>>, w: int, h: int)
    requires
        grid_shape(img, w, h),
        0 < w <= u32::MAX,
        0 < h <= u32::MAX,
        all_bright(img, w, h),
    ensures
        photo_pixels(rotated_cw(img, w, h, QuarterTurn::Quarter), h, w, full_rect(), QuarterTurn::Quarter) == img,
{
    let scan = rotated_cw(img, w, h, QuarterTurn::Quarter);
    lemma_correction_undoes_rotation(img, w, h, QuarterTurn::Quarter);
    lemma_full_rect_is_whole_scan(scan, h, w);
    lemma_bright_is_kept(img, w, h, MAX_TRIM_PERCENT as int);
}

} // verus!
