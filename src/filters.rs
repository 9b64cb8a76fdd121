//! The named local filters a caller can ask for, and the sharpening step
//! that combines a raster with its blurred copy.

use vstd::prelude::*;
use crate::raster::{Raster, Rgba, px};

verus! {

/// One local filter of a filter chain.
#[derive(Clone, Copy, Debug, PartialEq, Eq, Structural)]
pub enum FilterKind {
    /// Tile-based adaptive contrast equalization.
    Clahe,
    /// Unsharp masking with strength `amount_halves / 2`.
    Sharpen { amount_halves: u32 },
    /// Edge-preserving smoothing.
    Bilateral,
    /// Gaussian blur with sigma `sigma_tenths / 10`.
    Denoise { sigma_tenths: u32 },
}

/// The filter a name stands for; other names stand for none.
pub open spec fn filter_named(name: Seq<char>) -> Option<FilterKind> {
    if name == "clahe"@ {
        Some(FilterKind::Clahe)
    } else if name == "sharpen"@ {
        Some(FilterKind::Sharpen { amount_halves: 2 })
    } else if name == "sharpen_mild"@ {
        Some(FilterKind::Sharpen { amount_halves: 1 })
    } else if name == "sharpen_strong"@ {
        Some(FilterKind::Sharpen { amount_halves: 4 })
    } else if name == "bilateral"@ {
        Some(FilterKind::Bilateral)
    } else if name == "denoise"@ {
        Some(FilterKind::Denoise { sigma_tenths: 15 })
    } else if name == "denoise_mild"@ {
        Some(FilterKind::Denoise { sigma_tenths: 8 })
    } else if name == "denoise_strong"@ {
        Some(FilterKind::Denoise { sigma_tenths: 30 })
    } else {
        None
    }
}

/// The filters of a list of names, in order; unknown names are skipped.
pub open spec fn plan_of(names: Seq<Seq<char>>) -> Seq<FilterKind>
    decreases names.len(),
{
    if names.len() == 0 {
        Seq::empty()
    } else {
        let rest = plan_of(names.drop_last());
        match filter_named(names.last()) {
            Some(f) => rest.push(f),
            None => rest,
        }
    }
}

/// The names as character sequences.
pub open spec fn names_view(names: Seq<String>) -> Seq<Seq<char>> {
    names.map_values(|s: String| s@)
}

fn same_text(a: &String, lit: &str) -> (r: bool)
    ensures
        r == (a@ == lit@),
{
    let owned = lit.to_owned();
    *a == owned
}

/// The filter a name stands for.
pub fn parse_filter_name(name: &String) -> (r: Option<FilterKind>)
    ensures
        r == filter_named(name@),
{
    if same_text(name, "clahe") {
        Some(FilterKind::Clahe)
    } else if same_text(name, "sharpen") {
        Some(FilterKind::Sharpen { amount_halves: 2 })
    } else if same_text(name, "sharpen_mild") {
        Some(FilterKind::Sharpen { amount_halves: 1 })
    } else if same_text(name, "sharpen_strong") {
        Some(FilterKind::Sharpen { amount_halves: 4 })
    } else if same_text(name, "bilateral") {
        Some(FilterKind::Bilateral)
    } else if same_text(name, "denoise") {
        Some(FilterKind::Denoise { sigma_tenths: 15 })
    } else if same_text(name, "denoise_mild") {
        Some(FilterKind::Denoise { sigma_tenths: 8 })
    } else if same_text(name, "denoise_strong") {
        Some(FilterKind::Denoise { sigma_tenths: 30 })
    } else {
        None
    }
}

/// The filters to run for a list of names, in order, skipping the names
/// that stand for no filter.
pub fn filter_plan(names: &Vec<String>) -> (r: Vec<FilterKind>)
    ensures
        r@ == plan_of(names_view(names@)),
{
    let mut out: Vec<FilterKind> = Vec::new();
    let mut i: usize = 0;
    while i < names.len()
        invariant
            i <= names@.len(),
            out@ == plan_of(names_view(names@).subrange(0, i as int)),
        decreases names@.len() - i,
    {
        let f = parse_filter_name(&names[i]);
        let ghost before = names_view(names@).subrange(0, i as int);
        let ghost after = names_view(names@).subrange(0, i + 1);
        assert(after.drop_last() =~= before);
        assert(after.last() == names@[i as int]@);
        match f {
            Some(k) => out.push(k),
            None => {},
        }
        i += 1;
    }
    assert(names_view(names@).subrange(0, names@.len() as int) =~= names_view(names@));
    out
}

/// The names used where a caller gives no list: equalize, then sharpen.
pub fn default_filter_names() -> (r: Vec<String>)
    ensures
        names_view(r@) == seq!["clahe"@, "sharpen"@],
{
    let mut v: Vec<String> = Vec::new();
    v.push("clahe".to_owned());
    v.push("sharpen".to_owned());
    assert(names_view(v@) =~= seq!["clahe"@, "sharpen"@]);
    v
}

/// Names that stand for no filter yield no step, so a chain of them
/// leaves a raster as it is.
pub proof fn lemma_unknown_names_are_skipped(names: Seq<Seq<char>>)
    requires
        forall|i: int| 0 <= i < names.len() ==> filter_named(#[trigger] names[i]) is None,
    ensures
        plan_of(names) == Seq::<FilterKind>::empty(),
    decreases names.len(),
{
    if names.len() > 0 {
        let init = names.drop_last();
        assert forall|i: int| 0 <= i < init.len() implies filter_named(#[trigger] init[i]) is None by {
            assert(init[i] == names[i]);
        }
        lemma_unknown_names_are_skipped(init);
        assert(filter_named(names[names.len() - 1]) is None);
    }
}

/// A channel sharpened with strength `amount_halves / 2` against its
/// blurred value: `o + amount * (o - b)`, clamped to `[0, 255]` and
/// rounded down.
pub open spec fn sharpened(o: int, b: int, amount_halves: int) -> int {
    let twice = 2 * o + amount_halves * (o - b);
    if twice < 0 {
        0
    } else if twice / 2 > 255 {
        255
    } else {
        twice / 2
    }
}

/// The sharpened pixel; alpha is kept.
pub open spec fn sharpened_pixel(o: Rgba, b: Rgba, amount_halves: int) -> Rgba {
    Rgba {
        r: sharpened(o.r as int, b.r as int, amount_halves) as u8,
        g: sharpened(o.g as int, b.g as int, amount_halves) as u8,
        b: sharpened(o.b as int, b.b as int, amount_halves) as u8,
        a: o.a,
    }
}

/// Rasters smaller than this in either direction are not sharpened.
pub const MIN_SHARPEN_SIZE: u32 = 3;

fn sharpen_channel(o: u8, b: u8, amount_halves: u32) -> (r: u8)
    ensures
        r as int == sharpened(o as int, b as int, amount_halves as int),
{
    let d: i64 = o as i64 - b as i64;
    assert(-255 * 0x1_0000_0000 <= amount_halves * d <= 255 * 0x1_0000_0000) by (nonlinear_arith)
        requires -255 <= d <= 255, 0 <= amount_halves <= u32::MAX;
    let twice: i64 = 2 * o as i64 + amount_halves as i64 * d;
    if twice < 0 {
        0
    } else if twice / 2 > 255 {
        255
    } else {
        (twice / 2) as u8
    }
}

/// Unsharp masking: each channel of `orig` moves away from its value in
/// `blurred` by `amount_halves / 2` of their difference. Rasters smaller
/// than 3 x 3 are returned as they are.
pub fn unsharp_combine(orig: &Raster, blurred: &Raster, amount_halves: u32) -> (r: Raster)
    requires
        orig.wf(),
        blurred.wf(),
        blurred.width == orig.width,
        blurred.height == orig.height,
    ensures
        r.wf(),
        r.width == orig.width,
        r.height == orig.height,
        orig.width < MIN_SHARPEN_SIZE || orig.height < MIN_SHARPEN_SIZE ==> r.pixels() == orig.pixels(),
        orig.width >= MIN_SHARPEN_SIZE && orig.height >= MIN_SHARPEN_SIZE ==>
            forall|x: int, y: int| 0 <= x < orig.width && 0 <= y < orig.height ==>
                #[trigger] px(r.pixels(), x, y)
                    == sharpened_pixel(px(orig.pixels(), x, y), px(blurred.pixels(), x, y), amount_halves as int),
{
    let w = orig.width;
    let h = orig.height;
    if w < MIN_SHARPEN_SIZE || h < MIN_SHARPEN_SIZE {
        let c = orig.crop(0, 0, w, h);
        assert(c.pixels() =~~= orig.pixels()) by {
            assert forall|y: int| 0 <= y < h implies #[trigger] c.pixels()[y] =~= orig.pixels()[y] by {
                assert(orig.pixels()[y].len() == w);
            }
        }
        return c;
    }
    let mut rows: Vec<Vec<Rgba>> = Vec::new();
    let mut y: u32 = 0;
    while y < h
        invariant
            orig.wf(),
            blurred.wf(),
            blurred.width == w,
            blurred.height == h,
            w == orig.width,
            h == orig.height,
            y <= h,
            rows@.len() == y,
            forall|yy: int| 0 <= yy < y ==> (#[trigger] rows@[yy]@).len() == w,
            forall|xx: int, yy: int| 0 <= xx < w && 0 <= yy < y ==> #[trigger] rows@[yy]@[xx]
                == sharpened_pixel(px(orig.pixels(), xx, yy), px(blurred.pixels(), xx, yy), amount_halves as int),
        decreases h - y,
    {
        let mut row: Vec<Rgba> = Vec::new();
        let mut x: u32 = 0;
        while x < w
            invariant
                orig.wf(),
                blurred.wf(),
                blurred.width == w,
                blurred.height == h,
                w == orig.width,
                h == orig.height,
                    y < h,
                x <= w,
                row@.len() == x,
                forall|xx: int| 0 <= xx < x ==> #[trigger] row@[xx]
                    == sharpened_pixel(px(orig.pixels(), xx, y as int), px(blurred.pixels(), xx, y as int), amount_halves as int),
            decreases w - x,
        {
            let o = orig.get_pixel(x, y);
            let b = blurred.get_pixel(x, y);
            row.push(Rgba {
                r: sharpen_channel(o.r, b.r, amount_halves),
                g: sharpen_channel(o.g, b.g, amount_halves),
                b: sharpen_channel(o.b, b.b, amount_halves),
                a: o.a,
            });
            x += 1;
        }
        rows.push(row);
        y += 1;
    }
    let r = Raster { width: w, height: h, rows };
    assert forall|yy: int| 0 <= yy < h implies (#[trigger] r.pixels()[yy]).len() == w by {
        assert(r.pixels()[yy] == rows@[yy]@);
    }
    r
}

} // verus!
