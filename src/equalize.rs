//! Tile-based adaptive contrast equalization: per tile, a clipped and
//! redistributed luminance histogram drives a remapping of luminance, and
//! the colour channels follow by the same ratio.

use vstd::prelude::*;
use vstd::math::{max, min};
use vstd::arithmetic::div_mod::lemma_fundamental_div_mod_converse;
use crate::raster::{Raster, Rgba, px};

verus! {

/// Each axis is split into about this many tiles.
pub const TILE_DIVISIONS: u32 = 8;
/// No tile is narrower or lower than this, but at the far edges.
pub const MIN_TILE_SIZE: u32 = 16;
/// Each histogram bin is clipped at this count.
pub const CLIP_LIMIT: u64 = 40;
/// Number of luminance levels.
pub const LEVELS: usize = 256;

/// Luminance `0.299 R + 0.587 G + 0.114 B`, rounded down.
pub open spec fn lum(p: Rgba) -> int {
    (299 * p.r + 587 * p.g + 114 * p.b) / 1000
}

/// Side of a tile along an axis `n` pixels long.
pub open spec fn tile_size(n: int) -> int {
    max(n / TILE_DIVISIONS as int, MIN_TILE_SIZE as int)
}

/// Pixels of luminance `v` in row `y` between columns `x0` and `x`.
pub open spec fn row_count(g: Seq<Seq<Rgba>>, y: int, x0: int, x: int, v: int) -> int
    decreases x - x0,
{
    if x <= x0 {
        0
    } else {
        row_count(g, y, x0, x - 1, v) + if lum(g[y][x - 1]) == v { 1int } else { 0 }
    }
}

/// Pixels of luminance `v` in columns `x0..x1` of rows `y0..y`.
pub open spec fn rect_count(g: Seq<Seq<Rgba>>, x0: int, x1: int, y0: int, y: int, v: int) -> int
    decreases y - y0,
{
    if y <= y0 {
        0
    } else {
        rect_count(g, x0, x1, y0, y - 1, v) + row_count(g, y - 1, x0, x1, v)
    }
}

/// Luminance histogram of columns `x0..x1`, rows `y0..y1`.
pub open spec fn tile_hist(g: Seq<Seq<Rgba>>, x0: int, x1: int, y0: int, y1: int) -> Seq<int> {
    Seq::new(LEVELS as nat, |v: int| rect_count(g, x0, x1, y0, y1, v))
}

/// What the first `n` bins hold above the clip limit.
pub open spec fn excess(h: Seq<int>, n: int) -> int
    decreases n,
{
    if n <= 0 {
        0
    } else {
        excess(h, n - 1) + max(h[n - 1] - CLIP_LIMIT as int, 0)
    }
}

/// Each bin clipped at the limit, and the excess spread evenly over all bins.
pub open spec fn redistributed(h: Seq<int>) -> Seq<int> {
    Seq::new(LEVELS as nat, |v: int| min(h[v], CLIP_LIMIT as int) + excess(h, LEVELS as int) / LEVELS as int)
}

/// Sum of the first `n` bins.
pub open spec fn prefix(h: Seq<int>, n: int) -> int
    decreases n,
{
    if n <= 0 {
        0
    } else {
        prefix(h, n - 1) + h[n - 1]
    }
}

/// The first positive value of the cumulative distribution from level `i`
/// on, or 0.
pub open spec fn first_positive_cdf(h: Seq<int>, i: int) -> int
    decreases LEVELS - i,
{
    if i >= LEVELS {
        0
    } else if prefix(h, i + 1) > 0 {
        prefix(h, i + 1)
    } else {
        first_positive_cdf(h, i + 1)
    }
}

/// The new luminance of each level for a tile of `count` pixels with raw
/// histogram `raw`: `(cdf[l] - cdf_min) / (count - cdf_min) * 255`.
pub open spec fn tile_lut(raw: Seq<int>, count: int) -> Seq<int> {
    let h = redistributed(raw);
    let cmin = first_positive_cdf(h, 0);
    let denom = max(count - cmin, 1);
    Seq::new(LEVELS as nat, |l: int|
        if prefix(h, l + 1) >= cmin { min(255, (prefix(h, l + 1) - cmin) * 255 / denom) } else { 0 })
}

/// A channel value rescaled by `new_l / old_l`, clamped to 255.
pub open spec fn rescaled(c: int, new_l: int, old_l: int) -> int {
    min(255, c * new_l / old_l)
}

/// The pixel with its luminance sent through `lut` and its colour channels
/// scaled alike; alpha is kept.
pub open spec fn remapped(p: Rgba, lut: Seq<int>) -> Rgba {
    let l = lum(p);
    if l > 0 {
        Rgba {
            r: rescaled(p.r as int, lut[l], l) as u8,
            g: rescaled(p.g as int, lut[l], l) as u8,
            b: rescaled(p.b as int, lut[l], l) as u8,
            a: p.a,
        }
    } else {
        p
    }
}

/// First and one-past-last index of the tile holding `i` along an axis `n`
/// long.
pub open spec fn tile_span(i: int, n: int) -> (int, int) {
    let t = tile_size(n);
    let s = i / t * t;
    (s, min(s + t, n))
}

/// The equalized pixel at `(x, y)` of a `w` x `h` grid.
pub open spec fn equalized_pixel(g: Seq<Seq<Rgba>>, w: int, h: int, x: int, y: int) -> Rgba {
    let (x0, x1) = tile_span(x, w);
    let (y0, y1) = tile_span(y, h);
    remapped(g[y][x], tile_lut(tile_hist(g, x0, x1, y0, y1), (x1 - x0) * (y1 - y0)))
}

/// Luminance of a pixel.
pub fn luminance(p: Rgba) -> (r: u8)
    ensures
        r as int == lum(p),
{
    let s: u32 = 299 * p.r as u32 + 587 * p.g as u32 + 114 * p.b as u32;
    (s / 1000) as u8
}

fn tile_histogram(img: &Raster, x0: u32, x1: u32, y0: u32, y1: u32) -> (r: Vec<u64>)
    requires
        img.wf(),
        x0 <= x1 <= img.width,
        y0 <= y1 <= img.height,
        (x1 - x0) * (y1 - y0) <= u32::MAX,
    ensures
        r@.len() == LEVELS,
        forall|v: int| 0 <= v < LEVELS ==> (#[trigger] r@[v]) as int == rect_count(img.pixels(), x0 as int, x1 as int, y0 as int, y1 as int, v),
        forall|v: int| 0 <= v < LEVELS ==> (#[trigger] r@[v]) <= u32::MAX,
{
    let ghost g = img.pixels();
    let mut hist: Vec<u64> = Vec::new();
    while hist.len() < LEVELS
        invariant
            hist@.len() <= LEVELS,
            forall|v: int| 0 <= v < hist@.len() ==> (#[trigger] hist@[v]) == 0,
        decreases LEVELS - hist@.len(),
    {
        hist.push(0);
    }
    let mut done: u64 = 0;
    let mut y: u32 = y0;
    while y < y1
        invariant
            img.wf(),
            g == img.pixels(),
            x0 <= x1 <= img.width,
            y0 <= y <= y1 <= img.height,
            (x1 - x0) * (y1 - y0) <= u32::MAX,
            hist@.len() == LEVELS,
            done == (y - y0) * (x1 - x0),
            forall|v: int| 0 <= v < LEVELS ==> (#[trigger] hist@[v]) as int == rect_count(g, x0 as int, x1 as int, y0 as int, y as int, v),
            forall|v: int| 0 <= v < LEVELS ==> (#[trigger] hist@[v]) <= done,
        decreases y1 - y,
    {
        let ghost a = (y - y0) as int;
        let ghost b = (x1 - x0) as int;
        let ghost c = (y1 - y0) as int;
        assert((a + 1) * b <= b * c) by (nonlinear_arith)
            requires a + 1 <= c, b >= 0;
        assert((a + 1) * b == a * b + b) by (nonlinear_arith);
        let mut x: u32 = x0;
        while x < x1
            invariant
                img.wf(),
                g == img.pixels(),
                x0 <= x <= x1 <= img.width,
                y0 <= y < y1 <= img.height,
                hist@.len() == LEVELS,
                done == (y - y0) * (x1 - x0) + (x - x0),
                (y - y0) * (x1 - x0) + (x1 - x0) <= u32::MAX,
                forall|v: int| 0 <= v < LEVELS ==> (#[trigger] hist@[v]) as int
                    == rect_count(g, x0 as int, x1 as int, y0 as int, y as int, v) + row_count(g, y as int, x0 as int, x as int, v),
                forall|v: int| 0 <= v < LEVELS ==> (#[trigger] hist@[v]) <= done,
            decreases x1 - x,
        {
            let l = luminance(img.get_pixel(x, y)) as usize;
            let c = hist[l];
            hist.set(l, c + 1);
            done += 1;
            x += 1;
        }
        y += 1;
    }
    assert((y1 - y0) * (x1 - x0) == (x1 - x0) * (y1 - y0)) by (nonlinear_arith);
    hist
}

fn clip_and_redistribute(hist: &Vec<u64>) -> (r: Vec<u64>)
    requires
        hist@.len() == LEVELS,
        forall|v: int| 0 <= v < LEVELS ==> (#[trigger] hist@[v]) <= u32::MAX,
    ensures
        r@.len() == LEVELS,
        forall|v: int| 0 <= v < LEVELS ==> (#[trigger] r@[v]) as int
            == redistributed(hist@.map_values(|c: u64| c as int))[v],
        forall|v: int| 0 <= v < LEVELS ==> (#[trigger] r@[v]) <= 2 * u32::MAX,
{
    let ghost h = hist@.map_values(|c: u64| c as int);
    let mut ex: u64 = 0;
    let mut i: usize = 0;
    while i < LEVELS
        invariant
            hist@.len() == LEVELS,
            h == hist@.map_values(|c: u64| c as int),
            forall|v: int| 0 <= v < LEVELS ==> (#[trigger] hist@[v]) <= u32::MAX,
            i <= LEVELS,
            ex as int == excess(h, i as int),
            ex <= i * u32::MAX,
        decreases LEVELS - i,
    {
        if hist[i] > CLIP_LIMIT {
            ex += hist[i] - CLIP_LIMIT;
        }
        i += 1;
    }
    let add = ex / LEVELS as u64;
    assert(add <= u32::MAX) by (nonlinear_arith)
        requires add == ex / 256, ex <= 256 * u32::MAX;
    let mut out: Vec<u64> = Vec::new();
    let mut i: usize = 0;
    while i < LEVELS
        invariant
            hist@.len() == LEVELS,
            h == hist@.map_values(|c: u64| c as int),
            forall|v: int| 0 <= v < LEVELS ==> (#[trigger] hist@[v]) <= u32::MAX,
            i <= LEVELS,
            ex as int == excess(h, LEVELS as int),
            ex <= LEVELS * u32::MAX,
            add == ex / LEVELS as u64,
            add <= u32::MAX,
            out@.len() == i,
            forall|v: int| 0 <= v < i ==> (#[trigger] out@[v]) as int == redistributed(h)[v],
            forall|v: int| 0 <= v < i ==> (#[trigger] out@[v]) <= 2 * u32::MAX,
        decreases LEVELS - i,
    {
        let c = if hist[i] < CLIP_LIMIT { hist[i] } else { CLIP_LIMIT };
        out.push(c + add);
        i += 1;
    }
    out
}

fn tile_lut_exec(hist: &Vec<u64>, count: u64) -> (r: Vec<u8>)
    requires
        hist@.len() == LEVELS,
        forall|v: int| 0 <= v < LEVELS ==> (#[trigger] hist@[v]) <= u32::MAX,
    ensures
        r@.len() == LEVELS,
        forall|l: int| 0 <= l < LEVELS ==> (#[trigger] r@[l]) as int
            == tile_lut(hist@.map_values(|c: u64| c as int), count as int)[l],
{
    let ghost raw = hist@.map_values(|c: u64| c as int);
    let red = clip_and_redistribute(hist);
    let ghost h = redistributed(raw);
    assert(red@.map_values(|c: u64| c as int) =~= h);
    let mut cdf: Vec<u64> = Vec::new();
    let mut run: u64 = 0;
    let mut i: usize = 0;
    while i < LEVELS
        invariant
            red@.len() == LEVELS,
            h == red@.map_values(|c: u64| c as int),
            forall|v: int| 0 <= v < LEVELS ==> (#[trigger] red@[v]) <= 2 * u32::MAX,
            i <= LEVELS,
            run as int == prefix(h, i as int),
            run <= i * 2 * u32::MAX,
            cdf@.len() == i,
            forall|v: int| 0 <= v < i ==> (#[trigger] cdf@[v]) as int == prefix(h, v + 1),
            forall|v: int| 0 <= v < i ==> (#[trigger] cdf@[v]) <= LEVELS * 2 * u32::MAX,
        decreases LEVELS - i,
    {
        run += red[i];
        cdf.push(run);
        i += 1;
    }
    let mut k: usize = 0;
    while k < LEVELS && cdf[k] == 0
        invariant
            cdf@.len() == LEVELS,
            forall|v: int| 0 <= v < LEVELS ==> (#[trigger] cdf@[v]) as int == prefix(h, v + 1),
            k <= LEVELS,
            first_positive_cdf(h, k as int) == first_positive_cdf(h, 0),
        decreases LEVELS - k,
    {
        k += 1;
    }
    let cmin: u64 = if k < LEVELS { cdf[k] } else { 0 };
    assert(cmin as int == first_positive_cdf(h, 0));
    let denom: u64 = if count > cmin && count - cmin > 1 { count - cmin } else { 1 };
    let mut lut: Vec<u8> = Vec::new();
    let mut l: usize = 0;
    while l < LEVELS
        invariant
            cdf@.len() == LEVELS,
            forall|v: int| 0 <= v < LEVELS ==> (#[trigger] cdf@[v]) as int == prefix(h, v + 1),
            forall|v: int| 0 <= v < LEVELS ==> (#[trigger] cdf@[v]) <= LEVELS * 2 * u32::MAX,
            h == redistributed(raw),
            cmin as int == first_positive_cdf(h, 0),
            denom as int == max(count - cmin, 1),
            l <= LEVELS,
            lut@.len() == l,
            forall|v: int| 0 <= v < l ==> (#[trigger] lut@[v]) as int == tile_lut(raw, count as int)[v],
        decreases LEVELS - l,
    {
        let c = cdf[l];
        let n: u64 = if c >= cmin {
            let q = (c - cmin) * 255 / denom;
            if q < 255 { q } else { 255 }
        } else {
            0
        };
        lut.push(n as u8);
        l += 1;
    }
    lut
}

fn rescale(c: u8, new_l: u8, old_l: u8) -> (r: u8)
    requires
        old_l > 0,
    ensures
        r as int == rescaled(c as int, new_l as int, old_l as int),
{
    assert(c as u32 * new_l as u32 <= 65025) by (nonlinear_arith)
        requires c <= 255, new_l <= 255;
    let v: u32 = c as u32 * new_l as u32 / old_l as u32;
    if v < 255 { v as u8 } else { 255 }
}

/// Sends a pixel's luminance through `lut` and scales its colour channels
/// alike.
pub fn remap_pixel(p: Rgba, lut: &Vec<u8>) -> (r: Rgba)
    requires
        lut@.len() == LEVELS,
    ensures
        r == remapped(p, lut@.map_values(|n: u8| n as int)),
{
    let l = luminance(p);
    if l > 0 {
        let n = lut[l as usize];
        Rgba { r: rescale(p.r, n, l), g: rescale(p.g, n, l), b: rescale(p.b, n, l), a: p.a }
    } else {
        p
    }
}

/// The table of tile `j` of the band of rows `y0..y1`.
pub open spec fn band_lut(g: Seq<Seq<Rgba>>, w: int, j: int, y0: int, y1: int) -> Seq<int> {
    let t = tile_size(w);
    let x0 = j * t;
    let x1 = min(x0 + t, w);
    tile_lut(tile_hist(g, x0, x1, y0, y1), (x1 - x0) * (y1 - y0))
}

/// The tables of the tiles of the band of rows `y0..y1`, left to right.
fn band_luts(img: &Raster, y0: u32, y1: u32) -> (r: Vec<Vec<u8>>)
    requires
        img.wf(),
        y0 < y1 <= img.height,
        img.width * img.height <= u32::MAX,
    ensures
        forall|j: int| 0 <= j < r@.len() ==> (#[trigger] r@[j])@.len() == LEVELS
            && r@[j]@.map_values(|n: u8| n as int) == band_lut(img.pixels(), img.width as int, j, y0 as int, y1 as int),
        r@.len() * tile_size(img.width as int) >= img.width,
{
    let w = img.width;
    let h = img.height;
    let ghost g = img.pixels();
    let tw: u32 = if w / TILE_DIVISIONS > MIN_TILE_SIZE { w / TILE_DIVISIONS } else { MIN_TILE_SIZE };
    let mut luts: Vec<Vec<u8>> = Vec::new();
    let mut tx: u32 = 0;
    assert(luts@.len() * tw == 0) by (nonlinear_arith)
        requires luts@.len() == 0;
    while tx < w
        invariant
            img.wf(),
            g == img.pixels(),
            w == img.width,
            h == img.height,
            y0 < y1 <= h,
            w * h <= u32::MAX,
            tw == tile_size(w as int),
            tw > 0,
            tx <= w,
            tx < w ==> tx == luts@.len() * tw,
            tx <= luts@.len() * tw,
            forall|j: int| 0 <= j < luts@.len() ==> (#[trigger] luts@[j])@.len() == LEVELS
                && luts@[j]@.map_values(|n: u8| n as int) == band_lut(g, w as int, j, y0 as int, y1 as int),
        decreases w - tx,
    {
        let x1: u32 = if w - tx < tw { w } else { tx + tw };
        let ghost a = (x1 - tx) as int;
        let ghost b = (y1 - y0) as int;
        assert(a * b <= w * h) by (nonlinear_arith)
            requires 0 <= a <= w, 0 <= b <= h;
        let hist = tile_histogram(img, tx, x1, y0, y1);
        let count: u64 = (x1 - tx) as u64 * (y1 - y0) as u64;
        let lut = tile_lut_exec(&hist, count);
        let ghost j = luts@.len() as int;
        assert(hist@.map_values(|c: u64| c as int) =~= tile_hist(g, tx as int, x1 as int, y0 as int, y1 as int));
        assert(lut@.map_values(|n: u8| n as int) =~= band_lut(g, w as int, j, y0 as int, y1 as int));
        luts.push(lut);
        assert((j + 1) * tw == j * tw + tw) by (nonlinear_arith);
        tx = x1;
    }
    luts
}

/// Equalizes the raster tile by tile: each tile's luminance histogram is
/// clipped, its excess spread evenly, and the cumulative distribution
/// remaps the luminance of the tile's pixels.
pub fn apply_clahe(img: &Raster) -> (r: Raster)
    requires
        img.wf(),
        img.width * img.height <= u32::MAX,
    ensures
        r.wf(),
        r.width == img.width,
        r.height == img.height,
        forall|x: int, y: int| 0 <= x < img.width && 0 <= y < img.height ==>
            #[trigger] px(r.pixels(), x, y) == equalized_pixel(img.pixels(), img.width as int, img.height as int, x, y),
        forall|x: int, y: int| 0 <= x < img.width && 0 <= y < img.height ==>
            (#[trigger] px(r.pixels(), x, y)).a == px(img.pixels(), x, y).a,
{
    let w = img.width;
    let h = img.height;
    let ghost g = img.pixels();
    let tw: u32 = if w / TILE_DIVISIONS > MIN_TILE_SIZE { w / TILE_DIVISIONS } else { MIN_TILE_SIZE };
    let th: u32 = if h / TILE_DIVISIONS > MIN_TILE_SIZE { h / TILE_DIVISIONS } else { MIN_TILE_SIZE };
    let mut rows: Vec<Vec<Rgba>> = Vec::new();
    let mut ty: u32 = 0;
    let ghost mut kb: int = 0;
    while ty < h
        invariant
            img.wf(),
            g == img.pixels(),
            w == img.width,
            h == img.height,
            w * h <= u32::MAX,
            tw == tile_size(w as int),
            th == tile_size(h as int),
            ty <= h,
            ty < h ==> ty == kb * th,
            rows@.len() == ty,
            forall|yy: int| 0 <= yy < ty ==> (#[trigger] rows@[yy]@).len() == w,
            forall|xx: int, yy: int| 0 <= xx < w && 0 <= yy < ty ==>
                #[trigger] rows@[yy]@[xx] == equalized_pixel(g, w as int, h as int, xx, yy),
        decreases h - ty,
    {
        let ty1: u32 = if h - ty < th { h } else { ty + th };
        let luts = band_luts(img, ty, ty1);
        let n_tiles = luts.len();
        let mut y: u32 = ty;
        while y < ty1
            invariant
                img.wf(),
                g == img.pixels(),
                w == img.width,
                h == img.height,
                tw == tile_size(w as int),
                th == tile_size(h as int),
                ty == kb * th,
                ty <= y <= ty1,
                ty1 == min(ty + th, h as int),
                ty1 <= h,
                rows@.len() == y,
                forall|j: int| 0 <= j < luts@.len() ==> (#[trigger] luts@[j])@.len() == LEVELS
                    && luts@[j]@.map_values(|n: u8| n as int) == band_lut(g, w as int, j, ty as int, ty1 as int),
                    luts@.len() * tw >= w,
                n_tiles == luts@.len(),
                forall|yy: int| 0 <= yy < y ==> (#[trigger] rows@[yy]@).len() == w,
                forall|xx: int, yy: int| 0 <= xx < w && 0 <= yy < y ==>
                    #[trigger] rows@[yy]@[xx] == equalized_pixel(g, w as int, h as int, xx, yy),
            decreases ty1 - y,
        {
            proof {
                lemma_fundamental_div_mod_converse(y as int, th as int, kb, y - ty);
            }
            let mut row: Vec<Rgba> = Vec::new();
            let mut x: u32 = 0;
            let mut k: usize = 0;
            let mut sx: u32 = 0;
            assert(k * tw == 0) by (nonlinear_arith)
                requires k == 0;
            if w > 0 {
                assert(luts@.len() > 0) by (nonlinear_arith)
                    requires luts@.len() * tw >= w, w > 0;
            }
            while x < w
                invariant
                    img.wf(),
                    g == img.pixels(),
                    w == img.width,
                    h == img.height,
                    tw == tile_size(w as int),
                    th == tile_size(h as int),
                    ty == kb * th,
                    ty <= y < ty1,
                    ty1 == min(ty + th, h as int),
                    ty1 <= h,
                    y as int / th as int == kb,
                    forall|j: int| 0 <= j < luts@.len() ==> (#[trigger] luts@[j])@.len() == LEVELS
                        && luts@[j]@.map_values(|n: u8| n as int) == band_lut(g, w as int, j, ty as int, ty1 as int),
                            luts@.len() * tw >= w,
                    x <= w,
                    sx == k * tw,
                    sx <= x <= sx + tw,
                    x < w ==> k < luts@.len(),
                    n_tiles == luts@.len(),
                    row@.len() == x,
                    forall|xx: int| 0 <= xx < x ==> #[trigger] row@[xx] == equalized_pixel(g, w as int, h as int, xx, y as int),
                decreases w - x,
            {
                if x - sx == tw {
                    assert((k + 1) * tw == k * tw + tw) by (nonlinear_arith);
                    let ghost kk = luts@.len() as int;
                    assert(k + 1 < kk) by (nonlinear_arith)
                        requires (k + 1) * tw < w, w <= kk * tw, tw > 0;
                    k += 1;
                    sx = x;
                }
                proof {
                    lemma_fundamental_div_mod_converse(x as int, tw as int, k as int, x - sx);
                }
                let p = img.get_pixel(x, y);
                row.push(remap_pixel(p, &luts[k]));
                x += 1;
            }
            rows.push(row);
            y += 1;
        }
        proof {
            if ty1 < h {
                kb = kb + 1;
                assert(kb * th == (kb - 1) * th + th) by (nonlinear_arith);
            }
        }
        ty = ty1;
    }
    let r = Raster { width: w, height: h, rows };
    assert forall|yy: int| 0 <= yy < h implies (#[trigger] r.pixels()[yy]).len() == w by {
        assert(r.pixels()[yy] == rows@[yy]@);
    }
    assert forall|x: int, y: int| 0 <= x < w && 0 <= y < h implies
        (#[trigger] px(r.pixels(), x, y)).a == px(img.pixels(), x, y).a by {
        assert(px(r.pixels(), x, y) == equalized_pixel(g, w as int, h as int, x, y));
    }
    r
}

} // verus!
