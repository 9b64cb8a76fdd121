//! Removal of dark scanner-bed strips along the edges of a crop.

use vstd::prelude::*;
use crate::raster::{Raster, Rgba, cropped, grid_shape};

verus! {

/// A pixel whose mean channel value is below this is dark.
pub const BRIGHTNESS_THRESHOLD: u32 = 60;
/// A row or column counts as scanner bed when at least this percentage of
/// its pixels is dark.
pub const MIN_DARK_PERCENT: u64 = 55;
/// By default no side is trimmed by more than this percentage of its
/// dimension.
pub const MAX_TRIM_PERCENT: u32 = 8;
/// A configured trim bound stays below this percentage, so that opposite
/// sides never meet.
pub const TRIM_PERCENT_LIMIT: u32 = 50;
/// Rasters narrower or lower than this are left as they are.
pub const MIN_TRIM_SIZE: u32 = 20;

/// The pixel's unweighted channel mean is below the threshold.
pub open spec fn dark(p: Rgba) -> bool {
    (p.r as int + p.g as int + p.b as int) / 3 < BRIGHTNESS_THRESHOLD
}

/// Dark pixels among the first `n` of column `x`.
pub open spec fn dark_in_col(g: Seq<Seq<Rgba>>, x: int, n: int) -> int
    decreases n,
{
    if n <= 0 {
        0
    } else {
        dark_in_col(g, x, n - 1) + if dark(g[n - 1][x]) { 1int } else { 0 }
    }
}

/// Dark pixels among the first `n` of row `y`.
pub open spec fn dark_in_row(g: Seq<Seq<Rgba>>, y: int, n: int) -> int
    decreases n,
{
    if n <= 0 {
        0
    } else {
        dark_in_row(g, y, n - 1) + if dark(g[y][n - 1]) { 1int } else { 0 }
    }
}

/// At least `MIN_DARK_PERCENT` percent of `count` out of `total` is dark.
pub open spec fn mostly_dark(count: int, total: int) -> bool {
    100 * count >= MIN_DARK_PERCENT * total
}

/// The first index from `i` on, below `k`, at which `f` fails, or `k`.
pub open spec fn run_end(f: spec_fn(int) -> bool, i: int, k: int) -> int
    decreases k - i,
{
    if i >= k || !f(i) {
        i
    } else {
        run_end(f, i + 1, k)
    }
}

/// The largest trim of one side of a dimension `n` long.
pub open spec fn max_trim(n: int, pct: int) -> int {
    n * pct / 100
}

/// Column `x` of a grid `h` rows high is mostly dark.
pub open spec fn col_dark(g: Seq<Seq<Rgba>>, h: int, x: int) -> bool {
    mostly_dark(dark_in_col(g, x, h), h)
}

/// Row `y` of a grid `w` columns wide is mostly dark.
pub open spec fn row_dark(g: Seq<Seq<Rgba>>, w: int, y: int) -> bool {
    mostly_dark(dark_in_row(g, y, w), w)
}

/// The columns from the left that are mostly dark.
pub open spec fn left_cols(g: Seq<Seq<Rgba>>, h: int) -> spec_fn(int) -> bool {
    |i: int| col_dark(g, h, i)
}

/// The columns from the right, the last first, that are mostly dark.
pub open spec fn right_cols(g: Seq<Seq<Rgba>>, w: int, h: int) -> spec_fn(int) -> bool {
    |i: int| col_dark(g, h, w - 1 - i)
}

/// The rows from the top that are mostly dark.
pub open spec fn top_rows(g: Seq<Seq<Rgba>>, w: int) -> spec_fn(int) -> bool {
    |i: int| row_dark(g, w, i)
}

/// The rows from the bottom, the last first, that are mostly dark.
pub open spec fn bottom_rows(g: Seq<Seq<Rgba>>, w: int, h: int) -> spec_fn(int) -> bool {
    |i: int| row_dark(g, w, h - 1 - i)
}

/// The trims of the left, right, top and bottom sides of a `w` x `h` grid.
pub open spec fn edge_trims(g: Seq<Seq<Rgba>>, w: int, h: int, pct: int) -> (int, int, int, int) {
    (
        run_end(left_cols(g, h), 0, max_trim(w, pct)),
        run_end(right_cols(g, w, h), 0, max_trim(w, pct)),
        run_end(top_rows(g, w), 0, max_trim(h, pct)),
        run_end(bottom_rows(g, w, h), 0, max_trim(h, pct)),
    )
}

/// The rectangle `(x, y, width, height)` kept of a `w` x `h` grid when no
/// side may lose more than `pct` percent, or `None` where the grid is kept
/// whole.
pub open spec fn trim_rect(g: Seq<Seq<Rgba>>, w: int, h: int, pct: int) -> Option<(int, int, int, int)> {
    if w < MIN_TRIM_SIZE || h < MIN_TRIM_SIZE {
        None
    } else {
        let (l, r, t, b) = edge_trims(g, w, h, pct);
        let nw = if w - r - l >= 1 { w - r - l } else { 1 };
        let nh = if h - b - t >= 1 { h - b - t } else { 1 };
        if nw < w || nh < h {
            Some((l, t, nw, nh))
        } else {
            None
        }
    }
}

/// The grid after trimming.
pub open spec fn trimmed(g: Seq<Seq<Rgba>>, w: int, h: int, pct: int) -> Seq<Seq<Rgba>> {
    match trim_rect(g, w, h, pct) {
        Some((x, y, nw, nh)) => cropped(g, x, y, nw, nh),
        None => g,
    }
}

proof fn lemma_run_end_bounds(f: spec_fn(int) -> bool, i: int, k: int)
    requires
        i <= k,
    ensures
        i <= run_end(f, i, k) <= k,
    decreases k - i,
{
    if !(i >= k || !f(i)) {
        lemma_run_end_bounds(f, i + 1, k);
    }
}

fn count_dark_in_col(img: &Raster, x: u32) -> (r: u32)
    requires
        img.wf(),
        x < img.width,
    ensures
        r == dark_in_col(img.pixels(), x as int, img.height as int),
{
    let mut count: u32 = 0;
    let mut y: u32 = 0;
    while y < img.height
        invariant
            img.wf(),
            x < img.width,
            y <= img.height,
            count == dark_in_col(img.pixels(), x as int, y as int),
            count <= y,
        decreases img.height - y,
    {
        let p = img.get_pixel(x, y);
        if (p.r as u32 + p.g as u32 + p.b as u32) / 3 < BRIGHTNESS_THRESHOLD {
            count += 1;
        }
        y += 1;
    }
    count
}

fn count_dark_in_row(img: &Raster, y: u32) -> (r: u32)
    requires
        img.wf(),
        y < img.height,
    ensures
        r == dark_in_row(img.pixels(), y as int, img.width as int),
{
    let mut count: u32 = 0;
    let mut x: u32 = 0;
    while x < img.width
        invariant
            img.wf(),
            y < img.height,
            x <= img.width,
            count == dark_in_row(img.pixels(), y as int, x as int),
            count <= x,
        decreases img.width - x,
    {
        let p = img.get_pixel(x, y);
        if (p.r as u32 + p.g as u32 + p.b as u32) / 3 < BRIGHTNESS_THRESHOLD {
            count += 1;
        }
        x += 1;
    }
    count
}

fn col_is_mostly_dark(img: &Raster, x: u32) -> (r: bool)
    requires
        img.wf(),
        x < img.width,
    ensures
        r == col_dark(img.pixels(), img.height as int, x as int),
{
    let c = count_dark_in_col(img, x);
    100 * (c as u64) >= MIN_DARK_PERCENT * (img.height as u64)
}

fn row_is_mostly_dark(img: &Raster, y: u32) -> (r: bool)
    requires
        img.wf(),
        y < img.height,
    ensures
        r == row_dark(img.pixels(), img.width as int, y as int),
{
    let c = count_dark_in_row(img, y);
    100 * (c as u64) >= MIN_DARK_PERCENT * (img.width as u64)
}

/// Removes the dark scanner-bed strips along the four edges of a raster of
/// at least 20 x 20 pixels, as [`trim_dark_edges`] does, by at most 8
/// percent of the dimension on each side.
pub fn auto_trim_dark_edges(img: &Raster) -> (r: Raster)
    requires
        img.wf(),
    ensures
        r.wf(),
        r.pixels() == trimmed(img.pixels(), img.width as int, img.height as int, MAX_TRIM_PERCENT as int),
        match trim_rect(img.pixels(), img.width as int, img.height as int, MAX_TRIM_PERCENT as int) {
            Some((_, _, nw, nh)) => r.width == nw && r.height == nh,
            None => r.width == img.width && r.height == img.height,
        },
{
    trim_dark_edges(img, MAX_TRIM_PERCENT)
}

/// Removes the dark scanner-bed strips along the four edges of a raster of
/// at least 20 x 20 pixels: each edge advances independently through a run
/// of mostly dark rows or columns, by at most `max_trim_percent` percent of
/// the dimension, and one crop applies the four trims.
pub fn trim_dark_edges(img: &Raster, max_trim_percent: u32) -> (r: Raster)
    requires
        img.wf(),
        max_trim_percent < TRIM_PERCENT_LIMIT,
    ensures
        r.wf(),
        r.pixels() == trimmed(img.pixels(), img.width as int, img.height as int, max_trim_percent as int),
        match trim_rect(img.pixels(), img.width as int, img.height as int, max_trim_percent as int) {
            Some((_, _, nw, nh)) => r.width == nw && r.height == nh,
            None => r.width == img.width && r.height == img.height,
        },
{
    let w = img.width;
    let h = img.height;
    if w < MIN_TRIM_SIZE || h < MIN_TRIM_SIZE {
        return Raster { width: w, height: h, rows: copy_rows(img) };
    }
    let ghost g = img.pixels();
    let pct = max_trim_percent;
    assert(w as u64 * pct as u64 <= 49 * u32::MAX) by (nonlinear_arith)
        requires w <= u32::MAX, pct < 50;
    assert(h as u64 * pct as u64 <= 49 * u32::MAX) by (nonlinear_arith)
        requires h <= u32::MAX, pct < 50;
    let max_x = (w as u64 * pct as u64 / 100) as u32;
    let max_y = (h as u64 * pct as u64 / 100) as u32;
    assert(2 * max_x < w) by (nonlinear_arith)
        requires max_x == w * pct / 100, pct < 50, w >= 20;
    assert(2 * max_y < h) by (nonlinear_arith)
        requires max_y == h * pct / 100, pct < 50, h >= 20;

    let mut left: u32 = 0;
    while left < max_x && col_is_mostly_dark(img, left)
        invariant
            img.wf(),
            g == img.pixels(),
            w == img.width,
            h == img.height,
            2 * max_x < w,
            left <= max_x,
            run_end(left_cols(g, h as int), left as int, max_x as int) == run_end(left_cols(g, h as int), 0, max_x as int),
        decreases max_x - left,
    {
        left += 1;
    }

    let mut right_trim: u32 = 0;
    while right_trim < max_x && col_is_mostly_dark(img, w - 1 - right_trim)
        invariant
            img.wf(),
            g == img.pixels(),
            w == img.width,
            h == img.height,
            2 * max_x < w,
            right_trim <= max_x,
            run_end(right_cols(g, w as int, h as int), right_trim as int, max_x as int)
                == run_end(right_cols(g, w as int, h as int), 0, max_x as int),
        decreases max_x - right_trim,
    {
        right_trim += 1;
    }

    let mut top: u32 = 0;
    while top < max_y && row_is_mostly_dark(img, top)
        invariant
            img.wf(),
            g == img.pixels(),
            w == img.width,
            h == img.height,
            2 * max_y < h,
            top <= max_y,
            run_end(top_rows(g, w as int), top as int, max_y as int) == run_end(top_rows(g, w as int), 0, max_y as int),
        decreases max_y - top,
    {
        top += 1;
    }

    let mut bottom_trim: u32 = 0;
    while bottom_trim < max_y && row_is_mostly_dark(img, h - 1 - bottom_trim)
        invariant
            img.wf(),
            g == img.pixels(),
            w == img.width,
            h == img.height,
            2 * max_y < h,
            bottom_trim <= max_y,
            run_end(bottom_rows(g, w as int, h as int), bottom_trim as int, max_y as int)
                == run_end(bottom_rows(g, w as int, h as int), 0, max_y as int),
        decreases max_y - bottom_trim,
    {
        bottom_trim += 1;
    }

    assert(edge_trims(g, w as int, h as int, pct as int) == (left as int, right_trim as int, top as int, bottom_trim as int));
    let new_w: u32 = if w - right_trim - left >= 1 { w - right_trim - left } else { 1 };
    let new_h: u32 = if h - bottom_trim - top >= 1 { h - bottom_trim - top } else { 1 };
    if new_w < w || new_h < h {
        img.crop(left, top, new_w, new_h)
    } else {
        Raster { width: w, height: h, rows: copy_rows(img) }
    }
}

/// A copy of the raster's rows.
fn copy_rows(img: &Raster) -> (r: Vec<Vec<Rgba>>)
    requires
        img.wf(),
    ensures
        r@.map_values(|row: Vec<Rgba>| row@) == img.pixels(),
{
    let c = img.crop(0, 0, img.width, img.height);
    assert(c.pixels() =~~= img.pixels()) by {
        assert forall|y: int| 0 <= y < img.height implies #[trigger] c.pixels()[y] =~= img.pixels()[y] by {
            assert(img.pixels()[y].len() == img.width);
        }
    }
    c.rows
}

/// No side loses more than the configured percentage of its dimension, and
/// the result keeps at least one pixel in each direction.
pub proof fn lemma_trim_bound(g: Seq<Seq<Rgba>>, w: int, h: int, pct: int)
    requires
        w >= 0,
        0 <= pct < TRIM_PERCENT_LIMIT,
        grid_shape(g, w, h),
    ensures
        match trim_rect(g, w, h, pct) {
            Some((x, y, nw, nh)) => {
                &&& 0 <= x <= max_trim(w, pct)
                &&& 0 <= w - x - nw <= max_trim(w, pct)
                &&& 0 <= y <= max_trim(h, pct)
                &&& 0 <= h - y - nh <= max_trim(h, pct)
                &&& nw >= 1 && nh >= 1
            },
            None => true,
        },
{
    if w >= MIN_TRIM_SIZE && h >= MIN_TRIM_SIZE {
        assert(0 <= 2 * max_trim(w, pct) < w) by (nonlinear_arith)
            requires w >= 20, 0 <= pct < 50;
        assert(0 <= 2 * max_trim(h, pct) < h) by (nonlinear_arith)
            requires h >= 20, 0 <= pct < 50;
        lemma_run_end_bounds(left_cols(g, h), 0, max_trim(w, pct));
        lemma_run_end_bounds(right_cols(g, w, h), 0, max_trim(w, pct));
        lemma_run_end_bounds(top_rows(g, w), 0, max_trim(h, pct));
        lemma_run_end_bounds(bottom_rows(g, w, h), 0, max_trim(h, pct));
    }
}

/// No pixel of the grid is dark.
pub open spec fn all_bright(g: Seq<Seq<Rgba>>, w: int, h: int) -> bool {
    forall|x: int, y: int| 0 <= x < w && 0 <= y < h ==> !dark(#[trigger] g[y][x])
}

proof fn lemma_col_count_bounds(g: Seq<Seq<Rgba>>, x: int, n: int, first_dark: int)
    requires
        0 <= first_dark,
        forall|y: int| 0 <= y < n ==> (dark(#[trigger] g[y][x]) <==> y < first_dark),
    ensures
        dark_in_col(g, x, n) == if n <= 0 { 0 } else if n < first_dark { n } else { first_dark },
    decreases n,
{
    if n > 0 {
        lemma_col_count_bounds(g, x, n - 1, first_dark);
    }
}

proof fn lemma_row_count_prefix(g: Seq<Seq<Rgba>>, y: int, n: int, m: int)
    requires
        0 <= m,
        forall|x: int| 0 <= x < n ==> (dark(#[trigger] g[y][x]) <==> x < m),
    ensures
        dark_in_row(g, y, n) == if n <= 0 { 0 } else if n < m { n } else { m },
    decreases n,
{
    if n > 0 {
        lemma_row_count_prefix(g, y, n - 1, m);
    }
}

proof fn lemma_run_end_stops(f: spec_fn(int) -> bool, i: int, k: int, m: int)
    requires
        i <= m <= k,
        forall|j: int| i <= j < m ==> #[trigger] f(j),
        m < k ==> !f(m),
    ensures
        run_end(f, i, k) == m,
    decreases k - i,
{
    if i < m {
        lemma_run_end_stops(f, i + 1, k, m);
    }
}

/// A grid whose first `m` columns are dark throughout and whose other
/// pixels are not dark loses exactly those columns, where `m` is within
/// the trim bound and there is at least one other column.
pub proof fn lemma_dark_left_margin_is_removed(g: Seq<Seq<Rgba>>, w: int, h: int, m: int, pct: int)
    requires
        grid_shape(g, w, h),
        w >= MIN_TRIM_SIZE,
        h >= MIN_TRIM_SIZE,
        0 <= pct < TRIM_PERCENT_LIMIT,
        0 < m <= max_trim(w, pct),
        forall|x: int, y: int| 0 <= x < w && 0 <= y < h ==> (dark(#[trigger] g[y][x]) <==> x < m),
    ensures
        trim_rect(g, w, h, pct) == Some((m, 0int, w - m, h)),
        trimmed(g, w, h, pct) == cropped(g, m, 0, w - m, h),
{
    assert(0 <= 2 * max_trim(w, pct) < w) by (nonlinear_arith)
        requires w >= 20, 0 <= pct < 50;
    assert(0 <= max_trim(h, pct) < h) by (nonlinear_arith)
        requires h >= 20, 0 <= pct < 50;
    assert(100 * max_trim(w, pct) < 55 * w) by (nonlinear_arith)
        requires 0 <= pct < 50, w >= 20;
    assert forall|x: int| 0 <= x < w implies (col_dark(g, h, x) <==> x < m) by {
        if x < m {
            lemma_col_count_bounds(g, x, h, h);
        } else {
            lemma_col_count_bounds(g, x, h, 0);
        }
    }
    assert forall|y: int| 0 <= y < h implies !row_dark(g, w, y) by {
        lemma_row_count_prefix(g, y, w, m);
    }
    lemma_run_end_stops(left_cols(g, h), 0, max_trim(w, pct), m);
    lemma_run_end_stops(right_cols(g, w, h), 0, max_trim(w, pct), 0);
    lemma_run_end_stops(top_rows(g, w), 0, max_trim(h, pct), 0);
    lemma_run_end_stops(bottom_rows(g, w, h), 0, max_trim(h, pct), 0);
}

/// A grid with no dark pixel is kept whole.
pub proof fn lemma_bright_is_kept(g: Seq<Seq<Rgba>>, w: int, h: int, pct: int)
    requires
        grid_shape(g, w, h),
        w >= 0,
        0 <= pct < TRIM_PERCENT_LIMIT,
        all_bright(g, w, h),
    ensures
        trim_rect(g, w, h, pct) is None,
        trimmed(g, w, h, pct) == g,
{
    if w >= MIN_TRIM_SIZE && h >= MIN_TRIM_SIZE {
        assert(0 <= max_trim(w, pct) < w) by (nonlinear_arith)
            requires w >= 20, 0 <= pct < 50;
        assert(0 <= max_trim(h, pct) < h) by (nonlinear_arith)
            requires h >= 20, 0 <= pct < 50;
        assert forall|x: int| 0 <= x < w implies !col_dark(g, h, x) by {
            lemma_col_count_bounds(g, x, h, 0);
        }
        assert forall|y: int| 0 <= y < h implies !row_dark(g, w, y) by {
            lemma_row_count_prefix(g, y, w, 0);
        }
        lemma_run_end_stops(left_cols(g, h), 0, max_trim(w, pct), 0);
        lemma_run_end_stops(right_cols(g, w, h), 0, max_trim(w, pct), 0);
        lemma_run_end_stops(top_rows(g, w), 0, max_trim(h, pct), 0);
        lemma_run_end_stops(bottom_rows(g, w, h), 0, max_trim(h, pct), 0);
    }
}

} // verus!
