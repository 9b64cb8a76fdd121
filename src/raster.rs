//! An owned RGBA raster held row by row.

use vstd::prelude::*;

verus! {

/// One RGBA pixel.
#[derive(Clone, Copy, Debug, PartialEq, Eq, Structural)]
pub struct Rgba {
    pub r: u8,
    pub g: u8,
    pub b: u8,
    pub a: u8,
}

/// A raster of `width` x `height` pixels, stored as `height` rows of
/// `width` pixels each, row 0 at the top.
#[derive(Clone, Debug)]
pub struct Raster {
    pub width: u32,
    pub height: u32,
    pub rows: Vec<Vec<Rgba>>,
}

/// The pixel at column `x`, row `y` of a grid of rows.
pub open spec fn px(p: Seq<Seq<Rgba>>, x: int, y: int) -> Rgba {
    p[y][x]
}

/// A grid of `h` rows of `w` pixels each.
pub open spec fn grid_shape(p: Seq<Seq<Rgba>>, w: int, h: int) -> bool {
    &&& p.len() == h
    &&& forall|y: int| 0 <= y < h ==> (#[trigger] p[y]).len() == w
}

/// The rectangle of `cw` x `ch` pixels whose top-left corner is `(x0, y0)`.
pub open spec fn cropped(p: Seq<Seq<Rgba>>, x0: int, y0: int, cw: int, ch: int) -> Seq<Seq<Rgba>> {
    Seq::new(ch as nat, |y: int| p[y0 + y].subrange(x0, x0 + cw))
}

impl Raster {
    /// The rows and their length agree with the declared dimensions.
    pub open spec fn wf(&self) -> bool {
        grid_shape(self.pixels(), self.width as int, self.height as int)
    }

    /// The pixels as a grid of rows.
    pub open spec fn pixels(&self) -> Seq<Seq<Rgba>> {
        self.rows@.map_values(|row: Vec<Rgba>| row@)
    }

    /// A raster of the given size with every pixel set to `fill`.
    pub fn filled(width: u32, height: u32, fill: Rgba) -> (r: Raster)
        ensures
            r.wf(),
            r.width == width,
            r.height == height,
            forall|x: int, y: int|
                0 <= x < width && 0 <= y < height ==> px(r.pixels(), x, y) == fill,
    {
        let mut rows: Vec<Vec<Rgba>> = Vec::new();
        let mut y: u32 = 0;
        while y < height
            invariant
                y <= height,
                rows@.len() == y,
                forall|k: int| 0 <= k < y ==> (#[trigger] rows@[k]@) == Seq::new(width as nat, |i: int| fill),
            decreases height - y,
        {
            let mut row: Vec<Rgba> = Vec::new();
            let mut x: u32 = 0;
            while x < width
                invariant
                    x <= width,
                    row@ == Seq::new(x as nat, |i: int| fill),
                decreases width - x,
            {
                row.push(fill);
                x += 1;
                assert(row@ =~= Seq::new(x as nat, |i: int| fill));
            }
            rows.push(row);
            y += 1;
        }
        Raster { width, height, rows }
    }

    /// A raster from rows of pixels, or `None` where the rows differ in
    /// length or their count or length does not fit in `u32`.
    pub fn from_rows(rows: Vec<Vec<Rgba>>) -> (r: Option<Raster>)
        ensures
            match r {
                Some(img) => img.wf() && img.pixels() == rows@.map_values(|row: Vec<Rgba>| row@)
                    && img.height == rows@.len()
                    && (rows@.len() > 0 ==> img.width == rows@[0]@.len())
                    && (rows@.len() == 0 ==> img.width == 0),
                None => rows@.len() > u32::MAX || (rows@.len() > 0 && (rows@[0]@.len() > u32::MAX
                    || exists|y: int| 0 <= y < rows@.len() && (#[trigger] rows@[y]@).len() != rows@[0]@.len())),
            },
    {
        if rows.len() > u32::MAX as usize {
            return None;
        }
        let height = rows.len() as u32;
        if height == 0 {
            let r = Raster { width: 0, height: 0, rows };
            return Some(r);
        }
        if rows[0].len() > u32::MAX as usize {
            return None;
        }
        let width = rows[0].len();
        let mut y: usize = 0;
        while y < rows.len()
            invariant
                y <= rows@.len(),
                rows@.len() == height,
                width == rows@[0]@.len(),
                forall|k: int| 0 <= k < y ==> (#[trigger] rows@[k]@).len() == width,
            decreases rows@.len() - y,
        {
            if rows[y].len() != width {
                return None;
            }
            y += 1;
        }
        let r = Raster { width: width as u32, height, rows };
        Some(r)
    }

    /// Width in pixels.
    pub fn width(&self) -> (r: u32)
        ensures
            r == self.width,
    {
        self.width
    }

    /// Height in pixels.
    pub fn height(&self) -> (r: u32)
        ensures
            r == self.height,
    {
        self.height
    }

    /// The pixel at column `x`, row `y`.
    pub fn get_pixel(&self, x: u32, y: u32) -> (r: Rgba)
        requires
            self.wf(),
            x < self.width,
            y < self.height,
        ensures
            r == px(self.pixels(), x as int, y as int),
    {
        assert(self.pixels()[y as int].len() == self.width);
        self.rows[y as usize][x as usize]
    }

    /// The rows of pixels, top row first.
    pub fn rows(&self) -> (r: &Vec<Vec<Rgba>>)
        ensures
            r@.map_values(|row: Vec<Rgba>| row@) == self.pixels(),
    {
        &self.rows
    }

    /// The `cw` x `ch` rectangle whose top-left corner is `(x0, y0)`.
    pub fn crop(&self, x0: u32, y0: u32, cw: u32, ch: u32) -> (r: Raster)
        requires
            self.wf(),
            x0 + cw <= self.width,
            y0 + ch <= self.height,
        ensures
            r.wf(),
            r.width == cw,
            r.height == ch,
            r.pixels() == cropped(self.pixels(), x0 as int, y0 as int, cw as int, ch as int),
    {
        let mut rows: Vec<Vec<Rgba>> = Vec::new();
        let mut y: u32 = 0;
        while y < ch
            invariant
                self.wf(),
                x0 + cw <= self.width,
                y0 + ch <= self.height,
                y <= ch,
                rows@.len() == y,
                forall|k: int| 0 <= k < y ==> (#[trigger] rows@[k]@)
                    == self.pixels()[y0 + k].subrange(x0 as int, x0 + cw),
            decreases ch - y,
        {
            let src = &self.rows[(y0 + y) as usize];
            let mut row: Vec<Rgba> = Vec::new();
            let mut x: u32 = 0;
            assert(self.pixels()[y0 + y].len() == self.width);
            assert(row@ =~= src@.subrange(x0 as int, x0 as int));
            while x < cw
                invariant
                    self.wf(),
                    x0 + cw <= self.width,
                    y0 + y < self.height,
                    src@ == self.pixels()[y0 + y],
                    x <= cw,
                    row@ == src@.subrange(x0 as int, x0 + x),
                decreases cw - x,
            {
                row.push(src[(x0 + x) as usize]);
                x += 1;
                assert(row@ =~= src@.subrange(x0 as int, x0 + x));
            }
            rows.push(row);
            y += 1;
        }
        let r = Raster { width: cw, height: ch, rows };
        assert(r.pixels() =~= cropped(self.pixels(), x0 as int, y0 as int, cw as int, ch as int));
        r
    }
}

} // verus!
