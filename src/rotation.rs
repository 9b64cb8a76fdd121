//! Quarter-turn rotations and the mapping from a detected orientation to
//! the rotation that sets a photo upright.

use vstd::prelude::*;
use crate::raster::{Raster, Rgba, grid_shape};
use vstd::arithmetic::div_mod::lemma_fundamental_div_mod_converse;
use vstd::math::min;

verus! {

/// A clockwise rotation by a whole number of quarter turns.
#[derive(Clone, Copy, Debug, PartialEq, Eq, Structural)]
pub enum QuarterTurn {
    Zero,
    Quarter,
    Half,
    ThreeQuarters,
}

/// Hundredths of a degree: half the width of each orientation bucket.
pub const BUCKET_HALF_WIDTH: i64 = 4500;
/// A full turn in hundredths of a degree.
pub const FULL_TURN: i64 = 36000;

/// The number of clockwise quarter turns.
pub open spec fn turns(q: QuarterTurn) -> int {
    match q {
        QuarterTurn::Zero => 0,
        QuarterTurn::Quarter => 1,
        QuarterTurn::Half => 2,
        QuarterTurn::ThreeQuarters => 3,
    }
}

/// The grid `p` of `h` rows of `w` pixels turned clockwise by `q`.
pub open spec fn rotated_cw(p: Seq<Seq<Rgba>>, w: int, h: int, q: QuarterTurn) -> Seq<Seq<Rgba>> {
    match q {
        QuarterTurn::Zero => p,
        QuarterTurn::Quarter => Seq::new(w as nat, |y: int| Seq::new(h as nat, |x: int| p[h - 1 - x][y])),
        QuarterTurn::Half => Seq::new(h as nat, |y: int| Seq::new(w as nat, |x: int| p[h - 1 - y][w - 1 - x])),
        QuarterTurn::ThreeQuarters => Seq::new(w as nat, |y: int| Seq::new(h as nat, |x: int| p[x][w - 1 - y])),
    }
}

/// Width and height after turning a `w` x `h` raster by `q`.
pub open spec fn turned_dims(w: int, h: int, q: QuarterTurn) -> (int, int) {
    if turns(q) % 2 == 0 { (w, h) } else { (h, w) }
}

/// The turn that undoes a clockwise rotation `detected` found in a scan.
pub open spec fn correction_for(detected: QuarterTurn) -> QuarterTurn {
    match detected {
        QuarterTurn::Zero => QuarterTurn::Zero,
        QuarterTurn::Quarter => QuarterTurn::ThreeQuarters,
        QuarterTurn::Half => QuarterTurn::Half,
        QuarterTurn::ThreeQuarters => QuarterTurn::Quarter,
    }
}

/// The orientation bucket of a detected clockwise angle given in
/// hundredths of a degree: the angle is brought into `[0, 360)` degrees and
/// goes to its nearest quarter turn, a tie going to the larger angle.
pub open spec fn detected_bucket(centi: int) -> QuarterTurn {
    let m = centi % (FULL_TURN as int);
    if m < 9000 - BUCKET_HALF_WIDTH {
        QuarterTurn::Zero
    } else if m < 18000 - BUCKET_HALF_WIDTH {
        QuarterTurn::Quarter
    } else if m < 27000 - BUCKET_HALF_WIDTH {
        QuarterTurn::Half
    } else if m < FULL_TURN - BUCKET_HALF_WIDTH {
        QuarterTurn::ThreeQuarters
    } else {
        QuarterTurn::Zero
    }
}

/// The quarter turn with the given count modulo four.
pub open spec fn turn_of(n: int) -> QuarterTurn {
    let m = n % 4;
    if m == 0 {
        QuarterTurn::Zero
    } else if m == 1 {
        QuarterTurn::Quarter
    } else if m == 2 {
        QuarterTurn::Half
    } else {
        QuarterTurn::ThreeQuarters
    }
}

/// The turn asked for by a rotation request of `degrees` clockwise: the
/// angle is brought into `[0, 360)` and snapped to the nearest quarter turn,
/// a tie going to the larger angle.
pub open spec fn requested_turn(degrees: int) -> QuarterTurn {
    turn_of((degrees % 360 + 45) / 90)
}

/// Maps a detected angle, in hundredths of a degree clockwise, to its bucket.
pub fn bucket_detected_angle(centi: i64) -> (r: QuarterTurn)
    ensures
        r == detected_bucket(centi as int),
{
    let c = centi as i128;
    let full = FULL_TURN as i128;
    let m: i128 = if c >= 0 {
        c % full
    } else {
        (full - (-c) % full) % full
    };
    assert(m == c as int % (FULL_TURN as int)) by {
        if c < 0 {
            let k = (-c) as int;
            assert(((36000 - k % 36000) % 36000) == (-k) % 36000) by (nonlinear_arith)
                requires k > 0;
        }
    }
    if m < (9000 - BUCKET_HALF_WIDTH) as i128 {
        QuarterTurn::Zero
    } else if m < (18000 - BUCKET_HALF_WIDTH) as i128 {
        QuarterTurn::Quarter
    } else if m < (27000 - BUCKET_HALF_WIDTH) as i128 {
        QuarterTurn::Half
    } else if m < (FULL_TURN - BUCKET_HALF_WIDTH) as i128 {
        QuarterTurn::ThreeQuarters
    } else {
        QuarterTurn::Zero
    }
}

/// Brings an angle in degrees into `[0, 360)`.
pub fn normalize_degrees(degrees: i32) -> (r: u32)
    ensures
        r as int == degrees as int % 360,
        r < 360,
{
    let d = degrees as i64;
    let m: i64 = if d >= 0 {
        d % 360
    } else {
        (360 - (-d) % 360) % 360
    };
    assert(m == d as int % 360) by {
        if d < 0 {
            let k = (-d) as int;
            assert(((360 - k % 360) % 360) == (-k) % 360) by (nonlinear_arith)
                requires k > 0;
        }
    }
    m as u32
}

/// The turn asked for by a rotation request of `degrees` clockwise.
pub fn turn_for_request(degrees: i32) -> (r: QuarterTurn)
    ensures
        r == requested_turn(degrees as int),
{
    let n = normalize_degrees(degrees);
    let k = (n + 45) / 90;
    if k % 4 == 0 {
        QuarterTurn::Zero
    } else if k % 4 == 1 {
        QuarterTurn::Quarter
    } else if k % 4 == 2 {
        QuarterTurn::Half
    } else {
        QuarterTurn::ThreeQuarters
    }
}

/// The angle of a quarter turn in degrees clockwise.
pub fn turn_degrees(q: QuarterTurn) -> (r: u32)
    ensures
        r == 90 * turns(q),
{
    match q {
        QuarterTurn::Zero => 0,
        QuarterTurn::Quarter => 90,
        QuarterTurn::Half => 180,
        QuarterTurn::ThreeQuarters => 270,
    }
}

/// The turn that undoes a detected clockwise rotation.
pub fn correction_turn(detected: QuarterTurn) -> (r: QuarterTurn)
    ensures
        r == correction_for(detected),
{
    match detected {
        QuarterTurn::Zero => QuarterTurn::Zero,
        QuarterTurn::Quarter => QuarterTurn::ThreeQuarters,
        QuarterTurn::Half => QuarterTurn::Half,
        QuarterTurn::ThreeQuarters => QuarterTurn::Quarter,
    }
}

/// The raster turned clockwise by `q`.
pub fn rotate(img: &Raster, q: QuarterTurn) -> (r: Raster)
    requires
        img.wf(),
    ensures
        r.wf(),
        (r.width as int, r.height as int) == turned_dims(img.width as int, img.height as int, q),
        r.pixels() == rotated_cw(img.pixels(), img.width as int, img.height as int, q),
{
    let w = img.width;
    let h = img.height;
    let ghost p = img.pixels();
    let (ow, oh) = match q {
        QuarterTurn::Zero => (w, h),
        QuarterTurn::Half => (w, h),
        _ => (h, w),
    };
    let ghost target = rotated_cw(p, w as int, h as int, q);
    let mut rows: Vec<Vec<Rgba>> = Vec::new();
    let mut y: u32 = 0;
    while y < oh
        invariant
            img.wf(),
            p == img.pixels(),
            w == img.width,
            h == img.height,
            (ow as int, oh as int) == turned_dims(w as int, h as int, q),
            target == rotated_cw(p, w as int, h as int, q),
            y <= oh,
            rows@.len() == y,
            forall|k: int| 0 <= k < y ==> (#[trigger] rows@[k]@) == target[k],
        decreases oh - y,
    {
        let mut row: Vec<Rgba> = Vec::new();
        let mut x: u32 = 0;
        while x < ow
            invariant
                img.wf(),
                p == img.pixels(),
                w == img.width,
                h == img.height,
                (ow as int, oh as int) == turned_dims(w as int, h as int, q),
                target == rotated_cw(p, w as int, h as int, q),
                y < oh,
                x <= ow,
                row@.len() == x,
                forall|k: int| 0 <= k < x ==> (#[trigger] row@[k]) == target[y as int][k],
            decreases ow - x,
        {
            let (sx, sy) = match q {
                QuarterTurn::Zero => (x, y),
                QuarterTurn::Quarter => (y, h - 1 - x),
                QuarterTurn::Half => (w - 1 - x, h - 1 - y),
                QuarterTurn::ThreeQuarters => (w - 1 - y, x),
            };
            row.push(img.get_pixel(sx, sy));
            x += 1;
        }
        assert(row@ =~= target[y as int]);
        rows.push(row);
        y += 1;
    }
    let r = Raster { width: ow, height: oh, rows };
    assert(r.pixels() =~= target);
    r
}

/// Sets upright a raster in which a clockwise rotation `detected` was found.
pub fn correct_rotation(img: &Raster, detected: QuarterTurn) -> (r: Raster)
    requires
        img.wf(),
    ensures
        r.wf(),
        (r.width as int, r.height as int)
            == turned_dims(img.width as int, img.height as int, correction_for(detected)),
        r.pixels() == rotated_cw(img.pixels(), img.width as int, img.height as int, correction_for(detected)),
{
    let turn = correction_turn(detected);
    rotate(img, turn)
}

/// Carries out a rotation request of `degrees` clockwise.
pub fn rotate_by_degrees(img: &Raster, degrees: i32) -> (r: Raster)
    requires
        img.wf(),
    ensures
        r.wf(),
        (r.width as int, r.height as int)
            == turned_dims(img.width as int, img.height as int, requested_turn(degrees as int)),
        r.pixels() == rotated_cw(img.pixels(), img.width as int, img.height as int, requested_turn(degrees as int)),
{
    let turn = turn_for_request(degrees);
    rotate(img, turn)
}

/// The grid `p` of `h` rows of `w` pixels mirrored left to right.
pub open spec fn mirrored(p: Seq<Seq<Rgba>>, w: int, h: int) -> Seq<Seq<Rgba>> {
    Seq::new(h as nat, |y: int| Seq::new(w as nat, |x: int| p[y][w - 1 - x]))
}

/// The raster mirrored left to right.
pub fn mirror(img: &Raster) -> (r: Raster)
    requires
        img.wf(),
    ensures
        r.wf(),
        r.width == img.width,
        r.height == img.height,
        r.pixels() == mirrored(img.pixels(), img.width as int, img.height as int),
{
    let w = img.width;
    let h = img.height;
    let ghost target = mirrored(img.pixels(), w as int, h as int);
    let mut rows: Vec<Vec<Rgba>> = Vec::new();
    let mut y: u32 = 0;
    while y < h
        invariant
            img.wf(),
            w == img.width,
            h == img.height,
            target == mirrored(img.pixels(), w as int, h as int),
            y <= h,
            rows@.len() == y,
            forall|k: int| 0 <= k < y ==> (#[trigger] rows@[k]@) == target[k],
        decreases h - y,
    {
        let mut row: Vec<Rgba> = Vec::new();
        let mut x: u32 = 0;
        while x < w
            invariant
                img.wf(),
                w == img.width,
                h == img.height,
                target == mirrored(img.pixels(), w as int, h as int),
                y < h,
                x <= w,
                row@.len() == x,
                forall|k: int| 0 <= k < x ==> (#[trigger] row@[k]) == target[y as int][k],
            decreases w - x,
        {
            row.push(img.get_pixel(w - 1 - x, y));
            x += 1;
        }
        assert(row@ =~= target[y as int]);
        rows.push(row);
        y += 1;
    }
    let r = Raster { width: w, height: h, rows };
    assert(r.pixels() =~= target);
    r
}

/// Correcting a detected rotation undoes it: turning an upright grid by `q`
/// and then applying the correction for `q` gives the grid back.
pub proof fn lemma_correction_undoes_rotation(p: Seq<Seq<Rgba>>, w: int, h: int, q: QuarterTurn)
    requires
        w >= 0,
        grid_shape(p, w, h),
    ensures
        ({
            let (w1, h1) = turned_dims(w, h, q);
            &&& grid_shape(rotated_cw(p, w, h, q), w1, h1)
            &&& rotated_cw(rotated_cw(p, w, h, q), w1, h1, correction_for(q)) == p
        }),
{
    let (w1, h1) = turned_dims(w, h, q);
    let once = rotated_cw(p, w, h, q);
    let back = rotated_cw(once, w1, h1, correction_for(q));
    assert forall|y: int| 0 <= y < h1 implies (#[trigger] once[y]).len() == w1 by {}
    assert(grid_shape(once, w1, h1));
    assert(back.len() == p.len());
    assert forall|y: int| 0 <= y < p.len() implies #[trigger] back[y] =~= p[y] by {
        assert(p[y].len() == w);
    }
    assert(back =~= p);
}

/// The bucket of a detected angle is a nearest quarter turn: it lies at
/// most 45 degrees away around the circle.
pub proof fn lemma_bucket_is_nearest(centi: int)
    ensures
        ({
            let m = centi % (FULL_TURN as int);
            let d = m - turns(detected_bucket(centi)) * 9000;
            let dist = if d >= 0 { d } else { -d };
            min(dist, FULL_TURN - dist) <= BUCKET_HALF_WIDTH
        }),
{
}

/// An angle within 45 degrees of upright leaves a raster as it is.
pub proof fn lemma_upright_angle_is_identity(centi: int, p: Seq<Seq<Rgba>>, w: int, h: int)
    requires
        -BUCKET_HALF_WIDTH < centi < BUCKET_HALF_WIDTH,
    ensures
        detected_bucket(centi) == QuarterTurn::Zero,
        rotated_cw(p, w, h, correction_for(detected_bucket(centi))) == p,
        turned_dims(w, h, correction_for(detected_bucket(centi))) == (w, h),
{
    if centi < 0 {
        lemma_fundamental_div_mod_converse(centi, FULL_TURN as int, -1, centi + FULL_TURN);
    } else {
        lemma_fundamental_div_mod_converse(centi, FULL_TURN as int, 0, centi);
    }
}

} // verus!
