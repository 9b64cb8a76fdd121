use photo_separation::equalize::{apply_clahe, luminance, remap_pixel};
use photo_separation::filters::{default_filter_names, filter_plan, parse_filter_name, unsharp_combine, FilterKind};
use photo_separation::raster::{Raster, Rgba};
use photo_separation::trim::{auto_trim_dark_edges, trim_dark_edges};

fn grey(v: u8) -> Rgba {
    Rgba { r: v, g: v, b: v, a: 255 }
}

fn raster_from(w: u32, h: u32, f: impl Fn(u32, u32) -> Rgba) -> Raster {
    let rows: Vec<Vec<Rgba>> = (0..h).map(|y| (0..w).map(|x| f(x, y)).collect()).collect();
    Raster::from_rows(rows).unwrap()
}

fn lum_spread(img: &Raster) -> f64 {
    let lums: Vec<f64> = img.rows.iter().flatten().map(|p| luminance(*p) as f64).collect();
    let mean = lums.iter().sum::<f64>() / lums.len() as f64;
    (lums.iter().map(|l| (l - mean) * (l - mean)).sum::<f64>() / lums.len() as f64).sqrt()
}

fn names(v: &[&str]) -> Vec<String> {
    v.iter().map(|s| s.to_string()).collect()
}

#[test]
fn dark_left_margin_is_trimmed() {
    // 5 of 100 columns are scanner bed
    let img = raster_from(100, 80, |x, _| if x < 5 { grey(10) } else { grey(200) });
    let t = auto_trim_dark_edges(&img);
    assert_eq!((t.width, t.height), (95, 80));
    assert_eq!(t.rows[0][0], grey(200));
}

#[test]
fn trim_never_exceeds_eight_percent_per_side() {
    let img = raster_from(100, 50, |_, _| grey(0));
    let t = auto_trim_dark_edges(&img);
    // 8 columns off each side, 4 rows off top and bottom
    assert_eq!((t.width, t.height), (84, 42));
    assert!(t.width >= 1 && t.height >= 1);
}

#[test]
fn small_or_bright_rasters_are_not_trimmed() {
    let small = raster_from(19, 40, |_, _| grey(0));
    let t = auto_trim_dark_edges(&small);
    assert_eq!((t.width, t.height), (19, 40));
    let bright = raster_from(40, 40, |_, _| grey(250));
    assert_eq!(auto_trim_dark_edges(&bright).rows, bright.rows);
}

#[test]
fn trim_needs_mostly_dark_lines() {
    // the first column is dark in 54 of 100 rows: below 55 percent
    let img = raster_from(50, 100, |x, y| if x == 0 && y < 54 { grey(0) } else { grey(220) });
    assert_eq!(auto_trim_dark_edges(&img).width, 50);
    let img = raster_from(50, 100, |x, y| if x == 0 && y < 55 { grey(0) } else { grey(220) });
    assert_eq!(auto_trim_dark_edges(&img).width, 49);
}

#[test]
fn luminance_formula() {
    assert_eq!(luminance(Rgba { r: 255, g: 255, b: 255, a: 0 }), 255);
    assert_eq!(luminance(Rgba { r: 100, g: 100, b: 100, a: 0 }), 100);
    // (299 * 10 + 587 * 20 + 114 * 30) / 1000 = 18.15
    assert_eq!(luminance(Rgba { r: 10, g: 20, b: 30, a: 0 }), 18);
}

#[test]
fn remap_scales_channels_by_luminance_ratio() {
    let mut lut = vec![0u8; 256];
    lut[100] = 200;
    let p = remap_pixel(Rgba { r: 100, g: 100, b: 100, a: 7 }, &lut);
    assert_eq!(p, Rgba { r: 200, g: 200, b: 200, a: 7 });
    let black = Rgba { r: 0, g: 0, b: 0, a: 9 };
    assert_eq!(remap_pixel(black, &lut), black);
}

#[test]
fn equalizer_spreads_low_contrast_tile() {
    let img = raster_from(32, 32, |x, y| grey(100 + ((x + y) % 10) as u8));
    let before = lum_spread(&img);
    let out = apply_clahe(&img);
    assert_eq!((out.width, out.height), (32, 32));
    assert!(lum_spread(&out) > before);
}

#[test]
fn equalizer_on_uniform_tile() {
    // one level only: cdf_min equals the count, so every pixel maps to 0
    let img = raster_from(16, 16, |_, _| grey(128));
    let out = apply_clahe(&img);
    assert_eq!(out.rows[3][4], Rgba { r: 0, g: 0, b: 0, a: 255 });
}

#[test]
fn unknown_filter_is_skipped() {
    assert!(filter_plan(&names(&["nonexistent_filter"])).is_empty());
    assert_eq!(
        filter_plan(&names(&["sharpen_mild", "bogus", "clahe"])),
        vec![FilterKind::Sharpen { amount_halves: 1 }, FilterKind::Clahe]
    );
}

#[test]
fn filter_names_map_to_presets() {
    assert_eq!(parse_filter_name(&"sharpen".to_string()), Some(FilterKind::Sharpen { amount_halves: 2 }));
    assert_eq!(parse_filter_name(&"sharpen_strong".to_string()), Some(FilterKind::Sharpen { amount_halves: 4 }));
    assert_eq!(parse_filter_name(&"bilateral".to_string()), Some(FilterKind::Bilateral));
    assert_eq!(parse_filter_name(&"denoise".to_string()), Some(FilterKind::Denoise { sigma_tenths: 15 }));
    assert_eq!(parse_filter_name(&"denoise_mild".to_string()), Some(FilterKind::Denoise { sigma_tenths: 8 }));
    assert_eq!(parse_filter_name(&"denoise_strong".to_string()), Some(FilterKind::Denoise { sigma_tenths: 30 }));
    assert_eq!(parse_filter_name(&"CLAHE".to_string()), None);
    assert_eq!(default_filter_names(), names(&["clahe", "sharpen"]));
}

#[test]
fn unsharp_formula() {
    let orig = raster_from(3, 3, |_, _| Rgba { r: 100, g: 250, b: 10, a: 5 });
    let blur = raster_from(3, 3, |_, _| Rgba { r: 90, g: 200, b: 20, a: 1 });
    // amount 1: 100 + 10, 250 + 50 clamped, 10 - 10
    let s = unsharp_combine(&orig, &blur, 2);
    assert_eq!(s.rows[1][1], Rgba { r: 110, g: 255, b: 0, a: 5 });
    // amount 0.5: 100 + 5, 250 + 25 clamped, 10 - 5
    let s = unsharp_combine(&orig, &blur, 1);
    assert_eq!(s.rows[0][2], Rgba { r: 105, g: 255, b: 5, a: 5 });
    let tiny = raster_from(2, 3, |_, _| grey(50));
    let tiny_blur = raster_from(2, 3, |_, _| grey(0));
    assert_eq!(unsharp_combine(&tiny, &tiny_blur, 4).rows, tiny.rows);
}

#[test]
fn trim_bound_is_configurable() {
    let img = raster_from(100, 50, |_, _| grey(0));
    let t = trim_dark_edges(&img, 20);
    assert_eq!((t.width, t.height), (60, 30));
    let t = trim_dark_edges(&img, 0);
    assert_eq!((t.width, t.height), (100, 50));
    let t = trim_dark_edges(&img, 49);
    assert_eq!((t.width, t.height), (2, 2));
}
