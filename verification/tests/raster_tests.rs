use imagy::{
    fit_dimensions, render_frame, resize_nearest, samples, FitDimensions, Raster, Rgb, Sample,
};

const RED: Rgb = Rgb { r: 255, g: 0, b: 0 };
const BLUE: Rgb = Rgb { r: 0, g: 0, b: 255 };

/// A 4x2 raster with alternating red/blue columns.
fn red_blue_4x2() -> Raster {
    let mut pixels = Vec::new();
    for _row in 0..2 {
        for col in 0..4 {
            pixels.push(if col % 2 == 0 { RED } else { BLUE });
        }
    }
    Raster::new(4, 2, pixels)
}

#[test]
fn raster_accessors() {
    let r = red_blue_4x2();
    assert_eq!(r.width(), 4);
    assert_eq!(r.height(), 2);
    assert_eq!(r.pixel(0, 0), RED);
    assert_eq!(r.pixel(1, 0), BLUE);
    assert_eq!(r.pixel(2, 1), RED);
    assert_eq!(r.pixel(3, 1), BLUE);
}

#[test]
fn samples_cover_every_pixel_in_row_major_order() {
    let r = red_blue_4x2();
    let v = samples(&r);
    assert_eq!(v.len(), 8);
    for (i, s) in v.iter().enumerate() {
        assert_eq!(s.x, (i % 4) as u32);
        assert_eq!(s.y, (i / 4) as u32);
        assert!(s.x < 4 && s.y < 2);
        assert_eq!(s.color, r.pixel(s.x, s.y));
    }
}

#[test]
fn resize_to_same_size_is_identity() {
    let r = red_blue_4x2();
    let out = resize_nearest(&r, FitDimensions { width: 4, height: 2 });
    for y in 0..2 {
        for x in 0..4 {
            assert_eq!(out.pixel(x, y), r.pixel(x, y));
        }
    }
}

#[test]
fn resize_downscale_picks_nearest_pixels() {
    // 4x2 down to 2x1: target x of 2 maps to source x * 4 / 2, so the
    // samples are the source pixels (0, 0) and (2, 0): both red.
    let r = red_blue_4x2();
    let out = resize_nearest(&r, FitDimensions { width: 2, height: 1 });
    assert_eq!(out.pixel(0, 0), RED);
    assert_eq!(out.pixel(1, 0), RED);
}

#[test]
fn scenario_red_blue_columns_in_ten_by_ten_viewport() {
    // Source 4x2 of alternating red/blue columns, viewport 10x10, width
    // scale 2.0: the fit is 8x2, the frame holds exactly 16 samples, and
    // each doubled column keeps the red/blue alternation.
    let r = red_blue_4x2();
    let fit = fit_dimensions(r.width(), r.height(), 200, 10, 10).unwrap();
    assert_eq!(fit, FitDimensions { width: 8, height: 2 });
    let frame = render_frame(&r, fit);
    assert_eq!(frame.len(), 16);
    for s in &frame {
        // Source column of target column x is x * 4 / 8 = x / 2.
        let expected = if (s.x / 2) % 2 == 0 { RED } else { BLUE };
        assert_eq!(s.color, expected);
        assert!(s.x < 8 && s.y < 2);
        assert!(s.color.r <= 255 && s.color.g <= 255 && s.color.b <= 255);
    }
    // Row 0 spelled out: columns RRBBRRBB.
    let row0: Vec<Rgb> = frame.iter().take(8).map(|s| s.color).collect();
    assert_eq!(row0, vec![RED, RED, BLUE, BLUE, RED, RED, BLUE, BLUE]);
}

#[test]
fn rendering_twice_gives_identical_frames() {
    // Re-running the fit calculator and rasterizer on unchanged inputs
    // yields identical sample sequences.
    let r = red_blue_4x2();
    let f1 = fit_dimensions(r.width(), r.height(), 200, 10, 10).unwrap();
    let f2 = fit_dimensions(r.width(), r.height(), 200, 10, 10).unwrap();
    assert_eq!(f1, f2);
    let a: Vec<Sample> = render_frame(&r, f1);
    let b: Vec<Sample> = render_frame(&r, f2);
    assert_eq!(a, b);
}
