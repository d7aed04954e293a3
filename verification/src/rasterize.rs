//! The rasterizer: nearest-neighbor resize of a raster to the fitted
//! dimensions, and the per-cell sample sequence a render pass paints from.
//!
//! Nearest-neighbor here maps target pixel `x` of `tw` to source pixel
//! `x * sw / tw` (integer division), and likewise for rows: no blending,
//! every target pixel is a pixel of the source.

use vstd::prelude::*;
use crate::fit::FitDimensions;
use crate::image_data::Raster;
use crate::image_data::Rgb;

verus! {

/// The source coordinate that nearest-neighbor sampling picks for target
/// coordinate `out` when `out_len` target pixels cover `src_len` source
/// pixels.
pub open spec fn src_coord(out: int, out_len: int, src_len: int) -> int {
    out * src_len / out_len
}

/// One cell-paint command: paint the cell at column `x`, row `y` with
/// background color `color`.
#[derive(Clone, Copy, PartialEq, Eq, Structural, Debug)]
pub struct Sample {
    pub x: u32,
    pub y: u32,
    pub color: Rgb,
}

/// What the pixel at row-major index `j` of the resized raster must be:
/// the nearest source pixel.
spec fn resampled_at(src: Raster, tw: int, th: int, j: int) -> Rgb {
    src.pixel_at(
        src_coord(j % tw, tw, src.spec_width() as int),
        src_coord(j / tw, th, src.spec_height() as int),
    )
}

/// Row-major index arithmetic: the index of column `x`, row `y` decomposes
/// back into exactly those coordinates, and lies within the raster.
proof fn lemma_row_major_index(x: int, y: int, w: int, h: int)
    by (nonlinear_arith)
    requires
        w > 0,
        0 <= x < w,
        0 <= y < h,
    ensures
        (y * w + x) / w == y,
        (y * w + x) % w == x,
        0 <= y * w + x < w * h,
{
}

/// Row-major index arithmetic, the other way round: an index within the
/// raster decomposes into a column within the width and a row within the
/// height.
proof fn lemma_index_decompose(i: int, w: int, h: int)
    by (nonlinear_arith)
    requires
        w > 0,
        0 <= i < w * h,
    ensures
        0 <= i % w < w,
        0 <= i / w < h,
{
}

/// Resize `src` to `dims.width` x `dims.height` by nearest-neighbor
/// sampling: target pixel `(x, y)` is source pixel
/// `(x * sw / tw, y * sh / th)`.
pub fn resize_nearest(src: &Raster, dims: FitDimensions) -> (r: Raster)
    requires
        src.wf(),
        src.spec_width() >= 1,
        src.spec_height() >= 1,
        dims.width >= 1,
        dims.height >= 1,
    ensures
        r.wf(),
        r.spec_width() == dims.width,
        r.spec_height() == dims.height,
        forall|x: int, y: int|
            0 <= x < dims.width && 0 <= y < dims.height ==> r.pixel_at(x, y) == src.pixel_at(
                src_coord(x, dims.width as int, src.spec_width() as int),
                src_coord(y, dims.height as int, src.spec_height() as int),
            ),
{
    let sw: u32 = src.width();
    let sh: u32 = src.height();
    let tw: u32 = dims.width;
    let th: u32 = dims.height;
    let ghost twi: int = tw as int;
    let ghost thi: int = th as int;

    let mut pixels: Vec<Rgb> = Vec::new();
    let mut y: u32 = 0;
    while y < th
        invariant
            src.wf(),
            sw == src.spec_width(),
            sh == src.spec_height(),
            sw >= 1,
            sh >= 1,
            tw >= 1,
            th >= 1,
            twi == tw as int,
            thi == th as int,
            y <= th,
            pixels@.len() == y as int * twi,
            forall|j: int|
                0 <= j < pixels@.len() ==> pixels@[j] == resampled_at(*src, twi, thi, j),
        decreases th - y,
    {
        let mut x: u32 = 0;
        while x < tw
            invariant
                src.wf(),
                sw == src.spec_width(),
                sh == src.spec_height(),
                sw >= 1,
                sh >= 1,
                tw >= 1,
                th >= 1,
                twi == tw as int,
                thi == th as int,
                y < th,
                x <= tw,
                pixels@.len() == y as int * twi + x as int,
                forall|j: int|
                    0 <= j < pixels@.len() ==> pixels@[j] == resampled_at(*src, twi, thi, j),
            decreases tw - x,
        {
            proof {
                assert((x as int) * (sw as int) <= 0xffff_ffff * 0xffff_ffff
                    && (y as int) * (sh as int) <= 0xffff_ffff * 0xffff_ffff)
                    by (nonlinear_arith)
                    requires
                        0 <= (x as int) <= 0xffff_ffff,
                        0 <= (sw as int) <= 0xffff_ffff,
                        0 <= (y as int) <= 0xffff_ffff,
                        0 <= (sh as int) <= 0xffff_ffff,
                ;
            }
            let sx: u64 = (x as u64) * (sw as u64) / (tw as u64);
            let sy: u64 = (y as u64) * (sh as u64) / (th as u64);
            proof {
                assert(sx < sw && sx as int == src_coord(x as int, twi, sw as int))
                    by (nonlinear_arith)
                    requires
                        sx as int == (x as int) * (sw as int) / (tw as int),
                        0 <= (x as int) < (tw as int),
                        sw >= 1,
                        twi == tw as int,
                        src_coord(x as int, twi, sw as int) == (x as int) * (sw as int) / twi,
                ;
                assert(sy < sh && sy as int == src_coord(y as int, thi, sh as int))
                    by (nonlinear_arith)
                    requires
                        sy as int == (y as int) * (sh as int) / (th as int),
                        0 <= (y as int) < (th as int),
                        sh >= 1,
                        thi == th as int,
                        src_coord(y as int, thi, sh as int) == (y as int) * (sh as int) / thi,
                ;
            }
            let p: Rgb = src.pixel(sx as u32, sy as u32);
            pixels.push(p);
            proof {
                lemma_row_major_index(x as int, y as int, twi, thi);
                assert(resampled_at(*src, twi, thi, y as int * twi + x as int) == p);
            }
            x += 1;
        }
        proof {
            assert(y as int * twi + twi == (y as int + 1) * twi) by (nonlinear_arith);
        }
        y += 1;
    }
    proof {
        assert(th as int * twi == twi * thi) by (nonlinear_arith)
            requires
                twi == tw as int,
                thi == th as int,
        ;
    }
    let r = Raster::new(tw, th, pixels);
    proof {
        assert forall|x: int, y: int|
            0 <= x < dims.width && 0 <= y < dims.height implies r.pixel_at(x, y)
            == src.pixel_at(
            src_coord(x, dims.width as int, src.spec_width() as int),
            src_coord(y, dims.height as int, src.spec_height() as int),
        ) by {
            lemma_row_major_index(x, y, twi, thi);
            assert(r.pixel_at(x, y) == resampled_at(*src, twi, thi, y * twi + x));
        }
    }
    r
}

/// What the sample sequence of a raster must hold: one sample per pixel, in
/// row-major order, carrying that pixel's coordinates and color.
pub open spec fn samples_match(s: Seq<Sample>, r: Raster) -> bool {
    let w = r.spec_width() as int;
    let h = r.spec_height() as int;
    &&& s.len() == w * h
    &&& forall|i: int|
        0 <= i < s.len() ==> (#[trigger] s[i]).x as int == i % w && s[i].y as int == i / w
            && s[i].x < w && s[i].y < h && s[i].color == r.pixel_at(i % w, i / w)
}

/// Produce the full, finite sample sequence of a raster: exactly
/// `width * height` samples, row by row, each holding its own coordinates
/// and the pixel color there. Each call builds the sequence afresh.
pub fn samples(r: &Raster) -> (v: Vec<Sample>)
    requires
        r.wf(),
    ensures
        samples_match(v@, *r),
{
    let w: u32 = r.width();
    let h: u32 = r.height();
    let ghost wi: int = w as int;
    let ghost hi: int = h as int;
    let mut v: Vec<Sample> = Vec::new();
    let mut y: u32 = 0;
    if w == 0 {
        proof {
            assert(wi * hi == 0) by (nonlinear_arith)
                requires
                    wi == 0,
            ;
        }
        return v;
    }
    while y < h
        invariant
            r.wf(),
            w == r.spec_width(),
            h == r.spec_height(),
            w >= 1,
            wi == w as int,
            hi == h as int,
            y <= h,
            v@.len() == y as int * wi,
            forall|i: int|
                0 <= i < v@.len() ==> (#[trigger] v@[i]).x as int == i % wi && v@[i].y as int == i
                    / wi && v@[i].x < w && v@[i].y < h && v@[i].color == r.pixel_at(i % wi, i / wi),
        decreases h - y,
    {
        let mut x: u32 = 0;
        while x < w
            invariant
                r.wf(),
                w == r.spec_width(),
                h == r.spec_height(),
                w >= 1,
                wi == w as int,
                hi == h as int,
                y < h,
                x <= w,
                v@.len() == y as int * wi + x as int,
                forall|i: int|
                    0 <= i < v@.len() ==> (#[trigger] v@[i]).x as int == i % wi && v@[i].y as int
                        == i / wi && v@[i].x < w && v@[i].y < h && v@[i].color == r.pixel_at(
                        i % wi,
                        i / wi,
                    ),
            decreases w - x,
        {
            let p: Rgb = r.pixel(x, y);
            v.push(Sample { x, y, color: p });
            proof {
                lemma_row_major_index(x as int, y as int, wi, hi);
            }
            x += 1;
        }
        proof {
            assert(y as int * wi + wi == (y as int + 1) * wi) by (nonlinear_arith);
        }
        y += 1;
    }
    proof {
        assert(h as int * wi == wi * hi) by (nonlinear_arith)
            requires
                wi == w as int,
                hi == h as int,
        ;
    }
    v
}

/// What one rendered frame must hold, given the source raster and the fit:
/// exactly `width * height` samples in row-major order, each colored by the
/// nearest source pixel.
pub open spec fn frame_matches(s: Seq<Sample>, src: Raster, dims: FitDimensions) -> bool {
    let tw = dims.width as int;
    let th = dims.height as int;
    let sw = src.spec_width() as int;
    let sh = src.spec_height() as int;
    &&& s.len() == tw * th
    &&& forall|i: int|
        0 <= i < s.len() ==> (#[trigger] s[i]).x as int == i % tw && s[i].y as int == i / tw
            && s[i].x < tw && s[i].y < th && s[i].color == src.pixel_at(
            src_coord(i % tw, tw, sw),
            src_coord(i / tw, th, sh),
        )
}

/// One full render pass: resize the source to the fitted dimensions and
/// lay out its cell-paint samples.
pub fn render_frame(src: &Raster, dims: FitDimensions) -> (v: Vec<Sample>)
    requires
        src.wf(),
        src.spec_width() >= 1,
        src.spec_height() >= 1,
        dims.width >= 1,
        dims.height >= 1,
    ensures
        frame_matches(v@, *src, dims),
{
    let resized = resize_nearest(src, dims);
    let v = samples(&resized);
    proof {
        assert forall|i: int| 0 <= i < v@.len() implies (#[trigger] v@[i]).color == src.pixel_at(
            src_coord(i % dims.width as int, dims.width as int, src.spec_width() as int),
            src_coord(i / dims.width as int, dims.height as int, src.spec_height() as int),
        ) by {
            lemma_index_decompose(i, dims.width as int, dims.height as int);
        }
    }
    v
}

/// Rendering is deterministic: any two frames produced from the same source
/// raster and the same fitted dimensions are identical, sample for sample.
/// Together with the exact contract of the fit calculator this makes the
/// whole fit-and-rasterize pass a function of its inputs alone.
pub proof fn lemma_frame_deterministic(
    a: Seq<Sample>,
    b: Seq<Sample>,
    src: Raster,
    dims: FitDimensions,
)
    requires
        frame_matches(a, src, dims),
        frame_matches(b, src, dims),
    ensures
        a == b,
{
    assert forall|i: int| 0 <= i < a.len() implies a[i] == b[i] by {
        assert(a[i].x == b[i].x);
        assert(a[i].y == b[i].y);
        assert(a[i].color == b[i].color);
    }
    assert(a =~= b);
}

} // verus!
