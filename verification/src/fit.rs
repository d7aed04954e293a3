//! The fit calculator: from source dimensions, a width-scale factor and the
//! viewport, compute the target pixel dimensions for rasterization.
//!
//! Policy (stretch-then-shrink): the source width is first multiplied by the
//! scale factor, which compensates for terminal cells being taller than they
//! are wide, while the height is kept; the stretched image is then shrunk,
//! preserving its aspect ratio, until it fits inside the viewport. It is
//! never enlarged beyond the stretched size, and each target dimension is at
//! least 1. The scale factor is carried in hundredths, so 200 stands for a
//! factor of two; division is integer division throughout.
//!
//! A zero source dimension, a zero scale factor or a zero viewport dimension
//! yields no fit at all: nothing is rendered on such a pass, and in
//! particular no division by zero can occur.

use vstd::prelude::*;
use vstd::math::max;

verus! {

/// Default width-scale factor (hundredths): terminal cells are roughly
/// twice as tall as wide on most platforms.
pub const DEFAULT_SCALE_HUNDREDTHS: u32 = 200;

/// Default width-scale factor (hundredths) for platforms whose cells are
/// more elongated.
pub const DEFAULT_SCALE_HUNDREDTHS_ELONGATED: u32 = 250;

/// Target pixel dimensions for one render pass.
#[derive(Clone, Copy, PartialEq, Eq, Structural, Debug)]
pub struct FitDimensions {
    pub width: u32,
    pub height: u32,
}

/// The source width after the width-scale stretch, never below 1.
pub open spec fn stretched_width(sw: int, scale: int) -> int {
    max(1, sw * scale / 100)
}

/// The fitted (width, height), defined for positive inputs: shrink the
/// stretched image, preserving aspect ratio, until it lies within
/// `cols` x `rows`; keep it as it is when it already does.
pub open spec fn fit_wh(sw: int, sh: int, scale: int, cols: int, rows: int) -> (int, int) {
    let stw = stretched_width(sw, scale);
    if stw <= cols && sh <= rows {
        (stw, sh)
    } else if stw > cols {
        let h1 = max(1, sh * cols / stw);
        if h1 <= rows {
            (cols, h1)
        } else {
            (max(1, stw * rows / sh), rows)
        }
    } else {
        (max(1, stw * rows / sh), rows)
    }
}

/// Whether the fit calculator produces a fit at all.
pub open spec fn fit_defined(sw: int, sh: int, scale: int, cols: int, rows: int) -> bool {
    sw > 0 && sh > 0 && scale > 0 && cols > 0 && rows > 0
}

/// Compute the target dimensions for rasterization, or `None` when a source
/// dimension, the scale factor or a viewport dimension is zero.
///
/// For positive inputs the result is exactly `fit_wh`, and each target
/// dimension is at least 1 and within the viewport.
pub fn fit_dimensions(sw: u32, sh: u32, scale: u32, cols: u16, rows: u16) -> (r: Option<
    FitDimensions,
>)
    ensures
        r is Some <==> fit_defined(sw as int, sh as int, scale as int, cols as int, rows as int),
        r matches Some(f) ==> {
            let (w, h) = fit_wh(sw as int, sh as int, scale as int, cols as int, rows as int);
            f.width == w && f.height == h
        },
        r matches Some(f) ==> 1 <= f.width <= cols && 1 <= f.height <= rows,
        r matches Some(f) ==> f.width <= stretched_width(sw as int, scale as int) && f.height
            <= sh,
{
    if sw == 0 || sh == 0 || scale == 0 || cols == 0 || rows == 0 {
        return None;
    }
    let ghost swi: int = sw as int;
    let ghost shi: int = sh as int;
    let ghost scalei: int = scale as int;
    let ghost colsi: int = cols as int;
    let ghost rowsi: int = rows as int;

    proof {
        assert((sw as int) * (scale as int) <= 0xffff_ffff * 0xffff_ffff) by (nonlinear_arith)
            requires
                sw as int <= 0xffff_ffff,
                scale as int <= 0xffff_ffff,
        ;
    }
    let stw_raw: u64 = (sw as u64) * (scale as u64) / 100;
    let stw: u64 = if stw_raw == 0 {
        1
    } else {
        stw_raw
    };
    proof {
        assert(stw == stretched_width(swi, scalei));
    }

    if stw <= cols as u64 && sh as u64 <= rows as u64 {
        proof {
            assert(fit_wh(swi, shi, scalei, colsi, rowsi) == (stw as int, shi));
        }
        Some(FitDimensions { width: stw as u32, height: sh })
    } else if stw > cols as u64 {
        proof {
            assert((sh as int) * (cols as int) <= 0xffff_ffff * 0xffff) by (nonlinear_arith)
                requires
                    sh as int <= 0xffff_ffff,
                    cols as int <= 0xffff,
            ;
        }
        let h1_raw: u64 = (sh as u64) * (cols as u64) / stw;
        let h1: u64 = if h1_raw == 0 {
            1
        } else {
            h1_raw
        };
        proof {
            assert(h1_raw as int == shi * colsi / (stw as int));
            assert(h1_raw as int <= shi) by (nonlinear_arith)
                requires
                    h1_raw as int == shi * colsi / (stw as int),
                    0 <= colsi <= stw as int,
                    0 <= shi,
                    stw >= 1,
            ;
        }
        if h1 <= rows as u64 {
            proof {
                assert(fit_wh(swi, shi, scalei, colsi, rowsi) == (colsi, h1 as int));
            }
            Some(FitDimensions { width: cols as u32, height: h1 as u32 })
        } else {
            proof {
                assert((stw as int) * (rows as int) <= 0xffff_ffff_ffff_ffff * 0xffff)
                    by (nonlinear_arith)
                    requires
                        stw as int <= 0xffff_ffff_ffff_ffff,
                        rows as int <= 0xffff,
                ;
            }
            let w2_raw: u128 = (stw as u128) * (rows as u128) / (sh as u128);
            let w2: u128 = if w2_raw == 0 {
                1
            } else {
                w2_raw
            };
            proof {
                lemma_height_driven_width_bounded(
                    stw as int,
                    shi,
                    colsi,
                    rowsi,
                    h1_raw as int,
                    w2_raw as int,
                );
                assert(fit_wh(swi, shi, scalei, colsi, rowsi) == (w2 as int, rowsi));
            }
            Some(FitDimensions { width: w2 as u32, height: rows as u32 })
        }
    } else {
        // stw <= cols, so the height alone exceeds the viewport.
        proof {
            assert((stw as int) * (rows as int) <= 0xffff_ffff_ffff_ffff * 0xffff)
                by (nonlinear_arith)
                requires
                    stw as int <= 0xffff_ffff_ffff_ffff,
                    rows as int <= 0xffff,
            ;
        }
        let w2_raw: u128 = (stw as u128) * (rows as u128) / (sh as u128);
        let w2: u128 = if w2_raw == 0 {
            1
        } else {
            w2_raw
        };
        proof {
            assert(w2_raw as int == (stw as int) * rowsi / shi);
            assert(w2_raw <= stw) by (nonlinear_arith)
                requires
                    w2_raw as int == (stw as int) * rowsi / shi,
                    0 < rowsi < shi,
                    stw > 0,
            ;
            assert(fit_wh(swi, shi, scalei, colsi, rowsi) == (w2 as int, rowsi));
        }
        Some(FitDimensions { width: w2 as u32, height: rows as u32 })
    }
}

/// In the height-driven shrink after the width-driven one overflowed the
/// viewport rows, the resulting width stays within the columns.
proof fn lemma_height_driven_width_bounded(
    stw: int,
    sh: int,
    cols: int,
    rows: int,
    h1_raw: int,
    w2_raw: int,
)
    by (nonlinear_arith)
    requires
        stw > 0,
        sh > 0,
        cols > 0,
        rows > 0,
        h1_raw == sh * cols / stw,
        h1_raw > rows,
        w2_raw == stw * rows / sh,
    ensures
        w2_raw < cols,
{
}

} // verus!
