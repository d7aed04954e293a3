//! Terminal image viewer core: fit computation, nearest-neighbor
//! rasterization, and the input/resize control loop, all verified.
//!
//! The surrounding binary decodes the image file and talks to the
//! terminal; everything it decides with is computed here.

mod control;
mod errors;
mod fit;
mod image_data;
mod rasterize;

pub use control::CleanupGuard;
pub use control::KeyAction;
pub use control::KeyInput;
pub use control::LoopState;
pub use control::ViewportSize;
pub use control::lemma_cleanup_at_most_once;
pub use control::lemma_refresh_forces_render;
pub use control::lemma_resize_detection;
pub use control::spec_should_render;
pub use errors::RunError;
pub use fit::DEFAULT_SCALE_HUNDREDTHS;
pub use fit::DEFAULT_SCALE_HUNDREDTHS_ELONGATED;
pub use fit::FitDimensions;
pub use fit::fit_defined;
pub use fit::fit_dimensions;
pub use fit::fit_wh;
pub use fit::stretched_width;
pub use image_data::Raster;
pub use image_data::Rgb;
pub use rasterize::Sample;
pub use rasterize::frame_matches;
pub use rasterize::lemma_frame_deterministic;
pub use rasterize::render_frame;
pub use rasterize::resize_nearest;
pub use rasterize::samples;
pub use rasterize::samples_match;
pub use rasterize::src_coord;
