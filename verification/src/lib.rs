//! Pixel-exact image operations for paginated picture content: undoing a
//! strip shuffle, cropping, and stacking pictures into one canvas, together
//! with the descriptor-script reader that supplies their parameters.

pub mod api;
pub mod codec;
pub mod compose;
pub mod crop;
pub mod error;
pub mod js_engine;
pub mod pattern;
pub mod raster;
pub mod rearrange;
pub mod text;
pub mod transport;
