//! Sprite animation core: atlas lookup, frame scheduling, a recursive
//! triangle renderer and the take-once completion slot that turns a pair of
//! success/error callbacks into a single load outcome.

pub mod animation;
pub mod atlas;
pub mod completion;
pub mod fractal;
pub mod geometry;
