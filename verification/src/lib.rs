//! Procedural decorative borders: a rectangle whose edges are deterministic,
//! noisy outlines, computed in decimal fixed point and serialized as
//! percentage polygons. Beside the border engine stand a few small rules of
//! the pages that use it: input interfaces, assets and layout classes.

pub mod assets;
pub mod compose;
pub mod css;
pub mod edge;
pub mod fixed;
pub mod inputs;
pub mod layout;
pub mod noise;
pub mod params;
pub mod parse;
pub mod path;
pub mod sampler;
pub mod stitch;
