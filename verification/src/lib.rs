//! Decomposes a cubemap "net" image — six square faces laid out as an
//! unfolded-cube cross surrounded by a uniform padding color — into a
//! vertical strip of six equal square faces, one above the other, in the
//! fixed layer order +X, -X, +Y, -Y, +Z, -Z, ready to be reinterpreted as
//! a six-layer array texture.
//!
//! The pipeline, leaves first:
//! - [`background`]: infers the padding color by majority vote over eight
//!   sparse samples;
//! - [`scan`]: four directional linear scans that find the first
//!   non-background pixel along a row or column;
//! - [`measure`]: orchestrates the scans against the fixed cross layout
//!   into two ordered boundary lists, validating alignment and spacing;
//! - [`assemble`]: derives the common face side length and copies the six
//!   faces into the output strip.
//!
//! Every stage is a pure function of the input [`image::Image`]; the first
//! failing stage aborts the decomposition with a typed
//! [`image::ImageError`]. The laws that hold across the stages are proved
//! in [`laws`].

pub mod assemble;
pub mod background;
pub mod block;
pub mod image;
pub mod laws;
pub mod measure;
pub mod scan;
