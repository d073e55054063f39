//! Decorative Bezier line art: the exact, integer side of the pipeline.
//!
//! The crate holds the combinatorics behind the Bernstein basis, the random
//! layout of control points, the validity rule for the quadrilateral that
//! stands for a thick line segment, and the renderer that paints a polyline
//! stroke by stroke, falling back to discs where a segment is too short.

pub mod binomial;
pub mod canvas;
pub mod curve;
pub mod scatter;
pub mod segment;
pub mod stroke;
