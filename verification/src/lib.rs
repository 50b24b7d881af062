//! The decisions of a small path tracer, verified.
//!
//! A path tracer is floating-point arithmetic for the most part, and that part is not here.
//! What is here is what the arithmetic is steered by: the schedule of rays and bounces
//! ([`render`]), the choice among the places where a ray meets a shape ([`hit`]), and the
//! helpers on integers and grids ([`math`]); and what surrounds a render: the text of the
//! image file ([`image`]) and of the progress bar ([`progressbar`]), both built from the
//! pieces in [`text`].

pub mod hit;
pub mod image;
pub mod math;
pub mod progressbar;
pub mod render;
pub mod text;
