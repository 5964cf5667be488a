//! Escape-time rendering of the Mandelbrot set over fixed-point numbers.
//!
//! Every plane quantity is a fixed-point number with 32 fractional bits: the
//! integer `r` stands for the real number `r / 2^32`, and every quotient is
//! rounded toward zero.
//!
//! - [`escape`] iterates `z <- z^2 + c` on such numbers and finds the step
//!   at which the orbit leaves the disc of radius 2.
//! - [`palette`] turns an escape result into a colour.
//! - [`viewport`] maps a pixel grid through pan and zoom onto the plane, and
//!   moves the view by navigation commands.
//! - [`frame`] renders every pixel of the grid, in parallel, into one frame.

pub mod escape;
pub mod fixed;
pub mod frame;
pub mod palette;
mod parallel;
pub mod viewport;
