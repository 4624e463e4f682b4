//! The state and arithmetic behind an interactive Mandelbrot viewer: a view over the
//! complex plane that pointer and wheel input pan and zoom, the escape-time iteration
//! the fractal is drawn with, and the colormap pass that colours an intensity image.
//! All quantities are integers or fixed-point numbers. Where a result is not a whole
//! fixed-point number (a pan, a zoom, an aspect, a pointer or plane position, a step of
//! the iteration) it is rounded toward zero, and each contract says so exactly.
pub mod fixed;
pub mod view;
pub mod escape;
pub mod colormap;
